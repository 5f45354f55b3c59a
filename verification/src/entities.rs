//! The glyph an agent is drawn with: a triangle that points where it
//! swims, or a dot where it hardly moves.

use crate::angle::MICRO;
use crate::components::{Position, Speed};
use vstd::prelude::*;

verus! {

/// Above this speed an agent is drawn as a triangle.
pub const MOVING: i64 = 100_000;

/// From the centre of the triangle to its nose, in whole length units.
pub const NOSE: i64 = 6;

/// Half the width of the triangle's base, in whole length units.
pub const HALF_BASE: i64 = 3;

/// The largest coordinate, either way, that a glyph can be drawn around.
pub const DRAWABLE: i64 = 0x2000_0000_0000_0000;

/// What to draw for one agent.
#[derive(Debug, Copy, Clone, PartialEq, Eq, Structural)]
pub enum Glyph {
    /// A triangle with these corners.
    Triangle { nose: Position, right: Position, left: Position },
    /// A small filled dot.
    Dot { center: Position },
}

/// The glyph of an agent at `at`, on screen, that swims along the unit
/// vector `dir` at `speed`.
///
/// The nose lies `NOSE` units ahead, the base half as far behind, and its
/// corners `HALF_BASE` units to either side.
pub open spec fn glyph_spec(at: Position, dir: Position, speed: Speed) -> Glyph {
    if speed.0 > MOVING {
        Glyph::Triangle {
            nose: Position { x: (at.x + dir.x * NOSE) as i64, y: (at.y + dir.y * NOSE) as i64 },
            right: Position {
                x: (at.x - dir.x * HALF_BASE + dir.y * HALF_BASE) as i64,
                y: (at.y - dir.y * HALF_BASE - dir.x * HALF_BASE) as i64,
            },
            left: Position {
                x: (at.x - dir.x * HALF_BASE - dir.y * HALF_BASE) as i64,
                y: (at.y - dir.y * HALF_BASE + dir.x * HALF_BASE) as i64,
            },
        }
    } else {
        Glyph::Dot { center: at }
    }
}

/// Whether the agent `i` can be drawn: it lies within the drawable range
/// of the origin, and its direction is no longer than a unit in `x` and `y`.
pub open spec fn drawable(origin: Position, at: Position, dir: Position) -> bool {
    &&& -DRAWABLE <= origin.x <= DRAWABLE
    &&& -DRAWABLE <= origin.y <= DRAWABLE
    &&& -DRAWABLE <= at.x <= DRAWABLE
    &&& -DRAWABLE <= at.y <= DRAWABLE
    &&& -MICRO <= dir.x <= MICRO
    &&& -MICRO <= dir.y <= MICRO
}

/// The place on screen of the point `at`.
pub open spec fn on_screen(origin: Position, at: Position) -> Position {
    Position { x: (origin.x + at.x) as i64, y: (origin.y + at.y) as i64 }
}

pub struct Entities;

impl Entities {
    /// The glyph of one agent.
    pub fn render_entity(origin: Position, at: Position, dir: Position, speed: Speed) -> (glyph: Glyph)
        requires
            drawable(origin, at, dir),
        ensures
            glyph == glyph_spec(on_screen(origin, at), dir, speed),
    {
        let x: i128 = origin.x as i128 + at.x as i128;
        let y: i128 = origin.y as i128 + at.y as i128;
        if speed.0 > MOVING {
            let dx: i128 = dir.x as i128;
            let dy: i128 = dir.y as i128;
            let ahead: i128 = NOSE as i128;
            let aside: i128 = HALF_BASE as i128;
            Glyph::Triangle {
                nose: Position { x: (x + dx * ahead) as i64, y: (y + dy * ahead) as i64 },
                right: Position {
                    x: (x - dx * aside + dy * aside) as i64,
                    y: (y - dy * aside - dx * aside) as i64,
                },
                left: Position {
                    x: (x - dx * aside - dy * aside) as i64,
                    y: (y - dy * aside + dx * aside) as i64,
                },
            }
        } else {
            Glyph::Dot { center: Position { x: x as i64, y: y as i64 } }
        }
    }

    /// The glyphs of all agents, in their order. The three lists run in
    /// parallel; `directions` holds each agent's velocity as a unit vector.
    pub fn render_all(
        origin: Position,
        positions: &Vec<Position>,
        directions: &Vec<Position>,
        speeds: &Vec<Speed>,
    ) -> (glyphs: Vec<Glyph>)
        requires
            directions.len() == positions.len(),
            speeds.len() == positions.len(),
            forall|i: int| 0 <= i < positions.len() ==> drawable(origin, #[trigger] positions[i], directions[i]),
        ensures
            glyphs.len() == positions.len(),
            forall|i: int|
                0 <= i < positions.len() ==> #[trigger] glyphs[i] == glyph_spec(
                    on_screen(origin, positions[i]),
                    directions[i],
                    speeds[i],
                ),
    {
        let mut glyphs: Vec<Glyph> = Vec::new();
        let mut i: usize = 0;
        while i < positions.len()
            invariant
                i <= positions.len(),
                directions.len() == positions.len(),
                speeds.len() == positions.len(),
                glyphs.len() == i,
                forall|j: int| 0 <= j < positions.len() ==> drawable(origin, #[trigger] positions[j], directions[j]),
                forall|j: int|
                    0 <= j < i ==> #[trigger] glyphs[j] == glyph_spec(
                        on_screen(origin, positions[j]),
                        directions[j],
                        speeds[j],
                    ),
            decreases positions.len() - i,
        {
            glyphs.push(Self::render_entity(origin, positions[i], directions[i], speeds[i]));
            i += 1;
        }
        glyphs
    }
}

} // verus!
