use vstd::prelude::*;

verus! {

/// Number of grid rows in each team's starting block.
pub const ROW_SIZE: i64 = 20;

/// Number of grid columns in each team's starting block.
pub const COLUMN_SIZE: i64 = 10;

/// Radius of a moving token's circle.
pub const CIRCLE_SIZE: i64 = 25;

/// Side length of a grid cell's square.
pub const SQUARE_SIZE: i64 = 50;

/// Width of the playing field: both team blocks side by side.
pub const FIELD_WIDTH: i64 = SQUARE_SIZE * 2 * COLUMN_SIZE;

/// Height of the playing field: one block of rows.
pub const FIELD_HEIGHT: i64 = SQUARE_SIZE * ROW_SIZE;

/// Base movement speed of a token, in field units per tick.
pub const MOVEMENT_SPEED: i64 = 15;

/// Per-axis speed of a token: one and a half times the base speed,
/// rounded down to whole field units.
pub const TOKEN_SPEED: i64 = 22;

/// Largest magnitude a well-formed coordinate (position or field bound)
/// may have.  Keeps every product and sum of the physics inside the range
/// of the machine integers used.
pub const POS_LIMIT: i64 = 1_000_000_000;

/// Largest magnitude a direction component may have.  Reflection keeps
/// direction components inside this band.
pub const DIR_LIMIT: i64 = 1_000_000;

/// Largest well-formed render/speed scale factor.
pub const SCALE_LIMIT: i64 = 1_000;

} // verus!
