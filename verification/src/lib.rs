//! Hexagonal-grid cell picking.
//!
//! The crate models a hex grid in axial coordinates, an exact fixed-point
//! layout that maps cells to world-plane positions and back (with the
//! worst-axis rounding rule at cell boundaries), a static index from
//! coordinates to cell handles, and the single-slot selection state machine
//! that highlights the cell under the cursor.

pub mod coord;
pub mod errors;
pub mod grid;
pub mod layout;
pub mod picking;
pub mod selection;
