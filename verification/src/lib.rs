//! Gameplay core for a grid-based inventory and crafting game: a spatial
//! occupancy grid, item placement, a drag-and-drop state machine with
//! validity feedback, and a recipe-based combination resolver.
//!
//! The engine that renders sprites, samples the pointer and plays audio sits
//! outside this crate; it drives the scene through the public functions here
//! and consumes the notification queue each frame.

pub mod combining;
pub mod dragging;
pub mod grid;
pub mod items;
pub mod positioning;
pub mod scene;

use vstd::prelude::*;

verus! {

/// Every way a requested mutation can be declined. All variants are
/// recoverable: the operation that reports one leaves all state unchanged.
#[derive(Clone, Copy, Debug, PartialEq, Eq, Structural)]
pub enum GameError {
    /// A coordinate or region lies outside the grid extent.
    OutOfBounds,
    /// A placement or drag commit was attempted onto non-free cells.
    RegionOccupied,
    /// A combine attempt matched no recipe.
    NoMatchingRecipe,
    /// A drag gesture event arrived while no drag is active.
    NoActiveDrag,
    /// A drag begin arrived while a drag is already active.
    DragAlreadyActive,
}

} // verus!
