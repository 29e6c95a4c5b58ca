//! Damage tracking, pointer routing and draw-batching decisions for a small
//! Wayland compositor and its widget toolkit, with their contracts proved.
//!
//! - [`geometry`]: whole-pixel rectangles and their union.
//! - [`damage`]: what a change dirtied, and how damages combine.
//! - [`widget`]: the per-widget pending-damage bookkeeping.
//! - [`debug_damage`]: the frame-tinting overlay that makes redraws visible.
//! - [`pointer`]: raw pointer events to semantic ones.
//! - [`wl_pointer`]: pointer focus and routing to clients' pointers.
//! - [`commands`]: texture batching and glyph lookup for drawing.
//! - [`shell`]: window configure sizing.

use vstd::prelude::*;

pub mod commands;
pub mod damage;
pub mod debug_damage;
pub mod geometry;
pub mod pointer;
pub mod shell;
pub mod widget;
pub mod wl_pointer;

verus! {
}
