//! The render half of the kit: a sidecar paints its own grid and the application composites the
//! surface.
//!
//! These modules own the grid snapshot, damage, glyph placement and the decisions of the render
//! sessions.

use vstd::prelude::*;

pub mod atlas;
pub mod conduct;
pub mod instances;
pub mod owing;
pub mod painter;
pub mod render_loop;
pub mod session;
pub mod shown;
pub mod theme;

verus! {
}
