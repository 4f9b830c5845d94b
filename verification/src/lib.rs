//! The rules of a terminal-state sidecar.
//!
//! A sidecar observes the output of a terminal, keeps a mirror of its screen, hands that screen
//! over to an application without losing or repeating a byte, archives it encrypted, and paints it
//! into surfaces. The modules here hold what such a sidecar decides and computes, on plain values;
//! a program around them reads, writes, waits and draws.

use vstd::prelude::*;

pub mod archived;
pub mod bytes;
pub mod cells;
pub mod checkpoint;
pub mod continuity;
pub mod crypto;
pub mod daemon;
pub mod delta;
pub mod display;
pub mod distinct;
pub mod engine;
pub mod fnv;
pub mod frame;
pub mod input;
pub mod json;
pub mod mirror;
pub mod modes;
pub mod paint;
pub mod paths;
pub mod proto;
pub mod render;
pub mod repaint;
pub mod report;
pub mod runs;
pub mod runtime;
pub mod selection;
pub mod state;
pub mod subscribers;
pub mod table;
pub mod text;
pub mod told;

pub use state::TerminalStateMirror;

verus! {
}
