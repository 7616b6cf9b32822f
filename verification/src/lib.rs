//! The decisions of an agent-cursor overlay on a Wayland layer surface.
//!
//! The overlay is a full-screen, click-through surface on which a render core
//! paints a cursor. One owner holds the connection to the compositor and the
//! surface; commands reach it through a bounded queue. This crate decides what
//! the owner does, and proves it: which globals to bind, how large the surface
//! and its buffers are at any output scale, when a frame is drawn and when it
//! is held back, which memory is given back, and how a frame's pixels are laid
//! out. The protocol itself, the clock and the painting are the caller's.
//!
//! - [`channel`]: the queue, and what is put into it.
//! - [`state`]: what is known of the compositor, event by event.
//! - [`rounding`], [`scale`]: sizes under integer and fractional scales.
//! - [`redraw`]: the geometry of a frame.
//! - [`frame`]: the pixels of a frame.
//! - [`owner`]: the owner's loop, step by step.
//! - [`error`]: what can go wrong, in words.

pub mod channel;
pub mod error;
pub mod frame;
pub mod owner;
pub mod redraw;
pub mod rounding;
pub mod scale;
pub mod state;
