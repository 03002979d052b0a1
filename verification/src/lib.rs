//! Core of a character-cell terminal renderer.
//!
//! The library keeps an in-memory model of what a terminal currently
//! displays and reconciles it against a desired next frame: it computes
//! the cell-by-cell difference between the two frames and turns it into
//! a minimal stream of cursor moves, color changes and glyph prints.
//! Performing that stream on a real terminal (and all other I/O) is the
//! caller's job; everything here is pure computation over plain values.

pub mod buffer;
pub mod cell;
pub mod cursor;
pub mod draw;
pub mod editor;
pub mod renderer;
pub mod terminal;
pub mod view;

pub use buffer::{Buffer, Patch};
pub use cell::{Cell, Color};
pub use cursor::Cursor;
pub use draw::Command;
pub use editor::{Editor, KeyInput, Mode};
pub use renderer::Renderer;
pub use terminal::{Size, Terminal};
pub use view::View;
