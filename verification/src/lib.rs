//! A terminal user-interface engine for character-grid applications.
//!
//! The engine provides a double-buffered cell grid with windowed sub-views,
//! a minimal-diff renderer that emits terminal control commands, an
//! escape-sequence input decoder, a proportional stack layout engine with
//! focus tracking, and the composition protocol that ties widgets together.

pub mod ansi;
pub mod app;
pub mod buffer;
pub mod context;
pub mod editor;
pub mod event;
pub mod layout;
pub mod parse;
pub mod render;
pub mod style;
pub mod term;
pub mod vec2;
pub mod widget;
