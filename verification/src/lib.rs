//! kakukuma - the editing engine of a terminal ASCII-art drawing tool.
//!
//! A bounded colored-glyph grid, a reversible edit log (undo/redo),
//! tool-driven mutation with optional mirror symmetry, a two-key input
//! decoder, and a versioned persistence/export codec.

pub mod app;
pub mod canvas;
pub mod cursor;
pub mod error;
pub mod export;
pub mod history;
pub mod input;
pub mod kaku;
pub mod tools;
pub mod ui;

pub use app::App;
pub use canvas::Canvas;
pub use canvas::Cell;
pub use cursor::Cursor;
pub use tools::Tool;
