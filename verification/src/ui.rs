//! User interface state: what each widget shows.
//!
//! These types carry the engine state a frame renders. Drawing them to
//! a terminal is the front end's work; the engine only fixes what each
//! widget is given.

use vstd::prelude::*;

use crate::canvas::Canvas;
use crate::cursor::Cursor;
use crate::tools::Tool;

verus! {

/// The minimum terminal width the layout needs.
pub const MIN_WIDTH: u16 = 60;

/// The minimum terminal height the layout needs.
pub const MIN_HEIGHT: u16 = 20;

/// Check if the terminal is large enough; on failure the needed size
/// comes back.
pub fn check_terminal_size(width: u16, height: u16) -> (r: Result<(), (u16, u16)>)
    ensures
        r is Ok <==> width >= MIN_WIDTH && height >= MIN_HEIGHT,
        r matches Err(need) ==> need.0 == MIN_WIDTH && need.1 == MIN_HEIGHT,
{
    if width >= MIN_WIDTH && height >= MIN_HEIGHT {
        Ok(())
    } else {
        Err((MIN_WIDTH, MIN_HEIGHT))
    }
}

/// What the canvas viewport shows: the grid, the cursor, and the two
/// overlay toggles.
pub struct CanvasWidget<'a> {
    pub canvas: &'a Canvas,
    pub cursor: &'a Cursor,
    pub show_grid: bool,
    pub symmetry_enabled: bool,
}

impl<'a> CanvasWidget<'a> {
    /// A viewport over the given canvas and cursor, overlays off.
    pub fn new(canvas: &'a Canvas, cursor: &'a Cursor) -> (w: CanvasWidget<'a>)
        ensures
            w.canvas == canvas,
            w.cursor == cursor,
            !w.show_grid,
            !w.symmetry_enabled,
    {
        CanvasWidget { canvas, cursor, show_grid: false, symmetry_enabled: false }
    }

    /// Set whether the grid overlay shows.
    pub fn show_grid(self, show: bool) -> (w: CanvasWidget<'a>)
        ensures
            w.canvas == self.canvas,
            w.cursor == self.cursor,
            w.show_grid == show,
            w.symmetry_enabled == self.symmetry_enabled,
    {
        CanvasWidget { show_grid: show, ..self }
    }

    /// Set whether the symmetry axis shows.
    pub fn symmetry(self, enabled: bool) -> (w: CanvasWidget<'a>)
        ensures
            w.canvas == self.canvas,
            w.cursor == self.cursor,
            w.show_grid == self.show_grid,
            w.symmetry_enabled == enabled,
    {
        CanvasWidget { symmetry_enabled: enabled, ..self }
    }
}

/// The help overlay; it carries no state of its own.
pub struct HelpOverlay;

impl HelpOverlay {
    /// The help overlay.
    pub fn new() -> HelpOverlay {
        HelpOverlay
    }
}

impl Default for HelpOverlay {
    fn default() -> HelpOverlay {
        HelpOverlay::new()
    }
}

/// What the sidebar shows: the active tool, the two colors, and the
/// symmetry toggle.
pub struct SidebarWidget {
    pub current_tool: Tool,
    pub fg_color: u8,
    pub bg_color: u8,
    pub symmetry: bool,
}

impl SidebarWidget {
    /// A sidebar over the given selections.
    pub fn new(current_tool: Tool, fg_color: u8, bg_color: u8, symmetry: bool) -> (w:
        SidebarWidget)
        ensures
            w.current_tool == current_tool,
            w.fg_color == fg_color,
            w.bg_color == bg_color,
            w.symmetry == symmetry,
    {
        SidebarWidget { current_tool, fg_color, bg_color, symmetry }
    }
}

/// What the status bar shows: position, tool, symmetry, colors, the
/// dirty marker and the file name.
pub struct StatusBar {
    pub cursor: Cursor,
    pub tool: Tool,
    pub symmetry: bool,
    pub fg_color: u8,
    pub bg_color: u8,
    pub dirty: bool,
    pub filename: Option<String>,
}

impl StatusBar {
    /// A status bar over the given state, clean and without a file name.
    pub fn new(cursor: Cursor, tool: Tool, symmetry: bool, fg_color: u8, bg_color: u8) -> (w:
        StatusBar)
        ensures
            w.cursor == cursor,
            w.tool == tool,
            w.symmetry == symmetry,
            w.fg_color == fg_color,
            w.bg_color == bg_color,
            !w.dirty,
            w.filename is None,
    {
        StatusBar { cursor, tool, symmetry, fg_color, bg_color, dirty: false, filename: None }
    }

    /// Set the dirty marker.
    pub fn dirty(self, dirty: bool) -> (w: StatusBar)
        ensures
            w == (StatusBar { dirty, ..self }),
    {
        StatusBar { dirty, ..self }
    }

    /// Set the file name.
    pub fn filename(self, filename: Option<String>) -> (w: StatusBar)
        ensures
            w == (StatusBar { filename: w.filename, ..self }),
            w.filename == filename,
    {
        StatusBar { filename, ..self }
    }
}

} // verus!
