//! Drawing tools.

use vstd::prelude::*;

verus! {

/// Available drawing tools. Line and Rectangle are reserved and
/// intentionally inert: selecting them is allowed, drawing with them
/// is a true no-op.
#[derive(Clone, Copy, PartialEq, Eq, Structural, Debug, Default)]
pub enum Tool {
    /// Place blocks on the canvas
    #[default]
    Brush,
    /// Remove blocks from the canvas
    Eraser,
    /// Fill connected region with current color
    Fill,
    /// Draw straight lines (reserved)
    Line,
    /// Draw rectangles (reserved)
    Rectangle,
}

impl Tool {
    /// Get the display name for this tool.
    pub fn name(&self) -> (r: &'static str)
        ensures
            r@ == match self {
                Tool::Brush => "Brush"@,
                Tool::Eraser => "Eraser"@,
                Tool::Fill => "Fill"@,
                Tool::Line => "Line"@,
                Tool::Rectangle => "Rect"@,
            },
    {
        match self {
            Tool::Brush => "Brush",
            Tool::Eraser => "Eraser",
            Tool::Fill => "Fill",
            Tool::Line => "Line",
            Tool::Rectangle => "Rect",
        }
    }

    /// Get the keyboard shortcut for this tool.
    pub fn shortcut(&self) -> (r: char)
        ensures
            r == match self {
                Tool::Brush => 'b',
                Tool::Eraser => 'e',
                Tool::Fill => 'f',
                Tool::Line => 'l',
                Tool::Rectangle => 'r',
            },
    {
        match self {
            Tool::Brush => 'b',
            Tool::Eraser => 'e',
            Tool::Fill => 'f',
            Tool::Line => 'l',
            Tool::Rectangle => 'r',
        }
    }

    /// Get all available tools.
    pub fn all() -> (r: Vec<Tool>)
        ensures
            r@ == seq![Tool::Brush, Tool::Eraser, Tool::Fill, Tool::Line, Tool::Rectangle],
    {
        let mut r: Vec<Tool> = Vec::new();
        r.push(Tool::Brush);
        r.push(Tool::Eraser);
        r.push(Tool::Fill);
        r.push(Tool::Line);
        r.push(Tool::Rectangle);
        proof {
            assert(r@ =~= seq![
                Tool::Brush,
                Tool::Eraser,
                Tool::Fill,
                Tool::Line,
                Tool::Rectangle,
            ]);
        }
        r
    }
}

} // verus!
