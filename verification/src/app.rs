//! Application state and logic: the drawing engine.
//!
//! [`App`] owns the canvas, cursor, history and settings. Every mutation
//! runs through [`App::execute`]; side effects the engine cannot perform
//! itself (file writes, the clipboard) come back to the caller as a
//! [`Request`], and the caller reports the outcome through
//! [`App::mark_saved`] and [`App::show_message`].

use vstd::prelude::*;

use crate::canvas::Canvas;
use crate::canvas::Cell;
use crate::canvas::MAX_SIZE;
use crate::canvas::lemma_index_bound;
use crate::cursor::Cursor;
use crate::cursor::clamped;
use crate::error::KakuError;
use crate::history::Change;
use crate::history::Operation;
use crate::history::UndoHistory;
use crate::history::apply_op;
use crate::history::change_idx;
use crate::history::change_in_bounds;
use crate::history::distinct_coords;
use crate::history::lemma_undo_chain_drop_first;
use crate::history::lemma_write_changes_pointwise;
use crate::history::lemma_write_changes_push;
use crate::history::lemma_write_then_unwrite;
use crate::history::op_matches;
use crate::history::redo_chain_ok;
use crate::history::revert_op;
use crate::history::undo_chain_ok;
use crate::history::write_change;
use crate::history::write_changes;
use crate::input::Action;
use crate::input::InputState;
use crate::input::JumpTarget;
use crate::input::KeyInput;
use crate::input::process_spec;
use crate::kaku::KakuFile;
use crate::kaku::decode_session;
use crate::kaku::decoded_grid;
use crate::kaku::version_ok;
use crate::tools::Tool;

verus! {

/// A side effect the engine asks its caller to perform.
#[derive(Clone, Copy, PartialEq, Eq, Structural, Debug)]
pub enum Request {
    /// Nothing to do
    Nothing,
    /// Write the session file
    Save,
    /// Write the ANSI export file
    Export,
    /// Put the ANSI export on the clipboard
    Copy,
}

/// Application state.
pub struct App {
    /// The drawing canvas
    pub canvas: Canvas,
    /// Current cursor position
    pub cursor: Cursor,
    /// Currently selected tool
    pub tool: Tool,
    /// Foreground color (0-15)
    pub fg_color: u8,
    /// Background color (0-15)
    pub bg_color: u8,
    /// Horizontal symmetry enabled
    pub symmetry_enabled: bool,
    /// Grid overlay visible
    pub show_grid: bool,
    /// Help overlay visible
    pub show_help: bool,
    /// Undo/redo history
    pub history: UndoHistory,
    /// Current file path
    pub file_path: Option<String>,
    /// File has unsaved changes
    pub dirty: bool,
    /// Should the app quit
    pub should_quit: bool,
    /// Input state machine
    pub input_state: InputState,
    /// Temporary message to display
    pub message: Option<String>,
    /// Message timeout counter
    pub message_timeout: u8,
}

impl App {
    /// The cursor sits where clamping to the canvas would leave it.
    pub open spec fn cursor_ok(self) -> bool {
        &&& self.cursor.x as int == clamped(self.cursor.x as int, self.canvas.width as int)
        &&& self.cursor.y as int == clamped(self.cursor.y as int, self.canvas.height as int)
    }

    /// The engine invariant: the canvas and history are well formed, the
    /// cursor is in bounds, and both history stacks are faithful logs of
    /// the canvas (each records exactly the diffs that undoing or
    /// redoing walks back over).
    pub open spec fn inv(self) -> bool {
        &&& self.canvas.wf()
        &&& self.history.wf()
        &&& self.cursor_ok()
        &&& undo_chain_ok(
            self.canvas.grid(),
            self.canvas.width as int,
            self.canvas.height as int,
            self.history.undo_stack@,
        )
        &&& redo_chain_ok(
            self.canvas.grid(),
            self.canvas.width as int,
            self.canvas.height as int,
            self.history.redo_stack@,
        )
    }

    /// The state after one message-timeout tick.
    pub open spec fn ticked(self) -> App {
        if self.message_timeout > 0 {
            let t = (self.message_timeout - 1) as u8;
            App {
                message_timeout: t,
                message: if t == 0 {
                    None
                } else {
                    self.message
                },
                ..self
            }
        } else {
            self
        }
    }
}

/// The settings and identity fields the drawing helpers never touch.
pub open spec fn settings_same(pre: App, post: App) -> bool {
    &&& post.tool == pre.tool
    &&& post.fg_color == pre.fg_color
    &&& post.bg_color == pre.bg_color
    &&& post.symmetry_enabled == pre.symmetry_enabled
    &&& post.show_grid == pre.show_grid
    &&& post.show_help == pre.show_help
    &&& post.file_path == pre.file_path
    &&& post.should_quit == pre.should_quit
    &&& post.input_state == pre.input_state
}

/// The transient message fields are unchanged.
pub open spec fn msg_same(pre: App, post: App) -> bool {
    post.message == pre.message && post.message_timeout == pre.message_timeout
}

/// The two histories hold the same stacks and bound.
pub open spec fn history_views_same(a: UndoHistory, b: UndoHistory) -> bool {
    &&& a.undo_stack@ == b.undo_stack@
    &&& a.redo_stack@ == b.redo_stack@
    &&& a.max_size == b.max_size
}

/// How long the undo stack is after a push: one longer, capped at the
/// bound.
pub open spec fn pushed_len(h: UndoHistory) -> int {
    if h.undo_stack@.len() < h.max_size {
        h.undo_stack@.len() as int + 1
    } else {
        h.max_size as int
    }
}

/// What sits under a pushed operation: the old stack, minus its oldest
/// entry when the push evicted one.
pub open spec fn pushed_base(h: UndoHistory) -> Seq<Operation> {
    if h.undo_stack@.len() < h.max_size {
        h.undo_stack@
    } else {
        h.undo_stack@.drop_first()
    }
}

/// The pushed operation's shape: the redo stack is cleared, and the
/// undo stack holds the base plus one new operation recording exactly
/// `cs`.
pub open spec fn pushed_op(pre: UndoHistory, post: UndoHistory, cs: Seq<Change>) -> bool {
    &&& post.redo_stack@.len() == 0
    &&& post.max_size == pre.max_size
    &&& post.undo_stack@.len() == pushed_len(pre)
    &&& post.undo_stack@.drop_last() == pushed_base(pre)
    &&& post.undo_stack@.last().changes() == cs
}

/// The diffs one draw at (x, y) records: the cell itself, then its
/// mirror column when symmetry is on, the mirror is a different column,
/// and the mirror cell actually changes.
pub open spec fn draw_cell_changes(c: Canvas, sym: bool, x: u16, y: u16, cell: Cell) -> Seq<
    Change,
> {
    let first: Change = (x, y, c.cell_at(x as int, y as int), cell);
    if sym && c.width > 0 && (x as int) < c.width && c.width - 1 - x as int != x as int {
        let mx = (c.width - 1 - x) as u16;
        let mold = c.cell_at(mx as int, y as int);
        if mold != cell {
            seq![first, (mx, y, mold, cell)]
        } else {
            seq![first]
        }
    } else {
        seq![first]
    }
}

/// What drawing `cell` at (x, y) does: nothing at all when the cell
/// already has that value; otherwise the canvas takes the recorded
/// diffs, exactly one operation holding them is pushed, and the dirty
/// flag is set.
pub open spec fn draw_cell_rel(pre: App, post: App, x: u16, y: u16, cell: Cell) -> bool {
    let w = pre.canvas.width as int;
    let h = pre.canvas.height as int;
    let old0 = pre.canvas.cell_at(x as int, y as int);
    if old0 == cell {
        post == pre
    } else {
        let cs = draw_cell_changes(pre.canvas, pre.symmetry_enabled, x, y, cell);
        &&& post.canvas.width == pre.canvas.width
        &&& post.canvas.height == pre.canvas.height
        &&& post.canvas.grid() == write_changes(pre.canvas.grid(), w, h, cs, true)
        &&& pushed_op(pre.history, post.history, cs)
        &&& (post.history.undo_stack@.last() is SetCell <==> cs.len() == 1)
        &&& post.dirty
        &&& post.cursor == pre.cursor
        &&& settings_same(pre, post)
        &&& msg_same(pre, post)
    }
}

/// Whether two positions are 4-connected neighbors.
pub open spec fn adjacent(a: (u16, u16), b: (u16, u16)) -> bool {
    ||| (a.0 == b.0 && (a.1 + 1 == b.1 || b.1 + 1 == a.1))
    ||| (a.1 == b.1 && (a.0 + 1 == b.0 || b.0 + 1 == a.0))
}

/// A walk through in-bounds cells of one color: consecutive positions
/// are 4-connected neighbors and each reads `target` on the grid.
pub open spec fn is_region_path(
    g: Seq<Cell>,
    w: int,
    h: int,
    target: Cell,
    p: Seq<(u16, u16)>,
) -> bool {
    &&& p.len() > 0
    &&& forall|k: int|
        0 <= k < p.len() ==> (#[trigger] p[k].0 as int) < w && (p[k].1 as int) < h && g[(
        p[k].1 as int) * w + (p[k].0 as int)] == target
    &&& forall|k: int| 0 <= k < p.len() - 1 ==> adjacent(#[trigger] p[k], p[k + 1])
}

/// Two positions joined by a walk through target-colored cells.
pub open spec fn region_connected(
    g: Seq<Cell>,
    w: int,
    h: int,
    target: Cell,
    a: (u16, u16),
    b: (u16, u16),
) -> bool {
    exists|p: Seq<(u16, u16)>|
        is_region_path(g, w, h, target, p) && p.first() == a && p.last() == b
}

/// What flood fill does: nothing when the cursor is off the canvas or
/// the region already has the replacement color; otherwise one
/// multi-cell operation is pushed whose diffs repaint distinct
/// target-colored cells (the cursor cell first) with the replacement,
/// the canvas takes exactly those diffs, and the dirty flag is set.
/// Together the last two clauses pin the repainted set to the cursor's
/// 4-connected region: every repainted cell is joined to the cursor by
/// a walk through target-colored cells, and the set is closed at its
/// boundary, so the fill neither leaks out nor stops short.
pub open spec fn fill_rel(pre: App, post: App) -> bool {
    let cx = pre.cursor.x as int;
    let cy = pre.cursor.y as int;
    let w = pre.canvas.width as int;
    let h = pre.canvas.height as int;
    let target = pre.canvas.cell_at(cx, cy);
    let repl = Cell::block_spec(pre.fg_color);
    if !pre.canvas.in_bounds(cx, cy) {
        post == pre
    } else if target == repl {
        post == pre
    } else {
        let cs = post.history.undo_stack@.last().changes();
        &&& pushed_op(pre.history, post.history, cs)
        &&& post.history.undo_stack@.last() is SetCells
        &&& cs.len() >= 1
        &&& cs[0] == ((pre.cursor.x, pre.cursor.y, target, repl))
        &&& distinct_coords(cs)
        &&& forall|i: int|
            0 <= i < cs.len() ==> change_in_bounds(#[trigger] cs[i], w, h) && cs[i].2 == target
                && cs[i].3 == repl
        &&& forall|i: int|
            #![trigger cs[i]]
            0 <= i < cs.len() ==> region_connected(
                pre.canvas.grid(),
                w,
                h,
                target,
                (pre.cursor.x, pre.cursor.y),
                (cs[i].0, cs[i].1),
            )
        &&& forall|i: int, nb: (u16, u16)|
            0 <= i < cs.len() && #[trigger] adjacent((cs[i].0, cs[i].1), nb) && (nb.0 as int) < w
                && (nb.1 as int) < h && pre.canvas.grid()[(nb.1 as int) * w + (nb.0 as int)]
                == target ==> post.canvas.grid()[(nb.1 as int) * w + (nb.0 as int)] == repl
        &&& post.canvas.width == pre.canvas.width
        &&& post.canvas.height == pre.canvas.height
        &&& post.canvas.grid() == write_changes(pre.canvas.grid(), w, h, cs, true)
        &&& post.dirty
        &&& post.cursor == pre.cursor
        &&& settings_same(pre, post)
        &&& msg_same(pre, post)
    }
}

/// What undo does: nothing on an empty undo stack; otherwise the newest
/// operation moves to the redo stack, its diffs are walked back on the
/// canvas, the dirty flag is set and an "Undo" message shows.
pub open spec fn undo_rel(pre: App, post: App) -> bool {
    let w = pre.canvas.width as int;
    let h = pre.canvas.height as int;
    if pre.history.undo_stack@.len() == 0 {
        &&& post.canvas == pre.canvas
        &&& history_views_same(pre.history, post.history)
        &&& post.dirty == pre.dirty
        &&& post.cursor == pre.cursor
        &&& settings_same(pre, post)
        &&& msg_same(pre, post)
    } else {
        let op = pre.history.undo_stack@.last();
        &&& post.canvas.width == pre.canvas.width
        &&& post.canvas.height == pre.canvas.height
        &&& post.canvas.grid() == revert_op(pre.canvas.grid(), w, h, op)
        &&& post.history.undo_stack@ == pre.history.undo_stack@.drop_last()
        &&& post.history.redo_stack@ == pre.history.redo_stack@.push(op)
        &&& post.history.max_size == pre.history.max_size
        &&& post.dirty
        &&& post.message matches Some(m) && m@ == "Undo"@
        &&& post.message_timeout == 30
        &&& post.cursor == pre.cursor
        &&& settings_same(pre, post)
    }
}

/// What redo does: nothing on an empty redo stack; otherwise the newest
/// undone operation moves back to the undo stack, its diffs are
/// re-applied, the dirty flag is set and a "Redo" message shows.
pub open spec fn redo_rel(pre: App, post: App) -> bool {
    let w = pre.canvas.width as int;
    let h = pre.canvas.height as int;
    if pre.history.redo_stack@.len() == 0 {
        &&& post.canvas == pre.canvas
        &&& history_views_same(pre.history, post.history)
        &&& post.dirty == pre.dirty
        &&& post.cursor == pre.cursor
        &&& settings_same(pre, post)
        &&& msg_same(pre, post)
    } else {
        let op = pre.history.redo_stack@.last();
        &&& post.canvas.width == pre.canvas.width
        &&& post.canvas.height == pre.canvas.height
        &&& post.canvas.grid() == apply_op(pre.canvas.grid(), w, h, op)
        &&& post.history.redo_stack@ == pre.history.redo_stack@.drop_last()
        &&& post.history.undo_stack@ == pre.history.undo_stack@.push(op)
        &&& post.history.max_size == pre.history.max_size
        &&& post.dirty
        &&& post.message matches Some(m) && m@ == "Redo"@
        &&& post.message_timeout == 30
        &&& post.cursor == pre.cursor
        &&& settings_same(pre, post)
    }
}

/// Where each jump target puts the cursor.
pub open spec fn jump_spec(pre: App, target: JumpTarget) -> Cursor {
    let lastx: u16 = if pre.canvas.width == 0 {
        0u16
    } else {
        (pre.canvas.width - 1) as u16
    };
    let lasty: u16 = if pre.canvas.height == 0 {
        0u16
    } else {
        (pre.canvas.height - 1) as u16
    };
    match target {
        JumpTarget::TopLeft => Cursor { x: 0u16, y: 0u16 },
        JumpTarget::BottomRight => Cursor { x: lastx, y: lasty },
        JumpTarget::LineStart => Cursor { x: 0u16, y: pre.cursor.y },
        JumpTarget::LineEnd => Cursor { x: lastx, y: pre.cursor.y },
    }
}

/// What drawing with the active tool does: brush writes a block in the
/// current color, eraser writes the empty cell, fill flood fills, and
/// the reserved tools do nothing at all.
pub open spec fn draw_rel(pre: App, post: App) -> bool {
    match pre.tool {
        Tool::Brush => draw_cell_rel(
            pre,
            post,
            pre.cursor.x,
            pre.cursor.y,
            Cell::block_spec(pre.fg_color),
        ),
        Tool::Eraser => draw_cell_rel(pre, post, pre.cursor.x, pre.cursor.y, Cell::empty_spec()),
        Tool::Fill => fill_rel(pre, post),
        Tool::Line => post == pre,
        Tool::Rectangle => post == pre,
    }
}

/// What one `execute` step does, from the already-ticked state `pre`:
/// the action's own effect, and which side effect the caller owes.
pub open spec fn step_rel(pre: App, action: Action, post: App, r: Request) -> bool {
    match action {
        Action::Nothing => post == pre && r == Request::Nothing,
        Action::Quit => post == (App { should_quit: true, ..pre }) && r == Request::Nothing,
        Action::Move(dx, dy) => {
            let nx = clamped(pre.cursor.x + dx, pre.canvas.width as int) as u16;
            let ny = clamped(pre.cursor.y + dy, pre.canvas.height as int) as u16;
            post == (App { cursor: Cursor { x: nx, y: ny }, ..pre }) && r == Request::Nothing
        },
        Action::Jump(target) => post == (App { cursor: jump_spec(pre, target), ..pre }) && r
            == Request::Nothing,
        Action::Draw => draw_rel(pre, post) && r == Request::Nothing,
        Action::SelectTool(tool) => post == (App { tool, ..pre }) && r == Request::Nothing,
        Action::ToggleSymmetry => post == (
        App { symmetry_enabled: !pre.symmetry_enabled, ..pre }) && r == Request::Nothing,
        Action::ToggleGrid => post == (App { show_grid: !pre.show_grid, ..pre }) && r
            == Request::Nothing,
        Action::ToggleHelp => post == (App { show_help: !pre.show_help, ..pre }) && r
            == Request::Nothing,
        Action::SelectColor(color) => {
            let next = if color < 16 {
                App { fg_color: color, ..pre }
            } else {
                pre
            };
            post == next && r == Request::Nothing
        },
        Action::Undo => undo_rel(pre, post) && r == Request::Nothing,
        Action::Redo => redo_rel(pre, post) && r == Request::Nothing,
        Action::Save => post == pre && r == Request::Save,
        Action::Export => post == pre && r == Request::Export,
        Action::Copy => post == pre && r == Request::Copy,
        Action::Load(_) => post == pre && r == Request::Nothing,
    }
}

/// A freshly constructed engine over a width-by-height canvas (clamped
/// to the cap): empty grid, cursor at the origin, brush in white on
/// black, all toggles off, empty fifty-deep history, nothing to save.
pub open spec fn fresh_app(a: App, width: u16, height: u16) -> bool {
    &&& a.inv()
    &&& a.canvas.width == if width <= MAX_SIZE {
        width
    } else {
        MAX_SIZE
    }
    &&& a.canvas.height == if height <= MAX_SIZE {
        height
    } else {
        MAX_SIZE
    }
    &&& forall|i: int| 0 <= i < a.canvas.grid().len() ==> a.canvas.grid()[i] == Cell::empty_spec()
    &&& a.cursor.x == 0 && a.cursor.y == 0
    &&& a.tool is Brush
    &&& a.fg_color == 7
    &&& a.bg_color == 0
    &&& !a.symmetry_enabled
    &&& !a.show_grid
    &&& !a.show_help
    &&& a.history.undo_stack@.len() == 0
    &&& a.history.redo_stack@.len() == 0
    &&& a.history.max_size == 50
    &&& a.file_path is None
    &&& !a.dirty
    &&& !a.should_quit
    &&& !a.input_state.pending_g
    &&& a.message is None
    &&& a.message_timeout == 0
}

/// How many entries of a visited map are still unvisited.
spec fn count_false(s: Seq<bool>) -> nat
    decreases s.len(),
{
    if s.len() == 0 {
        0
    } else {
        count_false(s.drop_last()) + if s.last() {
            0nat
        } else {
            1nat
        }
    }
}

/// Marking an unvisited entry strictly shrinks the unvisited count.
proof fn lemma_count_false_update(s: Seq<bool>, i: int)
    requires
        0 <= i < s.len(),
        !s[i],
    ensures
        count_false(s.update(i, true)) < count_false(s),
    decreases s.len(),
{
    if i == s.len() - 1 {
        assert(s.update(i, true).drop_last() =~= s.drop_last());
        assert(s.update(i, true).last());
    } else {
        assert(s.update(i, true).drop_last() =~= s.drop_last().update(i, true));
        assert(s.update(i, true).last() == s.last());
        lemma_count_false_update(s.drop_last(), i);
    }
}

impl App {
    /// Create a new app with the given canvas size.
    pub fn new(width: u16, height: u16) -> (a: App)
        ensures
            fresh_app(a, width, height),
    {
        App {
            canvas: Canvas::new(width, height),
            cursor: Cursor::new(),
            tool: Tool::Brush,
            fg_color: 7,  // White
            bg_color: 0,  // Black
            symmetry_enabled: false,
            show_grid: false,
            show_help: false,
            history: UndoHistory::default(),
            file_path: None,
            dirty: false,
            should_quit: false,
            input_state: InputState::new(),
            message: None,
            message_timeout: 0,
        }
    }

    /// Rebuild an engine from a loaded session file. A version outside
    /// the "1." majors is a format error and no state is produced.
    pub fn load(file: &KakuFile, path: Option<String>) -> (r: Result<App, KakuError>)
        ensures
            r is Ok <==> version_ok(file.version@),
            r matches Ok(a) ==> {
                &&& a.inv()
                &&& a.canvas.width == if file.canvas.width <= MAX_SIZE {
                    file.canvas.width
                } else {
                    MAX_SIZE
                }
                &&& a.canvas.height == if file.canvas.height <= MAX_SIZE {
                    file.canvas.height
                } else {
                    MAX_SIZE
                }
                &&& a.canvas.grid() == decoded_grid(
                    a.canvas.width as int,
                    a.canvas.height as int,
                    file.canvas.cells@,
                )
                &&& a.cursor.x == 0 && a.cursor.y == 0
                &&& a.tool is Brush
                &&& a.history.undo_stack@.len() == 0
                &&& a.history.redo_stack@.len() == 0
                &&& !a.dirty && !a.should_quit
            },
            r matches Err(e) ==> e matches KakuError::InvalidFormat(m) && m@
                == "Unsupported file version: "@ + file.version@,
    {
        let canvas = match decode_session(file) {
            Ok(c) => c,
            Err(e) => {
                return Err(e);
            },
        };
        let mut app = App::new(0, 0);
        app.canvas = canvas;
        app.file_path = path;
        Ok(app)
    }

    /// Get canvas bounds as (width, height).
    pub fn bounds(&self) -> (r: (u16, u16))
        ensures
            r.0 == self.canvas.width,
            r.1 == self.canvas.height,
    {
        (self.canvas.width, self.canvas.height)
    }

    /// Process a key event through the two-key decoder and return the
    /// resulting action.
    pub fn handle_key(&mut self, key: KeyInput) -> (r: Action)
        ensures
            r == process_spec(old(self).input_state.pending_g, key).0,
            final(self).input_state.pending_g == process_spec(
                old(self).input_state.pending_g,
                key,
            ).1,
            *final(self) == (App { input_state: final(self).input_state, ..*old(self) }),
    {
        self.input_state.process(key)
    }

    /// Execute an action: tick the message timeout, apply the action,
    /// and name the side effect the caller must perform.
    pub fn execute(&mut self, action: Action) -> (r: Request)
        requires
            old(self).inv(),
        ensures
            final(self).inv(),
            step_rel(old(self).ticked(), action, *final(self), r),
    {
        // Clear message after timeout
        if self.message_timeout > 0 {
            self.message_timeout = self.message_timeout - 1;
            if self.message_timeout == 0 {
                self.message = None;
            }
        }
        proof {
            assert(*self == old(self).ticked());
        }

        match action {
            Action::Nothing => Request::Nothing,
            Action::Quit => {
                self.should_quit = true;
                Request::Nothing
            },
            Action::Move(dx, dy) => {
                let b = self.bounds();
                self.cursor.move_by(dx, dy, b);
                Request::Nothing
            },
            Action::Jump(target) => {
                self.jump(target);
                Request::Nothing
            },
            Action::Draw => {
                self.draw();
                Request::Nothing
            },
            Action::SelectTool(tool) => {
                self.tool = tool;
                Request::Nothing
            },
            Action::ToggleSymmetry => {
                self.symmetry_enabled = !self.symmetry_enabled;
                Request::Nothing
            },
            Action::ToggleGrid => {
                self.show_grid = !self.show_grid;
                Request::Nothing
            },
            Action::ToggleHelp => {
                self.show_help = !self.show_help;
                Request::Nothing
            },
            Action::SelectColor(color) => {
                if color < 16 {
                    self.fg_color = color;
                }
                Request::Nothing
            },
            Action::Undo => {
                self.undo();
                Request::Nothing
            },
            Action::Redo => {
                self.redo();
                Request::Nothing
            },
            Action::Save => Request::Save,
            Action::Export => Request::Export,
            Action::Copy => Request::Copy,
            Action::Load(_) => Request::Nothing,  // Handled at startup
        }
    }

    /// Jump to a target position.
    fn jump(&mut self, target: JumpTarget)
        ensures
            *final(self) == (App { cursor: jump_spec(*old(self), target), ..*old(self) }),
    {
        match target {
            JumpTarget::TopLeft => self.cursor.top_left(),
            JumpTarget::BottomRight => {
                let b = self.bounds();
                self.cursor.bottom_right(b);
            },
            JumpTarget::LineStart => self.cursor.home(),
            JumpTarget::LineEnd => {
                let w = self.canvas.width;
                self.cursor.end(w);
            },
        }
    }

    /// Draw at the current cursor position with the active tool.
    fn draw(&mut self)
        requires
            old(self).inv(),
        ensures
            final(self).inv(),
            draw_rel(*old(self), *final(self)),
    {
        match self.tool {
            Tool::Brush => {
                let cell = Cell::block(self.fg_color);
                let x = self.cursor.x;
                let y = self.cursor.y;
                self.draw_cell(x, y, cell);
            },
            Tool::Eraser => {
                let cell = Cell::empty();
                let x = self.cursor.x;
                let y = self.cursor.y;
                self.draw_cell(x, y, cell);
            },
            Tool::Fill => {
                self.flood_fill();
            },
            Tool::Line => {},
            Tool::Rectangle => {},
        }
    }

    /// Draw a cell at a position, with optional symmetry. A write that
    /// leaves the cell as it is does nothing at all.
    fn draw_cell(&mut self, x: u16, y: u16, cell: Cell)
        requires
            old(self).inv(),
            old(self).canvas.width > 0 ==> x < old(self).canvas.width,
        ensures
            final(self).inv(),
            draw_cell_rel(*old(self), *final(self), x, y, cell),
    {
        let ghost pre = *self;
        let ghost w = self.canvas.width as int;
        let ghost h = self.canvas.height as int;
        let ghost g0 = self.canvas.grid();

        let old0 = match self.canvas.get(x, y) {
            Some(c) => *c,
            None => Cell::empty(),
        };
        proof {
            assert(old0 == pre.canvas.cell_at(x as int, y as int));
        }
        if old0 == cell {
            return ;  // No change
        }
        let ghost cs = draw_cell_changes(pre.canvas, pre.symmetry_enabled, x, y, cell);

        self.canvas.set(x, y, cell);

        let mut changes: Vec<Change> = Vec::new();
        changes.push((x, y, old0, cell));

        // Apply symmetry
        if self.symmetry_enabled && self.canvas.width > 0 {
            let mirror_x = self.canvas.width - 1 - x;
            if mirror_x != x {
                let mirror_old = match self.canvas.get(mirror_x, y) {
                    Some(c) => *c,
                    None => Cell::empty(),
                };
                proof {
                    // The first write cannot have touched the mirror
                    // column: both positions sit on the same row and the
                    // columns differ, so the row-major indices differ.
                    assert((y as int) * w + x as int != (y as int) * w + mirror_x as int);
                    if pre.canvas.in_bounds(mirror_x as int, y as int) {
                        lemma_index_bound(mirror_x as int, y as int, w, h);
                        lemma_index_bound(x as int, y as int, w, h);
                        assert(pre.canvas.in_bounds(x as int, y as int));
                        assert(self.canvas.grid() == g0.update((y as int) * w + x as int, cell));
                        assert(g0.update((y as int) * w + x as int, cell)[(y as int) * w
                            + mirror_x as int] == g0[(y as int) * w + mirror_x as int]);
                        assert(self.canvas.grid()[(y as int) * w + mirror_x as int] == g0[(
                        y as int) * w + mirror_x as int]);
                        assert(self.canvas.cell_at(mirror_x as int, y as int)
                            == pre.canvas.cell_at(mirror_x as int, y as int));
                    } else {
                        assert(!self.canvas.in_bounds(mirror_x as int, y as int));
                    }
                    assert(mirror_old == pre.canvas.cell_at(mirror_x as int, y as int));
                }
                if mirror_old != cell {
                    self.canvas.set(mirror_x, y, cell);
                    changes.push((mirror_x, y, mirror_old, cell));
                }
            }
        }
        proof {
            reveal_with_fuel(write_changes, 4);
            assert(changes@ =~= cs);
            // The grid now reads as the recorded changes applied in order.
            assert(cs.len() == 1 || cs.len() == 2);
            assert(cs[0] == ((x, y, old0, cell)));
            assert(cs.first() == cs[0]);
            let g1s = write_change(g0, w, h, cs[0], true);
            assert(write_changes(g0, w, h, cs, true) == write_changes(
                g1s,
                w,
                h,
                cs.drop_first(),
                true,
            ));
            if cs.len() == 1 {
                assert(cs.drop_first() =~= Seq::<Change>::empty());
                assert(self.canvas.grid() =~= g1s);
            } else {
                let rest1 = cs.drop_first();
                assert(rest1 =~= seq![cs[1]]);
                assert(rest1.first() == cs[1]);
                assert(rest1.drop_first() =~= Seq::<Change>::empty());
                assert(write_changes(g1s, w, h, rest1, true) == write_change(
                    g1s,
                    w,
                    h,
                    cs[1],
                    true,
                ));
                assert(self.canvas.grid() =~= write_change(g1s, w, h, cs[1], true));
            }
            assert(self.canvas.grid() == write_changes(g0, w, h, cs, true));
            assert(distinct_coords(cs));
        }

        // Record in history
        let op: Operation;
        if changes.len() == 1 {
            let c0 = changes[0];
            op = Operation::set_cell(c0.0, c0.1, c0.2, c0.3);
            proof {
                assert(op.changes() =~= cs);
            }
        } else {
            op = Operation::set_cells(changes);
        }
        proof {
            assert(op.changes() == cs);
            let g1 = self.canvas.grid();
            lemma_write_changes_pointwise(g0, w, h, cs, true);
            // The operation reads as just applied on the new grid, and as
            // not yet applied on the old one.
            assert(op_matches(g0, w, h, op, false));
            assert(op_matches(g1, w, h, op, true));
            lemma_write_then_unwrite(g0, w, h, op, false);
            assert(revert_op(g1, w, h, op) == g0);
            if pre.history.undo_stack@.len() >= pre.history.max_size {
                lemma_undo_chain_drop_first(g0, w, h, pre.history.undo_stack@);
            }
        }
        self.history.push(op);
        proof {
            let g1 = self.canvas.grid();
            let stack1 = self.history.undo_stack@;
            assert(stack1.last() == op);
            assert(stack1.drop_last() =~= pushed_base(pre.history));
            assert(undo_chain_ok(g0, w, h, pushed_base(pre.history)));
            assert(revert_op(g1, w, h, op) == g0);
            assert(undo_chain_ok(g1, w, h, stack1));
        }

        self.dirty = true;
    }

    /// Flood fill from the current cursor position: repaint the
    /// 4-connected region of cells equal to the cell under the cursor
    /// with a block in the current color, as one atomic operation.
    #[verifier::rlimit(100)]
    fn flood_fill(&mut self)
        requires
            old(self).inv(),
        ensures
            final(self).inv(),
            fill_rel(*old(self), *final(self)),
    {
        let ghost pre = *self;
        let ghost w = self.canvas.width as int;
        let ghost h = self.canvas.height as int;
        let ghost g0 = self.canvas.grid();

        let cx = self.cursor.x;
        let cy = self.cursor.y;
        let target = match self.canvas.get(cx, cy) {
            Some(t) => *t,
            None => {
                return ;
            },
        };

        let replacement = Cell::block(self.fg_color);

        if target == replacement {
            return ;
        }

        let width = self.canvas.width;
        let height = self.canvas.height;
        proof {
            lemma_grid_fits(w, h);
        }

        let mut changes: Vec<Change> = Vec::new();
        let mut stack: Vec<(u16, u16)> = Vec::new();
        stack.push((cx, cy));
        let mut visited: Vec<bool> = vec![false; (width as usize) * (height as usize)];
        proof {
            assert(stack@ =~= seq![(cx, cy)]);
            lemma_index_bound(cx as int, cy as int, w, h);
        }

        while stack.len() > 0
            invariant
                cx < width,
                cy < height,
                g0[(cy as int) * w + cx as int] == target,
                self.canvas.wf(),
                self.canvas.width == width,
                self.canvas.height == height,
                w == width as int,
                h == height as int,
                0 < width && 0 < height,
                g0.len() == w * h,
                visited@.len() == w * h,
                target != replacement,
                replacement == Cell::block_spec(pre.fg_color),
                forall|k: int|
                    0 <= k < stack@.len() ==> (#[trigger] stack@[k]).0 < width && stack@[k].1
                        < height,
                forall|i: int|
                    0 <= i < changes@.len() ==> {
                        &&& change_in_bounds(#[trigger] changes@[i], w, h)
                        &&& changes@[i].2 == target
                        &&& changes@[i].3 == replacement
                        &&& g0[change_idx(changes@[i], w)] == target
                        &&& visited@[change_idx(changes@[i], w)]
                    },
                distinct_coords(changes@),
                changes@.len() > 0 ==> changes@[0] == ((cx, cy, target, replacement)),
                changes@.len() == 0 ==> stack@ == seq![(cx, cy)] && !visited@[(cy as int) * w
                    + cx as int],
                // Every visited target-colored cell has been repainted.
                forall|p: int|
                    0 <= p < w * h && visited@[p] && g0[p] == target ==> self.canvas.grid()[p]
                        == replacement,
                // Every waiting position is the seed or borders a
                // repainted cell.
                forall|k: int|
                    0 <= k < stack@.len() ==> (#[trigger] stack@[k]) == ((cx, cy)) || exists|i: int|
                        0 <= i < changes@.len() && adjacent(
                            (changes@[i].0, changes@[i].1),
                            stack@[k],
                        ),
                // Every repainted cell is joined to the seed through the
                // target-colored region.
                forall|i: int|
                    #![trigger changes@[i]]
                    0 <= i < changes@.len() ==> region_connected(
                        g0,
                        w,
                        h,
                        target,
                        (cx, cy),
                        (changes@[i].0, changes@[i].1),
                    ),
                // Every neighbor of a repainted cell has been reached or
                // still waits on the stack.
                forall|i: int, nb: (u16, u16)|
                    0 <= i < changes@.len() && #[trigger] adjacent(
                        (changes@[i].0, changes@[i].1),
                        nb,
                    ) && (nb.0 as int) < w && (nb.1 as int) < h ==> visited@[(nb.1 as int) * w + (
                    nb.0 as int)] || stack@.contains(nb),
                self.canvas.grid() == write_changes(g0, w, h, changes@, true),
                self.history == pre.history,
                self.cursor == pre.cursor,
                self.tool == pre.tool,
                self.fg_color == pre.fg_color,
                self.bg_color == pre.bg_color,
                self.symmetry_enabled == pre.symmetry_enabled,
                self.show_grid == pre.show_grid,
                self.show_help == pre.show_help,
                self.file_path == pre.file_path,
                self.dirty == pre.dirty,
                self.should_quit == pre.should_quit,
                self.input_state == pre.input_state,
                self.message == pre.message,
                self.message_timeout == pre.message_timeout,
            decreases count_false(visited@), stack@.len(),
        {
            let ghost stack0 = stack@;
            let ghost changes0 = changes@;
            let ghost visited0 = visited@;
            let top = stack.pop().unwrap();
            let x = top.0;
            let y = top.1;
            proof {
                lemma_index_bound(x as int, y as int, w, h);
                lemma_grid_fits(w, h);
            }
            let idx = (y as usize) * (width as usize) + (x as usize);
            proof {
                assert(idx as int == (y as int) * w + x as int);
            }

            if visited[idx] {
                proof {
                    if changes@.len() == 0 {
                        // While no change is recorded the stack holds
                        // only the unvisited cursor cell, so a visited
                        // pop cannot happen.
                        assert(stack0.last() == ((cx, cy)));
                        assert(idx as int == (cy as int) * w + cx as int);
                        assert(false);
                    }
                    // A popped entry that is already visited keeps every
                    // neighbor obligation: the entry itself is visited,
                    // and any other waiting position is still on the
                    // stack.
                    assert forall|i: int, nb: (u16, u16)|
                        0 <= i < changes@.len() && #[trigger] adjacent(
                            (changes@[i].0, changes@[i].1),
                            nb,
                        ) && (nb.0 as int) < w && (nb.1 as int) < h implies visited@[(nb.1 as int)
                        * w + (nb.0 as int)] || stack@.contains(nb) by {
                        if !visited@[(nb.1 as int) * w + (nb.0 as int)] {
                            assert(stack0.contains(nb));
                            assert(nb != ((x, y)));
                            let j = choose|j: int| 0 <= j < stack0.len() && stack0[j] == nb;
                            assert(j < stack0.len() - 1);
                            assert(stack@[j] == nb);
                        }
                    }
                }
                continue ;
            }
            visited[idx] = true;
            proof {
                assert(visited@ =~= visited0.update(idx as int, true));
                lemma_count_false_update(visited0, idx as int);
            }

            let current = match self.canvas.get(x, y) {
                Some(c) => *c,
                None => {
                    proof {
                        assert(false);
                    }
                    continue ;
                },
            };
            proof {
                // This cell was never repainted (each repainted position
                // is marked visited), so it still reads from the
                // original grid.
                lemma_write_changes_pointwise(g0, w, h, changes@, true);
                assert forall|i: int| 0 <= i < changes@.len() implies !(change_in_bounds(
                    #[trigger] changes@[i],
                    w,
                    h,
                ) && change_idx(changes@[i], w) == idx as int) by {
                    if change_idx(changes@[i], w) == idx as int {
                        assert(visited0[change_idx(changes@[i], w)]);
                        assert(!visited0[idx as int]);
                    }
                }
                assert(self.canvas.grid()[idx as int] == g0[idx as int]);
                assert(current == g0[idx as int]);
            }

            if current != target {
                proof {
                    assert(visited@ == visited0.update(idx as int, true));
                    assert forall|i: int| 0 <= i < changes@.len() implies visited@[change_idx(
                        #[trigger] changes@[i],
                        w,
                    )] by {
                        lemma_index_bound(changes@[i].0 as int, changes@[i].1 as int, w, h);
                        assert(visited0[change_idx(changes@[i], w)]);
                    }
                    if changes@.len() == 0 {
                        // While no change is recorded the only pop is
                        // the cursor cell, which reads the target color,
                        // so a mismatch cannot happen.
                        assert(stack0.last() == ((cx, cy)));
                        assert(idx as int == (cy as int) * w + cx as int);
                        assert(current == target);
                        assert(false);
                    }
                    // The newly visited cell does not hold the target
                    // color, so no repaint is owed for it.
                    assert forall|p: int|
                        0 <= p < w * h && visited@[p] && g0[p] == target implies self.canvas.grid()[p]
                        == replacement by {
                        if p != idx as int {
                            assert(visited0[p]);
                        }
                    }
                    // The popped entry is visited now; everything else
                    // waiting is still on the stack.
                    assert forall|i: int, nb: (u16, u16)|
                        0 <= i < changes@.len() && #[trigger] adjacent(
                            (changes@[i].0, changes@[i].1),
                            nb,
                        ) && (nb.0 as int) < w && (nb.1 as int) < h implies visited@[(nb.1 as int)
                        * w + (nb.0 as int)] || stack@.contains(nb) by {
                        if !visited@[(nb.1 as int) * w + (nb.0 as int)] {
                            lemma_index_bound(nb.0 as int, nb.1 as int, w, h);
                            assert(!visited0[(nb.1 as int) * w + (nb.0 as int)]);
                            assert(stack0.contains(nb));
                            assert(nb != ((x, y)));
                            let j = choose|j: int| 0 <= j < stack0.len() && stack0[j] == nb;
                            assert(j < stack0.len() - 1);
                            assert(stack@[j] == nb);
                        }
                    }
                }
                continue ;
            }

            proof {
                // The new change's position differs from every recorded
                // one: those are all marked visited, this one was not.
                assert forall|i: int| 0 <= i < changes@.len() implies (
                #[trigger] changes@[i].0,
                changes@[i].1,
                ) != ((x, y)) by {
                    if (changes@[i].0, changes@[i].1) == ((x, y)) {
                        assert(change_idx(changes@[i], w) == idx as int);
                        assert(visited0[idx as int]);
                        assert(!visited0[idx as int]);
                    }
                }
                lemma_write_changes_push(g0, w, h, changes@, (x, y, current, replacement), true);
            }
            let ghost gmid = self.canvas.grid();
            changes.push((x, y, current, replacement));
            self.canvas.set(x, y, replacement);
            proof {
                assert(distinct_coords(changes@)) by {
                    assert forall|i: int, j: int| 0 <= i < j < changes@.len() implies (
                    #[trigger] changes@[i].0,
                    changes@[i].1,
                    ) != (#[trigger] changes@[j].0, changes@[j].1) by {
                        if j < changes@.len() - 1 {
                            assert(changes@[i] == changes0[i]);
                            assert(changes@[j] == changes0[j]);
                        } else {
                            assert(changes@[i] == changes0[i]);
                        }
                    }
                }
                assert forall|i: int| 0 <= i < changes@.len() implies {
                    &&& change_in_bounds(#[trigger] changes@[i], w, h)
                    &&& changes@[i].2 == target
                    &&& changes@[i].3 == replacement
                    &&& g0[change_idx(changes@[i], w)] == target
                    &&& visited@[change_idx(changes@[i], w)]
                } by {
                    if i < changes@.len() - 1 {
                        assert(changes@[i] == changes0[i]);
                        lemma_index_bound(changes@[i].0 as int, changes@[i].1 as int, w, h);
                        assert(visited@ == visited0.update(idx as int, true));
                        assert(visited0[change_idx(changes@[i], w)]);
                    } else {
                        assert(changes@[i] == ((x, y, current, replacement)));
                        assert(change_idx(changes@[i], w) == idx as int);
                    }
                }
            }

            proof {
                // The freshly repainted cell settles its own obligation
                // under the visited map; older visited cells keep their
                // repainted value because only this index was written.
                assert forall|p: int|
                    0 <= p < w * h && visited@[p] && g0[p] == target implies self.canvas.grid()[p]
                    == replacement by {
                    if p != idx as int {
                        assert(visited0[p]);
                        assert(gmid[p] == replacement);
                        assert(self.canvas.grid()[p] == gmid[p]);
                    }
                }
            }

            // Add neighbors
            let ghost stack_mid = stack@;
            if x > 0 {
                stack.push((x - 1, y));
            }
            if x < width - 1 {
                stack.push((x + 1, y));
            }
            if y > 0 {
                stack.push((x, y - 1));
            }
            if y < height - 1 {
                stack.push((x, y + 1));
            }
            proof {
                // Waiting entries keep their place under the appends,
                // and each in-bounds neighbor of the new cell now waits.
                assert forall|j: int| 0 <= j < stack_mid.len() implies j < stack@.len()
                    && stack@[j] == stack_mid[j] by {}
                let ghost base = stack_mid.len() as int;
                let ghost o1: int = if x > 0 {
                    1
                } else {
                    0
                };
                let ghost o2: int = if x < width - 1 {
                    1
                } else {
                    0
                };
                let ghost o3: int = if y > 0 {
                    1
                } else {
                    0
                };
                if x > 0 {
                    assert(stack@[base] == (((x - 1) as u16, y)));
                }
                if x < width - 1 {
                    assert(stack@[base + o1] == (((x + 1) as u16, y)));
                }
                if y > 0 {
                    assert(stack@[base + o1 + o2] == ((x, (y - 1) as u16)));
                }
                if y < height - 1 {
                    assert(stack@[base + o1 + o2 + o3] == ((x, (y + 1) as u16)));
                }
                // Every waiting entry is still the seed or borders a
                // repainted cell: old entries keep their old witness,
                // the fresh neighbors border the fresh cell.
                assert forall|k: int| 0 <= k < stack@.len() implies (#[trigger] stack@[k]) == ((
                cx,
                cy,
                )) || exists|i: int|
                    0 <= i < changes@.len() && adjacent(
                        (changes@[i].0, changes@[i].1),
                        stack@[k],
                    ) by {
                    let last: int = changes@.len() - 1;
                    if k < stack_mid.len() {
                        assert(stack@[k] == stack0[k]);
                        if stack0[k] != ((cx, cy)) {
                            let i0 = choose|i0: int|
                                0 <= i0 < changes0.len() && adjacent(
                                    (changes0[i0].0, changes0[i0].1),
                                    stack0[k],
                                );
                            assert(changes@[i0] == changes0[i0]);
                            assert(adjacent((changes@[i0].0, changes@[i0].1), stack@[k]));
                        }
                    } else {
                        assert(changes@[last] == ((x, y, current, replacement)));
                        if x > 0 {
                            assert(adjacent(((x, y)), (((x - 1) as u16, y))));
                        }
                        if x < width - 1 {
                            assert(adjacent(((x, y)), (((x + 1) as u16, y))));
                        }
                        if y > 0 {
                            assert(adjacent(((x, y)), ((x, (y - 1) as u16))));
                        }
                        if y < height - 1 {
                            assert(adjacent(((x, y)), ((x, (y + 1) as u16))));
                        }
                        assert(adjacent((changes@[last].0, changes@[last].1), stack@[k]));
                    }
                }
                // Every repainted cell connects to the seed: the fresh
                // cell was waiting, so it is the seed itself or borders
                // an already-connected cell, whose walk extends by one.
                assert forall|i: int|
                    #![trigger changes@[i]]
                    0 <= i < changes@.len() implies region_connected(
                    g0,
                    w,
                    h,
                    target,
                    (cx, cy),
                    (changes@[i].0, changes@[i].1),
                ) by {
                    if i < changes@.len() - 1 {
                        assert(changes@[i] == changes0[i]);
                        assert(region_connected(
                            g0,
                            w,
                            h,
                            target,
                            (cx, cy),
                            (changes0[i].0, changes0[i].1),
                        ));
                    } else {
                        assert(changes@[i] == ((x, y, current, replacement)));
                        if (x, y) == ((cx, cy)) {
                            let p = seq![((cx, cy))];
                            assert(is_region_path(g0, w, h, target, p)) by {
                                assert(p[0] == ((cx, cy)));
                            }
                            assert(p.first() == ((cx, cy)) && p.last() == ((cx, cy)));
                        } else {
                            assert(stack0.last() == ((x, y)));
                            let i0 = choose|i0: int|
                                0 <= i0 < changes0.len() && adjacent(
                                    (changes0[i0].0, changes0[i0].1),
                                    ((x, y)),
                                );
                            assert(region_connected(
                                g0,
                                w,
                                h,
                                target,
                                (cx, cy),
                                (changes0[i0].0, changes0[i0].1),
                            ));
                            let p0 = choose|p0: Seq<(u16, u16)>|
                                is_region_path(g0, w, h, target, p0) && p0.first() == ((cx, cy))
                                    && p0.last() == ((changes0[i0].0, changes0[i0].1));
                            let p2 = p0.push(((x, y)));
                            assert(is_region_path(g0, w, h, target, p2)) by {
                                assert forall|k: int| 0 <= k < p2.len() implies (
                                #[trigger] p2[k].0 as int) < w && (p2[k].1 as int) < h && g0[(
                                p2[k].1 as int) * w + (p2[k].0 as int)] == target by {
                                    if k < p0.len() {
                                        assert(p2[k] == p0[k]);
                                    } else {
                                        assert(p2[k] == ((x, y)));
                                    }
                                }
                                assert forall|k: int| 0 <= k < p2.len() - 1 implies adjacent(
                                    #[trigger] p2[k],
                                    p2[k + 1],
                                ) by {
                                    if k < p0.len() - 1 {
                                        assert(p2[k] == p0[k]);
                                        assert(p2[k + 1] == p0[k + 1]);
                                    } else {
                                        assert(p2[k] == p0.last());
                                        assert(p2[k + 1] == ((x, y)));
                                    }
                                }
                            }
                            assert(p2.first() == ((cx, cy)));
                            assert(p2.last() == ((x, y)));
                        }
                    }
                }
                assert forall|i: int, nb: (u16, u16)|
                    0 <= i < changes@.len() && #[trigger] adjacent(
                        (changes@[i].0, changes@[i].1),
                        nb,
                    ) && (nb.0 as int) < w && (nb.1 as int) < h implies visited@[(nb.1 as int) * w
                    + (nb.0 as int)] || stack@.contains(nb) by {
                    if i < changes@.len() - 1 {
                        // An older repainted cell: its obligation held at
                        // the top of the iteration.
                        assert(changes@[i] == changes0[i]);
                        assert(adjacent((changes0[i].0, changes0[i].1), nb));
                        if !visited@[(nb.1 as int) * w + (nb.0 as int)] {
                            lemma_index_bound(nb.0 as int, nb.1 as int, w, h);
                            assert(!visited0[(nb.1 as int) * w + (nb.0 as int)]);
                            assert(stack0.contains(nb));
                            assert(nb != ((x, y)));
                            let j = choose|j: int| 0 <= j < stack0.len() && stack0[j] == nb;
                            assert(j < stack0.len() - 1);
                            assert(stack_mid[j] == nb);
                            assert(stack@[j] == nb);
                        }
                    } else {
                        // The new cell: adjacency pins its neighbor to
                        // one of the four sides, each of which was just
                        // pushed when it lies on the canvas.
                        assert(changes@[i] == ((x, y, current, replacement)));
                        if nb.1 == y && nb.0 as int + 1 == x as int {
                            assert(nb == (((x - 1) as u16, y)));
                            assert(stack@.contains(nb));
                        } else if nb.1 == y && x as int + 1 == nb.0 as int {
                            assert(nb == (((x + 1) as u16, y)));
                            assert(stack@.contains(nb));
                        } else if nb.0 == x && nb.1 as int + 1 == y as int {
                            assert(nb == ((x, (y - 1) as u16)));
                            assert(stack@.contains(nb));
                        } else {
                            assert(nb.0 == x && y as int + 1 == nb.1 as int);
                            assert(nb == ((x, (y + 1) as u16)));
                            assert(stack@.contains(nb));
                        }
                    }
                }
            }
        }

        proof {
            assert(changes@.len() > 0);
            // The stack has drained, so every neighbor obligation is
            // settled by a visit, and every visited target-colored cell
            // was repainted: the fill is closed at its boundary.
            assert(stack@.len() == 0);
            assert forall|i: int, nb: (u16, u16)|
                0 <= i < changes@.len() && #[trigger] adjacent(
                    (changes@[i].0, changes@[i].1),
                    nb,
                ) && (nb.0 as int) < w && (nb.1 as int) < h && g0[(nb.1 as int) * w + (
                nb.0 as int)] == target implies self.canvas.grid()[(nb.1 as int) * w + (
            nb.0 as int)] == replacement by {
                lemma_index_bound(nb.0 as int, nb.1 as int, w, h);
                if stack@.contains(nb) {
                    let j = choose|j: int| 0 <= j < stack@.len() && stack@[j] == nb;
                    assert(false);
                }
                assert(visited@[(nb.1 as int) * w + (nb.0 as int)]);
            }
        }
        let ghost cs = changes@;
        let op = Operation::set_cells(changes);
        proof {
            let g1 = self.canvas.grid();
            lemma_write_changes_pointwise(g0, w, h, cs, true);
            assert(op_matches(g0, w, h, op, false));
            assert(op_matches(g1, w, h, op, true));
            lemma_write_then_unwrite(g0, w, h, op, false);
            assert(revert_op(g1, w, h, op) == g0);
            if pre.history.undo_stack@.len() >= pre.history.max_size {
                lemma_undo_chain_drop_first(g0, w, h, pre.history.undo_stack@);
            }
        }
        self.history.push(op);
        proof {
            let g1 = self.canvas.grid();
            let stack1 = self.history.undo_stack@;
            assert(stack1.last() == op);
            assert(stack1.drop_last() =~= pushed_base(pre.history));
            assert(undo_chain_ok(g0, w, h, pushed_base(pre.history)));
            assert(revert_op(g1, w, h, op) == g0);
            assert(undo_chain_ok(g1, w, h, stack1));
        }
        self.dirty = true;
    }

    /// Undo the last operation.
    fn undo(&mut self)
        requires
            old(self).inv(),
        ensures
            final(self).inv(),
            undo_rel(*old(self), *final(self)),
    {
        let ghost pre = *self;
        let ghost w = self.canvas.width as int;
        let ghost h = self.canvas.height as int;
        let popped = self.history.undo();
        match popped {
            Some(op) => {
                proof {
                    let top = pre.history.undo_stack@.last();
                    assert(op_matches(pre.canvas.grid(), w, h, top, true));
                    lemma_write_then_unwrite(pre.canvas.grid(), w, h, top, true);
                    assert(op.changes() == top.changes());
                }
                self.apply_operation_reverse(&op);
                proof {
                    let g0 = pre.canvas.grid();
                    let g1 = self.canvas.grid();
                    let top = pre.history.undo_stack@.last();
                    assert(g1 == revert_op(g0, w, h, top));
                    assert(undo_chain_ok(g1, w, h, self.history.undo_stack@));
                    assert(self.history.redo_stack@.last() == top);
                    assert(self.history.redo_stack@.drop_last() =~= pre.history.redo_stack@);
                    assert(op_matches(g1, w, h, top, false));
                    assert(apply_op(g1, w, h, top) == g0);
                    assert(redo_chain_ok(g1, w, h, self.history.redo_stack@));
                }
                self.dirty = true;
                self.show_message("Undo");
            },
            None => {},
        }
    }

    /// Redo the last undone operation.
    fn redo(&mut self)
        requires
            old(self).inv(),
        ensures
            final(self).inv(),
            redo_rel(*old(self), *final(self)),
    {
        let ghost pre = *self;
        let ghost w = self.canvas.width as int;
        let ghost h = self.canvas.height as int;
        let popped = self.history.redo();
        match popped {
            Some(op) => {
                proof {
                    let top = pre.history.redo_stack@.last();
                    assert(op_matches(pre.canvas.grid(), w, h, top, false));
                    lemma_write_then_unwrite(pre.canvas.grid(), w, h, top, false);
                    assert(op.changes() == top.changes());
                }
                self.apply_operation(&op);
                proof {
                    let g0 = pre.canvas.grid();
                    let g1 = self.canvas.grid();
                    let top = pre.history.redo_stack@.last();
                    assert(g1 == apply_op(g0, w, h, top));
                    assert(redo_chain_ok(g1, w, h, self.history.redo_stack@));
                    assert(self.history.undo_stack@.last() == top);
                    assert(self.history.undo_stack@.drop_last() =~= pre.history.undo_stack@);
                    assert(op_matches(g1, w, h, top, true));
                    assert(revert_op(g1, w, h, top) == g0);
                    assert(undo_chain_ok(g1, w, h, self.history.undo_stack@));
                }
                self.dirty = true;
                self.show_message("Redo");
            },
            None => {},
        }
    }

    /// Apply an operation's diffs forward (for redo).
    fn apply_operation(&mut self, op: &Operation)
        requires
            old(self).canvas.wf(),
        ensures
            final(self).canvas.wf(),
            final(self).canvas.width == old(self).canvas.width,
            final(self).canvas.height == old(self).canvas.height,
            final(self).canvas.grid() == write_changes(
                old(self).canvas.grid(),
                old(self).canvas.width as int,
                old(self).canvas.height as int,
                op.changes(),
                true,
            ),
            *final(self) == (App { canvas: final(self).canvas, ..*old(self) }),
    {
        self.write_op(op, true);
    }

    /// Apply an operation's diffs in reverse (for undo).
    fn apply_operation_reverse(&mut self, op: &Operation)
        requires
            old(self).canvas.wf(),
        ensures
            final(self).canvas.wf(),
            final(self).canvas.width == old(self).canvas.width,
            final(self).canvas.height == old(self).canvas.height,
            final(self).canvas.grid() == write_changes(
                old(self).canvas.grid(),
                old(self).canvas.width as int,
                old(self).canvas.height as int,
                op.changes(),
                false,
            ),
            *final(self) == (App { canvas: final(self).canvas, ..*old(self) }),
    {
        self.write_op(op, false);
    }

    /// Write one side of an operation's diffs onto the canvas, in order.
    fn write_op(&mut self, op: &Operation, forward: bool)
        requires
            old(self).canvas.wf(),
        ensures
            final(self).canvas.wf(),
            final(self).canvas.width == old(self).canvas.width,
            final(self).canvas.height == old(self).canvas.height,
            final(self).canvas.grid() == write_changes(
                old(self).canvas.grid(),
                old(self).canvas.width as int,
                old(self).canvas.height as int,
                op.changes(),
                forward,
            ),
            *final(self) == (App { canvas: final(self).canvas, ..*old(self) }),
    {
        let ghost g0 = self.canvas.grid();
        let ghost w = self.canvas.width as int;
        let ghost h = self.canvas.height as int;
        let ghost cs = op.changes();
        match op {
            Operation::SetCell { x, y, before, after } => {
                let value = if forward {
                    *after
                } else {
                    *before
                };
                self.canvas.set(*x, *y, value);
                proof {
                    reveal_with_fuel(write_changes, 3);
                    assert(cs.first() == ((*x, *y, *before, *after)));
                    assert(cs.drop_first() =~= Seq::<Change>::empty());
                    assert(write_changes(g0, w, h, cs, forward) == write_change(
                        g0,
                        w,
                        h,
                        cs.first(),
                        forward,
                    ));
                    assert(self.canvas.grid() =~= write_change(g0, w, h, cs.first(), forward));
                }
            },
            Operation::SetCells { changes } => {
                let n = changes.len();
                let mut i: usize = 0;
                proof {
                    assert(cs.skip(0) =~= cs);
                }
                while i < n
                    invariant
                        i <= n,
                        n == cs.len(),
                        changes@ == cs,
                        self.canvas.wf(),
                        self.canvas.width as int == w,
                        self.canvas.height as int == h,
                        write_changes(g0, w, h, cs, forward) == write_changes(
                            self.canvas.grid(),
                            w,
                            h,
                            cs.skip(i as int),
                            forward,
                        ),
                        *self == (App { canvas: self.canvas, ..*old(self) }),
                    decreases n - i,
                {
                    let ghost rest = cs.skip(i as int);
                    proof {
                        assert(rest.first() == cs[i as int]);
                        assert(rest.drop_first() =~= cs.skip(i as int + 1));
                    }
                    let c = changes[i];
                    let value = if forward {
                        c.3
                    } else {
                        c.2
                    };
                    self.canvas.set(c.0, c.1, value);
                    i = i + 1;
                }
                proof {
                    assert(cs.skip(n as int) =~= Seq::<Change>::empty());
                }
            },
        }
    }

    /// Show a temporary message.
    pub fn show_message(&mut self, msg: &str)
        ensures
            final(self).message matches Some(m) && m@ == msg@,
            final(self).message_timeout == 30,
            *final(self) == (
            App {
                message: final(self).message,
                message_timeout: 30u8,
                ..*old(self)
            }),
    {
        self.message = Some(msg.to_owned());
        self.message_timeout = 30;  // about half a second at 60 fps
    }

    /// Record that a save succeeded: the state is clean again and a
    /// "Saved" message shows.
    pub fn mark_saved(&mut self)
        ensures
            !final(self).dirty,
            final(self).message matches Some(m) && m@ == "Saved"@,
            final(self).message_timeout == 30,
            *final(self) == (
            App {
                dirty: false,
                message: final(self).message,
                message_timeout: 30u8,
                ..*old(self)
            }),
    {
        self.dirty = false;
        self.show_message("Saved");
    }

    /// The path a save should write to: the current file path, or a
    /// fresh default (which becomes the current path) when none is set.
    pub fn save_path(&mut self) -> (p: String)
        ensures
            old(self).file_path matches Some(q) ==> p@ == q@ && *final(self) == *old(self),
            old(self).file_path is None ==> {
                &&& p@ == "untitled.kaku"@
                &&& final(self).file_path matches Some(q) && q@ == p@
                &&& *final(self) == (App { file_path: final(self).file_path, ..*old(self) })
            },
    {
        match &self.file_path {
            Some(p) => p.clone(),
            None => {
                let p = String::from_str("untitled.kaku");
                self.file_path = Some(p.clone());
                p
            },
        }
    }

    /// Tick the app (called each frame): count the transient message
    /// down and clear it when the countdown ends.
    pub fn tick(&mut self)
        ensures
            *final(self) == old(self).ticked(),
    {
        if self.message_timeout > 0 {
            self.message_timeout = self.message_timeout - 1;
            if self.message_timeout == 0 {
                self.message = None;
            }
        }
    }
}

impl Default for App {
    /// The default engine: a 32-by-32 canvas.
    fn default() -> (a: App)
        ensures
            fresh_app(a, 32, 32),
    {
        App::new(32, 32)
    }
}

/// Undo/redo inverse law at the engine: in any state the engine can
/// reach, undoing every logged operation and then redoing them all
/// restores the canvas bit for bit. The engine invariant supplies the
/// faithfulness of the log that the history-level law needs.
pub proof fn lemma_app_undo_redo_inverse(a: App)
    requires
        a.inv(),
    ensures
        crate::history::redo_all(
            crate::history::undo_all(
                a.canvas.grid(),
                a.canvas.width as int,
                a.canvas.height as int,
                a.history.undo_stack@,
            ),
            a.canvas.width as int,
            a.canvas.height as int,
            a.history.undo_stack@,
        ) == a.canvas.grid(),
{
    crate::history::lemma_undo_redo_inverse(
        a.canvas.grid(),
        a.canvas.width as int,
        a.canvas.height as int,
        a.history.undo_stack@,
    );
}

/// A canvas within the cap holds at most 1024 cells.
proof fn lemma_grid_fits(w: int, h: int)
    requires
        0 <= w <= MAX_SIZE,
        0 <= h <= MAX_SIZE,
    ensures
        w * h <= 1024,
{
    crate::canvas::lemma_grid_index(w, h);
}

} // verus!
