use kakukuma::App;
use kakukuma::canvas::Cell;
use kakukuma::input::handle_key;
use kakukuma::ui::check_terminal_size;
use kakukuma::app::Request;
use kakukuma::input::Action;
use kakukuma::input::JumpTarget;
use kakukuma::input::Key;
use kakukuma::input::KeyInput;
use kakukuma::tools::Tool;

fn press(app: &mut App, key: KeyInput) {
    let action = app.handle_key(key);
    app.execute(action);
}

#[test]
fn test_brush_undo_redo_scenario() {
    // Canvas 10x10, cursor at (5,5), brush tool, foreground color 3.
    let mut app = App::new(10, 10);
    app.execute(Action::Move(5, 5));
    assert_eq!((app.cursor.x, app.cursor.y), (5, 5));
    app.execute(Action::SelectColor(3));
    assert_eq!(app.tool, Tool::Brush);

    // Space draws a filled glyph with fg 3 at (5,5).
    press(&mut app, KeyInput::plain(Key::Char(' ')));
    assert_eq!(app.canvas.get(5, 5), Some(&Cell::block(3)));

    // Ctrl+Z restores the empty cell.
    press(&mut app, KeyInput::with_ctrl(Key::Char('z')));
    assert_eq!(app.canvas.get(5, 5), Some(&Cell::empty()));

    // Ctrl+Y brings the filled glyph back.
    press(&mut app, KeyInput::with_ctrl(Key::Char('y')));
    assert_eq!(app.canvas.get(5, 5), Some(&Cell::block(3)));
}

#[test]
fn test_g_then_g_jumps_top_left() {
    let mut app = App::new(10, 10);
    app.execute(Action::Move(5, 5));

    let first = app.handle_key(KeyInput::plain(Key::Char('g')));
    assert_eq!(first, Action::Nothing);
    let second = app.handle_key(KeyInput::plain(Key::Char('g')));
    assert_eq!(second, Action::Jump(JumpTarget::TopLeft));

    app.execute(second);
    assert_eq!((app.cursor.x, app.cursor.y), (0, 0));
}

#[test]
fn test_g_then_unmapped_key() {
    let mut app = App::new(10, 10);
    // 'g' emits nothing and suppresses the grid toggle.
    let first = app.handle_key(KeyInput::plain(Key::Char('g')));
    assert_eq!(first, Action::Nothing);
    app.execute(first);
    assert!(!app.show_grid);
    // An unmapped key then emits its own mapping: nothing.
    let second = app.handle_key(KeyInput::plain(Key::Other));
    assert_eq!(second, Action::Nothing);
}

#[test]
fn test_g_then_mapped_key() {
    let mut app = App::new(10, 10);
    let first = app.handle_key(KeyInput::plain(Key::Char('g')));
    assert_eq!(first, Action::Nothing);
    // A mapped key after the pending 'g' decodes by the single-key table.
    let second = app.handle_key(KeyInput::plain(Key::Char('b')));
    assert_eq!(second, Action::SelectTool(Tool::Brush));
}

#[test]
fn test_lone_g_then_g_does_not_toggle_grid() {
    let mut app = App::new(10, 10);
    press(&mut app, KeyInput::plain(Key::Char('g')));
    press(&mut app, KeyInput::plain(Key::Char('g')));
    assert!(!app.show_grid);
}

#[test]
fn test_symmetry_draw_is_one_atomic_operation() {
    let mut app = App::new(10, 10);
    app.execute(Action::ToggleSymmetry);
    assert!(app.symmetry_enabled);
    app.execute(Action::Move(2, 4));
    app.execute(Action::Draw);

    // Drawing at column 2 also paints the mirror column 7, as one
    // operation.
    assert_eq!(app.canvas.get(2, 4), Some(&Cell::block(7)));
    assert_eq!(app.canvas.get(7, 4), Some(&Cell::block(7)));
    assert_eq!(app.history.undo_count(), 1);

    // One undo reverts both cells.
    app.execute(Action::Undo);
    assert_eq!(app.canvas.get(2, 4), Some(&Cell::empty()));
    assert_eq!(app.canvas.get(7, 4), Some(&Cell::empty()));
}

#[test]
fn test_symmetry_center_column_single_cell() {
    let mut app = App::new(11, 5);
    app.execute(Action::ToggleSymmetry);
    app.execute(Action::Move(5, 2));
    app.execute(Action::Draw);

    let drawn: Vec<_> = app
        .canvas
        .iter_non_empty()
        .into_iter()
        .map(|(x, y, _)| (x, y))
        .collect();
    assert_eq!(drawn, vec![(5, 2)]);
    assert_eq!(app.history.undo_count(), 1);
}

#[test]
fn test_fill_idempotent_no_operation() {
    let mut app = App::new(4, 4);
    app.execute(Action::SelectTool(Tool::Fill));
    // Fill the empty region with the current color once.
    app.execute(Action::Draw);
    assert_eq!(app.canvas.get(3, 3), Some(&Cell::block(7)));
    let ops_before = app.history.undo_count();
    let dirty_before = app.dirty;

    // The region already has the replacement color: no operation, dirty
    // flag untouched.
    app.execute(Action::Draw);
    assert_eq!(app.history.undo_count(), ops_before);
    assert_eq!(app.dirty, dirty_before);
}

#[test]
fn test_fill_respects_boundaries() {
    let mut app = App::new(3, 3);
    // A wall of color 2 splits the canvas.
    app.canvas.set(1, 0, Cell::block(2));
    app.canvas.set(1, 1, Cell::block(2));
    app.canvas.set(1, 2, Cell::block(2));
    app.execute(Action::SelectTool(Tool::Fill));
    app.execute(Action::SelectColor(4));
    app.execute(Action::Draw);

    assert_eq!(app.canvas.get(0, 0), Some(&Cell::block(4)));
    assert_eq!(app.canvas.get(0, 2), Some(&Cell::block(4)));
    // The wall and the far side stay as they were.
    assert_eq!(app.canvas.get(1, 1), Some(&Cell::block(2)));
    assert_eq!(app.canvas.get(2, 1), Some(&Cell::empty()));
}

#[test]
fn test_fill_covers_whole_region() {
    // An L-shaped empty region: the fill reaches around the corner.
    let mut app = App::new(3, 3);
    app.canvas.set(1, 0, Cell::block(2));
    app.canvas.set(1, 1, Cell::block(2));
    app.execute(Action::SelectTool(Tool::Fill));
    app.execute(Action::SelectColor(5));
    app.execute(Action::Draw);

    for pos in [(0u16, 0u16), (0, 1), (0, 2), (1, 2), (2, 2), (2, 1), (2, 0)] {
        assert_eq!(app.canvas.get(pos.0, pos.1), Some(&Cell::block(5)));
    }
    assert_eq!(app.canvas.get(1, 0), Some(&Cell::block(2)));
    assert_eq!(app.canvas.get(1, 1), Some(&Cell::block(2)));
}

#[test]
fn test_undo_redo_many_restores_canvas() {
    let mut app = App::new(6, 6);
    for i in 0..4u16 {
        app.execute(Action::Move(1, 0));
        app.execute(Action::SelectColor((i % 8) as u8));
        app.execute(Action::Draw);
    }
    let snapshot: Vec<_> = app.canvas.iter();
    for _ in 0..4 {
        app.execute(Action::Undo);
    }
    for _ in 0..4 {
        app.execute(Action::Redo);
    }
    assert_eq!(app.canvas.iter(), snapshot);
}

#[test]
fn test_eraser() {
    let mut app = App::new(4, 4);
    app.execute(Action::Draw);
    assert_eq!(app.canvas.get(0, 0), Some(&Cell::block(7)));
    app.execute(Action::SelectTool(Tool::Eraser));
    app.execute(Action::Draw);
    assert_eq!(app.canvas.get(0, 0), Some(&Cell::empty()));
}

#[test]
fn test_inert_tools_do_nothing() {
    let mut app = App::new(4, 4);
    app.execute(Action::SelectTool(Tool::Line));
    app.execute(Action::Draw);
    app.execute(Action::SelectTool(Tool::Rectangle));
    app.execute(Action::Draw);
    assert!(!app.dirty);
    assert_eq!(app.history.undo_count(), 0);
    assert_eq!(app.canvas.get(0, 0), Some(&Cell::empty()));
}

#[test]
fn test_identical_stroke_is_no_op() {
    let mut app = App::new(4, 4);
    app.execute(Action::Draw);
    assert_eq!(app.history.undo_count(), 1);
    // Drawing the same cell again changes nothing and pushes nothing.
    app.execute(Action::Draw);
    assert_eq!(app.history.undo_count(), 1);
}

#[test]
fn test_push_after_undo_clears_redo() {
    let mut app = App::new(4, 4);
    app.execute(Action::Draw);
    app.execute(Action::Move(1, 0));
    app.execute(Action::Draw);
    app.execute(Action::Undo);
    assert!(app.history.can_redo());
    app.execute(Action::Move(1, 0));
    app.execute(Action::Draw);
    assert!(!app.history.can_redo());
}

#[test]
fn test_quit_and_toggles() {
    let mut app = App::new(4, 4);
    app.execute(Action::ToggleGrid);
    assert!(app.show_grid);
    app.execute(Action::ToggleHelp);
    assert!(app.show_help);
    let q = app.handle_key(KeyInput::plain(Key::Char('q')));
    assert_eq!(q, Action::Quit);
    app.execute(q);
    assert!(app.should_quit);
}

#[test]
fn test_save_export_copy_requests() {
    let mut app = App::new(4, 4);
    assert_eq!(app.execute(Action::Save), Request::Save);
    assert_eq!(app.execute(Action::Export), Request::Export);
    assert_eq!(app.execute(Action::Copy), Request::Copy);
    assert_eq!(app.execute(Action::Nothing), Request::Nothing);
}

#[test]
fn test_save_path_default() {
    let mut app = App::new(4, 4);
    assert!(app.file_path.is_none());
    let path = app.save_path();
    assert_eq!(path, "untitled.kaku");
    assert_eq!(app.file_path.as_deref(), Some("untitled.kaku"));
    app.mark_saved();
    assert!(!app.dirty);
    assert_eq!(app.message.as_deref(), Some("Saved"));
}

#[test]
fn test_select_color_bounds() {
    let mut app = App::new(4, 4);
    app.execute(Action::SelectColor(200));
    assert_eq!(app.fg_color, 7);
    app.execute(Action::SelectColor(15));
    assert_eq!(app.fg_color, 15);
}

#[test]
fn test_message_times_out() {
    let mut app = App::new(4, 4);
    app.show_message("hello");
    assert_eq!(app.message.as_deref(), Some("hello"));
    for _ in 0..30 {
        app.tick();
    }
    assert!(app.message.is_none());
}

#[test]
fn test_load_from_session() {
    let mut canvas = kakukuma::Canvas::new(8, 8);
    canvas.set(3, 3, Cell::block(2));
    let kaku = kakukuma::kaku::KakuFile::from_canvas(&canvas);
    let app = App::load(&kaku, Some(String::from("art.kaku"))).unwrap();
    assert_eq!(app.canvas.get(3, 3), Some(&Cell::block(2)));
    assert_eq!((app.cursor.x, app.cursor.y), (0, 0));
    assert_eq!(app.file_path.as_deref(), Some("art.kaku"));

    let mut bad = kakukuma::kaku::KakuFile::from_canvas(&canvas);
    bad.version = String::from("0.9");
    assert!(App::load(&bad, None).is_err());
}

#[test]
fn test_key_table() {
    assert_eq!(handle_key(KeyInput::plain(Key::Left)), Action::Move(-1, 0));
    assert_eq!(handle_key(KeyInput::plain(Key::Char('l'))), Action::Move(1, 0));
    assert_eq!(handle_key(KeyInput::plain(Key::Home)), Action::Jump(JumpTarget::LineStart));
    assert_eq!(handle_key(KeyInput::plain(Key::Char('0'))), Action::Jump(JumpTarget::LineStart));
    assert_eq!(handle_key(KeyInput::plain(Key::End)), Action::Jump(JumpTarget::LineEnd));
    assert_eq!(handle_key(KeyInput::plain(Key::Char('G'))), Action::Jump(JumpTarget::BottomRight));
    assert_eq!(handle_key(KeyInput::plain(Key::Char('e'))), Action::SelectTool(Tool::Eraser));
    assert_eq!(handle_key(KeyInput::plain(Key::Char('f'))), Action::SelectTool(Tool::Fill));
    assert_eq!(handle_key(KeyInput::plain(Key::Char('s'))), Action::ToggleSymmetry);
    assert_eq!(handle_key(KeyInput::with_ctrl(Key::Char('s'))), Action::Save);
    assert_eq!(handle_key(KeyInput::with_ctrl(Key::Char('x'))), Action::Export);
    assert_eq!(handle_key(KeyInput::plain(Key::Char('c'))), Action::Copy);
    assert_eq!(handle_key(KeyInput::with_ctrl(Key::Char('c'))), Action::Quit);
    assert_eq!(handle_key(KeyInput::plain(Key::Char('?'))), Action::ToggleHelp);
    assert_eq!(handle_key(KeyInput::plain(Key::Char('5'))), Action::SelectColor(5));
    assert_eq!(handle_key(KeyInput::plain(Key::Char('a'))), Action::SelectColor(10));
    assert_eq!(handle_key(KeyInput::plain(Key::Char('u'))), Action::Undo);
    assert_eq!(handle_key(KeyInput::with_ctrl(Key::Char('r'))), Action::Redo);
    assert_eq!(handle_key(KeyInput::plain(Key::Char('%'))), Action::Nothing);
}

#[test]
fn test_tools_metadata() {
    assert_eq!(Tool::Brush.name(), "Brush");
    assert_eq!(Tool::Rectangle.name(), "Rect");
    assert_eq!(Tool::Fill.shortcut(), 'f');
    let all = Tool::all();
    assert_eq!(all.len(), 5);
    assert_eq!(all[0], Tool::Brush);
}

#[test]
fn test_terminal_size_check() {
    assert!(check_terminal_size(80, 24).is_ok());
    assert_eq!(check_terminal_size(40, 24), Err((60, 20)));
    assert_eq!(check_terminal_size(80, 10), Err((60, 20)));
}
