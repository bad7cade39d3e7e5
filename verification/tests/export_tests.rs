use kakukuma::canvas::Canvas;
use kakukuma::canvas::Cell;
use kakukuma::export::export_ansi;
use kakukuma::export::export_plain;

#[test]
fn test_export_ansi_simple() {
    let mut canvas = Canvas::new(3, 1);
    canvas.set(0, 0, Cell::block(1)); // Red block

    let output = export_ansi(&canvas, true);
    assert!(output.contains("\x1b[31m")); // Red color code
    assert!(output.contains('█'));
}

#[test]
fn test_export_plain() {
    let mut canvas = Canvas::new(3, 1);
    canvas.set(0, 0, Cell::block(1));
    canvas.set(1, 0, Cell::block(2));

    let output = export_plain(&canvas, true);
    assert_eq!(output, "██");
}

#[test]
fn test_export_trim() {
    let mut canvas = Canvas::new(5, 3);
    canvas.set(1, 1, Cell::block(1));

    let output = export_plain(&canvas, true);
    let lines: Vec<&str> = output.lines().collect();

    // First line should be empty (trimmed)
    assert!(lines[0].is_empty() || lines.len() == 2);
}

#[test]
fn test_export_ansi_red_block_then_space() {
    // A 3x1 canvas with a red block at the origin: the red escape comes
    // directly before the glyph and a reset follows at the transition
    // to the blank cell.
    let mut canvas = Canvas::new(3, 1);
    canvas.set(0, 0, Cell::block(1));

    let output = export_ansi(&canvas, true);
    assert!(output.contains("\x1b[31m█"));
    let red_at = output.find("\x1b[31m█").unwrap();
    let reset_at = output.find("\x1b[0m").unwrap();
    assert!(reset_at > red_at);
}

#[test]
fn test_export_ansi_bright_color() {
    let mut canvas = Canvas::new(2, 1);
    canvas.set(0, 0, Cell::block(9));
    let output = export_ansi(&canvas, true);
    assert!(output.contains("\x1b[91m"));
}

#[test]
fn test_export_ansi_single_escape_per_run() {
    // Two adjacent cells of one color share one escape.
    let mut canvas = Canvas::new(4, 1);
    canvas.set(0, 0, Cell::block(2));
    canvas.set(1, 0, Cell::block(2));
    canvas.set(2, 0, Cell::block(3));
    let output = export_ansi(&canvas, true);
    assert_eq!(output.matches("\x1b[32m").count(), 1);
    assert_eq!(output.matches("\x1b[33m").count(), 1);
}

#[test]
fn test_export_plain_untrimmed() {
    let mut canvas = Canvas::new(3, 2);
    canvas.set(0, 0, Cell::block(1));
    let output = export_plain(&canvas, false);
    assert_eq!(output, "█  \n   ");
}

#[test]
fn test_export_plain_interior_blank_row_kept() {
    let mut canvas = Canvas::new(2, 3);
    canvas.set(0, 0, Cell::block(1));
    canvas.set(0, 2, Cell::block(1));
    let output = export_plain(&canvas, true);
    assert_eq!(output, "█\n\n█");
}
