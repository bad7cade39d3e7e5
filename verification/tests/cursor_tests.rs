use kakukuma::Cursor;

#[test]
fn test_cursor_new() {
    let cursor = Cursor::new();
    assert_eq!(cursor.x, 0);
    assert_eq!(cursor.y, 0);
}

#[test]
fn test_cursor_move() {
    let mut cursor = Cursor { x: 5, y: 5 };
    cursor.move_by(1, 0, (10, 10));
    assert_eq!(cursor.x, 6);
    assert_eq!(cursor.y, 5);
}

#[test]
fn test_cursor_move_negative() {
    let mut cursor = Cursor { x: 5, y: 5 };
    cursor.move_by(-2, -3, (10, 10));
    assert_eq!(cursor.x, 3);
    assert_eq!(cursor.y, 2);
}

#[test]
fn test_cursor_bounds_max() {
    let mut cursor = Cursor { x: 9, y: 9 };
    cursor.move_by(5, 5, (10, 10));
    assert_eq!(cursor.x, 9);
    assert_eq!(cursor.y, 9);
}

#[test]
fn test_cursor_bounds_min() {
    let mut cursor = Cursor { x: 0, y: 0 };
    cursor.move_by(-5, -5, (10, 10));
    assert_eq!(cursor.x, 0);
    assert_eq!(cursor.y, 0);
}

#[test]
fn test_cursor_jump() {
    let mut cursor = Cursor::new();
    cursor.jump_to(5, 5, (10, 10));
    assert_eq!(cursor.x, 5);
    assert_eq!(cursor.y, 5);
}

#[test]
fn test_cursor_jump_clamp() {
    let mut cursor = Cursor::new();
    cursor.jump_to(100, 100, (10, 10));
    assert_eq!(cursor.x, 9);
    assert_eq!(cursor.y, 9);
}

#[test]
fn test_cursor_corners() {
    let mut cursor = Cursor { x: 5, y: 5 };
    cursor.top_left();
    assert_eq!(cursor.x, 0);
    assert_eq!(cursor.y, 0);

    cursor.bottom_right((10, 10));
    assert_eq!(cursor.x, 9);
    assert_eq!(cursor.y, 9);
}

#[test]
fn test_cursor_home_end() {
    let mut cursor = Cursor::at(4, 7);
    cursor.home();
    assert_eq!(cursor.x, 0);
    assert_eq!(cursor.y, 7);
    cursor.end(12);
    assert_eq!(cursor.x, 11);
    assert_eq!(cursor.y, 7);
}

#[test]
fn test_cursor_zero_bounds() {
    let mut cursor = Cursor::at(3, 3);
    cursor.move_by(1, 1, (0, 0));
    assert_eq!(cursor.x, 0);
    assert_eq!(cursor.y, 0);
}
