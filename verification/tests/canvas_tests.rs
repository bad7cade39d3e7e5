use kakukuma::canvas::Canvas;
use kakukuma::canvas::Cell;
use kakukuma::canvas::MAX_SIZE;

#[test]
fn test_cell_default() {
    let cell = Cell::default();
    assert_eq!(cell, Cell::empty());
    assert!(cell.is_empty());
}

#[test]
fn test_cell_block() {
    let cell = Cell::block(1);
    assert_eq!(cell.char, '█');
    assert_eq!(cell.fg, 1);
    assert!(!cell.is_empty());
}

#[test]
fn test_canvas_new() {
    let canvas = Canvas::new(32, 32);
    assert_eq!(canvas.width, 32);
    assert_eq!(canvas.height, 32);
}

#[test]
fn test_canvas_max_size() {
    let canvas = Canvas::new(100, 100);
    assert_eq!(canvas.width, MAX_SIZE);
    assert_eq!(canvas.height, MAX_SIZE);
}

#[test]
fn test_canvas_get_set() {
    let mut canvas = Canvas::new(10, 10);
    canvas.set(5, 5, Cell::block_default());
    assert_eq!(canvas.get(5, 5), Some(&Cell::block_default()));
}

#[test]
fn test_canvas_bounds() {
    let canvas = Canvas::new(10, 10);
    assert_eq!(canvas.get(100, 100), None);
}

#[test]
fn test_canvas_fill() {
    let mut canvas = Canvas::new(5, 5);
    canvas.fill(Cell::block_default());
    for (_, _, cell) in canvas.iter() {
        assert_eq!(cell, Cell::block_default());
    }
}

#[test]
fn test_canvas_iter_non_empty() {
    let mut canvas = Canvas::new(5, 5);
    canvas.set(2, 2, Cell::block_default());
    canvas.set(3, 3, Cell::block_default());
    let non_empty: Vec<_> = canvas.iter_non_empty();
    assert_eq!(non_empty.len(), 2);
}

#[test]
fn test_canvas_get_mut() {
    let mut canvas = Canvas::new(4, 4);
    if let Some(cell) = canvas.get_mut(1, 2) {
        *cell = Cell::block(5);
    }
    assert_eq!(canvas.get(1, 2), Some(&Cell::block(5)));
    assert!(canvas.get_mut(9, 9).is_none());
}

#[test]
fn test_canvas_clear() {
    let mut canvas = Canvas::new(3, 3);
    canvas.fill(Cell::block(2));
    canvas.clear();
    for (_, _, cell) in canvas.iter() {
        assert_eq!(cell, Cell::empty());
    }
}

#[test]
fn test_canvas_iter_coordinates() {
    let canvas = Canvas::new(3, 2);
    let all = canvas.iter();
    assert_eq!(all.len(), 6);
    assert_eq!((all[0].0, all[0].1), (0, 0));
    assert_eq!((all[2].0, all[2].1), (2, 0));
    assert_eq!((all[3].0, all[3].1), (0, 1));
    assert_eq!((all[5].0, all[5].1), (2, 1));
}

#[test]
fn test_cell_new() {
    let cell = Cell::new('x', 4);
    assert_eq!(cell.char, 'x');
    assert_eq!(cell.fg, 4);
    assert_eq!(cell.bg, 0);
}

#[test]
fn test_canvas_cells_slice() {
    let canvas = Canvas::new(4, 2);
    assert_eq!(canvas.cells().len(), 8);
}
