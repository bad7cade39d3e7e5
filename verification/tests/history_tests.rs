use kakukuma::canvas::Cell;
use kakukuma::history::Operation;
use kakukuma::history::UndoHistory;

#[test]
fn test_push_and_undo() {
    let mut history = UndoHistory::new(10);
    let op = Operation::set_cell(0, 0, Cell::empty(), Cell::block_default());
    history.push(op);

    assert!(history.can_undo());
    assert!(!history.can_redo());

    let undone = history.undo();
    assert!(undone.is_some());
    assert!(!history.can_undo());
    assert!(history.can_redo());
}

#[test]
fn test_redo() {
    let mut history = UndoHistory::new(10);
    history.push(Operation::set_cell(0, 0, Cell::empty(), Cell::block_default()));
    history.undo();

    let redone = history.redo();
    assert!(redone.is_some());
    assert!(history.can_undo());
    assert!(!history.can_redo());
}

#[test]
fn test_new_op_clears_redo() {
    let mut history = UndoHistory::new(10);
    history.push(Operation::set_cell(0, 0, Cell::empty(), Cell::block_default()));
    history.undo();
    assert!(history.can_redo());

    // New operation should clear redo stack
    history.push(Operation::set_cell(1, 1, Cell::empty(), Cell::block_default()));
    assert!(!history.can_redo());
}

#[test]
fn test_max_size() {
    let mut history = UndoHistory::new(3);
    for i in 0..5 {
        history.push(Operation::set_cell(i, 0, Cell::empty(), Cell::block_default()));
    }
    assert_eq!(history.undo_count(), 3);
}

#[test]
fn test_max_size_keeps_newest() {
    let mut history = UndoHistory::new(3);
    for i in 0..5 {
        history.push(Operation::set_cell(i, 0, Cell::empty(), Cell::block_default()));
    }
    // The three most recent pushes (x = 4, 3, 2) come back, oldest gone.
    for expected in [4u16, 3, 2] {
        match history.undo() {
            Some(Operation::SetCell { x, .. }) => assert_eq!(x, expected),
            other => panic!("unexpected operation: {:?}", other),
        }
    }
    assert!(!history.can_undo());
}

#[test]
fn test_clear_and_counts() {
    let mut history = UndoHistory::new(5);
    history.push(Operation::set_cell(0, 0, Cell::empty(), Cell::block_default()));
    history.push(Operation::set_cells(vec![(1, 1, Cell::empty(), Cell::block(2))]));
    assert_eq!(history.undo_count(), 2);
    history.undo();
    assert_eq!(history.redo_count(), 1);
    history.clear();
    assert_eq!(history.undo_count(), 0);
    assert_eq!(history.redo_count(), 0);
}

#[test]
fn test_default_depth() {
    let history = UndoHistory::default();
    assert_eq!(history.max_size, 50);
    assert!(!history.can_undo());
    assert!(!history.can_redo());
}
