use kakukuma::canvas::Canvas;
use kakukuma::canvas::Cell;
use kakukuma::error::KakuError;
use kakukuma::kaku::KakuFile;
use kakukuma::kaku::StoredCell;
use kakukuma::kaku::decode_session;
use kakukuma::kaku::version_supported;

#[test]
fn test_roundtrip() {
    let mut canvas = Canvas::new(10, 10);
    canvas.set(2, 2, Cell::block(1));
    canvas.set(5, 5, Cell::block(2));

    let kaku = KakuFile::from_canvas(&canvas);
    let restored = kaku.to_canvas();

    assert_eq!(restored.get(2, 2), Some(&Cell::block(1)));
    assert_eq!(restored.get(5, 5), Some(&Cell::block(2)));
    assert_eq!(restored.get(0, 0), Some(&Cell::empty()));
}

#[test]
fn test_sparse_storage() {
    let mut canvas = Canvas::new(32, 32);
    canvas.set(0, 0, Cell::block(1));

    let kaku = KakuFile::from_canvas(&canvas);

    // Should only store 1 cell, not 1024
    assert_eq!(kaku.canvas.cells.len(), 1);
}

#[test]
fn test_roundtrip_dimensions() {
    let mut canvas = Canvas::new(7, 3);
    canvas.set(6, 2, Cell::new('a', 12));
    let restored = KakuFile::from_canvas(&canvas).to_canvas();
    assert_eq!(restored.width, 7);
    assert_eq!(restored.height, 3);
    assert_eq!(restored.get(6, 2), Some(&Cell::new('a', 12)));
}

#[test]
fn test_stored_cell_conversion() {
    let cell = Cell::new('k', 5);
    let stored = StoredCell::from_cell(3, 4, &cell);
    assert_eq!(stored.x, 3);
    assert_eq!(stored.y, 4);
    assert_eq!(stored.to_cell(), cell);
}

#[test]
fn test_version_supported() {
    assert!(version_supported("1.0"));
    assert!(version_supported("1.7"));
    assert!(version_supported("1."));
    assert!(!version_supported("2.0"));
    assert!(!version_supported("1"));
    assert!(!version_supported(""));
}

#[test]
fn test_decode_rejects_bad_version() {
    let mut canvas = Canvas::new(4, 4);
    canvas.set(1, 1, Cell::block(3));
    let mut kaku = KakuFile::from_canvas(&canvas);
    kaku.version = String::from("2.0");
    match decode_session(&kaku) {
        Err(KakuError::InvalidFormat(msg)) => {
            assert_eq!(msg, "Unsupported file version: 2.0");
        }
        other => panic!("expected a format error, got {:?}", other),
    }
}

#[test]
fn test_decode_accepts_any_one_dot_version() {
    let canvas = Canvas::new(4, 4);
    let mut kaku = KakuFile::from_canvas(&canvas);
    kaku.version = String::from("1.9");
    assert!(decode_session(&kaku).is_ok());
}

#[test]
fn test_decode_reclamps_size() {
    let canvas = Canvas::new(4, 4);
    let mut kaku = KakuFile::from_canvas(&canvas);
    kaku.canvas.width = 100;
    kaku.canvas.height = 50;
    let restored = decode_session(&kaku).unwrap();
    assert_eq!(restored.width, 32);
    assert_eq!(restored.height, 32);
}

#[test]
fn test_decode_drops_out_of_bounds_cells() {
    let canvas = Canvas::new(4, 4);
    let mut kaku = KakuFile::from_canvas(&canvas);
    kaku.canvas.cells.push(StoredCell {
        x: 9,
        y: 9,
        char: '█',
        fg: 1,
        bg: 0,
    });
    let restored = kaku.to_canvas();
    for (_, _, cell) in restored.iter() {
        assert_eq!(cell, Cell::empty());
    }
}

#[test]
fn test_metadata_fresh() {
    let canvas = Canvas::new(4, 4);
    let kaku = KakuFile::from_canvas(&canvas);
    assert_eq!(kaku.version, "1.0");
    assert!(kaku.metadata.author.is_none());
    assert_eq!(kaku.metadata.created, kaku.metadata.modified);
}

#[test]
fn test_touch_keeps_canvas() {
    let mut canvas = Canvas::new(4, 4);
    canvas.set(0, 0, Cell::block(1));
    let mut kaku = KakuFile::from_canvas(&canvas);
    kaku.touch();
    assert_eq!(kaku.canvas.cells.len(), 1);
    assert_eq!(kaku.version, "1.0");
}
