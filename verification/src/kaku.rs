//! The .kaku session format: a versioned sparse snapshot of a canvas.
//!
//! The engine builds and consumes [`KakuFile`] values; turning them
//! into JSON on disk is the front end's work.

use vstd::prelude::*;

use crate::canvas::Canvas;
use crate::canvas::Cell;
use crate::canvas::MAX_SIZE;
use crate::error::KakuError;

verus! {

/// A stored cell (sparse representation).
#[derive(Clone, Copy, PartialEq, Eq, Structural, Debug)]
pub struct StoredCell {
    pub x: u16,
    pub y: u16,
    pub char: char,
    pub fg: u8,
    pub bg: u8,
}

impl StoredCell {
    /// The canvas cell this entry stores.
    pub open spec fn cell_spec(self) -> Cell {
        Cell { char: self.char, fg: self.fg, bg: self.bg }
    }

    /// Store a cell together with its position.
    pub fn from_cell(x: u16, y: u16, cell: &Cell) -> (s: StoredCell)
        ensures
            s == (StoredCell { x, y, char: cell.char, fg: cell.fg, bg: cell.bg }),
    {
        StoredCell { x, y, char: cell.char, fg: cell.fg, bg: cell.bg }
    }

    /// Recover the canvas cell.
    pub fn to_cell(&self) -> (c: Cell)
        ensures
            c == self.cell_spec(),
    {
        Cell { char: self.char, fg: self.fg, bg: self.bg }
    }
}

/// A non-empty canvas entry as `StoredCell` records it.
pub open spec fn stored_of(t: (u16, u16, Cell)) -> StoredCell {
    StoredCell { x: t.0, y: t.1, char: t.2.char, fg: t.2.fg, bg: t.2.bg }
}

/// Canvas data in the file format.
#[derive(Clone, Debug)]
pub struct StoredCanvas {
    pub width: u16,
    pub height: u16,
    pub cells: Vec<StoredCell>,
}

/// File metadata: ISO-8601 timestamps and an optional author.
#[derive(Clone, Debug)]
pub struct Metadata {
    pub created: String,
    pub modified: String,
    pub author: Option<String>,
}

impl Default for Metadata {
    /// Fresh metadata: both timestamps read the same moment, no author.
    fn default() -> (m: Metadata)
        ensures
            m.created@ == m.modified@,
            m.author is None,
    {
        let now = now_timestamp();
        let copy = now.clone();
        Metadata { created: now, modified: copy, author: None }
    }
}

/// The .kaku file: version tag, sparse canvas, metadata.
#[derive(Clone, Debug)]
pub struct KakuFile {
    pub version: String,
    pub canvas: StoredCanvas,
    pub metadata: Metadata,
}

/// A version tag the loader accepts: any "1." major.
pub open spec fn version_ok(v: Seq<char>) -> bool {
    v.len() >= 2 && v[0] == '1' && v[1] == '.'
}

/// The grid a sparse cell list rebuilds on a w-by-h canvas: start
/// empty, write each entry in order through the bounds-checked setter
/// (entries off the canvas are dropped).
pub open spec fn decoded_grid(w: int, h: int, cells: Seq<StoredCell>) -> Seq<Cell>
    decreases cells.len(),
{
    if cells.len() == 0 {
        Seq::new((w * h) as nat, |i: int| Cell::empty_spec())
    } else {
        let g = decoded_grid(w, h, cells.drop_last());
        let s = cells.last();
        if (s.x as int) < w && (s.y as int) < h {
            g.update((s.y as int) * w + (s.x as int), s.cell_spec())
        } else {
            g
        }
    }
}

impl KakuFile {
    /// The version tag this build writes.
    pub fn current_version() -> (s: &'static str)
        ensures
            s@ =~= seq!['1', '.', '0'],
    {
        proof {
            reveal_strlit("1.0");
        }
        "1.0"
    }

    /// Snapshot a canvas: only its non-empty cells are stored, wrapped
    /// with the dimensions, the current version tag and fresh metadata.
    pub fn from_canvas(canvas: &Canvas) -> (k: KakuFile)
        requires
            canvas.wf(),
        ensures
            k.version@ =~= seq!['1', '.', '0'],
            k.canvas.width == canvas.width,
            k.canvas.height == canvas.height,
            k.canvas.cells@ == canvas.iter_spec().filter(
                |t: (u16, u16, Cell)| !t.2.is_empty_spec(),
            ).map_values(|t: (u16, u16, Cell)| stored_of(t)),
            k.metadata.created@ == k.metadata.modified@,
            k.metadata.author is None,
    {
        let entries = canvas.iter_non_empty();
        let ghost source = entries@;
        let mut cells: Vec<StoredCell> = Vec::new();
        let n = entries.len();
        let mut i: usize = 0;
        while i < n
            invariant
                i <= n,
                n == source.len(),
                entries@ == source,
                cells@ =~= source.take(i as int).map_values(|t: (u16, u16, Cell)| stored_of(t)),
            decreases n - i,
        {
            let t = entries[i];
            cells.push(StoredCell::from_cell(t.0, t.1, &t.2));
            proof {
                assert(cells@ =~= source.take(i + 1).map_values(
                    |t: (u16, u16, Cell)| stored_of(t),
                ));
            }
            i = i + 1;
        }
        proof {
            assert(source.take(n as int) =~= source);
        }
        KakuFile {
            version: String::from_str(KakuFile::current_version()),
            canvas: StoredCanvas { width: canvas.width, height: canvas.height, cells },
            metadata: Metadata::default(),
        }
    }

    /// Rebuild a canvas at the stored size (re-clamped to the cap),
    /// applying every stored cell through the bounds-checked setter.
    pub fn to_canvas(&self) -> (c: Canvas)
        ensures
            c.wf(),
            c.width == if self.canvas.width <= MAX_SIZE {
                self.canvas.width
            } else {
                MAX_SIZE
            },
            c.height == if self.canvas.height <= MAX_SIZE {
                self.canvas.height
            } else {
                MAX_SIZE
            },
            c.grid() == decoded_grid(c.width as int, c.height as int, self.canvas.cells@),
    {
        let mut canvas = Canvas::new(self.canvas.width, self.canvas.height);
        let ghost w = canvas.width as int;
        let ghost h = canvas.height as int;
        proof {
            assert(canvas.grid() =~= decoded_grid(w, h, self.canvas.cells@.take(0)));
        }
        let n = self.canvas.cells.len();
        let mut i: usize = 0;
        while i < n
            invariant
                i <= n,
                n == self.canvas.cells@.len(),
                canvas.wf(),
                canvas.width as int == w,
                canvas.height as int == h,
                canvas.grid() == decoded_grid(w, h, self.canvas.cells@.take(i as int)),
            decreases n - i,
        {
            let stored = &self.canvas.cells[i];
            canvas.set(stored.x, stored.y, stored.to_cell());
            proof {
                let part = self.canvas.cells@.take(i + 1);
                assert(part.drop_last() =~= self.canvas.cells@.take(i as int));
                assert(part.last() == self.canvas.cells@[i as int]);
                assert(canvas.grid() == decoded_grid(w, h, part));
            }
            i = i + 1;
        }
        proof {
            assert(self.canvas.cells@.take(n as int) =~= self.canvas.cells@);
        }
        canvas
    }

    /// Update the modified timestamp.
    pub fn touch(&mut self)
        ensures
            final(self).version == old(self).version,
            final(self).canvas == old(self).canvas,
            final(self).metadata.created == old(self).metadata.created,
            final(self).metadata.author == old(self).metadata.author,
    {
        self.metadata.modified = now_timestamp();
    }
}

/// Whether the loader accepts this version tag: any "1." major.
pub fn version_supported(version: &str) -> (r: bool)
    ensures
        r == version_ok(version@),
{
    if version.unicode_len() < 2 {
        return false;
    }
    let c0 = version.get_char(0);
    let c1 = version.get_char(1);
    c0 == '1' && c1 == '.'
}

/// Check the version and rebuild the canvas from a session file. Any
/// "1." version is accepted; anything else is a format error naming the
/// offending tag, and no canvas is produced.
pub fn decode_session(file: &KakuFile) -> (r: Result<Canvas, KakuError>)
    ensures
        r is Ok <==> version_ok(file.version@),
        r matches Ok(c) ==> {
            &&& c.wf()
            &&& c.width == if file.canvas.width <= MAX_SIZE {
                file.canvas.width
            } else {
                MAX_SIZE
            }
            &&& c.height == if file.canvas.height <= MAX_SIZE {
                file.canvas.height
            } else {
                MAX_SIZE
            }
            &&& c.grid() == decoded_grid(c.width as int, c.height as int, file.canvas.cells@)
        },
        r matches Err(e) ==> e matches KakuError::InvalidFormat(m) && m@ == "Unsupported file version: "@
            + file.version@,
    {
    if !version_supported(file.version.as_str()) {
        let msg = String::from_str("Unsupported file version: ").concat(file.version.as_str());
        return Err(KakuError::InvalidFormat(msg));
    }
    Ok(file.to_canvas())
}

/// The sparse entries a snapshot of the first k grid positions keeps:
/// the non-empty ones, in row-major order.
pub open spec fn sparse_prefix(c: Canvas, k: int) -> Seq<StoredCell> {
    c.iter_spec().take(k).filter(|t: (u16, u16, Cell)| !t.2.is_empty_spec()).map_values(
        |t: (u16, u16, Cell)| stored_of(t),
    )
}

/// Rebuilding from the sparse entries of the first k positions restores
/// each of those positions that was non-empty, and leaves everything
/// else empty.
proof fn lemma_round_trip_prefix(c: Canvas, k: int)
    requires
        c.wf(),
        0 <= k <= c.grid().len(),
    ensures
        decoded_grid(c.width as int, c.height as int, sparse_prefix(c, k)).len()
            == c.grid().len(),
        forall|p: int|
            0 <= p < c.grid().len() ==> decoded_grid(
                c.width as int,
                c.height as int,
                sparse_prefix(c, k),
            )[p] == if p < k && !c.grid()[p].is_empty_spec() {
                c.grid()[p]
            } else {
                Cell::empty_spec()
            },
    decreases k,
{
    let w = c.width as int;
    let h = c.height as int;
    let pred = |t: (u16, u16, Cell)| !t.2.is_empty_spec();
    let f = |t: (u16, u16, Cell)| stored_of(t);
    reveal_with_fuel(Seq::filter, 2);
    if k == 0 {
        assert(c.iter_spec().take(0) =~= Seq::<(u16, u16, Cell)>::empty());
        assert(sparse_prefix(c, 0) =~= Seq::<StoredCell>::empty());
    } else {
        lemma_round_trip_prefix(c, k - 1);
        let part = c.iter_spec().take(k);
        assert(part.drop_last() =~= c.iter_spec().take(k - 1));
        let t = c.iter_spec()[k - 1];
        assert(part.last() == t);
        // The entry at position k - 1 encodes exactly that grid index:
        // its coordinates divide back to k - 1.
        assert(0 < w) by (nonlinear_arith)
            requires
                0 <= w,
                0 <= k - 1,
                k - 1 < w * h,
        ;
        assert((k - 1) / w < h && 0 <= (k - 1) % w < w) by (nonlinear_arith)
            requires
                w > 0,
                0 <= k - 1 < w * h,
        ;
        vstd::arithmetic::div_mod::lemma_fundamental_div_mod(k - 1, w);
        vstd::arithmetic::mul::lemma_mul_is_commutative((k - 1) / w, w);
        assert(t.0 as int == (k - 1) % w && t.1 as int == (k - 1) / w && t.2 == c.grid()[k - 1]);
        assert((t.1 as int) * w + t.0 as int == k - 1);
        if pred(t) {
            assert(part.filter(pred) == part.drop_last().filter(pred).push(t));
            assert(sparse_prefix(c, k) =~= sparse_prefix(c, k - 1).push(f(t)));
            let base = decoded_grid(w, h, sparse_prefix(c, k - 1));
            let s = f(t);
            assert(sparse_prefix(c, k).drop_last() =~= sparse_prefix(c, k - 1));
            assert(sparse_prefix(c, k).last() == s);
            assert(decoded_grid(w, h, sparse_prefix(c, k)) == base.update(k - 1, s.cell_spec()));
            assert(s.cell_spec() == c.grid()[k - 1]);
        } else {
            assert(part.filter(pred) == part.drop_last().filter(pred));
            assert(sparse_prefix(c, k) =~= sparse_prefix(c, k - 1));
            assert(c.grid()[k - 1].is_empty_spec());
        }
    }
}

/// Round-trip law: snapshotting a canvas and rebuilding from the
/// snapshot reproduces the dimensions exactly, every non-empty cell
/// bit for bit, and leaves every other position empty.
pub proof fn lemma_session_round_trip(c: Canvas)
    requires
        c.wf(),
    ensures
        decoded_grid(
            c.width as int,
            c.height as int,
            c.iter_spec().filter(|t: (u16, u16, Cell)| !t.2.is_empty_spec()).map_values(
                |t: (u16, u16, Cell)| stored_of(t),
            ),
        ).len() == c.grid().len(),
        forall|p: int|
            0 <= p < c.grid().len() ==> decoded_grid(
                c.width as int,
                c.height as int,
                c.iter_spec().filter(|t: (u16, u16, Cell)| !t.2.is_empty_spec()).map_values(
                    |t: (u16, u16, Cell)| stored_of(t),
                ),
            )[p] == if !c.grid()[p].is_empty_spec() {
                c.grid()[p]
            } else {
                Cell::empty_spec()
            },
{
    let n = c.grid().len() as int;
    lemma_round_trip_prefix(c, n);
    assert(c.iter_spec().take(n) =~= c.iter_spec());
    assert(sparse_prefix(c, n) == c.iter_spec().filter(
        |t: (u16, u16, Cell)| !t.2.is_empty_spec(),
    ).map_values(|t: (u16, u16, Cell)| stored_of(t)));
}

/// Relies on chrono::Utc::now and DateTime::to_rfc3339 for the current
/// time as an ISO-8601 string. Nothing is promised of the value.
#[verifier::external_body]
fn now_timestamp() -> (s: String) {
    chrono::Utc::now().to_rfc3339()
}

} // verus!
