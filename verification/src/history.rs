//! Undo/redo history management.
//!
//! An [`Operation`] is an immutable, exactly reversible record of one or
//! more single-cell diffs. [`UndoHistory`] keeps two bounded stacks of
//! operations and never touches a canvas itself; the spec functions here
//! say what applying or reverting an operation does to a grid, and the
//! proof functions establish the inverse laws the engine relies on.

use vstd::prelude::*;

use crate::canvas::Cell;
use crate::canvas::lemma_index_bound;
use crate::canvas::lemma_index_injective;

verus! {

/// One single-cell diff: position, the cell before, the cell after.
pub type Change = (u16, u16, Cell, Cell);

/// An operation that can be undone/redone.
#[derive(Clone, Debug)]
pub enum Operation {
    /// Single cell change
    SetCell { x: u16, y: u16, before: Cell, after: Cell },
    /// Multiple cell changes (e.g., from fill or mirrored drawing)
    SetCells { changes: Vec<Change> },
}

impl Operation {
    /// Create a single cell operation.
    pub fn set_cell(x: u16, y: u16, before: Cell, after: Cell) -> (op: Operation)
        ensures
            op == (Operation::SetCell { x, y, before, after }),
    {
        Operation::SetCell { x, y, before, after }
    }

    /// Create a multi-cell operation.
    pub fn set_cells(changes: Vec<Change>) -> (op: Operation)
        ensures
            op == (Operation::SetCells { changes }),
    {
        Operation::SetCells { changes }
    }

    /// The diffs an operation records, in application order.
    pub open spec fn changes(self) -> Seq<Change> {
        match self {
            Operation::SetCell { x, y, before, after } => seq![(x, y, before, after)],
            Operation::SetCells { changes } => changes@,
        }
    }

    /// Copy an operation, field for field. The copy records the same
    /// changes; a single-cell operation is copied exactly.
    pub fn duplicate(&self) -> (r: Operation)
        ensures
            op_like(r, *self),
            self is SetCell ==> r == self,
    {
        match self {
            Operation::SetCell { x, y, before, after } => Operation::SetCell {
                x: *x,
                y: *y,
                before: *before,
                after: *after,
            },
            Operation::SetCells { changes } => {
                let mut copy: Vec<Change> = Vec::new();
                let n = changes.len();
                let mut i: usize = 0;
                while i < n
                    invariant
                        i <= n,
                        n == changes@.len(),
                        copy@ =~= changes@.take(i as int),
                    decreases n - i,
                {
                    copy.push(changes[i]);
                    proof {
                        assert(copy@ =~= changes@.take(i + 1));
                    }
                    i = i + 1;
                }
                proof {
                    assert(changes@.take(n as int) =~= changes@);
                }
                Operation::SetCells { changes: copy }
            },
        }
    }
}

/// Two operations that record the same changes in the same shape. A
/// copied multi-cell operation holds a fresh vector, so it is related to
/// its original by the diffs it records rather than by value.
pub open spec fn op_like(a: Operation, b: Operation) -> bool {
    a.changes() == b.changes() && (a is SetCell <==> b is SetCell)
}

/// The cell a change writes: the `after` value going forward, the
/// `before` value when reverting.
pub open spec fn written(c: Change, forward: bool) -> Cell {
    if forward {
        c.3
    } else {
        c.2
    }
}

/// Whether a change's position lies on a w-by-h grid.
pub open spec fn change_in_bounds(c: Change, w: int, h: int) -> bool {
    (c.0 as int) < w && (c.1 as int) < h
}

/// Row-major index of a change's position.
pub open spec fn change_idx(c: Change, w: int) -> int {
    (c.1 as int) * w + (c.0 as int)
}

/// No two changes touch the same position.
pub open spec fn distinct_coords(cs: Seq<Change>) -> bool {
    forall|i: int, j: int|
        0 <= i < j < cs.len() ==> (#[trigger] cs[i].0, cs[i].1) != (#[trigger] cs[j].0, cs[j].1)
}

/// Write one change onto a grid; positions off the grid are dropped.
pub open spec fn write_change(g: Seq<Cell>, w: int, h: int, c: Change, forward: bool) -> Seq<
    Cell,
> {
    if change_in_bounds(c, w, h) {
        g.update(change_idx(c, w), written(c, forward))
    } else {
        g
    }
}

/// Write a list of changes onto a grid, in order.
pub open spec fn write_changes(g: Seq<Cell>, w: int, h: int, cs: Seq<Change>, forward: bool) -> Seq<
    Cell,
>
    decreases cs.len(),
{
    if cs.len() == 0 {
        g
    } else {
        write_changes(write_change(g, w, h, cs.first(), forward), w, h, cs.drop_first(), forward)
    }
}

/// Apply an operation to a grid (the direction redo takes).
pub open spec fn apply_op(g: Seq<Cell>, w: int, h: int, op: Operation) -> Seq<Cell> {
    write_changes(g, w, h, op.changes(), true)
}

/// Revert an operation on a grid (the direction undo takes).
pub open spec fn revert_op(g: Seq<Cell>, w: int, h: int, op: Operation) -> Seq<Cell> {
    write_changes(g, w, h, op.changes(), false)
}

/// An operation is a faithful diff of a grid in the given direction:
/// its positions are distinct and every in-bounds change's written-side
/// value is what the grid already holds. Forward faithfulness means the
/// grid looks like the operation was just applied, so reverting it is
/// meaningful; backward faithfulness is the symmetric condition.
pub open spec fn op_matches(g: Seq<Cell>, w: int, h: int, op: Operation, forward: bool) -> bool {
    &&& distinct_coords(op.changes())
    &&& forall|i: int|
        0 <= i < op.changes().len() && change_in_bounds(#[trigger] op.changes()[i], w, h)
            ==> g[change_idx(op.changes()[i], w)] == written(op.changes()[i], forward)
}

/// Writing changes keeps the grid's length.
pub proof fn lemma_write_changes_len(g: Seq<Cell>, w: int, h: int, cs: Seq<Change>, forward: bool)
    requires
        g.len() == w * h,
        0 <= w,
        0 <= h,
    ensures
        write_changes(g, w, h, cs, forward).len() == g.len(),
    decreases cs.len(),
{
    if cs.len() > 0 {
        if change_in_bounds(cs.first(), w, h) {
            lemma_index_bound(cs.first().0 as int, cs.first().1 as int, w, h);
        }
        lemma_write_changes_len(write_change(g, w, h, cs.first(), forward), w, h, cs.drop_first(), forward);
    }
}

/// Pointwise reading of a batch write with distinct positions: every
/// in-bounds change lands at its own index, and positions no change
/// touches keep their old value.
pub proof fn lemma_write_changes_pointwise(
    g: Seq<Cell>,
    w: int,
    h: int,
    cs: Seq<Change>,
    forward: bool,
)
    requires
        g.len() == w * h,
        0 <= w,
        0 <= h,
        distinct_coords(cs),
    ensures
        write_changes(g, w, h, cs, forward).len() == g.len(),
        forall|i: int|
            0 <= i < cs.len() && change_in_bounds(#[trigger] cs[i], w, h) ==> write_changes(
                g,
                w,
                h,
                cs,
                forward,
            )[change_idx(cs[i], w)] == written(cs[i], forward),
        forall|p: int|
            0 <= p < g.len() && (forall|i: int|
                0 <= i < cs.len() ==> !(change_in_bounds(#[trigger] cs[i], w, h) && change_idx(
                    cs[i],
                    w,
                ) == p)) ==> write_changes(g, w, h, cs, forward)[p] == g[p],
    decreases cs.len(),
{
    lemma_write_changes_len(g, w, h, cs, forward);
    if cs.len() > 0 {
        let c0 = cs.first();
        let g1 = write_change(g, w, h, c0, forward);
        let rest = cs.drop_first();
        let out = write_changes(g, w, h, cs, forward);
        assert(out == write_changes(g1, w, h, rest, forward));
        if change_in_bounds(c0, w, h) {
            lemma_index_bound(c0.0 as int, c0.1 as int, w, h);
        }
        assert(distinct_coords(rest)) by {
            assert forall|i: int, j: int| 0 <= i < j < rest.len() implies (
            #[trigger] rest[i].0,
            rest[i].1,
            ) != (#[trigger] rest[j].0, rest[j].1) by {
                assert(rest[i] == cs[i + 1]);
                assert(rest[j] == cs[j + 1]);
            }
        }
        lemma_write_changes_pointwise(g1, w, h, rest, forward);
        // The first change's position is untouched by the rest: positions
        // are distinct, and distinct in-bounds positions have distinct
        // row-major indices.
        if change_in_bounds(c0, w, h) {
            let p0 = change_idx(c0, w);
            assert forall|i: int| 0 <= i < rest.len() implies !(change_in_bounds(
                #[trigger] rest[i],
                w,
                h,
            ) && change_idx(rest[i], w) == p0) by {
                assert(rest[i] == cs[i + 1]);
                if change_in_bounds(rest[i], w, h) && change_idx(rest[i], w) == p0 {
                    lemma_index_injective(
                        c0.0 as int,
                        c0.1 as int,
                        rest[i].0 as int,
                        rest[i].1 as int,
                        w,
                        h,
                    );
                    assert((cs[0].0, cs[0].1) != (cs[i + 1].0, cs[i + 1].1));
                }
            }
            assert(g1[p0] == written(c0, forward));
            assert(out[p0] == g1[p0]);
        }
        assert forall|i: int|
            0 <= i < cs.len() && change_in_bounds(#[trigger] cs[i], w, h) implies out[change_idx(
            cs[i],
            w,
        )] == written(cs[i], forward) by {
            if i > 0 {
                assert(cs[i] == rest[i - 1]);
                assert(out[change_idx(rest[i - 1], w)] == written(rest[i - 1], forward));
            }
        }
        assert forall|p: int|
            0 <= p < g.len() && (forall|i: int|
                0 <= i < cs.len() ==> !(change_in_bounds(#[trigger] cs[i], w, h) && change_idx(
                    cs[i],
                    w,
                ) == p)) implies out[p] == g[p] by {
            assert(!(change_in_bounds(cs[0], w, h) && change_idx(cs[0], w) == p));
            assert(g1[p] == g[p]);
            assert forall|j: int| 0 <= j < rest.len() implies !(change_in_bounds(
                #[trigger] rest[j],
                w,
                h,
            ) && change_idx(rest[j], w) == p) by {
                assert(rest[j] == cs[j + 1]);
            }
            assert(out[p] == g1[p]);
        }
    }
}

/// Appending one change to a batch writes it last.
pub proof fn lemma_write_changes_push(
    g: Seq<Cell>,
    w: int,
    h: int,
    cs: Seq<Change>,
    c: Change,
    forward: bool,
)
    ensures
        write_changes(g, w, h, cs.push(c), forward) == write_change(
            write_changes(g, w, h, cs, forward),
            w,
            h,
            c,
            forward,
        ),
    decreases cs.len(),
{
    let s1 = cs.push(c);
    if cs.len() == 0 {
        assert(s1.first() == c);
        assert(s1.drop_first() =~= Seq::<Change>::empty());
        assert(write_changes(g, w, h, s1, forward) == write_changes(
            write_change(g, w, h, c, forward),
            w,
            h,
            s1.drop_first(),
            forward,
        ));
        assert(write_changes(g, w, h, cs, forward) == g);
    } else {
        let g1 = write_change(g, w, h, cs.first(), forward);
        assert(s1.first() == cs.first());
        assert(s1.drop_first() =~= cs.drop_first().push(c));
        assert(write_changes(g, w, h, s1, forward) == write_changes(
            g1,
            w,
            h,
            cs.drop_first().push(c),
            forward,
        ));
        lemma_write_changes_push(g1, w, h, cs.drop_first(), c, forward);
        assert(write_changes(g, w, h, cs, forward) == write_changes(
            g1,
            w,
            h,
            cs.drop_first(),
            forward,
        ));
    }
}

/// Writing one side of a faithful diff and then the other restores the
/// grid exactly: undo then redo, or redo then undo, is the identity.
pub proof fn lemma_write_then_unwrite(g: Seq<Cell>, w: int, h: int, op: Operation, forward: bool)
    requires
        g.len() == w * h,
        0 <= w,
        0 <= h,
        op_matches(g, w, h, op, forward),
    ensures
        write_changes(
            write_changes(g, w, h, op.changes(), !forward),
            w,
            h,
            op.changes(),
            forward,
        ) == g,
        op_matches(write_changes(g, w, h, op.changes(), !forward), w, h, op, !forward),
{
    let cs = op.changes();
    let g1 = write_changes(g, w, h, cs, !forward);
    let g2 = write_changes(g1, w, h, cs, forward);
    lemma_write_changes_pointwise(g, w, h, cs, !forward);
    lemma_write_changes_pointwise(g1, w, h, cs, forward);
    assert forall|p: int| 0 <= p < g.len() implies g2[p] == g[p] by {
        if exists|i: int|
            0 <= i < cs.len() && change_in_bounds(#[trigger] cs[i], w, h) && change_idx(cs[i], w)
                == p {
            let i = choose|i: int|
                0 <= i < cs.len() && change_in_bounds(#[trigger] cs[i], w, h) && change_idx(
                    cs[i],
                    w,
                ) == p;
            assert(g2[p] == written(cs[i], forward));
            assert(g[p] == written(cs[i], forward));
        }
    }
    assert(g2 =~= g);
}

/// The undo stack is a faithful log: its top operation reads as just
/// applied, and below the top the same holds of the grid with the upper
/// operations reverted.
pub open spec fn undo_chain_ok(g: Seq<Cell>, w: int, h: int, ops: Seq<Operation>) -> bool
    decreases ops.len(),
{
    ops.len() == 0 || {
        &&& op_matches(g, w, h, ops.last(), true)
        &&& undo_chain_ok(revert_op(g, w, h, ops.last()), w, h, ops.drop_last())
    }
}

/// The redo stack is a faithful log of reverted operations: its top
/// reads as just reverted, and below the top the same holds of the grid
/// with the upper operations re-applied.
pub open spec fn redo_chain_ok(g: Seq<Cell>, w: int, h: int, ops: Seq<Operation>) -> bool
    decreases ops.len(),
{
    ops.len() == 0 || {
        &&& op_matches(g, w, h, ops.last(), false)
        &&& redo_chain_ok(apply_op(g, w, h, ops.last()), w, h, ops.drop_last())
    }
}

/// A faithful undo log survives losing its oldest entry (capacity
/// eviction).
pub proof fn lemma_undo_chain_drop_first(g: Seq<Cell>, w: int, h: int, ops: Seq<Operation>)
    requires
        undo_chain_ok(g, w, h, ops),
        ops.len() > 0,
    ensures
        undo_chain_ok(g, w, h, ops.drop_first()),
    decreases ops.len(),
{
    if ops.len() > 1 {
        lemma_undo_chain_drop_first(revert_op(g, w, h, ops.last()), w, h, ops.drop_last());
        assert(ops.drop_first().last() == ops.last());
        assert(ops.drop_first().drop_last() =~= ops.drop_last().drop_first());
    }
}

/// Undoing the pushed operations from the newest down and then redoing
/// them in the opposite order restores the grid bit for bit.
pub open spec fn undo_all(g: Seq<Cell>, w: int, h: int, ops: Seq<Operation>) -> Seq<Cell>
    decreases ops.len(),
{
    if ops.len() == 0 {
        g
    } else {
        undo_all(revert_op(g, w, h, ops.last()), w, h, ops.drop_last())
    }
}

/// Re-apply operations oldest first (the order N redo calls take after
/// N undo calls).
pub open spec fn redo_all(g: Seq<Cell>, w: int, h: int, ops: Seq<Operation>) -> Seq<Cell>
    decreases ops.len(),
{
    if ops.len() == 0 {
        g
    } else {
        apply_op(redo_all(g, w, h, ops.drop_last()), w, h, ops.last())
    }
}

/// Undo/redo inverse law: for any faithful undo log, undoing every
/// operation and then redoing them all restores the original grid.
pub proof fn lemma_undo_redo_inverse(g: Seq<Cell>, w: int, h: int, ops: Seq<Operation>)
    requires
        g.len() == w * h,
        0 <= w,
        0 <= h,
        undo_chain_ok(g, w, h, ops),
    ensures
        redo_all(undo_all(g, w, h, ops), w, h, ops) == g,
    decreases ops.len(),
{
    if ops.len() > 0 {
        let op = ops.last();
        let g1 = revert_op(g, w, h, op);
        lemma_write_changes_len(g, w, h, op.changes(), false);
        lemma_undo_redo_inverse(g1, w, h, ops.drop_last());
        lemma_write_then_unwrite(g, w, h, op, true);
    }
}

/// The undo stack after one push: one longer, with the oldest entry
/// evicted at capacity.
pub open spec fn pushed_stack(stack: Seq<Operation>, max: int, op: Operation) -> Seq<Operation> {
    if stack.len() < max {
        stack.push(op)
    } else {
        stack.drop_first().push(op)
    }
}

/// The undo stack after a run of pushes, oldest first.
pub open spec fn pushed_stack_all(stack: Seq<Operation>, max: int, ops: Seq<Operation>) -> Seq<
    Operation,
>
    decreases ops.len(),
{
    if ops.len() == 0 {
        stack
    } else {
        pushed_stack_all(pushed_stack(stack, max, ops.first()), max, ops.drop_first())
    }
}

/// History bound law: a run of pushes keeps the newest entries of what
/// went in and nothing else. While everything fits the stack just
/// grows; once more than `max` operations have accumulated, exactly the
/// `max` most recent remain and all older ones are gone.
pub proof fn lemma_history_bound(stack: Seq<Operation>, max: int, ops: Seq<Operation>)
    requires
        1 <= max,
        stack.len() <= max,
    ensures
        pushed_stack_all(stack, max, ops) == if stack.len() + ops.len() <= max {
            stack + ops
        } else {
            (stack + ops).skip(stack.len() + ops.len() - max)
        },
    decreases ops.len(),
{
    if ops.len() == 0 {
        assert(stack + ops =~= stack);
    } else {
        let op0 = ops.first();
        let rest = ops.drop_first();
        let s1 = pushed_stack(stack, max, op0);
        lemma_history_bound(s1, max, rest);
        if stack.len() < max {
            assert(s1 + rest =~= stack + ops);
        } else {
            assert(s1 + rest =~= (stack + ops).skip(1));
            if s1.len() + rest.len() <= max {
                // Only possible when the run is a single push at
                // capacity: one entry left, one entry in.
                assert(pushed_stack_all(stack, max, ops) == (stack + ops).skip(1));
                assert(stack.len() + ops.len() - max == 1);
            } else {
                let k1 = s1.len() + rest.len() - max;
                assert(((stack + ops).skip(1)).skip(k1) =~= (stack + ops).skip(1 + k1));
                assert(1 + k1 == stack.len() + ops.len() - max);
            }
        }
    }
}

/// Undo/redo history stack.
#[derive(Clone, Debug)]
pub struct UndoHistory {
    pub undo_stack: Vec<Operation>,
    pub redo_stack: Vec<Operation>,
    pub max_size: usize,
}

impl UndoHistory {
    /// Well-formedness: the bound is positive and the two stacks
    /// together never hold more than `max_size` entries.
    pub open spec fn wf(self) -> bool {
        &&& self.max_size >= 1
        &&& self.undo_stack@.len() + self.redo_stack@.len() <= self.max_size
    }

    /// Create a new history with the given maximum size.
    pub fn new(max_size: usize) -> (h: UndoHistory)
        ensures
            h.undo_stack@ == Seq::<Operation>::empty(),
            h.redo_stack@ == Seq::<Operation>::empty(),
            h.max_size == max_size,
            max_size >= 1 ==> h.wf(),
    {
        UndoHistory {
            undo_stack: Vec::with_capacity(max_size),
            redo_stack: Vec::with_capacity(max_size),
            max_size,
        }
    }

    /// Push an operation onto the undo stack: the redo stack is cleared,
    /// and at capacity the oldest undo entry is evicted.
    pub fn push(&mut self, op: Operation)
        requires
            old(self).wf(),
        ensures
            final(self).wf(),
            final(self).max_size == old(self).max_size,
            final(self).redo_stack@ == Seq::<Operation>::empty(),
            final(self).undo_stack@ == pushed_stack(
                old(self).undo_stack@,
                old(self).max_size as int,
                op,
            ),
    {
        self.redo_stack.clear();
        if self.undo_stack.len() >= self.max_size {
            self.undo_stack.remove(0);
            proof {
                assert(self.undo_stack@ =~= old(self).undo_stack@.drop_first());
            }
        }
        self.undo_stack.push(op);
    }

    /// Pop the newest operation for undo; a copy moves to the redo
    /// stack. `None` (and no change) if nothing can be undone.
    pub fn undo(&mut self) -> (r: Option<Operation>)
        requires
            old(self).wf(),
        ensures
            final(self).wf(),
            final(self).max_size == old(self).max_size,
            old(self).undo_stack@.len() == 0 ==> {
                &&& r is None
                &&& final(self).undo_stack@ == old(self).undo_stack@
                &&& final(self).redo_stack@ == old(self).redo_stack@
            },
            old(self).undo_stack@.len() > 0 ==> {
                &&& r matches Some(o) && op_like(o, old(self).undo_stack@.last())
                &&& final(self).undo_stack@ == old(self).undo_stack@.drop_last()
                &&& final(self).redo_stack@ == old(self).redo_stack@.push(
                    old(self).undo_stack@.last(),
                )
            },
    {
        proof {
            assert(old(self).undo_stack@.subrange(0, old(self).undo_stack@.len() - 1)
                =~= old(self).undo_stack@.drop_last());
        }
        if let Some(op) = self.undo_stack.pop() {
            let copy = op.duplicate();
            self.redo_stack.push(op);
            Some(copy)
        } else {
            None
        }
    }

    /// Pop the newest undone operation for redo; a copy moves back to
    /// the undo stack. `None` (and no change) if nothing can be redone.
    pub fn redo(&mut self) -> (r: Option<Operation>)
        requires
            old(self).wf(),
        ensures
            final(self).wf(),
            final(self).max_size == old(self).max_size,
            old(self).redo_stack@.len() == 0 ==> {
                &&& r is None
                &&& final(self).undo_stack@ == old(self).undo_stack@
                &&& final(self).redo_stack@ == old(self).redo_stack@
            },
            old(self).redo_stack@.len() > 0 ==> {
                &&& r matches Some(o) && op_like(o, old(self).redo_stack@.last())
                &&& final(self).redo_stack@ == old(self).redo_stack@.drop_last()
                &&& final(self).undo_stack@ == old(self).undo_stack@.push(
                    old(self).redo_stack@.last(),
                )
            },
    {
        proof {
            assert(old(self).redo_stack@.subrange(0, old(self).redo_stack@.len() - 1)
                =~= old(self).redo_stack@.drop_last());
        }
        if let Some(op) = self.redo_stack.pop() {
            let copy = op.duplicate();
            self.undo_stack.push(op);
            Some(copy)
        } else {
            None
        }
    }

    /// Check if undo is available.
    pub fn can_undo(&self) -> (r: bool)
        ensures
            r == (self.undo_stack@.len() > 0),
    {
        self.undo_stack.len() > 0
    }

    /// Check if redo is available.
    pub fn can_redo(&self) -> (r: bool)
        ensures
            r == (self.redo_stack@.len() > 0),
    {
        self.redo_stack.len() > 0
    }

    /// Clear all history.
    pub fn clear(&mut self)
        ensures
            final(self).undo_stack@ == Seq::<Operation>::empty(),
            final(self).redo_stack@ == Seq::<Operation>::empty(),
            final(self).max_size == old(self).max_size,
    {
        self.undo_stack.clear();
        self.redo_stack.clear();
    }

    /// Get the number of operations in the undo stack.
    pub fn undo_count(&self) -> (r: usize)
        ensures
            r == self.undo_stack@.len(),
    {
        self.undo_stack.len()
    }

    /// Get the number of operations in the redo stack.
    pub fn redo_count(&self) -> (r: usize)
        ensures
            r == self.redo_stack@.len(),
    {
        self.redo_stack.len()
    }
}

impl Default for UndoHistory {
    /// The default history holds fifty entries.
    fn default() -> (h: UndoHistory)
        ensures
            h.undo_stack@ == Seq::<Operation>::empty(),
            h.redo_stack@ == Seq::<Operation>::empty(),
            h.max_size == 50,
            h.wf(),
    {
        UndoHistory::new(50)
    }
}

} // verus!
