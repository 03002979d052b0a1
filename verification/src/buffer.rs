//! Frame buffer: a fixed-size, row-major grid of cells, plus the diff
//! operation that compares two same-shaped buffers cell by cell.

use vstd::prelude::*;

use crate::cell::Cell;
use crate::draw::{repaint_spec, Command};

verus! {

/// One position at which two buffers differ, carrying the *target* cell
/// value (what the position should display after the patch is applied).
#[derive(Clone, Copy, PartialEq, Eq, Structural, Debug)]
pub struct Patch {
    pub cell: Cell,
    pub x: usize,
    pub y: usize,
}

/// True when every cell of `s` is the blank default cell.
pub open spec fn all_default(s: Seq<Cell>) -> bool {
    forall|i: int| 0 <= i < s.len() ==> s[i] == Cell::default_spec()
}

/// The patch produced for linear index `i` when the target frame is `b`:
/// the target cell together with the grid position that `i` decodes to.
pub open spec fn patch_at(b: Seq<Cell>, w: int, i: int) -> Patch {
    Patch { cell: b[i], x: (i % w) as usize, y: (i / w) as usize }
}

/// The ordered patch sequence for two same-length frames `a` (previous)
/// and `b` (target), scanning linear indices from `i` upward: one patch,
/// carrying `b`'s cell, for every index where the frames differ.
pub open spec fn diff_spec(a: Seq<Cell>, b: Seq<Cell>, w: int, i: int) -> Seq<Patch>
    decreases a.len() - i,
{
    if i < 0 || i >= a.len() {
        Seq::empty()
    } else if a[i] != b[i] {
        seq![patch_at(b, w, i)] + diff_spec(a, b, w, i + 1)
    } else {
        diff_spec(a, b, w, i + 1)
    }
}

/// The frame obtained from `s` by writing each patch's target cell at the
/// linear index its position decodes to, in patch order.
pub open spec fn apply_patches(s: Seq<Cell>, ps: Seq<Patch>, w: int) -> Seq<Cell>
    decreases ps.len(),
{
    if ps.len() == 0 {
        s
    } else {
        apply_patches(s.update(ps[0].y * w + ps[0].x, ps[0].cell), ps.drop_first(), w)
    }
}

/// Diffing a frame against itself yields no patches.
pub proof fn lemma_diff_identical(a: Seq<Cell>, w: int, i: int)
    ensures
        diff_spec(a, a, w, i) == Seq::<Patch>::empty(),
    decreases a.len() - i,
{
    if 0 <= i < a.len() {
        lemma_diff_identical(a, w, i + 1);
    }
}

proof fn lemma_apply_from(a: Seq<Cell>, b: Seq<Cell>, s: Seq<Cell>, w: int, h: int, i: int)
    requires
        0 < w <= usize::MAX,
        a.len() <= usize::MAX,
        a.len() == b.len(),
        s.len() == a.len(),
        a.len() == w * h,
        0 <= i,
        forall|j: int| i <= j < a.len() && a[j] == b[j] ==> s[j] == b[j],
    ensures
        apply_patches(s, diff_spec(a, b, w, i), w) =~= Seq::new(
            a.len(),
            |j: int| if j < i { s[j] } else { b[j] },
        ),
    decreases a.len() - i,
{
    let target = Seq::new(a.len(), |j: int| if j < i { s[j] } else { b[j] });
    if i >= a.len() {
        assert(diff_spec(a, b, w, i) == Seq::<Patch>::empty());
        assert(s =~= target);
    } else if a[i] == b[i] {
        lemma_apply_from(a, b, s, w, h, i + 1);
        let mid = Seq::new(a.len(), |j: int| if j < i + 1 { s[j] } else { b[j] });
        assert(mid =~= target);
    } else {
        let p = patch_at(b, w, i);
        vstd::arithmetic::div_mod::lemma_fundamental_div_mod(i, w);
        assert(0 <= i % w < w) by (nonlinear_arith)
            requires w > 0 && i >= 0;
        assert(0 <= i / w <= i) by (nonlinear_arith)
            requires w > 0 && i >= 0;
        assert(p.x == i % w && p.y == i / w);
        assert(w * (i / w) == (i / w) * w) by (nonlinear_arith);
        assert(p.y * w + p.x == i);
        let s2 = s.update(i, b[i]);
        let ps = seq![p] + diff_spec(a, b, w, i + 1);
        assert(ps[0] == p);
        assert(ps.drop_first() =~= diff_spec(a, b, w, i + 1));
        lemma_apply_from(a, b, s2, w, h, i + 1);
        let mid = Seq::new(a.len(), |j: int| if j < i + 1 { s2[j] } else { b[j] });
        assert(mid =~= target);
    }
}

/// Applying the diff of `a` against `b` onto `a` itself reproduces `b`
/// exactly: the patch sequence is a complete description of the change.
pub proof fn lemma_diff_apply(a: Seq<Cell>, b: Seq<Cell>, w: int, h: int)
    requires
        0 <= w <= usize::MAX,
        h >= 0,
        a.len() <= usize::MAX,
        a.len() == b.len(),
        a.len() == w * h,
    ensures
        apply_patches(a, diff_spec(a, b, w, 0), w) =~= b,
{
    if w == 0 {
        assert(a.len() == 0) by (nonlinear_arith)
            requires a.len() == w * h && w == 0;
        assert(diff_spec(a, b, w, 0) == Seq::<Patch>::empty());
        assert(a =~= b);
    } else {
        lemma_apply_from(a, b, a, w, h, 0);
        assert(Seq::new(a.len(), |j: int| if j < 0 { a[j] } else { b[j] }) =~= b);
    }
}

/// Every patch of a diff lies inside the `w` by `h` grid, and its position
/// decodes back to a linear index below the frame length.
pub proof fn lemma_diff_in_range(a: Seq<Cell>, b: Seq<Cell>, w: int, h: int, i: int)
    requires
        0 < w <= usize::MAX,
        h >= 0,
        a.len() <= usize::MAX,
        a.len() == b.len(),
        a.len() == w * h,
    ensures
        forall|k: int| 0 <= k < diff_spec(a, b, w, i).len()
            ==> (#[trigger] diff_spec(a, b, w, i)[k]).x < w
                && diff_spec(a, b, w, i)[k].y < h,
    decreases a.len() - i,
{
    if 0 <= i < a.len() {
        lemma_diff_in_range(a, b, w, h, i + 1);
        if a[i] != b[i] {
            let p = patch_at(b, w, i);
            assert(i % w < w) by (nonlinear_arith)
                requires w > 0 && i >= 0;
            assert(i / w < h) by (nonlinear_arith)
                requires w > 0 && 0 <= i < w * h;
            let ps = diff_spec(a, b, w, i);
            assert(ps == seq![p] + diff_spec(a, b, w, i + 1));
            assert(forall|k: int| 1 <= k < ps.len() ==> ps[k] == diff_spec(a, b, w, i + 1)[k - 1]);
        }
    }
}

/// An owned, fixed-size grid of cells, `w` wide and `h` high, stored as a
/// flat row-major sequence: cell `(x, y)` lives at linear index `y*w + x`.
#[derive(Debug)]
pub struct Buffer {
    cells: Vec<Cell>,
    w: usize,
    h: usize,
}

impl View for Buffer {
    type V = Seq<Cell>;

    closed spec fn view(&self) -> Seq<Cell> {
        self.cells@
    }
}

impl Buffer {
    pub closed spec fn spec_width(&self) -> int {
        self.w as int
    }

    pub closed spec fn spec_height(&self) -> int {
        self.h as int
    }

    /// The shape invariant: the flat storage holds exactly width * height
    /// cells. Every constructor establishes it and every method keeps it.
    pub open spec fn wf(&self) -> bool {
        self@.len() == self.spec_width() * self.spec_height()
    }

    fn blank_cells(n: usize) -> (cells: Vec<Cell>)
        ensures
            cells@.len() == n,
            all_default(cells@),
    {
        let mut cells: Vec<Cell> = Vec::new();
        while cells.len() < n
            invariant
                cells@.len() <= n,
                all_default(cells@),
            decreases n - cells@.len(),
        {
            cells.push(Cell::default());
        }
        cells
    }

    /// A `w` by `h` buffer filled with default cells. Width or height of
    /// zero is valid and yields a zero-cell buffer.
    pub fn new(w: usize, h: usize) -> (b: Buffer)
        requires
            w * h <= usize::MAX,
        ensures
            b.wf(),
            b.spec_width() == w,
            b.spec_height() == h,
            all_default(b@),
    {
        Buffer { cells: Self::blank_cells(w * h), w, h }
    }

    pub fn width(&self) -> (r: usize)
        ensures
            r == self.spec_width(),
    {
        self.w
    }

    pub fn height(&self) -> (r: usize)
        ensures
            r == self.spec_height(),
    {
        self.h
    }

    /// Reset every cell to the default cell; the shape is unchanged.
    pub fn clear(&mut self)
        ensures
            final(self)@.len() == old(self)@.len(),
            all_default(final(self)@),
            final(self).spec_width() == old(self).spec_width(),
            final(self).spec_height() == old(self).spec_height(),
    {
        let n = self.cells.len();
        let mut i: usize = 0;
        while i < n
            invariant
                n == self.cells@.len(),
                i <= n,
                forall|j: int| 0 <= j < i ==> self.cells@[j] == Cell::default_spec(),
                self.w == old(self).w,
                self.h == old(self).h,
            decreases n - i,
        {
            self.cells.set(i, Cell::default());
            i += 1;
        }
    }

    /// The flat row-major cell storage, for read-only inspection.
    pub fn content(&self) -> (r: &[Cell])
        ensures
            r@ == self@,
    {
        self.cells.as_slice()
    }

    /// Reallocate to the new shape and reset every cell to the default:
    /// prior content is deliberately discarded, since a geometry change
    /// always forces a full repaint.
    pub fn resize(&mut self, new_width: usize, new_height: usize)
        requires
            new_width * new_height <= usize::MAX,
        ensures
            final(self).wf(),
            final(self).spec_width() == new_width,
            final(self).spec_height() == new_height,
            all_default(final(self)@),
    {
        self.w = new_width;
        self.h = new_height;
        self.cells = Self::blank_cells(new_width * new_height);
    }

    /// Write one cell at `(x, y)` if that position is in bounds; an
    /// out-of-bounds write is silently ignored, never an error.
    pub fn put(&mut self, x: usize, y: usize, cell: Cell)
        requires
            old(self).wf(),
        ensures
            final(self).wf(),
            final(self).spec_width() == old(self).spec_width(),
            final(self).spec_height() == old(self).spec_height(),
            x < old(self).spec_width() && y < old(self).spec_height()
                ==> final(self)@ == old(self)@.update(y * old(self).spec_width() + x, cell),
            !(x < old(self).spec_width() && y < old(self).spec_height())
                ==> final(self)@ == old(self)@,
    {
        if x < self.w && y < self.h {
            let _n = self.cells.len();
            proof {
                assert(y * self.w + x < self.w * self.h) by (nonlinear_arith)
                    requires x < self.w && y < self.h;
            }
            let i = y * self.w + x;
            self.cells.set(i, cell);
        }
    }

    /// How many cells the buffer holds: width times height.
    pub fn len(&self) -> (r: usize)
        ensures
            r == self@.len(),
    {
        self.cells.len()
    }

    /// Write one cell at linear index `i` if it exists; a write past the
    /// buffer's final index is silently ignored.
    pub fn put_linear(&mut self, i: usize, cell: Cell)
        ensures
            final(self).spec_width() == old(self).spec_width(),
            final(self).spec_height() == old(self).spec_height(),
            i < old(self)@.len() ==> final(self)@ == old(self)@.update(i as int, cell),
            i >= old(self)@.len() ==> final(self)@ == old(self)@,
    {
        if i < self.cells.len() {
            self.cells.set(i, cell);
        }
    }

    /// The command stream that repaints the whole frame from scratch:
    /// used after a resize, when no previous frame can be diffed against.
    pub fn flush(&self) -> (cmds: Vec<Command>)
        ensures
            cmds@ == repaint_spec(self@),
    {
        crate::draw::repaint(&self.cells)
    }

    /// Compare this buffer (the previously displayed frame) against
    /// `other` (the desired frame) in linear-index order and collect a
    /// patch for every differing position, carrying `other`'s cell.
    /// Only defined for same-shaped buffers.
    pub fn diff(&self, other: &Buffer) -> (r: Vec<Patch>)
        requires
            self.wf(),
            other.wf(),
            self.spec_width() == other.spec_width(),
            self.spec_height() == other.spec_height(),
        ensures
            r@ == diff_spec(self@, other@, self.spec_width(), 0),
            forall|k: int| 0 <= k < r@.len()
                ==> (#[trigger] r@[k]).x < self.spec_width() && r@[k].y < self.spec_height(),
    {
        let ghost a = self@;
        let ghost b = other@;
        let ghost w = self.spec_width();
        let n = self.cells.len();
        let mut r: Vec<Patch> = Vec::new();
        let mut i: usize = 0;
        while i < n
            invariant
                n == a.len(),
                a == self@,
                b == other@,
                w == self.spec_width(),
                self.wf(),
                other.wf(),
                a.len() == b.len(),
                i <= n,
                diff_spec(a, b, w, 0) == r@ + diff_spec(a, b, w, i as int),
            decreases n - i,
        {
            proof {
                if self.w == 0 {
                    assert(a.len() == 0) by (nonlinear_arith)
                        requires a.len() == w * self.spec_height() && w == 0;
                    assert(false);
                }
            }
            if self.cells[i] != other.cells[i] {
                let p = Patch { cell: other.cells[i], x: i % self.w, y: i / self.w };
                proof {
                    assert(p == patch_at(b, w, i as int));
                    assert(diff_spec(a, b, w, i as int)
                        == seq![p] + diff_spec(a, b, w, i as int + 1));
                    assert(r@.push(p) + diff_spec(a, b, w, i as int + 1)
                        =~= r@ + diff_spec(a, b, w, i as int));
                }
                r.push(p);
            } else {
                proof {
                    assert(diff_spec(a, b, w, i as int) == diff_spec(a, b, w, i as int + 1));
                }
            }
            i += 1;
        }
        proof {
            assert(diff_spec(a, b, w, n as int) == Seq::<Patch>::empty());
            assert(r@ + Seq::<Patch>::empty() =~= r@);
            if self.w > 0 {
                lemma_diff_in_range(a, b, w, self.spec_height(), 0);
            } else {
                assert(a.len() == 0) by (nonlinear_arith)
                    requires a.len() == w * self.spec_height() && w == 0;
                assert(diff_spec(a, b, w, 0) == Seq::<Patch>::empty());
            }
        }
        r
    }
}

} // verus!
