//! The renderer state: the pair of frame buffers ("current" being drawn
//! this cycle, "previous" as last displayed) and the draw cycle that
//! reconciles them into a minimal command stream.

use vstd::prelude::*;

use crate::buffer::{all_default, diff_spec, Buffer};
use crate::cell::{Cell, Color};
use crate::draw::{repaint_spec, stream_spec, Command};

verus! {

/// A terminal geometry, in character cells.
#[derive(Clone, Copy)]
pub struct Size {
    pub width: u16,
    pub height: u16,
}

/// Owns the two frame buffers of the draw cycle. The caller writes cells
/// into `buf_curr`, then asks for a draw; `buf_prev` always models what
/// the output sink last displayed.
pub struct Terminal {
    pub buf_curr: Buffer,
    pub buf_prev: Buffer,
}

impl Terminal {
    /// Both buffers are well formed and share one shape.
    pub open spec fn wf(&self) -> bool {
        &&& self.buf_curr.wf()
        &&& self.buf_prev.wf()
        &&& self.buf_curr.spec_width() == self.buf_prev.spec_width()
        &&& self.buf_curr.spec_height() == self.buf_prev.spec_height()
    }

    pub open spec fn spec_width(&self) -> int {
        self.buf_curr.spec_width()
    }

    pub open spec fn spec_height(&self) -> int {
        self.buf_curr.spec_height()
    }

    /// A renderer for a `w` by `h` screen, both buffers blank.
    pub fn new(w: usize, h: usize) -> (t: Terminal)
        requires
            w * h <= usize::MAX,
        ensures
            t.wf(),
            t.spec_width() == w,
            t.spec_height() == h,
            all_default(t.buf_curr@),
            all_default(t.buf_prev@),
    {
        Terminal { buf_curr: Buffer::new(w, h), buf_prev: Buffer::new(w, h) }
    }

    pub fn width(&self) -> (r: usize)
        ensures
            r == self.spec_width(),
    {
        self.buf_curr.width()
    }

    pub fn height(&self) -> (r: usize)
        ensures
            r == self.spec_height(),
    {
        self.buf_curr.height()
    }

    /// Resize both buffers to the new geometry, blanking them, and return
    /// the full-repaint command stream for the blanked screen: after a
    /// geometry change the previous on-screen content is stale and no
    /// diff can be trusted against it.
    pub fn resize(&mut self, new_width: usize, new_height: usize) -> (cmds: Vec<Command>)
        requires
            new_width * new_height <= usize::MAX,
        ensures
            final(self).wf(),
            final(self).spec_width() == new_width,
            final(self).spec_height() == new_height,
            all_default(final(self).buf_curr@),
            all_default(final(self).buf_prev@),
            cmds@ == repaint_spec(final(self).buf_prev@),
    {
        self.buf_curr.resize(new_width, new_height);
        self.buf_prev.resize(new_width, new_height);
        self.buf_prev.flush()
    }

    /// Write one cell into the current frame; a position outside the grid
    /// is silently ignored and no in-bounds cell changes.
    pub fn put_cell(&mut self, x: usize, y: usize, ch: char, fg: Color, bg: Color)
        requires
            old(self).wf(),
        ensures
            final(self).wf(),
            final(self).spec_width() == old(self).spec_width(),
            final(self).spec_height() == old(self).spec_height(),
            final(self).buf_prev == old(self).buf_prev,
            x < old(self).spec_width() && y < old(self).spec_height()
                ==> final(self).buf_curr@
                    == old(self).buf_curr@.update(y * old(self).spec_width() + x, (Cell { ch, fg, bg })),
            !(x < old(self).spec_width() && y < old(self).spec_height())
                ==> final(self).buf_curr@ == old(self).buf_curr@,
    {
        self.buf_curr.put(x, y, Cell { ch, fg, bg });
    }

    /// Write a run of characters into the current frame, starting at
    /// `(x, y)` and advancing along the linear index; the run is
    /// truncated at the buffer's final index, never writing past it.
    pub fn put_cells(&mut self, x: usize, y: usize, chs: String, fg: Color, bg: Color)
        requires
            old(self).wf(),
        ensures
            final(self).wf(),
            final(self).spec_width() == old(self).spec_width(),
            final(self).spec_height() == old(self).spec_height(),
            final(self).buf_prev == old(self).buf_prev,
            final(self).buf_curr@.len() == old(self).buf_curr@.len(),
            forall|j: int|
                0 <= j < old(self).buf_curr@.len() ==> final(self).buf_curr@[j]
                    == (if y * old(self).spec_width() + x <= j
                        < y * old(self).spec_width() + x + chs@.len() {
                    (Cell { ch: chs@[j - (y * old(self).spec_width() + x)], fg, bg })
                } else {
                    old(self).buf_curr@[j]
                }),
    {
        let ghost start_spec = y * old(self).spec_width() + x;
        let w = self.buf_curr.width();
        let h = self.buf_curr.height();
        let n = self.buf_curr.len();
        if y >= h {
            proof {
                assert(y * w >= h * w) by (nonlinear_arith)
                    requires y >= h && w >= 0;
                assert(h * w == w * h) by (nonlinear_arith);
            }
            return;
        }
        proof {
            assert(y * w + w <= w * h) by (nonlinear_arith)
                requires y < h && w >= 0;
        }
        let base = y * w;
        if x >= n - base {
            return;
        }
        let start = base + x;
        let s = chs.as_str();
        let m = s.unicode_len();
        let avail = n - start;
        let limit = if m < avail {
            m
        } else {
            avail
        };
        let mut offset: usize = 0;
        while offset < limit
            invariant
                offset <= limit,
                limit <= m,
                m == chs@.len(),
                s@ == chs@,
                start == start_spec,
                start + limit <= n,
                n == old(self).buf_curr@.len(),
                self.buf_curr@.len() == n,
                self.buf_curr.spec_width() == old(self).spec_width(),
                self.buf_curr.spec_height() == old(self).spec_height(),
                self.buf_prev == old(self).buf_prev,
                forall|j: int|
                    0 <= j < n ==> self.buf_curr@[j] == (if start <= j < start + offset {
                        (Cell { ch: chs@[j - start], fg, bg })
                    } else {
                        old(self).buf_curr@[j]
                    }),
            decreases limit - offset,
        {
            let ch = s.get_char(offset);
            self.buf_curr.put_linear(start + offset, Cell { ch, fg, bg });
            offset += 1;
        }
    }

    /// The draw cycle: diff the previous frame against the current one,
    /// stream the patches as a coalesced command sequence, promote the
    /// current frame to be the new previous frame, and blank the new
    /// current frame for the next cycle.
    pub fn queue_draw(&mut self) -> (cmds: Vec<Command>)
        requires
            old(self).wf(),
        ensures
            final(self).wf(),
            final(self).spec_width() == old(self).spec_width(),
            final(self).spec_height() == old(self).spec_height(),
            final(self).buf_prev@ == old(self).buf_curr@,
            all_default(final(self).buf_curr@),
            cmds@ == stream_spec(
                diff_spec(old(self).buf_prev@, old(self).buf_curr@, old(self).spec_width(), 0),
                0,
                0,
                Color::Reset,
                Color::Reset,
            ),
    {
        let patches = self.buf_prev.diff(&self.buf_curr);
        let cmds = crate::draw::stream_patches(&patches);
        core::mem::swap(&mut self.buf_curr, &mut self.buf_prev);
        self.buf_curr.clear();
        cmds
    }
}

} // verus!
