//! The viewport: which part of the document is visible, as a size plus a
//! scroll offset, and the rule that keeps the cursor inside it.

use vstd::prelude::*;

use crate::cursor::Cursor;

verus! {

/// A viewport of `width` by `height` cells whose top-left corner sits at
/// document column `dx`, line `dy`.
pub struct View {
    pub width: usize,
    pub height: usize,
    pub dx: usize,
    pub dy: usize,
}

impl View {
    pub open spec fn spec_width(&self) -> int {
        self.width as int
    }

    pub open spec fn spec_height(&self) -> int {
        self.height as int
    }

    /// A zero-sized viewport at the document origin; it must be resized
    /// to the real geometry before scrolling is adjusted.
    pub fn new() -> (v: View)
        ensures
            v.spec_width() == 0,
            v.spec_height() == 0,
            v.dx == 0,
            v.dy == 0,
    {
        View { width: 0, height: 0, dx: 0, dy: 0 }
    }

    /// Adopt a new geometry; the scroll offset is kept as it is.
    pub fn resize(&mut self, new_width: usize, new_height: usize)
        ensures
            final(self).spec_width() == new_width,
            final(self).spec_height() == new_height,
            final(self).dx == old(self).dx,
            final(self).dy == old(self).dy,
    {
        self.width = new_width;
        self.height = new_height;
    }

    pub fn width(&self) -> (r: usize)
        ensures
            r == self.spec_width(),
    {
        self.width
    }

    pub fn height(&self) -> (r: usize)
        ensures
            r == self.spec_height(),
    {
        self.height
    }

    /// Scroll vertically just far enough that the cursor's line is
    /// visible: up to the cursor when it lies above the viewport, down so
    /// the cursor sits on the last visible line when it lies below, and
    /// not at all otherwise. The horizontal offset is never touched.
    pub fn adjust_offset(&mut self, cursor: &Cursor)
        requires
            old(self).spec_height() >= 1,
            old(self).dy + old(self).spec_height() <= usize::MAX,
        ensures
            final(self).spec_width() == old(self).spec_width(),
            final(self).spec_height() == old(self).spec_height(),
            final(self).dx == old(self).dx,
            final(self).dy == (if cursor.y > old(self).dy + old(self).spec_height() - 1 {
                cursor.y - old(self).spec_height() + 1
            } else if cursor.y < old(self).dy {
                cursor.y as int
            } else {
                old(self).dy as int
            }),
            final(self).dy <= cursor.y < final(self).dy + final(self).spec_height(),
    {
        if cursor.y > self.dy + self.height - 1 {
            self.dy = cursor.y - self.height + 1;
        } else if cursor.y < self.dy {
            self.dy = cursor.y;
        }
    }
}

} // verus!
