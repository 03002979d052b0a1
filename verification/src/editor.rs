//! Modal key handling and cursor motion. The document's text itself lives
//! with the caller; motion decisions read it through `line_lens`, the
//! character count of each line (each line's count includes its trailing
//! newline, and the final, possibly empty, line is counted too, so there
//! is always at least one line).

use vstd::prelude::*;

use crate::cursor::Cursor;

verus! {

/// The editing mode the key dispatch switches on.
#[derive(Clone, Copy, PartialEq, Eq, Structural, Debug)]
pub enum Mode {
    Normal,
    Insert,
}

/// A keyboard event, reduced to exactly what the dispatch distinguishes.
#[derive(Clone, Copy, PartialEq, Eq, Structural, Debug)]
pub enum KeyInput {
    /// Escape; `ctrl` is true when it arrived with the control modifier
    /// alone.
    Esc { ctrl: bool },
    Char(char),
    Left,
    Right,
    Up,
    Down,
    /// Any key the editor does not react to.
    Other,
}

/// The rightmost column the cursor may sit on within line `y`: the line's
/// character count minus its trailing newline, or zero for a line that
/// does not exist.
pub open spec fn line_width(lens: Seq<usize>, y: int) -> int {
    if 0 <= y < lens.len() {
        if lens[y] >= 1 {
            lens[y] - 1
        } else {
            0
        }
    } else {
        0
    }
}

/// Pull the cursor's column back onto its line: clamp it to the line's
/// width, or to column zero when the line does not exist.
pub open spec fn clamp_to_line(c: Cursor, lens: Seq<usize>) -> Cursor {
    if c.y < lens.len() {
        Cursor {
            x: (if line_width(lens, c.y as int) < c.x {
                line_width(lens, c.y as int)
            } else {
                c.x as int
            }) as usize,
            y: c.y,
        }
    } else {
        Cursor { x: 0, y: c.y }
    }
}

/// Where one arrow key moves the cursor, on a document whose lines have
/// the given character counts. Horizontal motion stops at the line ends
/// (stepping right off a line's end wraps to the start of the next line);
/// vertical motion clamps the column onto the new line.
pub open spec fn move_cursor_spec(c: Cursor, key: KeyInput, lens: Seq<usize>) -> Cursor {
    match key {
        KeyInput::Right => {
            let lw = line_width(lens, c.y as int);
            if c.x < lw {
                Cursor { x: (c.x + 1) as usize, y: c.y }
            } else if c.y < lens.len() - 1 {
                Cursor { x: 0, y: (c.y + 1) as usize }
            } else {
                c
            }
        },
        KeyInput::Left => {
            if c.x == 0 {
                if c.y == 0 {
                    c
                } else {
                    clamp_to_line(Cursor { x: usize::MAX, y: (c.y - 1) as usize }, lens)
                }
            } else {
                Cursor { x: (c.x - 1) as usize, y: c.y }
            }
        },
        KeyInput::Up => {
            if c.y == 0 {
                c
            } else {
                clamp_to_line(Cursor { x: c.x, y: (c.y - 1) as usize }, lens)
            }
        },
        KeyInput::Down => {
            if c.y < lens.len() - 1 {
                clamp_to_line(Cursor { x: c.x, y: (c.y + 1) as usize }, lens)
            } else {
                c
            }
        },
        _ => c,
    }
}

/// The editor state after one key, on a document with the given line
/// character counts.
pub open spec fn handle_key_next(e: Editor, key: KeyInput, lens: Seq<usize>) -> Editor {
    match key {
        KeyInput::Esc { ctrl } => {
            if ctrl {
                Editor { should_quit: true, ..e }
            } else {
                Editor { mode: Mode::Normal, ..e }
            }
        },
        KeyInput::Char(c) => {
            if e.mode == Mode::Normal && c == 'i' {
                Editor { mode: Mode::Insert, ..e }
            } else {
                e
            }
        },
        KeyInput::Left | KeyInput::Right | KeyInput::Up | KeyInput::Down => {
            Editor { cursor: move_cursor_spec(e.cursor, key, lens), ..e }
        },
        KeyInput::Other => e,
    }
}

/// Whether one key makes the frame worth redrawing: a character typed in
/// insert mode, or any cursor motion.
pub open spec fn handle_key_render(e: Editor, key: KeyInput) -> bool {
    match key {
        KeyInput::Char(_) => e.mode == Mode::Insert,
        KeyInput::Left | KeyInput::Right | KeyInput::Up | KeyInput::Down => true,
        _ => false,
    }
}

/// The modal editor state: quit flag, mode and cursor. The document text
/// is owned by the caller and handed in per key as line character counts.
#[derive(Clone, Copy, PartialEq, Eq, Structural, Debug)]
pub struct Editor {
    pub should_quit: bool,
    pub mode: Mode,
    pub cursor: Cursor,
}

impl Editor {
    pub fn new() -> (e: Editor)
        ensures
            !e.should_quit,
            e.mode == Mode::Normal,
            e.cursor == (Cursor { x: 0, y: 0 }),
    {
        Editor { should_quit: false, mode: Mode::Normal, cursor: Cursor::new() }
    }

    pub fn should_quit(&self) -> (r: bool)
        ensures
            r == self.should_quit,
    {
        self.should_quit
    }

    pub fn set_should_quit(&mut self)
        ensures
            final(self).should_quit,
            final(self).mode == old(self).mode,
            final(self).cursor == old(self).cursor,
    {
        self.should_quit = true;
    }

    pub fn cursor(&self) -> (r: &Cursor)
        ensures
            *r == self.cursor,
    {
        &self.cursor
    }

    /// Move the cursor by one arrow key over a document whose lines have
    /// the character counts `line_lens`.
    pub fn move_cursor(&mut self, key: KeyInput, line_lens: &Vec<usize>)
        requires
            key is Left || key is Right || key is Up || key is Down,
            line_lens@.len() >= 1,
        ensures
            final(self).cursor == move_cursor_spec(old(self).cursor, key, line_lens@),
            final(self).mode == old(self).mode,
            final(self).should_quit == old(self).should_quit,
    {
        match key {
            KeyInput::Right => {
                let line_w: usize = if self.cursor.y < line_lens.len() {
                    let l = line_lens[self.cursor.y];
                    if l >= 1 {
                        l - 1
                    } else {
                        0
                    }
                } else {
                    0
                };
                if self.cursor.x < line_w {
                    self.cursor.x += 1;
                } else if self.cursor.y < line_lens.len() - 1 {
                    self.cursor.y += 1;
                    self.cursor.x = 0;
                }
                return;
            },
            KeyInput::Left => {
                if self.cursor.x == 0 {
                    if self.cursor.y == 0 {
                        return;
                    }
                    self.cursor.y -= 1;
                    self.cursor.x = usize::MAX;
                } else {
                    self.cursor.x -= 1;
                    return;
                }
            },
            KeyInput::Up => {
                if self.cursor.y == 0 {
                    return;
                }
                self.cursor.y -= 1;
            },
            KeyInput::Down => {
                if self.cursor.y < line_lens.len() - 1 {
                    self.cursor.y += 1;
                } else {
                    return;
                }
            },
            _ => {
                return;
            },
        }
        if self.cursor.y < line_lens.len() {
            let l = line_lens[self.cursor.y];
            let lw: usize = if l >= 1 {
                l - 1
            } else {
                0
            };
            if lw < self.cursor.x {
                self.cursor.x = lw;
            }
        } else {
            self.cursor.x = 0;
        }
    }

    /// Dispatch one key: control-escape requests quitting, escape returns
    /// to normal mode, `i` enters insert mode, arrows move the cursor.
    /// Returns whether the frame should be redrawn.
    pub fn handle_key(&mut self, key: KeyInput, line_lens: &Vec<usize>) -> (render: bool)
        requires
            line_lens@.len() >= 1,
        ensures
            *final(self) == handle_key_next(*old(self), key, line_lens@),
            render == handle_key_render(*old(self), key),
    {
        match key {
            KeyInput::Esc { ctrl: true } => {
                self.set_should_quit();
                false
            },
            KeyInput::Esc { ctrl: false } => {
                self.mode = Mode::Normal;
                false
            },
            KeyInput::Char(c) => {
                if self.mode == Mode::Normal && c == 'i' {
                    self.mode = Mode::Insert;
                    false
                } else if self.mode == Mode::Insert {
                    true
                } else {
                    false
                }
            },
            KeyInput::Left | KeyInput::Right | KeyInput::Up | KeyInput::Down => {
                self.move_cursor(key, line_lens);
                true
            },
            KeyInput::Other => false,
        }
    }
}

} // verus!
