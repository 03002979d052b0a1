//! Preparing document lines for display: stripping line terminators and
//! truncating to the viewport width before the characters are written
//! into the current frame.

use vstd::prelude::*;

verus! {

pub struct Renderer {}

impl Renderer {
    pub fn new() -> Self {
        Self {  }
    }
}

/// The length of `s` without its trailing run of line terminators
/// (`'\n'` and `'\r'` characters, in any mix).
pub open spec fn trimmed_len(s: Seq<char>) -> int
    decreases s.len(),
{
    if s.len() == 0 {
        0
    } else if s.last() == '\n' || s.last() == '\r' {
        trimmed_len(s.drop_last())
    } else {
        s.len() as int
    }
}

/// The trimmed length is never negative and never exceeds the line's.
pub proof fn lemma_trimmed_len_bounds(s: Seq<char>)
    ensures
        0 <= trimmed_len(s) <= s.len(),
    decreases s.len(),
{
    if s.len() > 0 && (s.last() == '\n' || s.last() == '\r') {
        lemma_trimmed_len_bounds(s.drop_last());
    }
}

/// Strip the trailing line terminators off one document line.
pub fn trim_line_end(s: &str) -> (r: String)
    ensures
        r@ == s@.subrange(0, trimmed_len(s@)),
{
    let len = s.unicode_len();
    let mut n = len;
    let mut stop = false;
    proof {
        assert(s@.subrange(0, len as int) =~= s@);
    }
    while n > 0 && !stop
        invariant
            n <= len,
            len == s@.len(),
            trimmed_len(s@) == trimmed_len(s@.subrange(0, n as int)),
            stop ==> n > 0 && !(s@[n - 1] == '\n' || s@[n - 1] == '\r'),
        decreases
            n,
            (if stop {
                0int
            } else {
                1int
            }),
    {
        let c = s.get_char(n - 1);
        if c == '\n' || c == '\r' {
            proof {
                let pre = s@.subrange(0, n as int);
                assert(pre.last() == s@[n - 1]);
                assert(pre.drop_last() =~= s@.subrange(0, n as int - 1));
                assert(trimmed_len(pre) == trimmed_len(pre.drop_last()));
            }
            n -= 1;
        } else {
            stop = true;
        }
    }
    proof {
        let pre = s@.subrange(0, n as int);
        if n == 0 {
            assert(pre.len() == 0);
            assert(trimmed_len(pre) == 0);
        } else {
            assert(pre.last() == s@[n - 1]);
            assert(trimmed_len(pre) == n);
        }
        assert(trimmed_len(s@) == n);
    }
    let r = s.substring_char(0, n);
    r.to_owned()
}

/// The part of one document line that the viewport shows: the line with
/// its terminators stripped, truncated to `width` characters.
pub fn visible_line(s: &str, width: usize) -> (r: String)
    ensures
        r@ == s@.subrange(
            0,
            (if width < trimmed_len(s@) {
                width as int
            } else {
                trimmed_len(s@)
            }),
        ),
{
    proof {
        lemma_trimmed_len_bounds(s@);
    }
    let trimmed = trim_line_end(s);
    let n = trimmed.as_str().unicode_len();
    if width < n {
        let cut = trimmed.as_str().substring_char(0, width);
        proof {
            assert(trimmed@.subrange(0, width as int) =~= s@.subrange(0, width as int));
        }
        cut.to_owned()
    } else {
        trimmed
    }
}

} // verus!
