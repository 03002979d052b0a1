//! Turning an ordered patch sequence into a minimal stream of output
//! commands: cursor moves are suppressed for horizontally contiguous runs,
//! and color changes are emitted only when the running color state changes.

use vstd::prelude::*;

use crate::buffer::Patch;
use crate::cell::{Cell, Color};

verus! {

/// One abstract output operation. The caller translates each command into
/// the matching terminal escape sequence and sends it to the output sink.
#[derive(Clone, Copy, PartialEq, Eq, Structural, Debug)]
pub enum Command {
    /// Place the cursor at column `x`, row `y`.
    MoveTo(usize, usize),
    /// Make the given color the active foreground color.
    SetFg(Color),
    /// Make the given color the active background color.
    SetBg(Color),
    /// Print one glyph at the cursor, advancing it one column.
    Print(char),
    /// Erase the whole screen.
    ClearAll,
}

/// True when the patch sits exactly one column to the right of the last
/// written position on the same row, so the terminal's natural cursor
/// advance already puts the cursor on it and no explicit move is needed.
pub open spec fn advances(x_prev: int, y_prev: int, p: Patch) -> bool {
    p.x == x_prev + 1 && p.y == y_prev
}

/// The command stream for the patches `ps`, given the running state: the
/// last written position `(x_prev, y_prev)` and the active colors. Each
/// patch contributes an optional cursor move, an optional background set,
/// an optional foreground set, and its glyph, in that order.
pub open spec fn stream_spec(
    ps: Seq<Patch>,
    x_prev: int,
    y_prev: int,
    fg: Color,
    bg: Color,
) -> Seq<Command>
    decreases ps.len(),
{
    if ps.len() == 0 {
        Seq::empty()
    } else {
        let p = ps[0];
        (if advances(x_prev, y_prev, p) {
            Seq::empty()
        } else {
            seq![Command::MoveTo(p.x, p.y)]
        }) + (if p.cell.bg != bg {
            seq![Command::SetBg(p.cell.bg)]
        } else {
            Seq::empty()
        }) + (if p.cell.fg != fg {
            seq![Command::SetFg(p.cell.fg)]
        } else {
            Seq::empty()
        }) + seq![Command::Print(p.cell.ch)]
            + stream_spec(ps.drop_first(), p.x as int, p.y as int, p.cell.fg, p.cell.bg)
    }
}

/// The command stream of a full repaint of the frame `cells`, scanned in
/// linear order with color coalescing.
pub open spec fn repaint_cells_spec(cells: Seq<Cell>, fg: Color, bg: Color) -> Seq<Command>
    decreases cells.len(),
{
    if cells.len() == 0 {
        Seq::empty()
    } else {
        let c = cells[0];
        (if c.fg != fg {
            seq![Command::SetFg(c.fg)]
        } else {
            Seq::empty()
        }) + (if c.bg != bg {
            seq![Command::SetBg(c.bg)]
        } else {
            Seq::empty()
        }) + seq![Command::Print(c.ch)]
            + repaint_cells_spec(cells.drop_first(), c.fg, c.bg)
    }
}

/// A full repaint: clear the screen, reset both colors, home the cursor,
/// then print every cell of the frame in linear order.
pub open spec fn repaint_spec(cells: Seq<Cell>) -> Seq<Command> {
    seq![
        Command::ClearAll,
        Command::SetFg(Color::Reset),
        Command::SetBg(Color::Reset),
        Command::MoveTo(0, 0),
    ] + repaint_cells_spec(cells, Color::Reset, Color::Reset)
}

/// How many cursor moves the stream contains.
pub open spec fn move_count(cs: Seq<Command>) -> nat
    decreases cs.len(),
{
    if cs.len() == 0 {
        0
    } else {
        (if cs[0] is MoveTo {
            1nat
        } else {
            0nat
        }) + move_count(cs.drop_first())
    }
}

/// How many foreground-set commands the stream contains.
pub open spec fn fg_set_count(cs: Seq<Command>) -> nat
    decreases cs.len(),
{
    if cs.len() == 0 {
        0
    } else {
        (if cs[0] is SetFg {
            1nat
        } else {
            0nat
        }) + fg_set_count(cs.drop_first())
    }
}

/// How many background-set commands the stream contains.
pub open spec fn bg_set_count(cs: Seq<Command>) -> nat
    decreases cs.len(),
{
    if cs.len() == 0 {
        0
    } else {
        (if cs[0] is SetBg {
            1nat
        } else {
            0nat
        }) + bg_set_count(cs.drop_first())
    }
}

/// All three counters distribute over concatenation.
pub proof fn lemma_counts_add(a: Seq<Command>, b: Seq<Command>)
    ensures
        move_count(a + b) == move_count(a) + move_count(b),
        fg_set_count(a + b) == fg_set_count(a) + fg_set_count(b),
        bg_set_count(a + b) == bg_set_count(a) + bg_set_count(b),
    decreases a.len(),
{
    if a.len() == 0 {
        assert(a + b =~= b);
    } else {
        assert((a + b).drop_first() =~= a.drop_first() + b);
        lemma_counts_add(a.drop_first(), b);
        assert((a + b)[0] == a[0]);
    }
}

/// The counters on a one-command stream.
pub proof fn lemma_counts_singleton(c: Command)
    ensures
        move_count(seq![c]) == if c is MoveTo {
            1nat
        } else {
            0nat
        },
        fg_set_count(seq![c]) == if c is SetFg {
            1nat
        } else {
            0nat
        },
        bg_set_count(seq![c]) == if c is SetBg {
            1nat
        } else {
            0nat
        },
{
    let s = seq![c];
    assert(s.len() == 1 && s[0] == c);
    assert(s.drop_first() =~= Seq::<Command>::empty());
    assert(move_count(Seq::<Command>::empty()) == 0);
    assert(fg_set_count(Seq::<Command>::empty()) == 0);
    assert(bg_set_count(Seq::<Command>::empty()) == 0);
    assert(move_count(s) == (if c is MoveTo { 1nat } else { 0nat }) + move_count(s.drop_first()));
    assert(fg_set_count(s) == (if c is SetFg { 1nat } else { 0nat }) + fg_set_count(s.drop_first()));
    assert(bg_set_count(s) == (if c is SetBg { 1nat } else { 0nat }) + bg_set_count(s.drop_first()));
}

/// The step a single patch contributes to the stream, as one sequence.
spec fn step_cmds(p: Patch, x_prev: int, y_prev: int, fg: Color, bg: Color) -> Seq<Command> {
    (if advances(x_prev, y_prev, p) {
        Seq::empty()
    } else {
        seq![Command::MoveTo(p.x, p.y)]
    }) + (if p.cell.bg != bg {
        seq![Command::SetBg(p.cell.bg)]
    } else {
        Seq::empty()
    }) + (if p.cell.fg != fg {
        seq![Command::SetFg(p.cell.fg)]
    } else {
        Seq::empty()
    }) + seq![Command::Print(p.cell.ch)]
}

/// The counters on the step of a single patch.
proof fn lemma_counts_step(p: Patch, x_prev: int, y_prev: int, fg: Color, bg: Color)
    ensures
        move_count(step_cmds(p, x_prev, y_prev, fg, bg)) == if advances(x_prev, y_prev, p) {
            0nat
        } else {
            1nat
        },
        fg_set_count(step_cmds(p, x_prev, y_prev, fg, bg)) == if p.cell.fg != fg {
            1nat
        } else {
            0nat
        },
        bg_set_count(step_cmds(p, x_prev, y_prev, fg, bg)) == if p.cell.bg != bg {
            1nat
        } else {
            0nat
        },
{
    let mv: Seq<Command> = if advances(x_prev, y_prev, p) {
        Seq::empty()
    } else {
        seq![Command::MoveTo(p.x, p.y)]
    };
    let bgc: Seq<Command> = if p.cell.bg != bg {
        seq![Command::SetBg(p.cell.bg)]
    } else {
        Seq::empty()
    };
    let fgc: Seq<Command> = if p.cell.fg != fg {
        seq![Command::SetFg(p.cell.fg)]
    } else {
        Seq::empty()
    };
    let pr = seq![Command::Print(p.cell.ch)];
    lemma_counts_add(mv + bgc + fgc, pr);
    lemma_counts_add(mv + bgc, fgc);
    lemma_counts_add(mv, bgc);
    lemma_counts_singleton(Command::Print(p.cell.ch));
    if !advances(x_prev, y_prev, p) {
        lemma_counts_singleton(Command::MoveTo(p.x, p.y));
    }
    if p.cell.bg != bg {
        lemma_counts_singleton(Command::SetBg(p.cell.bg));
    }
    if p.cell.fg != fg {
        lemma_counts_singleton(Command::SetFg(p.cell.fg));
    }
}

/// One unfolding of `stream_spec`, phrased over `step_cmds`.
proof fn lemma_stream_unfold(ps: Seq<Patch>, x_prev: int, y_prev: int, fg: Color, bg: Color)
    requires
        ps.len() > 0,
    ensures
        stream_spec(ps, x_prev, y_prev, fg, bg) == step_cmds(ps[0], x_prev, y_prev, fg, bg)
            + stream_spec(ps.drop_first(), ps[0].x as int, ps[0].y as int, ps[0].cell.fg, ps[0].cell.bg),
{
    let p = ps[0];
    let mv: Seq<Command> = if advances(x_prev, y_prev, p) {
        Seq::empty()
    } else {
        seq![Command::MoveTo(p.x, p.y)]
    };
    let bgc: Seq<Command> = if p.cell.bg != bg {
        seq![Command::SetBg(p.cell.bg)]
    } else {
        Seq::empty()
    };
    let fgc: Seq<Command> = if p.cell.fg != fg {
        seq![Command::SetFg(p.cell.fg)]
    } else {
        Seq::empty()
    };
    let pr = seq![Command::Print(p.cell.ch)];
    let tail = stream_spec(ps.drop_first(), p.x as int, p.y as int, p.cell.fg, p.cell.bg);
    assert(stream_spec(ps, x_prev, y_prev, fg, bg) == mv + bgc + fgc + pr + tail);
    assert(mv + bgc + fgc + pr + tail =~= (mv + bgc + fgc + pr) + tail);
}

/// While the running colors already equal the one color pair that every
/// patch carries, the stream contains no color-set command at all.
proof fn lemma_stream_colors_stable(ps: Seq<Patch>, x0: int, y0: int, f: Color, b: Color)
    requires
        forall|k: int| 0 <= k < ps.len()
            ==> (#[trigger] ps[k]).cell.fg == f && ps[k].cell.bg == b,
    ensures
        fg_set_count(stream_spec(ps, x0, y0, f, b)) == 0,
        bg_set_count(stream_spec(ps, x0, y0, f, b)) == 0,
    decreases ps.len(),
{
    if ps.len() > 0 {
        let p = ps[0];
        let rest = ps.drop_first();
        assert(forall|k: int| 0 <= k < rest.len() ==> rest[k] == ps[k + 1]);
        lemma_stream_colors_stable(rest, p.x as int, p.y as int, f, b);
        lemma_stream_unfold(ps, x0, y0, f, b);
        lemma_counts_step(p, x0, y0, f, b);
        lemma_counts_add(
            step_cmds(p, x0, y0, f, b),
            stream_spec(rest, p.x as int, p.y as int, f, b),
        );
    }
}

/// Color-change coalescing: when every patch carries one and the same
/// color pair, and that pair differs from the running colors, the whole
/// stream contains exactly one foreground set and exactly one background
/// set, no matter how many patches there are.
pub proof fn lemma_color_coalescing(
    ps: Seq<Patch>,
    x0: int,
    y0: int,
    fg0: Color,
    bg0: Color,
    f: Color,
    b: Color,
)
    requires
        ps.len() > 0,
        forall|k: int| 0 <= k < ps.len()
            ==> (#[trigger] ps[k]).cell.fg == f && ps[k].cell.bg == b,
        f != fg0,
        b != bg0,
    ensures
        fg_set_count(stream_spec(ps, x0, y0, fg0, bg0)) == 1,
        bg_set_count(stream_spec(ps, x0, y0, fg0, bg0)) == 1,
{
    let p = ps[0];
    let rest = ps.drop_first();
    assert(forall|k: int| 0 <= k < rest.len() ==> rest[k] == ps[k + 1]);
    lemma_stream_colors_stable(rest, p.x as int, p.y as int, f, b);
    lemma_stream_unfold(ps, x0, y0, fg0, bg0);
    lemma_counts_step(p, x0, y0, fg0, bg0);
    lemma_counts_add(
        step_cmds(p, x0, y0, fg0, bg0),
        stream_spec(rest, p.x as int, p.y as int, f, b),
    );
}

/// True when each later patch sits exactly one column right of the one
/// before it, on the same row: a horizontally contiguous run.
pub open spec fn contiguous_run(ps: Seq<Patch>) -> bool {
    forall|k: int| 1 <= k < ps.len()
        ==> (#[trigger] ps[k]).x == ps[k - 1].x + 1 && ps[k].y == ps[k - 1].y
}

/// While the run stays contiguous and the cursor is already on the first
/// patch's position, no cursor move is emitted at all.
proof fn lemma_run_no_moves(ps: Seq<Patch>, x0: int, y0: int, f: Color, b: Color)
    requires
        contiguous_run(ps),
        ps.len() > 0 ==> advances(x0, y0, ps[0]),
    ensures
        move_count(stream_spec(ps, x0, y0, f, b)) == 0,
    decreases ps.len(),
{
    if ps.len() > 0 {
        let p = ps[0];
        let rest = ps.drop_first();
        assert(forall|k: int| 0 <= k < rest.len() ==> rest[k] == ps[k + 1]);
        assert(contiguous_run(rest)) by {
            assert(forall|k: int| 1 <= k < rest.len()
                ==> (#[trigger] rest[k]).x == rest[k - 1].x + 1 && rest[k].y == rest[k - 1].y)
                by {
                assert(forall|k: int| 1 <= k < rest.len()
                    ==> #[trigger] rest[k] == ps[k + 1] && rest[k - 1] == ps[k]);
            }
        }
        if rest.len() > 0 {
            assert(ps[1].x == ps[0].x + 1 && ps[1].y == ps[0].y);
            assert(advances(p.x as int, p.y as int, rest[0]));
        }
        lemma_run_no_moves(rest, p.x as int, p.y as int, p.cell.fg, p.cell.bg);
        lemma_stream_unfold(ps, x0, y0, f, b);
        lemma_counts_step(p, x0, y0, f, b);
        lemma_counts_add(
            step_cmds(p, x0, y0, f, b),
            stream_spec(rest, p.x as int, p.y as int, p.cell.fg, p.cell.bg),
        );
    }
}

/// Contiguous-run coalescing: a horizontally contiguous run of patches
/// whose first patch is not already under the cursor costs exactly one
/// cursor move in the whole stream, however long the run is.
pub proof fn lemma_run_coalescing(ps: Seq<Patch>, x0: int, y0: int, f: Color, b: Color)
    requires
        ps.len() > 0,
        contiguous_run(ps),
        !advances(x0, y0, ps[0]),
    ensures
        move_count(stream_spec(ps, x0, y0, f, b)) == 1,
{
    let p = ps[0];
    let rest = ps.drop_first();
    assert(forall|k: int| 0 <= k < rest.len() ==> rest[k] == ps[k + 1]);
    assert(contiguous_run(rest)) by {
        assert(forall|k: int| 1 <= k < rest.len()
            ==> (#[trigger] rest[k]).x == rest[k - 1].x + 1 && rest[k].y == rest[k - 1].y) by {
            assert(forall|k: int| 1 <= k < rest.len()
                ==> #[trigger] rest[k] == ps[k + 1] && rest[k - 1] == ps[k]);
        }
    }
    if rest.len() > 0 {
        assert(ps[1].x == ps[0].x + 1 && ps[1].y == ps[0].y);
        assert(advances(p.x as int, p.y as int, rest[0]));
    }
    lemma_run_no_moves(rest, p.x as int, p.y as int, p.cell.fg, p.cell.bg);
    lemma_stream_unfold(ps, x0, y0, f, b);
    lemma_counts_step(p, x0, y0, f, b);
    lemma_counts_add(
        step_cmds(p, x0, y0, f, b),
        stream_spec(rest, p.x as int, p.y as int, p.cell.fg, p.cell.bg),
    );
}

/// The commands a single cell contributes to a full repaint.
spec fn repaint_step(c: Cell, fg: Color, bg: Color) -> Seq<Command> {
    (if c.fg != fg {
        seq![Command::SetFg(c.fg)]
    } else {
        Seq::empty()
    }) + (if c.bg != bg {
        seq![Command::SetBg(c.bg)]
    } else {
        Seq::empty()
    }) + seq![Command::Print(c.ch)]
}

/// One unfolding of `repaint_cells_spec`, phrased over `repaint_step`.
proof fn lemma_repaint_unfold(cells: Seq<Cell>, fg: Color, bg: Color)
    requires
        cells.len() > 0,
    ensures
        repaint_cells_spec(cells, fg, bg) == repaint_step(cells[0], fg, bg)
            + repaint_cells_spec(cells.drop_first(), cells[0].fg, cells[0].bg),
{
    let c = cells[0];
    let fgc: Seq<Command> = if c.fg != fg {
        seq![Command::SetFg(c.fg)]
    } else {
        Seq::empty()
    };
    let bgc: Seq<Command> = if c.bg != bg {
        seq![Command::SetBg(c.bg)]
    } else {
        Seq::empty()
    };
    let pr = seq![Command::Print(c.ch)];
    let tail = repaint_cells_spec(cells.drop_first(), c.fg, c.bg);
    assert(repaint_cells_spec(cells, fg, bg) == fgc + bgc + pr + tail);
    assert(fgc + bgc + pr + tail =~= (fgc + bgc + pr) + tail);
}

/// Build the command stream of a full repaint of the frame `cells`: a
/// screen clear, both colors reset, a home move, then every cell in
/// linear order with color coalescing.
pub fn repaint(cells: &Vec<Cell>) -> (cmds: Vec<Command>)
    ensures
        cmds@ == repaint_spec(cells@),
{
    let ghost all = cells@;
    let mut cmds: Vec<Command> = Vec::new();
    let mut fg = Color::Reset;
    let mut bg = Color::Reset;
    cmds.push(Command::ClearAll);
    cmds.push(Command::SetFg(fg));
    cmds.push(Command::SetBg(bg));
    cmds.push(Command::MoveTo(0, 0));
    let ghost lead = seq![
        Command::ClearAll,
        Command::SetFg(Color::Reset),
        Command::SetBg(Color::Reset),
        Command::MoveTo(0, 0),
    ];
    let mut i: usize = 0;
    proof {
        assert(cmds@ =~= lead);
        assert(all.skip(0) =~= all);
    }
    while i < cells.len()
        invariant
            all == cells@,
            i <= all.len(),
            repaint_spec(all) == cmds@ + repaint_cells_spec(all.skip(i as int), fg, bg),
        decreases all.len() - i,
    {
        let ghost prefix = cmds@;
        let ghost tail = all.skip(i as int);
        let ghost fg0 = fg;
        let ghost bg0 = bg;
        let c = cells[i];
        proof {
            assert(tail[0] == all[i as int]);
            assert(tail.drop_first() =~= all.skip(i as int + 1));
            lemma_repaint_unfold(tail, fg0, bg0);
        }
        if c.fg != fg {
            fg = c.fg;
            cmds.push(Command::SetFg(fg));
        }
        if c.bg != bg {
            bg = c.bg;
            cmds.push(Command::SetBg(bg));
        }
        cmds.push(Command::Print(c.ch));
        proof {
            let step = repaint_step(c, fg0, bg0);
            let rest = repaint_cells_spec(all.skip(i as int + 1), c.fg, c.bg);
            assert(cmds@ =~= prefix + step);
            assert((prefix + step) + rest =~= prefix + (step + rest));
            assert(repaint_cells_spec(tail, fg0, bg0) == step + rest);
        }
        i += 1;
    }
    proof {
        assert(all.skip(all.len() as int) =~= Seq::<Cell>::empty());
        assert(cmds@ + Seq::<Command>::empty() =~= cmds@);
    }
    cmds
}

/// Build the command stream for `patches`, starting from the state the
/// diff path always starts in: last position `(0, 0)` and both colors
/// `Reset`.
pub fn stream_patches(patches: &Vec<Patch>) -> (cmds: Vec<Command>)
    ensures
        cmds@ == stream_spec(patches@, 0, 0, Color::Reset, Color::Reset),
{
    let ghost all = patches@;
    let mut cmds: Vec<Command> = Vec::new();
    let mut x_prev: usize = 0;
    let mut y_prev: usize = 0;
    let mut fg = Color::Reset;
    let mut bg = Color::Reset;
    let mut i: usize = 0;
    proof {
        assert(all.skip(0) =~= all);
        assert(Seq::<Command>::empty() + stream_spec(all, 0, 0, Color::Reset, Color::Reset)
            =~= stream_spec(all, 0, 0, Color::Reset, Color::Reset));
    }
    while i < patches.len()
        invariant
            all == patches@,
            i <= all.len(),
            stream_spec(all, 0, 0, Color::Reset, Color::Reset) == cmds@ + stream_spec(
                all.skip(i as int),
                x_prev as int,
                y_prev as int,
                fg,
                bg,
            ),
        decreases all.len() - i,
    {
        let ghost prefix = cmds@;
        let ghost tail = all.skip(i as int);
        let ghost x0 = x_prev as int;
        let ghost y0 = y_prev as int;
        let ghost fg0 = fg;
        let ghost bg0 = bg;
        let p = patches[i];
        proof {
            assert(tail[0] == all[i as int]);
            assert(tail.drop_first() =~= all.skip(i as int + 1));
            lemma_stream_unfold(tail, x0, y0, fg0, bg0);
        }
        let adjacent = p.y == y_prev && p.x >= 1 && p.x - 1 == x_prev;
        proof {
            assert(adjacent == advances(x0, y0, p));
        }
        if !adjacent {
            cmds.push(Command::MoveTo(p.x, p.y));
        }
        x_prev = p.x;
        y_prev = p.y;
        if p.cell.bg != bg {
            bg = p.cell.bg;
            cmds.push(Command::SetBg(bg));
        }
        if p.cell.fg != fg {
            fg = p.cell.fg;
            cmds.push(Command::SetFg(fg));
        }
        cmds.push(Command::Print(p.cell.ch));
        proof {
            let step = step_cmds(p, x0, y0, fg0, bg0);
            let rest = stream_spec(
                all.skip(i as int + 1),
                p.x as int,
                p.y as int,
                p.cell.fg,
                p.cell.bg,
            );
            assert(cmds@ =~= prefix + step);
            assert((prefix + step) + rest =~= prefix + (step + rest));
            assert(stream_spec(tail, x0, y0, fg0, bg0) == step + rest);
        }
        i += 1;
    }
    proof {
        assert(all.skip(all.len() as int) =~= Seq::<Patch>::empty());
        assert(cmds@ + Seq::<Command>::empty() =~= cmds@);
    }
    cmds
}

} // verus!
