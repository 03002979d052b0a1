use med::{Buffer, Cell, Color, Command, Size, Terminal};

fn blank(w: usize, h: usize) -> Buffer {
    Buffer::new(w, h)
}

#[test]
fn size_carries_geometry() {
    let s = Size { width: 80, height: 24 };
    let t = s;
    assert_eq!(t.width, 80);
    assert_eq!(t.height, 24);
}

#[test]
fn diff_identical_buffers_is_empty() {
    let a = blank(4, 3);
    let b = blank(4, 3);
    assert_eq!(a.diff(&b).len(), 0);

    let mut t = Terminal::new(5, 4);
    t.put_cell(1, 2, 'x', Color::Red, Color::Blue);
    let mut u = Terminal::new(5, 4);
    u.put_cell(1, 2, 'x', Color::Red, Color::Blue);
    assert_eq!(t.buf_curr.diff(&u.buf_curr).len(), 0);
}

#[test]
fn diff_then_apply_reproduces_target() {
    let mut a = blank(4, 3);
    let mut b = blank(4, 3);
    a.put(0, 0, Cell { ch: 'q', fg: Color::Green, bg: Color::Reset });
    b.put(1, 0, Cell { ch: 'r', fg: Color::Reset, bg: Color::Cyan });
    b.put(3, 2, Cell { ch: 's', fg: Color::White, bg: Color::Black });

    let patches = a.diff(&b);
    let mut c = blank(4, 3);
    c.put(0, 0, Cell { ch: 'q', fg: Color::Green, bg: Color::Reset });
    for p in &patches {
        c.put(p.x, p.y, p.cell);
    }
    assert_eq!(c.content(), b.content());
}

#[test]
fn diff_carries_target_cell_and_position() {
    let a = blank(3, 2);
    let mut b = blank(3, 2);
    b.put(2, 1, Cell { ch: 'z', fg: Color::Yellow, bg: Color::Reset });
    let patches = a.diff(&b);
    assert_eq!(patches.len(), 1);
    assert_eq!(patches[0].x, 2);
    assert_eq!(patches[0].y, 1);
    assert_eq!(patches[0].cell.ch, 'z');
    assert_eq!(patches[0].cell.fg, Color::Yellow);
}

#[test]
fn put_cell_out_of_bounds_is_ignored() {
    let mut t = Terminal::new(3, 2);
    let before: Vec<Cell> = t.buf_curr.content().to_vec();
    t.put_cell(3, 0, 'x', Color::Red, Color::Reset);
    t.put_cell(0, 2, 'x', Color::Red, Color::Reset);
    t.put_cell(usize::MAX, usize::MAX, 'x', Color::Red, Color::Reset);
    assert_eq!(t.buf_curr.content(), &before[..]);
}

#[test]
fn put_cell_zero_sized_buffer_is_total() {
    let mut t = Terminal::new(0, 0);
    t.put_cell(0, 0, 'x', Color::Red, Color::Reset);
    assert_eq!(t.buf_curr.len(), 0);
}

#[test]
fn put_cells_truncates_at_final_index() {
    let mut t = Terminal::new(3, 2);
    t.put_cells(1, 1, String::from("long tail"), Color::Reset, Color::Reset);
    let cells = t.buf_curr.content();
    assert_eq!(cells[4].ch, 'l');
    assert_eq!(cells[5].ch, 'o');
    assert_eq!(cells.len(), 6);
    // the first row is untouched
    for i in 0..4 {
        assert_eq!(cells[i].ch, ' ');
    }
}

#[test]
fn put_cells_starting_past_the_end_is_ignored() {
    let mut t = Terminal::new(3, 2);
    t.put_cells(0, 2, String::from("abc"), Color::Reset, Color::Reset);
    t.put_cells(usize::MAX, 0, String::from("abc"), Color::Reset, Color::Reset);
    for c in t.buf_curr.content() {
        assert_eq!(c.ch, ' ');
    }
}

#[test]
fn resize_blanks_both_buffers() {
    let mut t = Terminal::new(4, 4);
    t.put_cell(0, 0, 'x', Color::Red, Color::Blue);
    let _ = t.queue_draw();
    let _ = t.resize(6, 3);
    assert_eq!(t.width(), 6);
    assert_eq!(t.height(), 3);
    assert_eq!(t.buf_curr.len(), 18);
    assert_eq!(t.buf_prev.len(), 18);
    for c in t.buf_curr.content() {
        assert_eq!(*c, Cell { ch: ' ', fg: Color::Reset, bg: Color::Reset });
    }
    for c in t.buf_prev.content() {
        assert_eq!(*c, Cell { ch: ' ', fg: Color::Reset, bg: Color::Reset });
    }
}

#[test]
fn resize_emits_a_full_repaint() {
    let mut t = Terminal::new(2, 2);
    let cmds = t.resize(2, 1);
    assert_eq!(cmds[0], Command::ClearAll);
    assert_eq!(cmds[1], Command::SetFg(Color::Reset));
    assert_eq!(cmds[2], Command::SetBg(Color::Reset));
    assert_eq!(cmds[3], Command::MoveTo(0, 0));
    // the blanked 2x1 frame follows: two default glyphs, no color changes
    assert_eq!(&cmds[4..], &[Command::Print(' '), Command::Print(' ')]);
}

#[test]
fn color_run_emits_one_set_per_color() {
    let mut t = Terminal::new(8, 2);
    t.put_cell(0, 0, 'a', Color::Red, Color::Blue);
    t.put_cell(2, 0, 'b', Color::Red, Color::Blue);
    t.put_cell(5, 1, 'c', Color::Red, Color::Blue);
    t.put_cell(7, 1, 'd', Color::Red, Color::Blue);
    let cmds = t.queue_draw();
    let fg_sets = cmds.iter().filter(|c| matches!(c, Command::SetFg(_))).count();
    let bg_sets = cmds.iter().filter(|c| matches!(c, Command::SetBg(_))).count();
    assert_eq!(fg_sets, 1);
    assert_eq!(bg_sets, 1);
}

#[test]
fn contiguous_run_emits_one_move() {
    let mut t = Terminal::new(6, 6);
    t.put_cell(2, 5, 'a', Color::Reset, Color::Reset);
    t.put_cell(3, 5, 'b', Color::Reset, Color::Reset);
    t.put_cell(4, 5, 'c', Color::Reset, Color::Reset);
    let cmds = t.queue_draw();
    assert_eq!(
        cmds,
        vec![
            Command::MoveTo(2, 5),
            Command::Print('a'),
            Command::Print('b'),
            Command::Print('c'),
        ]
    );
}

#[test]
fn hi_scenario_two_patches_one_move() {
    let mut t = Terminal::new(3, 2);
    t.put_cells(0, 0, String::from("Hi"), Color::Reset, Color::Reset);

    let patches = t.buf_prev.diff(&t.buf_curr);
    assert_eq!(patches.len(), 2);
    assert_eq!((patches[0].x, patches[0].y, patches[0].cell.ch), (0, 0, 'H'));
    assert_eq!((patches[1].x, patches[1].y, patches[1].cell.ch), (1, 0, 'i'));

    let cmds = t.queue_draw();
    assert_eq!(
        cmds,
        vec![Command::MoveTo(0, 0), Command::Print('H'), Command::Print('i')]
    );
}

#[test]
fn draw_promotes_current_and_blanks_it() {
    let mut t = Terminal::new(3, 2);
    t.put_cell(1, 0, 'x', Color::Green, Color::Reset);
    let _ = t.queue_draw();
    assert_eq!(t.buf_prev.content()[1].ch, 'x');
    for c in t.buf_curr.content() {
        assert_eq!(c.ch, ' ');
    }
    // the caller rebuilds each frame: re-putting the same content makes
    // the next cycle a no-op
    t.put_cell(1, 0, 'x', Color::Green, Color::Reset);
    let cmds = t.queue_draw();
    assert!(cmds.is_empty());
    // while an empty next frame blanks the cell again (its position
    // linearly follows the start position, so no move is needed)
    let cmds = t.queue_draw();
    assert_eq!(cmds, vec![Command::Print(' ')]);
}

#[test]
fn redraw_streams_only_the_difference() {
    let mut t = Terminal::new(4, 1);
    t.put_cells(0, 0, String::from("abcd"), Color::Reset, Color::Reset);
    let _ = t.queue_draw();
    t.put_cells(0, 0, String::from("abXd"), Color::Reset, Color::Reset);
    let cmds = t.queue_draw();
    assert_eq!(cmds, vec![Command::MoveTo(2, 0), Command::Print('X')]);
}

#[test]
fn full_repaint_coalesces_colors() {
    let mut b = Buffer::new(2, 2);
    b.put(0, 0, Cell { ch: 'a', fg: Color::Red, bg: Color::Reset });
    b.put(1, 0, Cell { ch: 'b', fg: Color::Red, bg: Color::Reset });
    let cmds = b.flush();
    assert_eq!(cmds[0], Command::ClearAll);
    assert_eq!(
        &cmds[4..],
        &[
            Command::SetFg(Color::Red),
            Command::Print('a'),
            Command::Print('b'),
            Command::SetFg(Color::Reset),
            Command::Print(' '),
            Command::Print(' '),
        ]
    );
}
