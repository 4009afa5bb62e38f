use st_core::parser::Interp;
use st_core::session::{session_on_child_exit, session_on_read, SessionAction, SessionState};
use st_core::term::Term;

#[test]
fn basic_write() {
    let mut it = Interp::new(24, 80);
    it.feed(b"hello\r\n");
    let expect = b"hello";
    for (i, &c) in expect.iter().enumerate() {
        let g = it.term.cell(i, 0);
        assert!(g.set);
        assert_eq!(g.ch, c as u32);
    }
    let (x, y, _vis) = it.term.get_cursor();
    assert_eq!((x, y), (0, 1));
}

#[test]
fn csi_cursor_move() {
    let mut it = Interp::new(24, 80);
    it.feed(b"\x1b[5;10H");
    let (x, y, _vis) = it.term.get_cursor();
    assert_eq!((x, y), (9, 4));
}

#[test]
fn scroll_region_scenario() {
    let mut it = Interp::new(24, 80);
    // one marker letter per row
    for r in 0..8 {
        let row_cmd = format!("\x1b[{};1H{}", r + 1, (b'a' + r) as char);
        it.feed(row_cmd.as_bytes());
    }
    // region rows 2..5 (0-based), cursor to its bottom, six line feeds
    it.feed(b"\x1b[3;6r");
    it.feed(b"\x1b[6;1H");
    it.feed(b"\n\n\n\n\n\n");
    // rows outside the region untouched
    assert_eq!(it.term.cell(0, 0).ch, 'a' as u32);
    assert_eq!(it.term.cell(0, 1).ch, 'b' as u32);
    assert_eq!(it.term.cell(0, 6).ch, 'g' as u32);
    assert_eq!(it.term.cell(0, 7).ch, 'h' as u32);
    // the whole region scrolled blank
    for r in 2..6 {
        assert!(!it.term.cell(0, r).set);
    }
}

#[test]
fn alt_screen_switch() {
    let mut it = Interp::new(24, 80);
    it.feed(b"primary");
    it.feed(b"\x1b[?1049h");
    assert!(!it.term.cell(0, 0).set);
    it.feed(b"\x1b[1;1HALT");
    assert_eq!(it.term.cell(0, 0).ch, 'A' as u32);
    it.feed(b"\x1b[?1049l");
    let expect = b"primary";
    for (i, &c) in expect.iter().enumerate() {
        assert_eq!(it.term.cell(i, 0).ch, c as u32);
    }
}

#[test]
fn utf8_split_across_feeds() {
    let mut one = Interp::new(24, 80);
    one.feed("é".as_bytes());
    let mut two = Interp::new(24, 80);
    let bytes = "é".as_bytes();
    two.feed(&bytes[..1]);
    two.feed(&bytes[1..]);
    assert_eq!(one.term.cell(0, 0).ch, two.term.cell(0, 0).ch);
    assert_eq!(one.term.cell(0, 0).ch, 0xe9);
}

#[test]
fn escape_overflow_returns_to_ground() {
    let mut it = Interp::new(24, 80);
    let mut junk = vec![0x1b, b'['];
    for _ in 0..300 {
        junk.push(b'5');
    }
    it.feed(&junk);
    assert_eq!(it.parser.phase, st_core::parser::Phase::Ground);
    // the sequence aborted after 256 buffered bytes; the overflow bytes
    // print as ordinary text, so return the cursor and write over them
    it.feed(b"\rok");
    assert_eq!(it.term.cell(0, 0).ch, 'o' as u32);
    assert_eq!(it.term.cell(1, 0).ch, 'k' as u32);
}

#[test]
fn reset_twice_same_as_once() {
    let mut a = Term::new();
    let mut b = Term::new();
    a.reset();
    b.reset();
    b.reset();
    assert_eq!(a.get_cursor(), b.get_cursor());
    for x in 0..80 {
        assert_eq!(a.cell(x, 0).set, b.cell(x, 0).set);
    }
}

#[test]
fn clamping_total() {
    let mut t = Term::new();
    t.move_cursor(-1000, -1000, false);
    let (x, y, _) = t.get_cursor();
    assert_eq!((x, y), (0, 0));
    t.move_cursor(100000, 100000, false);
    let (x, y, _) = t.get_cursor();
    assert_eq!((x, y), (79, 23));
    t.clear_region(-5, -5, 1000, 1000);
    let (x, y, _) = t.get_cursor();
    assert!(x < 80 && y < 24);
}

#[test]
fn sgr_colors() {
    let mut it = Interp::new(24, 80);
    it.feed(b"\x1b[1;31mX");
    let g = it.term.cell(0, 0);
    assert!(g.attr.bold);
    assert_eq!(g.fg, 1);
    it.feed(b"\x1b[0;38;5;200mY");
    let g2 = it.term.cell(1, 0);
    assert!(!g2.attr.bold);
    assert_eq!(g2.fg, 200);
}

#[test]
fn osc_title() {
    let mut it = Interp::new(24, 80);
    it.feed(b"\x1b]0;my title\x07");
    assert_eq!(it.title, b"my title".to_vec());
}

#[test]
fn tab_stops() {
    let mut it = Interp::new(24, 80);
    it.feed(b"\t");
    let (x, _, _) = it.term.get_cursor();
    assert_eq!(x, 8);
    it.feed(b"\t\t");
    let (x, _, _) = it.term.get_cursor();
    assert_eq!(x, 24);
}

#[test]
fn scroll_round_trip_outside_band() {
    let mut it = Interp::new(24, 80);
    it.feed(b"\x1b[1;1Haaa\x1b[10;1Hzzz");
    let mut t = it.term;
    t.scroll_up(0, 3);
    t.scroll_down(0, 3);
    // row 9 content is below the vacated band (rows 0..2) and returns
    assert_eq!(t.cell(0, 9).ch, 'z' as u32);
    assert!(!t.cell(0, 0).set);
}

#[test]
fn session_eof_ends() {
    let (s, a) = session_on_read(SessionState::Running, 0);
    assert_eq!(s, SessionState::Exited(0));
    assert_eq!(a, SessionAction::Stop);
    let (s2, a2) = session_on_read(s, 100);
    assert_eq!(s2, SessionState::Exited(0));
    assert_eq!(a2, SessionAction::Stop);
}

#[test]
fn session_reads_feed() {
    let (s, a) = session_on_read(SessionState::Running, 42);
    assert_eq!(s, SessionState::Running);
    assert_eq!(a, SessionAction::FeedBytes(42));
    let s2 = session_on_child_exit(s, 3);
    assert_eq!(s2, SessionState::Exited(3));
    assert_eq!(session_on_child_exit(s2, 7), SessionState::Exited(3));
}

#[test]
fn limit_clamps() {
    assert_eq!(st_core::limit(-5, 0, 10), 0);
    assert_eq!(st_core::limit(15, 0, 10), 10);
    assert_eq!(st_core::limit(7, 0, 10), 7);
}

#[test]
fn insert_and_delete_chars() {
    let mut it = Interp::new(24, 80);
    it.feed(b"abcdef\x1b[1;3H\x1b[2@");
    // two blanks inserted at column 2: "ab  cdef"
    assert_eq!(it.term.cell(0, 0).ch, 'a' as u32);
    assert!(!it.term.cell(2, 0).set);
    assert!(!it.term.cell(3, 0).set);
    assert_eq!(it.term.cell(4, 0).ch, 'c' as u32);
    it.feed(b"\x1b[1;3H\x1b[2P");
    // and deleted again: "abcdef"
    assert_eq!(it.term.cell(2, 0).ch, 'c' as u32);
    assert_eq!(it.term.cell(5, 0).ch, 'f' as u32);
}

#[test]
fn wrap_mode() {
    let mut it = Interp::new(24, 10);
    it.feed(b"0123456789X");
    // autowrap: the eleventh glyph starts the next row
    assert_eq!(it.term.cell(9, 0).ch, '9' as u32);
    assert_eq!(it.term.cell(0, 1).ch, 'X' as u32);
    let mut ow = Interp::new(24, 10);
    ow.feed(b"\x1b[?7l0123456789XY");
    // without it the last column is overtyped
    assert_eq!(ow.term.cell(9, 0).ch, 'Y' as u32);
    let (_, y, _) = ow.term.get_cursor();
    assert_eq!(y, 0);
}
