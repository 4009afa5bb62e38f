use vstd::prelude::*;

use crate::glyph::Glyph;
use crate::term::{CurView, Modes, Term, TermView};

verus! {

/// Cap on bytes collected for one escape or string sequence.
pub const ESC_BUF_SIZ: usize = 256;

/// Cap on numeric arguments of one CSI sequence.
pub const ESC_ARG_SIZ: usize = 16;

/// Cap on the value of one numeric CSI parameter.
pub const PARAM_MAX: u32 = 65535;

/// The phases of the escape parser. `EscCharset` waits for the one byte
/// of a charset selection; `StrEsc` has seen an ESC inside a string and
/// waits to see whether a string terminator follows.
#[derive(Clone, Copy, PartialEq, Eq, Structural, Debug)]
pub enum Phase {
    Ground,
    Esc,
    EscCharset,
    Csi,
    Str,
    StrEsc,
}

/// Escape-parser state, persisting across `feed` calls so a sequence may
/// arrive split over any number of reads.
pub struct Parser {
    pub phase: Phase,
    /// Bytes collected for the sequence in progress (capped).
    pub buf: Vec<u8>,
    /// Completed numeric CSI arguments (capped).
    pub args: Vec<u32>,
    /// The numeric argument being accumulated.
    pub cur: u32,
    /// Whether a digit of `cur` has been seen.
    pub cur_seen: bool,
    /// A leading `?` marked the sequence as DEC-private.
    pub priv_marker: bool,
    /// The byte that opened a string sequence (`]`, `P`, `X`, `^`, `_`).
    pub str_kind: u8,
    /// Accumulator of a multi-byte UTF-8 codepoint in progress.
    pub utf_acc: u32,
    /// Continuation bytes still expected for that codepoint.
    pub utf_need: u8,
}

/// Mathematical image of the parser.
#[verifier::ext_equal]
pub ghost struct ParserView {
    pub phase: Phase,
    pub buf: Seq<u8>,
    pub args: Seq<u32>,
    pub cur: u32,
    pub cur_seen: bool,
    pub priv_marker: bool,
    pub str_kind: u8,
    pub utf_acc: u32,
    pub utf_need: u8,
}

impl View for Parser {
    type V = ParserView;

    open spec fn view(&self) -> ParserView {
        ParserView {
            phase: self.phase,
            buf: self.buf@,
            args: self.args@,
            cur: self.cur,
            cur_seen: self.cur_seen,
            priv_marker: self.priv_marker,
            str_kind: self.str_kind,
            utf_acc: self.utf_acc,
            utf_need: self.utf_need,
        }
    }
}

impl ParserView {
    /// The bounded-buffer policy: sequences never hold more than the caps,
    /// whatever bytes arrive.
    pub open spec fn wf(self) -> bool {
        &&& self.buf.len() <= ESC_BUF_SIZ as int
        &&& self.args.len() <= ESC_ARG_SIZ as int
        &&& self.cur <= PARAM_MAX
        &&& (forall|i: int| 0 <= i < self.args.len() ==> #[trigger] self.args[i] <= PARAM_MAX)
        &&& self.utf_need <= 3
        &&& (self.utf_need == 0 ==> self.utf_acc == 0)
        &&& (self.utf_need == 1 ==> self.utf_acc < 0x8000)
        &&& (self.utf_need == 2 ==> self.utf_acc < 0x200)
        &&& (self.utf_need == 3 ==> self.utf_acc < 0x8)
    }

    /// Sequence state wiped, back in ground; the UTF-8 accumulator is its
    /// own affair and survives.
    pub open spec fn seq_reset_v(self) -> ParserView {
        ParserView {
            phase: Phase::Ground,
            buf: Seq::empty(),
            args: Seq::empty(),
            cur: 0,
            cur_seen: false,
            priv_marker: false,
            str_kind: 0,
            ..self
        }
    }

    /// The freshly created parser: ground, nothing pending.
    pub open spec fn init_v() -> ParserView {
        ParserView {
            phase: Phase::Ground,
            buf: Seq::empty(),
            args: Seq::empty(),
            cur: 0,
            cur_seen: false,
            priv_marker: false,
            str_kind: 0,
            utf_acc: 0,
            utf_need: 0,
        }
    }
}

/// The interpreter: one terminal model, the parser bound to it, and the
/// window title last set by an OSC sequence.
pub struct Interp {
    pub term: Term,
    pub parser: Parser,
    pub title: Vec<u8>,
}

/// Mathematical image of the interpreter.
#[verifier::ext_equal]
pub ghost struct InterpView {
    pub term: TermView,
    pub parser: ParserView,
    pub title: Seq<u8>,
}

impl View for Interp {
    type V = InterpView;

    open spec fn view(&self) -> InterpView {
        InterpView { term: self.term@, parser: self.parser@, title: self.title@ }
    }
}

/// CSI argument `i`, defaulting to 0 when absent.
pub open spec fn csi_arg(args: Seq<u32>, i: int) -> u32 {
    if 0 <= i < args.len() {
        args[i]
    } else {
        0
    }
}

/// CSI argument `i` normalised for counts: absent or 0 becomes 1.
pub open spec fn csi_arg1(args: Seq<u32>, i: int) -> u32 {
    if csi_arg(args, i) == 0 {
        1
    } else {
        csi_arg(args, i)
    }
}

/// Effect of one mode number of CSI `h`/`l`. The alternate-screen modes
/// 47, 1047 and 1049 switch screens (1047/1049 clearing the alternate
/// screen on entry, 1049 also saving and restoring the cursor); all other
/// numbers go through the model's plain flag table.
pub open spec fn apply_mode_v(t: TermView, privm: bool, a: u32, on: bool) -> TermView {
    if privm && (a == 47 || a == 1047 || a == 1049) {
        if on && !t.mode.altscreen {
            let t1 = if a == 1049 {
                t.save_cursor_v()
            } else {
                t
            };
            let t2 = t1.swap_screen_v();
            if a == 1047 || a == 1049 {
                t2.clear_region_v(0, 0, t2.cols - 1, t2.rows - 1)
            } else {
                t2
            }
        } else if !on && t.mode.altscreen {
            let t2 = t.swap_screen_v();
            if a == 1049 {
                t2.restore_cursor_v()
            } else {
                t2
            }
        } else {
            t
        }
    } else {
        t.set_mode_v(privm, a as int, on)
    }
}

/// Folding `apply_mode_v` over every argument of a CSI `h`/`l`.
pub open spec fn apply_modes_v(t: TermView, privm: bool, args: Seq<u32>, on: bool) -> TermView
    decreases args.len(),
{
    if args.len() == 0 {
        t
    } else {
        apply_modes_v(apply_mode_v(t, privm, args[0], on), privm, args.skip(1), on)
    }
}

/// Effect of a complete CSI sequence on the terminal model, keyed by its
/// final byte and private marker; unknown commands leave the model alone.
pub open spec fn csi_dispatch_v(t: TermView, privm: bool, args: Seq<u32>, fin: u8) -> TermView {
    let n = csi_arg1(args, 0) as int;
    if fin == 0x41 {
        // CUU: cursor up
        t.move_cursor_v(0, -n, false)
    } else if fin == 0x42 || fin == 0x65 {
        // CUD / VPR: cursor down
        t.move_cursor_v(0, n, false)
    } else if fin == 0x43 || fin == 0x61 {
        // CUF / HPR: cursor right
        t.move_cursor_v(n, 0, false)
    } else if fin == 0x44 {
        // CUB: cursor left
        t.move_cursor_v(-n, 0, false)
    } else if fin == 0x45 {
        // CNL: next line
        t.move_to_v(0, t.c.y + n)
    } else if fin == 0x46 {
        // CPL: previous line
        t.move_to_v(0, t.c.y - n)
    } else if fin == 0x47 || fin == 0x60 {
        // CHA / HPA: column absolute
        t.move_to_v(n - 1, t.c.y)
    } else if fin == 0x64 {
        // VPA: row absolute
        t.move_to_v(t.c.x, n - 1)
    } else if fin == 0x48 || fin == 0x66 {
        // CUP / HVP: absolute position, row;column, 1-based
        t.move_to_v(csi_arg1(args, 1) as int - 1, csi_arg1(args, 0) as int - 1)
    } else if fin == 0x4a {
        // ED: erase in display
        let w = csi_arg(args, 0);
        if w == 0 {
            let a = t.clear_region_v(t.c.x, t.c.y, t.cols - 1, t.c.y);
            if t.c.y + 1 < t.rows {
                a.clear_region_v(0, t.c.y + 1, t.cols - 1, t.rows - 1)
            } else {
                a
            }
        } else if w == 1 {
            let a = t.clear_region_v(0, t.c.y, t.c.x, t.c.y);
            if t.c.y > 0 {
                a.clear_region_v(0, 0, t.cols - 1, t.c.y - 1)
            } else {
                a
            }
        } else if w == 2 {
            t.clear_region_v(0, 0, t.cols - 1, t.rows - 1)
        } else {
            t
        }
    } else if fin == 0x4b {
        // EL: erase in line
        let w = csi_arg(args, 0);
        if w == 0 {
            t.clear_region_v(t.c.x, t.c.y, t.cols - 1, t.c.y)
        } else if w == 1 {
            t.clear_region_v(0, t.c.y, t.c.x, t.c.y)
        } else if w == 2 {
            t.clear_region_v(0, t.c.y, t.cols - 1, t.c.y)
        } else {
            t
        }
    } else if fin == 0x4c {
        // IL: insert lines at the cursor (inside the region only)
        if t.top <= t.c.y <= t.bot {
            t.scroll_down_v(t.c.y, n)
        } else {
            t
        }
    } else if fin == 0x4d {
        // DL: delete lines at the cursor (inside the region only)
        if t.top <= t.c.y <= t.bot {
            t.scroll_up_v(t.c.y, n)
        } else {
            t
        }
    } else if fin == 0x40 {
        // ICH: insert blank characters
        t.insert_blanks_v(n)
    } else if fin == 0x50 {
        // DCH: delete characters
        t.delete_chars_v(n)
    } else if fin == 0x58 {
        // ECH: erase characters
        t.clear_region_v(t.c.x, t.c.y, t.c.x + n - 1, t.c.y)
    } else if fin == 0x53 {
        // SU: scroll up
        t.scroll_up_v(t.top, n)
    } else if fin == 0x54 {
        // SD: scroll down
        t.scroll_down_v(t.top, n)
    } else if fin == 0x72 {
        // DECSTBM: set scroll region, cursor home
        if privm {
            t
        } else {
            let b = if csi_arg(args, 1) == 0 {
                t.rows
            } else {
                csi_arg(args, 1) as int
            };
            t.set_scroll_region_v(csi_arg1(args, 0) as int - 1, b - 1)
        }
    } else if fin == 0x6d {
        // SGR: select graphic rendition
        t.sgr_v(args)
    } else if fin == 0x68 {
        // SM / DECSET
        apply_modes_v(t, privm, args, true)
    } else if fin == 0x6c {
        // RM / DECRST
        apply_modes_v(t, privm, args, false)
    } else if fin == 0x67 {
        // TBC: clear tab stops
        if csi_arg(args, 0) == 0 {
            t.clear_tab_v(t.c.x)
        } else if csi_arg(args, 0) == 3 {
            t.clear_all_tabs_v()
        } else {
            t
        }
    } else {
        t
    }
}

/// Effect of a terminated string sequence: an OSC (`ESC ]`) numbered 0, 1
/// or 2 sets the window title to the text after the first `;`; everything
/// else (DCS, PM, APC, other OSC numbers) is read and dropped.
pub open spec fn str_dispatch_v(m: InterpView) -> InterpView {
    if m.parser.str_kind == 0x5d && m.parser.buf.len() >= 2 && (m.parser.buf[0] == 0x30
        || m.parser.buf[0] == 0x31 || m.parser.buf[0] == 0x32) && m.parser.buf[1] == 0x3b {
        InterpView { title: m.parser.buf.skip(2), ..m }
    } else {
        m
    }
}

/// One byte in ground: control characters act at once, ASCII prints, and
/// multi-byte UTF-8 accumulates until the codepoint is complete.
pub open spec fn ground_step_v(m: InterpView, b: u8) -> InterpView {
    if b == 0x1b {
        InterpView {
            parser: ParserView {
                phase: Phase::Esc,
                utf_acc: 0,
                utf_need: 0,
                ..m.parser.seq_reset_v()
            },
            ..m
        }
    } else if b < 0x20 || b == 0x7f {
        if b == 0x0a || b == 0x0b || b == 0x0c {
            InterpView { term: m.term.newline_v(m.term.mode.crlf), ..m }
        } else if b == 0x0d {
            InterpView { term: m.term.move_to_v(0, m.term.c.y), ..m }
        } else if b == 0x09 {
            InterpView { term: m.term.put_tab_v(), ..m }
        } else if b == 0x08 {
            InterpView { term: m.term.move_cursor_v(-1, 0, false), ..m }
        } else {
            m
        }
    } else if m.parser.utf_need > 0 && 0x80 <= b < 0xc0 {
        let acc = (m.parser.utf_acc * 64 + (b & 0x3f) as u32) as u32;
        if m.parser.utf_need == 1 {
            InterpView {
                term: m.term.put_char_v(acc),
                parser: ParserView { utf_acc: 0, utf_need: 0, ..m.parser },
                ..m
            }
        } else {
            InterpView {
                parser: ParserView {
                    utf_acc: acc,
                    utf_need: (m.parser.utf_need - 1) as u8,
                    ..m.parser
                },
                ..m
            }
        }
    } else if b < 0x80 {
        InterpView {
            term: m.term.put_char_v(b as u32),
            parser: ParserView { utf_acc: 0, utf_need: 0, ..m.parser },
            ..m
        }
    } else if 0xc0 <= b <= 0xdf {
        InterpView {
            parser: ParserView { utf_acc: (b & 0x1f) as u32, utf_need: 1, ..m.parser },
            ..m
        }
    } else if 0xe0 <= b <= 0xef {
        InterpView {
            parser: ParserView { utf_acc: (b & 0x0f) as u32, utf_need: 2, ..m.parser },
            ..m
        }
    } else if 0xf0 <= b <= 0xf7 {
        InterpView {
            parser: ParserView { utf_acc: (b & 0x07) as u32, utf_need: 3, ..m.parser },
            ..m
        }
    } else {
        InterpView { parser: ParserView { utf_acc: 0, utf_need: 0, ..m.parser }, ..m }
    }
}

/// One byte after a bare ESC: select CSI, a string sequence, charset
/// selection, or a one-byte command; anything unknown is ignored.
pub open spec fn esc_step_v(m: InterpView, b: u8) -> InterpView {
    if b == 0x5b {
        InterpView { parser: ParserView { phase: Phase::Csi, ..m.parser.seq_reset_v() }, ..m }
    } else if b == 0x5d || b == 0x50 || b == 0x58 || b == 0x5e || b == 0x5f {
        InterpView {
            parser: ParserView { phase: Phase::Str, str_kind: b, ..m.parser.seq_reset_v() },
            ..m
        }
    } else if b == 0x28 || b == 0x29 {
        InterpView { parser: ParserView { phase: Phase::EscCharset, ..m.parser }, ..m }
    } else if b == 0x37 {
        InterpView { term: m.term.save_cursor_v(), parser: m.parser.seq_reset_v(), ..m }
    } else if b == 0x38 {
        InterpView { term: m.term.restore_cursor_v(), parser: m.parser.seq_reset_v(), ..m }
    } else if b == 0x44 {
        InterpView { term: m.term.newline_v(false), parser: m.parser.seq_reset_v(), ..m }
    } else if b == 0x4d {
        let t = if m.term.c.y == m.term.top {
            m.term.scroll_down_v(m.term.top, 1)
        } else {
            m.term.move_cursor_v(0, -1, false)
        };
        InterpView { term: t, parser: m.parser.seq_reset_v(), ..m }
    } else if b == 0x45 {
        InterpView { term: m.term.newline_v(true), parser: m.parser.seq_reset_v(), ..m }
    } else if b == 0x48 {
        InterpView { term: m.term.set_tab_v(m.term.c.x), parser: m.parser.seq_reset_v(), ..m }
    } else if b == 0x63 {
        InterpView {
            term: TermView::reset_v(m.term.rows, m.term.cols),
            parser: m.parser.seq_reset_v(),
            ..m
        }
    } else if b == 0x3d {
        InterpView {
            term: TermView { mode: Modes { appkeypad: true, ..m.term.mode }, ..m.term },
            parser: m.parser.seq_reset_v(),
            ..m
        }
    } else if b == 0x3e {
        InterpView {
            term: TermView { mode: Modes { appkeypad: false, ..m.term.mode }, ..m.term },
            parser: m.parser.seq_reset_v(),
            ..m
        }
    } else {
        InterpView { parser: m.parser.seq_reset_v(), ..m }
    }
}

/// The byte after `ESC (` or `ESC )`: `0` selects the graphics charset,
/// `B` the plain one, anything else only consumes the byte.
pub open spec fn charset_step_v(m: InterpView, b: u8) -> InterpView {
    let t = if b == 0x30 {
        TermView {
            c: CurView {
                attr: Glyph {
                    attr: crate::glyph::Attr { gfx: true, ..m.term.c.attr.attr },
                    ..m.term.c.attr
                },
                ..m.term.c
            },
            ..m.term
        }
    } else if b == 0x42 {
        TermView {
            c: CurView {
                attr: Glyph {
                    attr: crate::glyph::Attr { gfx: false, ..m.term.c.attr.attr },
                    ..m.term.c.attr
                },
                ..m.term.c
            },
            ..m.term
        }
    } else {
        m.term
    };
    InterpView { term: t, parser: m.parser.seq_reset_v(), ..m }
}

/// One byte inside a CSI sequence: digits and `;` build the argument
/// list, a leading `?` marks a private sequence, a final byte dispatches;
/// too many bytes or arguments abort the sequence harmlessly.
pub open spec fn csi_step_v(m: InterpView, b: u8) -> InterpView {
    if 0x30 <= b <= 0x39 {
        if m.parser.buf.len() >= ESC_BUF_SIZ as int {
            InterpView { parser: m.parser.seq_reset_v(), ..m }
        } else {
            let nc: int = m.parser.cur * 10 + (b - 0x30);
            InterpView {
                parser: ParserView {
                    cur: if nc > PARAM_MAX as int {
                        PARAM_MAX
                    } else {
                        nc as u32
                    },
                    cur_seen: true,
                    buf: m.parser.buf.push(b),
                    ..m.parser
                },
                ..m
            }
        }
    } else if b == 0x3b {
        if m.parser.args.len() >= ESC_ARG_SIZ as int || m.parser.buf.len() >= ESC_BUF_SIZ as int {
            InterpView { parser: m.parser.seq_reset_v(), ..m }
        } else {
            InterpView {
                parser: ParserView {
                    args: m.parser.args.push(m.parser.cur),
                    cur: 0,
                    cur_seen: false,
                    buf: m.parser.buf.push(b),
                    ..m.parser
                },
                ..m
            }
        }
    } else if b == 0x3f {
        if m.parser.buf.len() == 0 && m.parser.args.len() == 0 && !m.parser.cur_seen {
            InterpView {
                parser: ParserView {
                    priv_marker: true,
                    buf: m.parser.buf.push(b),
                    ..m.parser
                },
                ..m
            }
        } else {
            InterpView { parser: m.parser.seq_reset_v(), ..m }
        }
    } else if 0x40 <= b <= 0x7e {
        let args = if m.parser.cur_seen || m.parser.args.len() > 0 {
            if m.parser.args.len() < ESC_ARG_SIZ as int {
                m.parser.args.push(m.parser.cur)
            } else {
                m.parser.args
            }
        } else {
            m.parser.args
        };
        InterpView {
            term: csi_dispatch_v(m.term, m.parser.priv_marker, args, b),
            parser: m.parser.seq_reset_v(),
            ..m
        }
    } else if b == 0x1b {
        InterpView { parser: ParserView { phase: Phase::Esc, ..m.parser.seq_reset_v() }, ..m }
    } else {
        InterpView { parser: m.parser.seq_reset_v(), ..m }
    }
}

/// One byte inside a string sequence: BEL terminates and dispatches, ESC
/// may begin the two-byte string terminator, other bytes accumulate;
/// past the cap they are read and dropped (truncation, not failure).
pub open spec fn str_step_v(m: InterpView, b: u8) -> InterpView {
    if b == 0x07 {
        InterpView { parser: m.parser.seq_reset_v(), ..str_dispatch_v(m) }
    } else if b == 0x1b {
        InterpView { parser: ParserView { phase: Phase::StrEsc, ..m.parser }, ..m }
    } else if m.parser.buf.len() < ESC_BUF_SIZ as int {
        InterpView { parser: ParserView { buf: m.parser.buf.push(b), ..m.parser }, ..m }
    } else {
        m
    }
}

/// The byte after an ESC inside a string: `\` completes the string
/// terminator and dispatches; anything else abandons the sequence.
pub open spec fn str_esc_step_v(m: InterpView, b: u8) -> InterpView {
    if b == 0x5c {
        InterpView { parser: m.parser.seq_reset_v(), ..str_dispatch_v(m) }
    } else {
        InterpView { parser: m.parser.seq_reset_v(), ..m }
    }
}

/// The complete effect of one input byte on terminal, parser and title.
pub open spec fn step_spec(m: InterpView, b: u8) -> InterpView {
    match m.parser.phase {
        Phase::Ground => ground_step_v(m, b),
        Phase::Esc => esc_step_v(m, b),
        Phase::EscCharset => charset_step_v(m, b),
        Phase::Csi => csi_step_v(m, b),
        Phase::Str => str_step_v(m, b),
        Phase::StrEsc => str_esc_step_v(m, b),
    }
}

/// The effect of a whole chunk of bytes, first byte first. Because `feed`
/// is exactly this fold, splitting a stream anywhere — even inside a
/// UTF-8 codepoint or an escape sequence — cannot change the outcome.
pub open spec fn feed_spec(m: InterpView, bs: Seq<u8>) -> InterpView
    decreases bs.len(),
{
    if bs.len() == 0 {
        m
    } else {
        feed_spec(step_spec(m, bs[0]), bs.skip(1))
    }
}

impl InterpView {
    /// Well-formedness of model and parser together.
    pub open spec fn wf(self) -> bool {
        self.term.wf() && self.parser.wf()
    }
}

impl Interp {
    /// Well-formedness of the executable interpreter.
    pub open spec fn wf(&self) -> bool {
        self@.wf()
    }

    /// A fresh interpreter around a reset terminal of the given size.
    pub fn new(rows: usize, cols: usize) -> (r: Interp)
        ensures
            r@.term == TermView::reset_v(
                crate::clamped(rows as int, 1, crate::term::MAX_DIM as int),
                crate::clamped(cols as int, 1, crate::term::MAX_DIM as int),
            ),
            r@.parser == ParserView::init_v(),
            r@.title == Seq::<u8>::empty(),
            r.wf(),
    {
        let r = Interp {
            term: Term::with_size(rows, cols),
            parser: Parser {
                phase: Phase::Ground,
                buf: Vec::new(),
                args: Vec::new(),
                cur: 0,
                cur_seen: false,
                priv_marker: false,
                str_kind: 0,
                utf_acc: 0,
                utf_need: 0,
            },
            title: Vec::new(),
        };
        proof {
            assert(r@.parser =~= ParserView::init_v());
            assert(r@.title =~= Seq::<u8>::empty());
        }
        r
    }

    /// Consume one chunk of output from the child process: every byte is
    /// interpreted in arrival order, and when `feed` returns every effect
    /// of the chunk is visible in the grid.
    #[verifier::spinoff_prover]
    #[verifier::rlimit(100)]
    pub fn feed(&mut self, bytes: &[u8])
        requires
            old(self).wf(),
        ensures
            final(self)@ == feed_spec(old(self)@, bytes@),
            final(self).wf(),
    {
        let ghost m0 = self@;
        let ghost all = bytes@;
        let n = bytes.len();
        proof {
            assert(all.skip(0) =~= all);
        }
        let mut i: usize = 0;
        while i < n
            invariant
                self.wf(),
                n == all.len(),
                i <= n,
                all == bytes@,
                feed_spec(m0, all) == feed_spec(self@, all.skip(i as int)),
            decreases n - i,
        {
            let b = bytes[i];
            proof {
                assert(all.skip(i as int)[0] == all[i as int]);
                assert(all.skip(i as int).skip(1) =~= all.skip(i as int + 1));
            }
            self.step(b);
            i = i + 1;
        }
        proof {
            assert(all.skip(n as int) =~= Seq::<u8>::empty());
            assert(all.skip(0) =~= all);
        }
    }

    /// Dispatch a terminated string sequence (the title-setting OSC).
    fn dispatch_str(&mut self)
        requires
            old(self).wf(),
        ensures
            final(self)@ == str_dispatch_v(old(self)@),
            final(self).wf(),
    {
        if self.parser.str_kind == 0x5d && self.parser.buf.len() >= 2 && (self.parser.buf[0]
            == 0x30 || self.parser.buf[0] == 0x31 || self.parser.buf[0] == 0x32)
            && self.parser.buf[1] == 0x3b {
            let mut t: Vec<u8> = Vec::new();
            let mut i: usize = 2;
            while i < self.parser.buf.len()
                invariant
                    2 <= i <= self.parser.buf@.len(),
                    t@ =~= self.parser.buf@.subrange(2, i as int),
                decreases self.parser.buf@.len() - i,
            {
                t.push(self.parser.buf[i]);
                i = i + 1;
            }
            proof {
                assert(t@ =~= self.parser.buf@.skip(2));
            }
            self.title = t;
        }
    }

    /// Wipe the sequence state and return to ground.
    fn seq_reset(&mut self)
        ensures
            final(self)@ == (InterpView { parser: old(self)@.parser.seq_reset_v(), ..old(self)@ }),
    {
        self.parser.phase = Phase::Ground;
        self.parser.buf = Vec::new();
        self.parser.args = Vec::new();
        self.parser.cur = 0;
        self.parser.cur_seen = false;
        self.parser.priv_marker = false;
        self.parser.str_kind = 0;
        proof {
            assert(self@.parser =~= old(self)@.parser.seq_reset_v());
            assert(self@ =~~= (InterpView { parser: old(self)@.parser.seq_reset_v(), ..old(
                self,
            )@ }));
        }
    }

    /// Interpret one byte.
    #[verifier::rlimit(100)]
    pub fn step(&mut self, b: u8)
        requires
            old(self).wf(),
        ensures
            final(self)@ == step_spec(old(self)@, b),
            final(self).wf(),
    {
        match self.parser.phase {
            Phase::Ground => self.ground_step(b),
            Phase::Esc => self.esc_step(b),
            Phase::EscCharset => self.charset_step(b),
            Phase::Csi => self.csi_step(b),
            Phase::Str => self.str_step(b),
            Phase::StrEsc => self.str_esc_step(b),
        }
    }

    /// One byte in ground: controls, printable ASCII, UTF-8 accumulation.
    #[verifier::rlimit(100)]
    fn ground_step(&mut self, b: u8)
        requires
            old(self).wf(),
            old(self)@.parser.phase == Phase::Ground,
        ensures
            final(self)@ == ground_step_v(old(self)@, b),
            final(self).wf(),
    {
        proof {
            assert((b & 0x3f) < 64 && (b & 0x1f) < 32 && (b & 0x0f) < 16 && (b & 0x07) < 8)
                by (bit_vector);
        }
        if b == 0x1b {
            self.seq_reset();
            self.parser.phase = Phase::Esc;
            self.parser.utf_acc = 0;
            self.parser.utf_need = 0;
            proof {
                assert(self@ =~~= ground_step_v(old(self)@, b));
            }
        } else if b < 0x20 || b == 0x7f {
            if b == 0x0a || b == 0x0b || b == 0x0c {
                let crlf = self.term.mode.crlf;
                self.term.newline(crlf);
            } else if b == 0x0d {
                let y = self.term.c.y;
                self.term.move_to(0, y as isize);
            } else if b == 0x09 {
                self.term.put_tab();
            } else if b == 0x08 {
                self.term.move_cursor(-1, 0, false);
            }
        } else if self.parser.utf_need > 0 && 0x80 <= b && b < 0xc0 {
            let acc: u32 = self.parser.utf_acc * 64 + (b & 0x3f) as u32;
            if self.parser.utf_need == 1 {
                self.parser.utf_acc = 0;
                self.parser.utf_need = 0;
                self.term.put_char(acc);
            } else {
                self.parser.utf_acc = acc;
                self.parser.utf_need = self.parser.utf_need - 1;
            }
        } else if b < 0x80 {
            self.parser.utf_acc = 0;
            self.parser.utf_need = 0;
            self.term.put_char(b as u32);
        } else if 0xc0 <= b && b <= 0xdf {
            self.parser.utf_acc = (b & 0x1f) as u32;
            self.parser.utf_need = 1;
        } else if 0xe0 <= b && b <= 0xef {
            self.parser.utf_acc = (b & 0x0f) as u32;
            self.parser.utf_need = 2;
        } else if 0xf0 <= b && b <= 0xf7 {
            self.parser.utf_acc = (b & 0x07) as u32;
            self.parser.utf_need = 3;
        } else {
            self.parser.utf_acc = 0;
            self.parser.utf_need = 0;
        }
    }

    /// One byte after ESC.
    #[verifier::spinoff_prover]
    #[verifier::rlimit(100)]
    fn esc_step(&mut self, b: u8)
        requires
            old(self).wf(),
            old(self)@.parser.phase == Phase::Esc,
        ensures
            final(self)@ == esc_step_v(old(self)@, b),
            final(self).wf(),
    {
        if b == 0x5b {
            self.seq_reset();
            self.parser.phase = Phase::Csi;
            proof {
                assert(self@ =~~= esc_step_v(old(self)@, b));
            }
        } else if b == 0x5d || b == 0x50 || b == 0x58 || b == 0x5e || b == 0x5f {
            self.seq_reset();
            self.parser.phase = Phase::Str;
            self.parser.str_kind = b;
            proof {
                assert(self@ =~~= esc_step_v(old(self)@, b));
            }
        } else if b == 0x28 || b == 0x29 {
            self.parser.phase = Phase::EscCharset;
            proof {
                assert(self@ =~~= esc_step_v(old(self)@, b));
            }
        } else if b == 0x37 {
            self.term.save_cursor();
            self.seq_reset();
            proof {
                assert(self@ =~~= esc_step_v(old(self)@, b));
            }
        } else if b == 0x38 {
            self.term.restore_cursor();
            self.seq_reset();
            proof {
                assert(self@ =~~= esc_step_v(old(self)@, b));
            }
        } else if b == 0x44 {
            self.term.newline(false);
            self.seq_reset();
            proof {
                assert(self@ =~~= esc_step_v(old(self)@, b));
            }
        } else if b == 0x4d {
            if self.term.c.y == self.term.top {
                let top = self.term.top;
                self.term.scroll_down(top, 1);
            } else {
                self.term.move_cursor(0, -1, false);
            }
            self.seq_reset();
            proof {
                assert(self@ =~~= esc_step_v(old(self)@, b));
            }
        } else if b == 0x45 {
            self.term.newline(true);
            self.seq_reset();
            proof {
                assert(self@ =~~= esc_step_v(old(self)@, b));
            }
        } else if b == 0x48 {
            let x = self.term.c.x;
            self.term.set_tab_stop(x);
            self.seq_reset();
            proof {
                assert(self@ =~~= esc_step_v(old(self)@, b));
            }
        } else if b == 0x63 {
            self.term.reset();
            self.seq_reset();
            proof {
                assert(self@ =~~= esc_step_v(old(self)@, b));
            }
        } else if b == 0x3d {
            self.term.mode.appkeypad = true;
            self.seq_reset();
            proof {
                assert(self@ =~~= esc_step_v(old(self)@, b));
            }
        } else if b == 0x3e {
            self.term.mode.appkeypad = false;
            self.seq_reset();
            proof {
                assert(self@ =~~= esc_step_v(old(self)@, b));
            }
        } else {
            self.seq_reset();
            proof {
                assert(self@ =~~= esc_step_v(old(self)@, b));
            }
        }
    }

    /// The byte completing a charset selection.
    fn charset_step(&mut self, b: u8)
        requires
            old(self).wf(),
            old(self)@.parser.phase == Phase::EscCharset,
        ensures
            final(self)@ == charset_step_v(old(self)@, b),
            final(self).wf(),
    {
        if b == 0x30 {
            self.term.c.attr.attr.gfx = true;
        } else if b == 0x42 {
            self.term.c.attr.attr.gfx = false;
        }
        self.seq_reset();
        proof {
            assert(self@ =~~= charset_step_v(old(self)@, b));
        }
    }

    /// One byte inside a CSI sequence.
    #[verifier::rlimit(100)]
    fn csi_step(&mut self, b: u8)
        requires
            old(self).wf(),
            old(self)@.parser.phase == Phase::Csi,
        ensures
            final(self)@ == csi_step_v(old(self)@, b),
            final(self).wf(),
    {
        if 0x30 <= b && b <= 0x39 {
            if self.parser.buf.len() >= ESC_BUF_SIZ {
                self.seq_reset();
            } else {
                let nc: u32 = self.parser.cur * 10 + (b - 0x30) as u32;
                self.parser.cur = if nc > PARAM_MAX {
                    PARAM_MAX
                } else {
                    nc
                };
                self.parser.cur_seen = true;
                self.parser.buf.push(b);
            }
        } else if b == 0x3b {
            if self.parser.args.len() >= ESC_ARG_SIZ || self.parser.buf.len() >= ESC_BUF_SIZ {
                self.seq_reset();
            } else {
                let cur = self.parser.cur;
                self.parser.args.push(cur);
                self.parser.cur = 0;
                self.parser.cur_seen = false;
                self.parser.buf.push(b);
            }
        } else if b == 0x3f {
            if self.parser.buf.len() == 0 && self.parser.args.len() == 0 && !self.parser.cur_seen {
                self.parser.priv_marker = true;
                self.parser.buf.push(b);
            } else {
                self.seq_reset();
            }
        } else if 0x40 <= b && b <= 0x7e {
            if (self.parser.cur_seen || self.parser.args.len() > 0) && self.parser.args.len()
                < ESC_ARG_SIZ {
                let cur = self.parser.cur;
                self.parser.args.push(cur);
            }
            let privm = self.parser.priv_marker;
            csi_dispatch(&mut self.term, privm, &self.parser.args, b);
            self.seq_reset();
        } else if b == 0x1b {
            self.seq_reset();
            self.parser.phase = Phase::Esc;
        } else {
            self.seq_reset();
        }
        proof {
            assert(self@ =~~= csi_step_v(old(self)@, b));
        }
    }

    /// One byte inside a string sequence.
    fn str_step(&mut self, b: u8)
        requires
            old(self).wf(),
            old(self)@.parser.phase == Phase::Str,
        ensures
            final(self)@ == str_step_v(old(self)@, b),
            final(self).wf(),
    {
        if b == 0x07 {
            self.dispatch_str();
            self.seq_reset();
        } else if b == 0x1b {
            self.parser.phase = Phase::StrEsc;
        } else if self.parser.buf.len() < ESC_BUF_SIZ {
            self.parser.buf.push(b);
        }
        proof {
            assert(self@ =~~= str_step_v(old(self)@, b));
        }
    }

    /// The byte after an ESC inside a string sequence.
    fn str_esc_step(&mut self, b: u8)
        requires
            old(self).wf(),
            old(self)@.parser.phase == Phase::StrEsc,
        ensures
            final(self)@ == str_esc_step_v(old(self)@, b),
            final(self).wf(),
    {
        if b == 0x5c {
            self.dispatch_str();
        }
        self.seq_reset();
        proof {
            assert(self@ =~~= str_esc_step_v(old(self)@, b));
        }
    }
}

/// Apply a complete CSI command to the terminal model.
#[verifier::rlimit(100)]
fn csi_dispatch(t: &mut Term, privm: bool, args: &Vec<u32>, fin: u8)
    requires
        old(t).wf(),
        forall|i: int| 0 <= i < args@.len() ==> #[trigger] args@[i] <= PARAM_MAX,
    ensures
        final(t)@ == csi_dispatch_v(old(t)@, privm, args@, fin),
        final(t).wf(),
{
    let n: u32 = arg1_at(args, 0);
    if fin == 0x41 {
        t.move_cursor(0, -(n as isize), false);
    } else if fin == 0x42 || fin == 0x65 {
        t.move_cursor(0, n as isize, false);
    } else if fin == 0x43 || fin == 0x61 {
        t.move_cursor(n as isize, 0, false);
    } else if fin == 0x44 {
        t.move_cursor(-(n as isize), 0, false);
    } else if fin == 0x45 {
        let y = t.c.y;
        t.move_to(0, y as isize + n as isize);
    } else if fin == 0x46 {
        let y = t.c.y;
        t.move_to(0, y as isize - n as isize);
    } else if fin == 0x47 || fin == 0x60 {
        let y = t.c.y;
        t.move_to(n as isize - 1, y as isize);
    } else if fin == 0x64 {
        let x = t.c.x;
        t.move_to(x as isize, n as isize - 1);
    } else if fin == 0x48 || fin == 0x66 {
        let col = arg1_at(args, 1);
        t.move_to(col as isize - 1, n as isize - 1);
    } else if fin == 0x4a {
        let w = arg_at(args, 0);
        let x = t.c.x;
        let y = t.c.y;
        let cols = t.col;
        let rows = t.row;
        if w == 0 {
            t.clear_region(x as isize, y as isize, cols as isize - 1, y as isize);
            if y + 1 < rows {
                t.clear_region(0, y as isize + 1, cols as isize - 1, rows as isize - 1);
            }
        } else if w == 1 {
            t.clear_region(0, y as isize, x as isize, y as isize);
            if y > 0 {
                t.clear_region(0, 0, cols as isize - 1, y as isize - 1);
            }
        } else if w == 2 {
            t.clear_region(0, 0, cols as isize - 1, rows as isize - 1);
        }
    } else if fin == 0x4b {
        let w = arg_at(args, 0);
        let x = t.c.x;
        let y = t.c.y;
        let cols = t.col;
        if w == 0 {
            t.clear_region(x as isize, y as isize, cols as isize - 1, y as isize);
        } else if w == 1 {
            t.clear_region(0, y as isize, x as isize, y as isize);
        } else if w == 2 {
            t.clear_region(0, y as isize, cols as isize - 1, y as isize);
        }
    } else if fin == 0x4c {
        if t.top <= t.c.y && t.c.y <= t.bot {
            let y = t.c.y;
            t.scroll_down(y, n as usize);
        }
    } else if fin == 0x4d {
        if t.top <= t.c.y && t.c.y <= t.bot {
            let y = t.c.y;
            t.scroll_up(y, n as usize);
        }
    } else if fin == 0x40 {
        t.insert_blanks(n as usize);
    } else if fin == 0x50 {
        t.delete_chars(n as usize);
    } else if fin == 0x58 {
        let x = t.c.x;
        let y = t.c.y;
        t.clear_region(x as isize, y as isize, x as isize + n as isize - 1, y as isize);
    } else if fin == 0x53 {
        let top = t.top;
        t.scroll_up(top, n as usize);
    } else if fin == 0x54 {
        let top = t.top;
        t.scroll_down(top, n as usize);
    } else if fin == 0x72 {
        if !privm {
            let b1 = arg_at(args, 1);
            let bot: isize = if b1 == 0 {
                t.row as isize
            } else {
                b1 as isize
            };
            t.set_scroll_region(n as isize - 1, bot - 1);
        }
    } else if fin == 0x6d {
        t.apply_sgr(args);
    } else if fin == 0x68 {
        apply_modes(t, privm, args, true);
    } else if fin == 0x6c {
        apply_modes(t, privm, args, false);
    } else if fin == 0x67 {
        let w = arg_at(args, 0);
        if w == 0 {
            let x = t.c.x;
            t.clear_tab_stop(x);
        } else if w == 3 {
            t.clear_all_tabs();
        }
    }
}

/// Apply one mode number, including the alternate-screen switches.
fn apply_one_mode(t: &mut Term, privm: bool, a: u32, on: bool)
    requires
        old(t).wf(),
    ensures
        final(t)@ == apply_mode_v(old(t)@, privm, a, on),
        final(t).wf(),
{
    if privm && (a == 47 || a == 1047 || a == 1049) {
        if on && !t.mode.altscreen {
            if a == 1049 {
                t.save_cursor();
            }
            t.swap_screen();
            if a == 1047 || a == 1049 {
                let cols = t.col;
                let rows = t.row;
                t.clear_region(0, 0, cols as isize - 1, rows as isize - 1);
            }
        } else if !on && t.mode.altscreen {
            t.swap_screen();
            if a == 1049 {
                t.restore_cursor();
            }
        }
    } else {
        t.set_mode(privm, a, on);
    }
}

/// Apply every mode number of a CSI `h`/`l`.
fn apply_modes(t: &mut Term, privm: bool, args: &Vec<u32>, on: bool)
    requires
        old(t).wf(),
    ensures
        final(t)@ == apply_modes_v(old(t)@, privm, args@, on),
        final(t).wf(),
{
    let ghost t0 = old(t)@;
    let ghost all = args@;
    let mut i: usize = 0;
    proof {
        assert(all.skip(0) =~= all);
    }
    while i < args.len()
        invariant
            t.wf(),
            i <= args.len(),
            all == args@,
            apply_modes_v(t0, privm, all, on) == apply_modes_v(t@, privm, all.skip(i as int), on),
        decreases args.len() - i,
    {
        proof {
            assert(all.skip(i as int)[0] == all[i as int]);
            assert(all.skip(i as int).skip(1) =~= all.skip(i as int + 1));
        }
        apply_one_mode(t, privm, args[i], on);
        i = i + 1;
    }
    proof {
        assert(all.skip(args.len() as int) =~= Seq::<u32>::empty());
    }
}

/// CSI argument `i`, defaulting to 0 when absent.
fn arg_at(args: &Vec<u32>, i: usize) -> (r: u32)
    ensures
        r == csi_arg(args@, i as int),
{
    if i < args.len() {
        args[i]
    } else {
        0
    }
}

/// CSI argument `i` normalised for counts: absent or 0 becomes 1.
fn arg1_at(args: &Vec<u32>, i: usize) -> (r: u32)
    ensures
        r == csi_arg1(args@, i as int),
{
    let a = arg_at(args, i);
    if a == 0 {
        1
    } else {
        a
    }
}

} // verus!
