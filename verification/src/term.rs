use vstd::prelude::*;
use vstd::pervasive::VecAdditionalExecFns;

use crate::glyph::{Attr, Glyph, attr_plain, blank_from, default_glyph, mk_blank_from,
    mk_default_glyph, DEFAULTBG, DEFAULTFG, TABSPACES};
use crate::clamped;

verus! {

/// Largest row or column count the model accepts; also the cap on
/// numeric escape parameters, so every coordinate computation fits
/// comfortably in the machine types.
pub const MAX_DIM: usize = 65535;

/// Mode flags of the terminal, one named boolean per capability.
#[derive(Clone, Copy, PartialEq, Eq, Structural, Debug)]
pub struct Modes {
    pub wrap: bool,
    pub insert: bool,
    pub appkeypad: bool,
    pub altscreen: bool,
    pub crlf: bool,
    pub mouse_btn: bool,
    pub mouse_motion: bool,
    pub reverse: bool,
    pub kbdlock: bool,
}

/// The default mode set: autowrap on, everything else off.
pub open spec fn mode_default() -> Modes {
    Modes {
        wrap: true,
        insert: false,
        appkeypad: false,
        altscreen: false,
        crlf: false,
        mouse_btn: false,
        mouse_motion: false,
        reverse: false,
        kbdlock: false,
    }
}

/// A saved cursor snapshot: pending style and position.
#[derive(Clone, Copy, PartialEq, Eq, Structural, Debug)]
pub struct Saved {
    pub attr: Glyph,
    pub x: usize,
    pub y: usize,
}

/// Cursor state: pending style for the next written cell, position,
/// the deferred-wrap flag, visibility, and the save/restore slot.
pub struct TCursor {
    pub attr: Glyph,
    pub x: usize,
    pub y: usize,
    pub wrap_pending: bool,
    pub hidden: bool,
    pub saved: Option<Saved>,
}

/// Mathematical image of the cursor.
#[verifier::ext_equal]
pub ghost struct CurView {
    pub attr: Glyph,
    pub x: int,
    pub y: int,
    pub wrap_pending: bool,
    pub hidden: bool,
    pub saved: Option<Saved>,
}

/// Mathematical image of the whole terminal model.
#[verifier::ext_equal]
pub ghost struct TermView {
    pub rows: int,
    pub cols: int,
    /// The active grid: every write lands here.
    pub line: Seq<Seq<Glyph>>,
    /// The inactive grid; switching screens swaps the two.
    pub alt: Seq<Seq<Glyph>>,
    pub dirty: Seq<bool>,
    pub tabs: Seq<bool>,
    pub c: CurView,
    pub top: int,
    pub bot: int,
    pub mode: Modes,
}

/// The terminal model: grids, dirty flags, cursor, scroll region,
/// tab stops and mode flags. `line` is always the grid writes go to;
/// `alt` is the other screen, swapped in by the alternate-screen modes.
pub struct Term {
    pub row: usize,
    pub col: usize,
    pub line: Vec<Vec<Glyph>>,
    pub alt: Vec<Vec<Glyph>>,
    pub dirty: Vec<bool>,
    pub c: TCursor,
    pub top: usize,
    pub bot: usize,
    pub mode: Modes,
    pub tabs: Vec<bool>,
}

/// A grid of rows of cells, seen as a sequence of sequences.
pub open spec fn rows_view(g: Seq<Vec<Glyph>>) -> Seq<Seq<Glyph>> {
    Seq::new(g.len(), |i: int| g[i]@)
}

impl View for Term {
    type V = TermView;

    open spec fn view(&self) -> TermView {
        TermView {
            rows: self.row as int,
            cols: self.col as int,
            line: rows_view(self.line@),
            alt: rows_view(self.alt@),
            dirty: self.dirty@,
            tabs: self.tabs@,
            c: CurView {
                attr: self.c.attr,
                x: self.c.x as int,
                y: self.c.y as int,
                wrap_pending: self.c.wrap_pending,
                hidden: self.c.hidden,
                saved: self.c.saved,
            },
            top: self.top as int,
            bot: self.bot as int,
            mode: self.mode,
        }
    }
}

/// A row of `cols` blank cells in the given style.
pub open spec fn blank_row_v(cols: int, style: Glyph) -> Seq<Glyph> {
    Seq::new(cols as nat, |i: int| blank_from(style))
}

/// Default tab stops: one every `TABSPACES` columns, none at column 0.
pub open spec fn tabs_default_v(cols: int) -> Seq<bool> {
    Seq::new(cols as nat, |i: int| i != 0 && i % (TABSPACES as int) == 0)
}


/// An extended-colour parameter clamped into the 256-colour palette.
pub open spec fn color256(v: u32) -> u16 {
    if v > 255 {
        255
    } else {
        v as u16
    }
}

impl TermView {
    /// Well-formedness: grids match the declared dimensions, the scroll
    /// region is ordered and inside the screen, and the cursor is in bounds.
    pub open spec fn wf(self) -> bool {
        &&& 1 <= self.rows <= MAX_DIM as int
        &&& 1 <= self.cols <= MAX_DIM as int
        &&& self.line.len() == self.rows
        &&& self.alt.len() == self.rows
        &&& (forall|i: int| 0 <= i < self.rows ==> (#[trigger] self.line[i]).len() == self.cols)
        &&& (forall|i: int| 0 <= i < self.rows ==> (#[trigger] self.alt[i]).len() == self.cols)
        &&& self.dirty.len() == self.rows
        &&& self.tabs.len() == self.cols
        &&& 0 <= self.top <= self.bot < self.rows
        &&& 0 <= self.c.x < self.cols
        &&& 0 <= self.c.y < self.rows
    }

    /// The state `reset` establishes: both grids blank in the default
    /// style, every row dirty, default tab stops, cursor at the origin
    /// with the default style, full-screen scroll region, default modes.
    pub open spec fn reset_v(rows: int, cols: int) -> TermView {
        TermView {
            rows,
            cols,
            line: Seq::new(rows as nat, |y: int| blank_row_v(cols, default_glyph())),
            alt: Seq::new(rows as nat, |y: int| blank_row_v(cols, default_glyph())),
            dirty: Seq::new(rows as nat, |y: int| true),
            tabs: tabs_default_v(cols),
            c: CurView {
                attr: default_glyph(),
                x: 0,
                y: 0,
                wrap_pending: false,
                hidden: false,
                saved: None,
            },
            top: 0,
            bot: rows - 1,
            mode: mode_default(),
        }
    }
}

/// The first tab-stop column at or after `j`, or the last column when
/// none is set there.
pub open spec fn next_tab_from(tabs: Seq<bool>, j: int) -> int
    decreases tabs.len() - j,
{
    if j < 0 || j >= tabs.len() - 1 {
        tabs.len() - 1
    } else if tabs[j] {
        j
    } else {
        next_tab_from(tabs, j + 1)
    }
}

/// Replacing one row of a grid commutes with taking the grid's view.
pub proof fn lemma_rows_view_update(g: Seq<Vec<Glyph>>, y: int, nr: Vec<Glyph>)
    requires
        0 <= y < g.len(),
    ensures
        rows_view(g.update(y, nr)) =~= rows_view(g).update(y, nr@),
{
    assert(rows_view(g.update(y, nr)) =~= rows_view(g).update(y, nr@));
}

impl TermView {
    /// Clearing a rectangle: corners are normalised (swapped if inverted)
    /// and clamped into the grid; every cell inside becomes a blank in the
    /// cursor's current style; the touched rows are marked dirty.
    pub open spec fn clear_region_v(self, x1: int, y1: int, x2: int, y2: int) -> TermView {
        let xl = if x1 <= x2 { x1 } else { x2 };
        let xr = if x1 <= x2 { x2 } else { x1 };
        let yl = if y1 <= y2 { y1 } else { y2 };
        let yr = if y1 <= y2 { y2 } else { y1 };
        let xa = clamped(xl, 0, self.cols - 1);
        let xb = clamped(xr, 0, self.cols - 1);
        let ya = clamped(yl, 0, self.rows - 1);
        let yb = clamped(yr, 0, self.rows - 1);
        TermView {
            line: Seq::new(
                self.rows as nat,
                |y: int|
                    if ya <= y <= yb {
                        Seq::new(
                            self.cols as nat,
                            |x: int|
                                if xa <= x <= xb {
                                    blank_from(self.c.attr)
                                } else {
                                    self.line[y][x]
                                },
                        )
                    } else {
                        self.line[y]
                    },
            ),
            dirty: Seq::new(
                self.rows as nat,
                |y: int| if ya <= y <= yb { true } else { self.dirty[y] },
            ),
            ..self
        }
    }

    /// Absolute cursor move, clamped into the grid; a pending wrap is
    /// forgotten.
    pub open spec fn move_to_v(self, x: int, y: int) -> TermView {
        TermView {
            c: CurView {
                x: clamped(x, 0, self.cols - 1),
                y: clamped(y, 0, self.rows - 1),
                wrap_pending: false,
                ..self.c
            },
            ..self
        }
    }

    /// Relative cursor move, clamped into the grid, or vertically into the
    /// scroll region when `clamp_to_region` is set.
    pub open spec fn move_cursor_v(self, dx: int, dy: int, clamp_to_region: bool) -> TermView {
        let ny = if clamp_to_region {
            clamped(self.c.y + dy, self.top, self.bot)
        } else {
            clamped(self.c.y + dy, 0, self.rows - 1)
        };
        TermView {
            c: CurView {
                x: clamped(self.c.x + dx, 0, self.cols - 1),
                y: ny,
                wrap_pending: false,
                ..self.c
            },
            ..self
        }
    }

    /// Saving the cursor records style and position in the save slot.
    pub open spec fn save_cursor_v(self) -> TermView {
        TermView {
            c: CurView {
                saved: Some(Saved { attr: self.c.attr, x: self.c.x as usize, y: self.c.y as usize }),
                ..self.c
            },
            ..self
        }
    }

    /// Restoring the cursor brings back the saved style and position
    /// (clamped into the current grid); with nothing saved it is a no-op.
    pub open spec fn restore_cursor_v(self) -> TermView {
        match self.c.saved {
            Some(s) => TermView {
                c: CurView {
                    attr: s.attr,
                    x: clamped(s.x as int, 0, self.cols - 1),
                    y: clamped(s.y as int, 0, self.rows - 1),
                    wrap_pending: false,
                    ..self.c
                },
                ..self
            },
            None => self,
        }
    }

    /// Scrolling up by `n` within `[orig, bot]` (with `orig` clamped into
    /// the scroll region and `n` into the band size): rows move up by `n`,
    /// the vacated rows at the bottom of the band become blank in the
    /// cursor's style, rows outside the band are untouched, the whole band
    /// is marked dirty.
    pub open spec fn scroll_up_v(self, orig: int, n: int) -> TermView {
        let o = clamped(orig, self.top, self.bot);
        let m = clamped(n, 0, self.bot - o + 1);
        TermView {
            line: Seq::new(
                self.rows as nat,
                |i: int|
                    if i < o || i > self.bot {
                        self.line[i]
                    } else if i + m <= self.bot {
                        self.line[i + m]
                    } else {
                        blank_row_v(self.cols, self.c.attr)
                    },
            ),
            dirty: Seq::new(
                self.rows as nat,
                |i: int| if o <= i <= self.bot { true } else { self.dirty[i] },
            ),
            ..self
        }
    }

    /// Scrolling down by `n` within `[orig, bot]`: the mirror image of
    /// `scroll_up_v`, vacating rows at the top of the band.
    pub open spec fn scroll_down_v(self, orig: int, n: int) -> TermView {
        let o = clamped(orig, self.top, self.bot);
        let m = clamped(n, 0, self.bot - o + 1);
        TermView {
            line: Seq::new(
                self.rows as nat,
                |i: int|
                    if i < o || i > self.bot {
                        self.line[i]
                    } else if i - m >= o {
                        self.line[i - m]
                    } else {
                        blank_row_v(self.cols, self.c.attr)
                    },
            ),
            dirty: Seq::new(
                self.rows as nat,
                |i: int| if o <= i <= self.bot { true } else { self.dirty[i] },
            ),
            ..self
        }
    }

    /// A line feed: at the bottom of the scroll region the region scrolls
    /// up one row, otherwise the cursor moves down one row (clamped to the
    /// screen); `first_col` also returns the cursor to column 0.
    pub open spec fn newline_v(self, first_col: bool) -> TermView {
        let t = if self.c.y == self.bot {
            self.scroll_up_v(self.top, 1)
        } else {
            self
        };
        TermView {
            c: CurView {
                x: if first_col {
                    0
                } else {
                    t.c.x
                },
                y: if self.c.y == self.bot {
                    t.c.y
                } else {
                    clamped(t.c.y + 1, 0, self.rows - 1)
                },
                wrap_pending: false,
                ..t.c
            },
            ..t
        }
    }

    /// Setting a tab stop at a column (ignored out of range).
    pub open spec fn set_tab_v(self, col: int) -> TermView {
        if 0 <= col < self.cols {
            TermView { tabs: self.tabs.update(col, true), ..self }
        } else {
            self
        }
    }

    /// Clearing a tab stop at a column (ignored out of range).
    pub open spec fn clear_tab_v(self, col: int) -> TermView {
        if 0 <= col < self.cols {
            TermView { tabs: self.tabs.update(col, false), ..self }
        } else {
            self
        }
    }

    /// Clearing every tab stop.
    pub open spec fn clear_all_tabs_v(self) -> TermView {
        TermView { tabs: Seq::new(self.cols as nat, |i: int| false), ..self }
    }

    /// A horizontal tab: the cursor jumps to the next tab stop after its
    /// column, or to the last column when none is set ahead.
    pub open spec fn put_tab_v(self) -> TermView {
        TermView {
            c: CurView {
                x: next_tab_from(self.tabs, self.c.x + 1),
                wrap_pending: false,
                ..self.c
            },
            ..self
        }
    }

    /// Inserting `n` blanks at the cursor: cells from the cursor on shift
    /// right, the rightmost `n` fall off, the gap is blank in the cursor's
    /// style; `n` is clamped to the room left on the row.
    pub open spec fn insert_blanks_v(self, n: int) -> TermView {
        let m = clamped(n, 0, self.cols - self.c.x);
        let cx = self.c.x;
        let row = self.line[self.c.y];
        TermView {
            line: self.line.update(
                self.c.y,
                Seq::new(
                    self.cols as nat,
                    |x: int|
                        if x < cx {
                            row[x]
                        } else if x < cx + m {
                            blank_from(self.c.attr)
                        } else {
                            row[x - m]
                        },
                ),
            ),
            dirty: self.dirty.update(self.c.y, true),
            ..self
        }
    }

    /// Deleting `n` cells at the cursor: cells to the right shift left by
    /// `n`, the freed tail of the row becomes blank in the cursor's style;
    /// `n` is clamped to the room left on the row.
    pub open spec fn delete_chars_v(self, n: int) -> TermView {
        let m = clamped(n, 0, self.cols - self.c.x);
        let cx = self.c.x;
        let row = self.line[self.c.y];
        TermView {
            line: self.line.update(
                self.c.y,
                Seq::new(
                    self.cols as nat,
                    |x: int|
                        if x < cx {
                            row[x]
                        } else if x + m < self.cols {
                            row[x + m]
                        } else {
                            blank_from(self.c.attr)
                        },
                ),
            ),
            dirty: self.dirty.update(self.c.y, true),
            ..self
        }
    }

    /// Writing glyph `g` into cell `(x, y)` and marking the row dirty.
    pub open spec fn set_cell_v(self, x: int, y: int, g: Glyph) -> TermView {
        TermView {
            line: self.line.update(y, self.line[y].update(x, g)),
            dirty: self.dirty.update(y, true),
            ..self
        }
    }

    /// Writing one codepoint at the cursor: a deferred wrap first takes a
    /// new line; in insert mode the row shifts right; the cell takes the
    /// cursor's pending style and is marked set; the cursor advances one
    /// column, or arms the deferred wrap at the last column in wrap mode.
    pub open spec fn put_char_v(self, ch: u32) -> TermView {
        let t0 = if self.c.wrap_pending {
            self.newline_v(true)
        } else {
            self
        };
        let t1 = if t0.mode.insert {
            t0.insert_blanks_v(1)
        } else {
            t0
        };
        let g = Glyph {
            ch,
            attr: t1.c.attr.attr,
            fg: t1.c.attr.fg,
            bg: t1.c.attr.bg,
            set: true,
            dirty: true,
        };
        let t2 = t1.set_cell_v(t1.c.x, t1.c.y, g);
        if t2.c.x + 1 < t2.cols {
            TermView { c: CurView { x: t2.c.x + 1, ..t2.c }, ..t2 }
        } else if t2.mode.wrap {
            TermView { c: CurView { wrap_pending: true, ..t2.c }, ..t2 }
        } else {
            t2
        }
    }


    /// Applying one SGR parameter list to a pending style, head first:
    /// attribute flags on and off, the 16 basic colours, the extended
    /// 256-colour selections `38;5;n` / `48;5;n` (a malformed extended
    /// selection swallows the rest, as terminals do), defaults on 0/39/49,
    /// everything unknown ignored.
    pub open spec fn apply_sgr_v(g: Glyph, args: Seq<u32>) -> Glyph
        decreases args.len(),
    {
        if args.len() == 0 {
            g
        } else {
            let a = args[0];
            let rest = args.skip(1);
            if a == 0 {
                Self::apply_sgr_v(
                    Glyph {
                        attr: Attr { gfx: g.attr.gfx, ..attr_plain() },
                        fg: DEFAULTFG,
                        bg: DEFAULTBG,
                        ..g
                    },
                    rest,
                )
            } else if a == 1 {
                Self::apply_sgr_v(Glyph { attr: Attr { bold: true, ..g.attr }, ..g }, rest)
            } else if a == 3 {
                Self::apply_sgr_v(Glyph { attr: Attr { italic: true, ..g.attr }, ..g }, rest)
            } else if a == 4 {
                Self::apply_sgr_v(Glyph { attr: Attr { underline: true, ..g.attr }, ..g }, rest)
            } else if a == 5 {
                Self::apply_sgr_v(Glyph { attr: Attr { blink: true, ..g.attr }, ..g }, rest)
            } else if a == 7 {
                Self::apply_sgr_v(Glyph { attr: Attr { reverse: true, ..g.attr }, ..g }, rest)
            } else if a == 22 {
                Self::apply_sgr_v(Glyph { attr: Attr { bold: false, ..g.attr }, ..g }, rest)
            } else if a == 23 {
                Self::apply_sgr_v(Glyph { attr: Attr { italic: false, ..g.attr }, ..g }, rest)
            } else if a == 24 {
                Self::apply_sgr_v(Glyph { attr: Attr { underline: false, ..g.attr }, ..g }, rest)
            } else if a == 25 {
                Self::apply_sgr_v(Glyph { attr: Attr { blink: false, ..g.attr }, ..g }, rest)
            } else if a == 27 {
                Self::apply_sgr_v(Glyph { attr: Attr { reverse: false, ..g.attr }, ..g }, rest)
            } else if 30 <= a <= 37 {
                Self::apply_sgr_v(Glyph { fg: (a - 30) as u16, ..g }, rest)
            } else if a == 39 {
                Self::apply_sgr_v(Glyph { fg: DEFAULTFG, ..g }, rest)
            } else if 40 <= a <= 47 {
                Self::apply_sgr_v(Glyph { bg: (a - 40) as u16, ..g }, rest)
            } else if a == 49 {
                Self::apply_sgr_v(Glyph { bg: DEFAULTBG, ..g }, rest)
            } else if 90 <= a <= 97 {
                Self::apply_sgr_v(Glyph { fg: (a - 90 + 8) as u16, ..g }, rest)
            } else if 100 <= a <= 107 {
                Self::apply_sgr_v(Glyph { bg: (a - 100 + 8) as u16, ..g }, rest)
            } else if a == 38 {
                if args.len() >= 3 && args[1] == 5 {
                    Self::apply_sgr_v(
                        Glyph { fg: color256(args[2]), ..g },
                        args.skip(3),
                    )
                } else {
                    g
                }
            } else if a == 48 {
                if args.len() >= 3 && args[1] == 5 {
                    Self::apply_sgr_v(
                        Glyph { bg: color256(args[2]), ..g },
                        args.skip(3),
                    )
                } else {
                    g
                }
            } else {
                Self::apply_sgr_v(g, rest)
            }
        }
    }

    /// Updating the pending style by an SGR parameter list.
    pub open spec fn sgr_v(self, args: Seq<u32>) -> TermView {
        TermView { c: CurView { attr: Self::apply_sgr_v(self.c.attr, args), ..self.c }, ..self }
    }

    /// Setting or resetting one terminal mode by its numeric code
    /// (`privm` marks a DEC private mode). Codes the model does not
    /// track leave it unchanged; the alternate-screen switches are the
    /// interpreter's affair, not a plain flag.
    pub open spec fn set_mode_v(self, privm: bool, arg: int, on: bool) -> TermView {
        if privm {
            if arg == 1 {
                TermView { mode: Modes { appkeypad: on, ..self.mode }, ..self }
            } else if arg == 5 {
                TermView { mode: Modes { reverse: on, ..self.mode }, ..self }
            } else if arg == 7 {
                TermView { mode: Modes { wrap: on, ..self.mode }, ..self }
            } else if arg == 25 {
                TermView { c: CurView { hidden: !on, ..self.c }, ..self }
            } else if arg == 1000 {
                TermView { mode: Modes { mouse_btn: on, ..self.mode }, ..self }
            } else if arg == 1002 {
                TermView { mode: Modes { mouse_motion: on, ..self.mode }, ..self }
            } else {
                self
            }
        } else {
            if arg == 2 {
                TermView { mode: Modes { kbdlock: on, ..self.mode }, ..self }
            } else if arg == 4 {
                TermView { mode: Modes { insert: on, ..self.mode }, ..self }
            } else if arg == 20 {
                TermView { mode: Modes { crlf: on, ..self.mode }, ..self }
            } else {
                self
            }
        }
    }

    /// Setting the scroll region to rows `[t, b]`, each clamped into the
    /// screen and swapped if inverted; the cursor goes home.
    pub open spec fn set_scroll_region_v(self, t: int, b: int) -> TermView {
        let ta = clamped(if t <= b { t } else { b }, 0, self.rows - 1);
        let ba = clamped(if t <= b { b } else { t }, 0, self.rows - 1);
        TermView {
            top: ta,
            bot: ba,
            c: CurView { x: 0, y: 0, wrap_pending: false, ..self.c },
            ..self
        }
    }

    /// Switching screens swaps the active and inactive grids, toggles the
    /// alternate-screen flag and marks every row dirty.
    pub open spec fn swap_screen_v(self) -> TermView {
        TermView {
            line: self.alt,
            alt: self.line,
            dirty: Seq::new(self.rows as nat, |y: int| true),
            mode: Modes { altscreen: !self.mode.altscreen, ..self.mode },
            ..self
        }
    }
}

/// Build a row of `cols` blank cells in the given style.
pub fn mk_blank_row(cols: usize, style: Glyph) -> (r: Vec<Glyph>)
    ensures
        r@ == blank_row_v(cols as int, style),
{
    let mut r: Vec<Glyph> = Vec::new();
    let b = mk_blank_from(style);
    let mut i: usize = 0;
    while i < cols
        invariant
            i <= cols,
            b == blank_from(style),
            r@ =~= blank_row_v(i as int, style),
        decreases cols - i,
    {
        r.push(b);
        i = i + 1;
        proof {
            assert(r@ =~= blank_row_v(i as int, style));
        }
    }
    proof {
        assert(r@ =~= blank_row_v(cols as int, style));
    }
    r
}

/// Copy one row of cells.
pub fn copy_row(src: &Vec<Glyph>) -> (r: Vec<Glyph>)
    ensures
        r@ == src@,
{
    let mut r: Vec<Glyph> = Vec::new();
    let mut i: usize = 0;
    while i < src.len()
        invariant
            i <= src.len(),
            r@ =~= src@.subrange(0, i as int),
        decreases src.len() - i,
    {
        r.push(src[i]);
        i = i + 1;
    }
    proof {
        assert(r@ =~= src@);
    }
    r
}

/// Build a grid of `rows` blank rows.
fn mk_blank_grid(rows: usize, cols: usize, style: Glyph) -> (g: Vec<Vec<Glyph>>)
    ensures
        rows_view(g@) =~= Seq::new(rows as nat, |y: int| blank_row_v(cols as int, style)),
        g@.len() == rows,
{
    let mut g: Vec<Vec<Glyph>> = Vec::new();
    let mut i: usize = 0;
    while i < rows
        invariant
            i <= rows,
            g@.len() == i,
            forall|y: int| 0 <= y < i ==> (#[trigger] g@[y])@ == blank_row_v(cols as int, style),
        decreases rows - i,
    {
        g.push(mk_blank_row(cols, style));
        i = i + 1;
    }
    proof {
        assert(rows_view(g@) =~= Seq::new(rows as nat, |y: int| blank_row_v(cols as int, style)));
    }
    g
}

/// Build a vector of `n` copies of `v`.
fn mk_bool_vec(n: usize, v: bool) -> (r: Vec<bool>)
    ensures
        r@ =~= Seq::new(n as nat, |i: int| v),
{
    let mut r: Vec<bool> = Vec::new();
    let mut i: usize = 0;
    while i < n
        invariant
            i <= n,
            r@.len() == i,
            forall|j: int| 0 <= j < i ==> r@[j] == v,
        decreases n - i,
    {
        r.push(v);
        i = i + 1;
    }
    proof {
        assert(r@ =~= Seq::new(n as nat, |i: int| v));
    }
    r
}

/// Build the default tab-stop vector for `cols` columns.
fn mk_default_tabs(cols: usize) -> (r: Vec<bool>)
    ensures
        r@ =~= tabs_default_v(cols as int),
{
    let mut r: Vec<bool> = Vec::new();
    let mut i: usize = 0;
    while i < cols
        invariant
            i <= cols,
            r@.len() == i,
            forall|j: int| 0 <= j < i ==> r@[j] == (j != 0 && j % (TABSPACES as int) == 0),
        decreases cols - i,
    {
        r.push(i != 0 && i % TABSPACES == 0);
        i = i + 1;
    }
    proof {
        assert(r@ =~= tabs_default_v(cols as int));
    }
    r
}

impl Term {
    /// Well-formedness of the executable model.
    pub open spec fn wf(&self) -> bool {
        self@.wf()
    }

    /// A fresh 24-by-80 terminal in the reset state.
    pub fn new() -> (t: Term)
        ensures
            t@ == TermView::reset_v(24, 80),
            t.wf(),
    {
        let mut t = Term {
            row: 24,
            col: 80,
            line: Vec::new(),
            alt: Vec::new(),
            dirty: Vec::new(),
            c: TCursor {
                attr: mk_default_glyph(),
                x: 0,
                y: 0,
                wrap_pending: false,
                hidden: false,
                saved: None,
            },
            top: 0,
            bot: 23,
            mode: Modes {
                wrap: true,
                insert: false,
                appkeypad: false,
                altscreen: false,
                crlf: false,
                mouse_btn: false,
                mouse_motion: false,
                reverse: false,
                kbdlock: false,
            },
            tabs: Vec::new(),
        };
        t.reset();
        t
    }

    /// A fresh terminal of the given size, clamped into `[1, MAX_DIM]`,
    /// in the reset state.
    pub fn with_size(rows: usize, cols: usize) -> (t: Term)
        ensures
            t@ == TermView::reset_v(
                clamped(rows as int, 1, MAX_DIM as int),
                clamped(cols as int, 1, MAX_DIM as int),
            ),
            t.wf(),
    {
        let r = if rows < 1 { 1 } else if rows > MAX_DIM { MAX_DIM } else { rows };
        let c = if cols < 1 { 1 } else if cols > MAX_DIM { MAX_DIM } else { cols };
        let mut t = Term {
            row: r,
            col: c,
            line: Vec::new(),
            alt: Vec::new(),
            dirty: Vec::new(),
            c: TCursor {
                attr: mk_default_glyph(),
                x: 0,
                y: 0,
                wrap_pending: false,
                hidden: false,
                saved: None,
            },
            top: 0,
            bot: 0,
            mode: Modes {
                wrap: true,
                insert: false,
                appkeypad: false,
                altscreen: false,
                crlf: false,
                mouse_btn: false,
                mouse_motion: false,
                reverse: false,
                kbdlock: false,
            },
            tabs: Vec::new(),
        };
        t.reset();
        t
    }

    /// Return the model to its power-on state: blank grids, cursor at
    /// the origin, default tab stops, full-screen scroll region,
    /// default modes, every row dirty. Only the dimensions survive.
    pub fn reset(&mut self)
        requires
            1 <= old(self).row <= MAX_DIM,
            1 <= old(self).col <= MAX_DIM,
        ensures
            final(self)@ == TermView::reset_v(old(self).row as int, old(self).col as int),
            final(self).wf(),
    {
        let g = mk_default_glyph();
        self.line = mk_blank_grid(self.row, self.col, g);
        self.alt = mk_blank_grid(self.row, self.col, g);
        self.dirty = mk_bool_vec(self.row, true);
        self.tabs = mk_default_tabs(self.col);
        self.c = TCursor { attr: g, x: 0, y: 0, wrap_pending: false, hidden: false, saved: None };
        self.top = 0;
        self.bot = self.row - 1;
        self.mode = Modes {
            wrap: true,
            insert: false,
            appkeypad: false,
            altscreen: false,
            crlf: false,
            mouse_btn: false,
            mouse_motion: false,
            reverse: false,
            kbdlock: false,
        };
        proof {
            assert(self@ =~~= TermView::reset_v(self.row as int, self.col as int));
        }
    }

    /// Clear the rectangle with corners `(x1, y1)` and `(x2, y2)` (column,
    /// row): cells become blanks in the cursor's current style. Corners may
    /// come in any order and out of range; they are normalised and clamped.
    pub fn clear_region(&mut self, x1: isize, y1: isize, x2: isize, y2: isize)
        requires
            old(self).wf(),
        ensures
            final(self)@ == old(self)@.clear_region_v(x1 as int, y1 as int, x2 as int, y2 as int),
            final(self).wf(),
    {
        let (xl, xr): (isize, isize) = if x1 <= x2 { (x1, x2) } else { (x2, x1) };
        let (yl, yr): (isize, isize) = if y1 <= y2 { (y1, y2) } else { (y2, y1) };
        let xa: usize = crate::limit(xl, 0, (self.col - 1) as isize) as usize;
        let xb: usize = crate::limit(xr, 0, (self.col - 1) as isize) as usize;
        let ya: usize = crate::limit(yl, 0, (self.row - 1) as isize) as usize;
        let yb: usize = crate::limit(yr, 0, (self.row - 1) as isize) as usize;
        let b = mk_blank_from(self.c.attr);
        let ghost t0 = self@;
        let mut y: usize = ya;
        while y <= yb
            invariant
                t0.wf(),
                ya <= y <= yb + 1,
                ya <= yb < t0.rows,
                xa <= xb < t0.cols,
                b == blank_from(t0.c.attr),
                self@.rows == t0.rows,
                self@.cols == t0.cols,
                self@.alt == t0.alt,
                self@.tabs == t0.tabs,
                self@.c == t0.c,
                self@.top == t0.top,
                self@.bot == t0.bot,
                self@.mode == t0.mode,
                self.line@.len() == t0.rows,
                self@.dirty.len() == t0.rows,
                forall|i: int|
                    ya <= i < y ==> (#[trigger] self.line@[i])@ == Seq::new(
                        t0.cols as nat,
                        |x: int|
                            if xa <= x <= xb {
                                blank_from(t0.c.attr)
                            } else {
                                t0.line[i][x]
                            },
                    ),
                forall|i: int|
                    0 <= i < t0.rows && !(ya <= i < y) ==> (#[trigger] self.line@[i])@
                        == t0.line[i],
                forall|i: int| ya <= i < y ==> #[trigger] self@.dirty[i] == true,
                forall|i: int|
                    0 <= i < t0.rows && !(ya <= i < y) ==> #[trigger] self@.dirty[i]
                        == t0.dirty[i],
            decreases yb + 1 - y,
        {
            let nr = cleared_row(&self.line[y], xa, xb, b);
            proof {
                assert((self.line@[y as int])@ == t0.line[y as int]);
                assert(t0.line[y as int].len() == t0.cols);
                assert(nr@ =~= Seq::new(
                    t0.cols as nat,
                    |x: int|
                        if xa <= x <= xb {
                            blank_from(t0.c.attr)
                        } else {
                            t0.line[y as int][x]
                        },
                ));
            }
            self.line.set(y, nr);
            self.dirty.set(y, true);
            proof {
                assert((self.line@[y as int])@ == nr@);
            }
            y = y + 1;
        }
        proof {
            let tgt = t0.clear_region_v(x1 as int, y1 as int, x2 as int, y2 as int);
            assert forall|i: int| 0 <= i < t0.rows implies self@.line[i] == tgt.line[i] by {
                assert(self@.line[i] == (self.line@[i])@);
                if ya <= i <= yb {
                    assert((self.line@[i])@ =~= tgt.line[i]);
                } else {
                    assert((self.line@[i])@ == t0.line[i]);
                }
            }
            assert(self@.line =~= tgt.line);
            assert(self@.dirty =~= tgt.dirty);
            assert(self@ =~~= tgt);
        }
    }

    /// Move the cursor to the absolute position `(x, y)` (column, row),
    /// clamped into the grid; a pending wrap is forgotten.
    pub fn move_to(&mut self, x: isize, y: isize)
        requires
            old(self).wf(),
        ensures
            final(self)@ == old(self)@.move_to_v(x as int, y as int),
            final(self).wf(),
    {
        self.c.x = crate::limit(x, 0, (self.col - 1) as isize) as usize;
        self.c.y = crate::limit(y, 0, (self.row - 1) as isize) as usize;
        self.c.wrap_pending = false;
    }

    /// Move the cursor by `(dx, dy)`, clamped into the grid; when
    /// `clamp_to_region` is set the row is clamped into the scroll region
    /// instead of the full screen. A pending wrap is forgotten.
    pub fn move_cursor(&mut self, dx: isize, dy: isize, clamp_to_region: bool)
        requires
            old(self).wf(),
        ensures
            final(self)@ == old(self)@.move_cursor_v(dx as int, dy as int, clamp_to_region),
            final(self).wf(),
    {
        let tx: i128 = self.c.x as i128 + dx as i128;
        let ty: i128 = self.c.y as i128 + dy as i128;
        let nx: i128 = if tx < 0 {
            0
        } else if tx > (self.col - 1) as i128 {
            (self.col - 1) as i128
        } else {
            tx
        };
        let ny: i128 = if clamp_to_region {
            if ty < self.top as i128 {
                self.top as i128
            } else if ty > self.bot as i128 {
                self.bot as i128
            } else {
                ty
            }
        } else if ty < 0 {
            0
        } else if ty > (self.row - 1) as i128 {
            (self.row - 1) as i128
        } else {
            ty
        };
        self.c.x = nx as usize;
        self.c.y = ny as usize;
        self.c.wrap_pending = false;
    }

    /// Record the cursor's style and position in the save slot.
    pub fn save_cursor(&mut self)
        requires
            old(self).wf(),
        ensures
            final(self)@ == old(self)@.save_cursor_v(),
            final(self).wf(),
    {
        self.c.saved = Some(Saved { attr: self.c.attr, x: self.c.x, y: self.c.y });
    }

    /// Bring back the saved cursor style and position, clamped into the
    /// current grid; with nothing saved the cursor is left alone.
    pub fn restore_cursor(&mut self)
        requires
            old(self).wf(),
        ensures
            final(self)@ == old(self)@.restore_cursor_v(),
            final(self).wf(),
    {
        match self.c.saved {
            Some(s) => {
                self.c.attr = s.attr;
                self.c.x = if s.x > self.col - 1 {
                    self.col - 1
                } else {
                    s.x
                };
                self.c.y = if s.y > self.row - 1 {
                    self.row - 1
                } else {
                    s.y
                };
                self.c.wrap_pending = false;
            },
            None => {},
        }
    }

    /// Swap the active and inactive screens, toggling the alternate-screen
    /// flag; every row of the newly active screen is marked dirty.
    #[verifier::rlimit(50)]
    pub fn swap_screen(&mut self)
        requires
            old(self).wf(),
        ensures
            final(self)@ == old(self)@.swap_screen_v(),
            final(self).wf(),
    {
        core::mem::swap(&mut self.line, &mut self.alt);
        self.dirty = mk_bool_vec(self.row, true);
        self.mode.altscreen = !self.mode.altscreen;
        proof {
            assert(self@ =~~= old(self)@.swap_screen_v());
        }
    }

    /// Scroll the band `[orig, bot]` of the scroll region up by `n` rows;
    /// vacated rows at the bottom become blank in the cursor's style.
    /// `orig` and `n` out of range are clamped.
    pub fn scroll_up(&mut self, orig: usize, n: usize)
        requires
            old(self).wf(),
        ensures
            final(self)@ == old(self)@.scroll_up_v(orig as int, n as int),
            final(self).wf(),
    {
        let o: usize = if orig < self.top {
            self.top
        } else if orig > self.bot {
            self.bot
        } else {
            orig
        };
        let span: usize = self.bot - o + 1;
        let m: usize = if n > span {
            span
        } else {
            n
        };
        let b = self.c.attr;
        let ghost t0 = self@;
        let mut i: usize = o;
        while i <= self.bot
            invariant
                t0.wf(),
                t0.top <= o <= t0.bot,
                o <= i <= t0.bot + 1,
                m == clamped(n as int, 0, t0.bot - o + 1),
                b == t0.c.attr,
                self.row == t0.rows,
                self.col == t0.cols,
                self.top == t0.top,
                self.bot == t0.bot,
                self.c.attr == t0.c.attr,
                self@.alt == t0.alt,
                self@.tabs == t0.tabs,
                self@.c == t0.c,
                self@.mode == t0.mode,
                self.line@.len() == t0.rows,
                self@.dirty.len() == t0.rows,
                forall|j: int|
                    o <= j < i ==> (#[trigger] self.line@[j])@ == (if j + m <= t0.bot {
                        t0.line[j + m]
                    } else {
                        blank_row_v(t0.cols, t0.c.attr)
                    }),
                forall|j: int|
                    0 <= j < t0.rows && !(o <= j < i) ==> (#[trigger] self.line@[j])@
                        == t0.line[j],
                forall|j: int| o <= j < i ==> #[trigger] self@.dirty[j] == true,
                forall|j: int|
                    0 <= j < t0.rows && !(o <= j < i) ==> #[trigger] self@.dirty[j]
                        == t0.dirty[j],
            decreases t0.bot + 1 - i,
        {
            let nr = if i + m <= self.bot {
                copy_row(&self.line[i + m])
            } else {
                mk_blank_row(self.col, b)
            };
            self.line.set(i, nr);
            self.dirty.set(i, true);
            proof {
                assert((self.line@[i as int])@ == nr@);
            }
            i = i + 1;
        }
        proof {
            let tgt = t0.scroll_up_v(orig as int, n as int);
            assert forall|j: int| 0 <= j < t0.rows implies self@.line[j] == tgt.line[j] by {
                assert(self@.line[j] == (self.line@[j])@);
            }
            assert(self@.line =~= tgt.line);
            assert(self@.dirty =~= tgt.dirty);
            assert(self@ =~~= tgt);
        }
    }

    /// Scroll the band `[orig, bot]` of the scroll region down by `n` rows;
    /// vacated rows at the top become blank in the cursor's style.
    /// `orig` and `n` out of range are clamped.
    pub fn scroll_down(&mut self, orig: usize, n: usize)
        requires
            old(self).wf(),
        ensures
            final(self)@ == old(self)@.scroll_down_v(orig as int, n as int),
            final(self).wf(),
    {
        let o: usize = if orig < self.top {
            self.top
        } else if orig > self.bot {
            self.bot
        } else {
            orig
        };
        let span: usize = self.bot - o + 1;
        let m: usize = if n > span {
            span
        } else {
            n
        };
        let b = self.c.attr;
        let ghost t0 = self@;
        let mut k: usize = 0;
        while k < span
            invariant
                t0.wf(),
                t0.top <= o <= t0.bot,
                span == t0.bot - o + 1,
                0 <= k <= span,
                m == clamped(n as int, 0, t0.bot - o + 1),
                b == t0.c.attr,
                self.row == t0.rows,
                self.col == t0.cols,
                self.top == t0.top,
                self.bot == t0.bot,
                self.c.attr == t0.c.attr,
                self@.alt == t0.alt,
                self@.tabs == t0.tabs,
                self@.c == t0.c,
                self@.mode == t0.mode,
                self.line@.len() == t0.rows,
                self@.dirty.len() == t0.rows,
                forall|j: int|
                    t0.bot - k < j <= t0.bot ==> (#[trigger] self.line@[j])@ == (if j - m >= o {
                        t0.line[j - m]
                    } else {
                        blank_row_v(t0.cols, t0.c.attr)
                    }),
                forall|j: int|
                    0 <= j < t0.rows && !(t0.bot - k < j <= t0.bot) ==> (
                    #[trigger] self.line@[j])@ == t0.line[j],
                forall|j: int| t0.bot - k < j <= t0.bot ==> #[trigger] self@.dirty[j] == true,
                forall|j: int|
                    0 <= j < t0.rows && !(t0.bot - k < j <= t0.bot) ==> #[trigger] self@.dirty[j]
                        == t0.dirty[j],
            decreases span - k,
        {
            let i: usize = self.bot - k;
            let nr = if i >= o + m {
                copy_row(&self.line[i - m])
            } else {
                mk_blank_row(self.col, b)
            };
            self.line.set(i, nr);
            self.dirty.set(i, true);
            proof {
                assert((self.line@[i as int])@ == nr@);
            }
            k = k + 1;
        }
        proof {
            let tgt = t0.scroll_down_v(orig as int, n as int);
            assert forall|j: int| 0 <= j < t0.rows implies self@.line[j] == tgt.line[j] by {
                assert(self@.line[j] == (self.line@[j])@);
            }
            assert(self@.line =~= tgt.line);
            assert(self@.dirty =~= tgt.dirty);
            assert(self@ =~~= tgt);
        }
    }

    /// A line feed: scroll at the bottom of the region, move down
    /// otherwise; `first_col` also returns the cursor to column 0.
    #[verifier::rlimit(100)]
    pub fn newline(&mut self, first_col: bool)
        requires
            old(self).wf(),
        ensures
            final(self)@ == old(self)@.newline_v(first_col),
            final(self).wf(),
    {
        if self.c.y == self.bot {
            self.scroll_up(self.top, 1);
        } else if self.c.y + 1 < self.row {
            self.c.y = self.c.y + 1;
        }
        if first_col {
            self.c.x = 0;
        }
        self.c.wrap_pending = false;
        proof {
            assert(self@ =~~= old(self)@.newline_v(first_col));
        }
    }

    /// Set a tab stop at the given column; out-of-range columns are
    /// ignored.
    pub fn set_tab_stop(&mut self, col: usize)
        requires
            old(self).wf(),
        ensures
            final(self)@ == old(self)@.set_tab_v(col as int),
            final(self).wf(),
    {
        if col < self.col {
            self.tabs.set(col, true);
        }
    }

    /// Clear the tab stop at the given column; out-of-range columns are
    /// ignored.
    pub fn clear_tab_stop(&mut self, col: usize)
        requires
            old(self).wf(),
        ensures
            final(self)@ == old(self)@.clear_tab_v(col as int),
            final(self).wf(),
    {
        if col < self.col {
            self.tabs.set(col, false);
        }
    }

    /// Clear every tab stop.
    pub fn clear_all_tabs(&mut self)
        requires
            old(self).wf(),
        ensures
            final(self)@ == old(self)@.clear_all_tabs_v(),
            final(self).wf(),
    {
        self.tabs = mk_bool_vec(self.col, false);
        proof {
            assert(self@ =~~= old(self)@.clear_all_tabs_v());
        }
    }

    /// The next tab-stop column strictly after `from`, or the last column
    /// when none is set ahead.
    pub fn next_tab_stop(&self, from: usize) -> (r: usize)
        requires
            self.wf(),
        ensures
            r as int == next_tab_from(self@.tabs, from as int + 1),
            r < self.col,
    {
        if from >= self.col - 1 {
            return self.col - 1;
        }
        let mut j: usize = from + 1;
        while j < self.col - 1
            invariant
                self.wf(),
                from + 1 <= j <= self.col - 1,
                next_tab_from(self@.tabs, from as int + 1) == next_tab_from(self@.tabs, j as int),
            decreases self.col - j,
        {
            if self.tabs[j] {
                return j;
            }
            j = j + 1;
        }
        self.col - 1
    }

    /// Advance the cursor to the next tab stop.
    pub fn put_tab(&mut self)
        requires
            old(self).wf(),
        ensures
            final(self)@ == old(self)@.put_tab_v(),
            final(self).wf(),
    {
        let nx = self.next_tab_stop(self.c.x);
        self.c.x = nx;
        self.c.wrap_pending = false;
    }

    /// Insert `n` blank cells at the cursor, shifting the rest of the row
    /// right; the rightmost cells fall off the row.
    pub fn insert_blanks(&mut self, n: usize)
        requires
            old(self).wf(),
        ensures
            final(self)@ == old(self)@.insert_blanks_v(n as int),
            final(self).wf(),
    {
        let room: usize = self.col - self.c.x;
        let m: usize = if n > room {
            room
        } else {
            n
        };
        let b = mk_blank_from(self.c.attr);
        let nr = inserted_row(&self.line[self.c.y], self.c.x, m, b);
        self.line.set(self.c.y, nr);
        self.dirty.set(self.c.y, true);
        proof {
            lemma_rows_view_update(old(self).line@, self.c.y as int, self.line@[self.c.y as int]);
            assert(self@.line =~= old(self)@.insert_blanks_v(n as int).line);
            assert(self@ =~~= old(self)@.insert_blanks_v(n as int));
        }
    }

    /// Delete `n` cells at the cursor, shifting the rest of the row left;
    /// the freed tail of the row becomes blank.
    pub fn delete_chars(&mut self, n: usize)
        requires
            old(self).wf(),
        ensures
            final(self)@ == old(self)@.delete_chars_v(n as int),
            final(self).wf(),
    {
        let room: usize = self.col - self.c.x;
        let m: usize = if n > room {
            room
        } else {
            n
        };
        let b = mk_blank_from(self.c.attr);
        let nr = deleted_row(&self.line[self.c.y], self.c.x, m, b);
        self.line.set(self.c.y, nr);
        self.dirty.set(self.c.y, true);
        proof {
            lemma_rows_view_update(old(self).line@, self.c.y as int, self.line@[self.c.y as int]);
            assert(self@.line =~= old(self)@.delete_chars_v(n as int).line);
            assert(self@ =~~= old(self)@.delete_chars_v(n as int));
        }
    }

    /// Write one codepoint at the cursor with the pending style, honouring
    /// deferred wrap and insert mode, and advance the cursor.
    #[verifier::rlimit(100)]
    pub fn put_char(&mut self, ch: u32)
        requires
            old(self).wf(),
        ensures
            final(self)@ == old(self)@.put_char_v(ch),
            final(self).wf(),
    {
        if self.c.wrap_pending {
            self.newline(true);
        }
        if self.mode.insert {
            self.insert_blanks(1);
        }
        let ghost pre_line = self.line@;
        let g = Glyph {
            ch,
            attr: self.c.attr.attr,
            fg: self.c.attr.fg,
            bg: self.c.attr.bg,
            set: true,
            dirty: true,
        };
        let mut nr = copy_row(&self.line[self.c.y]);
        nr.set(self.c.x, g);
        self.line.set(self.c.y, nr);
        self.dirty.set(self.c.y, true);
        proof {
            lemma_rows_view_update(pre_line, self.c.y as int, self.line@[self.c.y as int]);
            assert(self@.line =~= rows_view(pre_line).update(
                self.c.y as int,
                (pre_line[self.c.y as int])@.update(self.c.x as int, g),
            ));
        }
        if self.c.x + 1 < self.col {
            self.c.x = self.c.x + 1;
            self.c.wrap_pending = false;
        } else if self.mode.wrap {
            self.c.wrap_pending = true;
        }
        proof {
            assert(self@ =~~= old(self)@.put_char_v(ch));
        }
    }

    /// Update the cursor's pending style by an SGR parameter list.
    #[verifier::rlimit(100)]
    pub fn apply_sgr(&mut self, args: &Vec<u32>)
        requires
            old(self).wf(),
        ensures
            final(self)@ == old(self)@.sgr_v(args@),
            final(self).wf(),
    {
        let ghost g0 = self.c.attr;
        let ghost all = args@;
        let mut g = self.c.attr;
        proof {
            assert(all.skip(0) =~= all);
        }
        let mut i: usize = 0;
        while i < args.len()
            invariant
                i <= args.len(),
                TermView::apply_sgr_v(g0, all) == TermView::apply_sgr_v(g, all.skip(i as int)),
                all == args@,
            decreases args.len() - i,
        {
            let a = args[i];
            proof {
                assert(all.skip(i as int)[0] == all[i as int]);
                assert(all.skip(i as int).skip(1) =~= all.skip(i as int + 1));
                if i as int + 1 < all.len() {
                    assert(all.skip(i as int)[1] == all[i as int + 1]);
                }
                if i as int + 2 < all.len() {
                    assert(all.skip(i as int)[2] == all[i as int + 2]);
                    assert(all.skip(i as int).skip(3) =~= all.skip(i as int + 3));
                }
            }
            if a == 0 {
                g = Glyph { attr: Attr { reverse: false, underline: false, bold: false,
                    gfx: g.attr.gfx, italic: false, blink: false }, fg: DEFAULTFG,
                    bg: DEFAULTBG, ..g };
                i = i + 1;
            } else if a == 1 {
                g = Glyph { attr: Attr { bold: true, ..g.attr }, ..g };
                i = i + 1;
            } else if a == 3 {
                g = Glyph { attr: Attr { italic: true, ..g.attr }, ..g };
                i = i + 1;
            } else if a == 4 {
                g = Glyph { attr: Attr { underline: true, ..g.attr }, ..g };
                i = i + 1;
            } else if a == 5 {
                g = Glyph { attr: Attr { blink: true, ..g.attr }, ..g };
                i = i + 1;
            } else if a == 7 {
                g = Glyph { attr: Attr { reverse: true, ..g.attr }, ..g };
                i = i + 1;
            } else if a == 22 {
                g = Glyph { attr: Attr { bold: false, ..g.attr }, ..g };
                i = i + 1;
            } else if a == 23 {
                g = Glyph { attr: Attr { italic: false, ..g.attr }, ..g };
                i = i + 1;
            } else if a == 24 {
                g = Glyph { attr: Attr { underline: false, ..g.attr }, ..g };
                i = i + 1;
            } else if a == 25 {
                g = Glyph { attr: Attr { blink: false, ..g.attr }, ..g };
                i = i + 1;
            } else if a == 27 {
                g = Glyph { attr: Attr { reverse: false, ..g.attr }, ..g };
                i = i + 1;
            } else if 30 <= a && a <= 37 {
                g = Glyph { fg: (a - 30) as u16, ..g };
                i = i + 1;
            } else if a == 39 {
                g = Glyph { fg: DEFAULTFG, ..g };
                i = i + 1;
            } else if 40 <= a && a <= 47 {
                g = Glyph { bg: (a - 40) as u16, ..g };
                i = i + 1;
            } else if a == 49 {
                g = Glyph { bg: DEFAULTBG, ..g };
                i = i + 1;
            } else if 90 <= a && a <= 97 {
                g = Glyph { fg: (a - 90 + 8) as u16, ..g };
                i = i + 1;
            } else if 100 <= a && a <= 107 {
                g = Glyph { bg: (a - 100 + 8) as u16, ..g };
                i = i + 1;
            } else if a == 38 || a == 48 {
                if args.len() >= 3 && i <= args.len() - 3 && args[i + 1] == 5 {
                    let v = args[i + 2];
                    let cidx: u16 = if v > 255 {
                        255
                    } else {
                        v as u16
                    };
                    if a == 38 {
                        g = Glyph { fg: cidx, ..g };
                    } else {
                        g = Glyph { bg: cidx, ..g };
                    }
                    i = i + 3;
                } else {
                    // A malformed extended-colour selection swallows the rest.
                    i = args.len();
                    proof {
                        assert(all.skip(i as int) =~= Seq::<u32>::empty());
                    }
                }
            } else {
                i = i + 1;
            }
        }
        proof {
            assert(all.skip(args.len() as int) =~= Seq::<u32>::empty());
        }
        self.c.attr = g;
    }

    /// Set or reset one terminal mode by its numeric code; `privm` marks
    /// a DEC private mode. Codes the model does not track are ignored.
    #[verifier::rlimit(100)]
    pub fn set_mode(&mut self, privm: bool, arg: u32, on: bool)
        requires
            old(self).wf(),
        ensures
            final(self)@ == old(self)@.set_mode_v(privm, arg as int, on),
            final(self).wf(),
    {
        if privm {
            if arg == 1 {
                self.mode.appkeypad = on;
            } else if arg == 5 {
                self.mode.reverse = on;
            } else if arg == 7 {
                self.mode.wrap = on;
            } else if arg == 25 {
                self.c.hidden = !on;
            } else if arg == 1000 {
                self.mode.mouse_btn = on;
            } else if arg == 1002 {
                self.mode.mouse_motion = on;
            }
        } else {
            if arg == 2 {
                self.mode.kbdlock = on;
            } else if arg == 4 {
                self.mode.insert = on;
            } else if arg == 20 {
                self.mode.crlf = on;
            }
        }
        proof {
            assert(self@ =~~= old(self)@.set_mode_v(privm, arg as int, on));
        }
    }

    /// Set the scroll region to rows `[t, b]` (0-based, clamped and
    /// ordered) and send the cursor home.
    pub fn set_scroll_region(&mut self, t: isize, b: isize)
        requires
            old(self).wf(),
        ensures
            final(self)@ == old(self)@.set_scroll_region_v(t as int, b as int),
            final(self).wf(),
    {
        let (lo, hi): (isize, isize) = if t <= b { (t, b) } else { (b, t) };
        self.top = crate::limit(lo, 0, (self.row - 1) as isize) as usize;
        self.bot = crate::limit(hi, 0, (self.row - 1) as isize) as usize;
        self.c.x = 0;
        self.c.y = 0;
        self.c.wrap_pending = false;
    }

    /// Resize to `rows` by `cols` (clamped into `[1, MAX_DIM]`),
    /// preserving the top-left intersection of both screens.
    /// The indices of the rows changed since the renderer last cleared
    /// them, in increasing order.
    pub fn get_dirty_rows(&self) -> (r: Vec<usize>)
        requires
            self.wf(),
        ensures
            forall|k: int|
                0 <= k < r@.len() ==> 0 <= #[trigger] r@[k] < self@.rows
                    && self@.dirty[r@[k] as int],
            forall|y: int| 0 <= y < self@.rows && self@.dirty[y] ==> r@.contains(y as usize),
            forall|k1: int, k2: int| 0 <= k1 < k2 < r@.len() ==> r@[k1] < r@[k2],
    {
        let mut r: Vec<usize> = Vec::new();
        let mut y: usize = 0;
        while y < self.row
            invariant
                self.wf(),
                y <= self.row,
                forall|k: int|
                    0 <= k < r@.len() ==> 0 <= #[trigger] r@[k] < y && self@.dirty[r@[k] as int],
                forall|yy: int| 0 <= yy < y && self@.dirty[yy] ==> r@.contains(yy as usize),
                forall|k1: int, k2: int| 0 <= k1 < k2 < r@.len() ==> r@[k1] < r@[k2],
            decreases self.row - y,
        {
            if self.dirty[y] {
                let ghost rold = r@;
                r.push(y);
                proof {
                    assert forall|yy: int|
                        0 <= yy < y + 1 && self@.dirty[yy] implies r@.contains(yy as usize) by {
                        if yy < y as int {
                            assert(rold.contains(yy as usize));
                            let k = choose|k: int|
                                0 <= k < rold.len() && rold[k] == yy as usize;
                            assert(r@[k] == yy as usize);
                        } else {
                            assert(r@[r@.len() - 1] == y);
                        }
                    }
                }
            }
            y = y + 1;
        }
        r
    }

    /// One row of the active screen, for the renderer to paint.
    pub fn get_row(&self, y: usize) -> (r: &Vec<Glyph>)
        requires
            self.wf(),
            y < self@.rows,
        ensures
            r@ == self@.line[y as int],
    {
        &self.line[y]
    }

    /// One cell of the active screen.
    pub fn cell(&self, x: usize, y: usize) -> (g: Glyph)
        requires
            self.wf(),
            x < self@.cols,
            y < self@.rows,
        ensures
            g == self@.line[y as int][x as int],
    {
        proof {
            assert(self@.line[y as int] == (self.line@[y as int])@);
        }
        self.line[y][x]
    }

    /// Mark a row as observed by the renderer; out-of-range rows are
    /// ignored.
    pub fn clear_dirty(&mut self, y: usize)
        requires
            old(self).wf(),
        ensures
            final(self)@ == (if y < old(self)@.rows {
                TermView { dirty: old(self)@.dirty.update(y as int, false), ..old(self)@ }
            } else {
                old(self)@
            }),
            final(self).wf(),
    {
        if y < self.row {
            self.dirty.set(y, false);
        }
    }

    /// Cursor position and visibility, for the renderer.
    pub fn get_cursor(&self) -> (r: (usize, usize, bool))
        requires
            self.wf(),
        ensures
            r.0 as int == self@.c.x,
            r.1 as int == self@.c.y,
            r.2 == !self@.c.hidden,
    {
        (self.c.x, self.c.y, !self.c.hidden)
    }
}


/// Copy of `src` with `m` copies of `b` inserted at column `cx`; the
/// rightmost `m` cells fall off.
fn inserted_row(src: &Vec<Glyph>, cx: usize, m: usize, b: Glyph) -> (r: Vec<Glyph>)
    requires
        cx + m <= src.len(),
    ensures
        r@ == Seq::new(
            src@.len(),
            |x: int|
                if x < cx {
                    src@[x]
                } else if x < cx + m {
                    b
                } else {
                    src@[x - m]
                },
        ),
{
    let mut r: Vec<Glyph> = Vec::new();
    let mut i: usize = 0;
    while i < src.len()
        invariant
            cx + m <= src.len(),
            i <= src.len(),
            r@ =~= Seq::new(
                i as nat,
                |x: int|
                    if x < cx {
                        src@[x]
                    } else if x < cx + m {
                        b
                    } else {
                        src@[x - m]
                    },
            ),
        decreases src.len() - i,
    {
        if i < cx {
            r.push(src[i]);
        } else if i < cx + m {
            r.push(b);
        } else {
            r.push(src[i - m]);
        }
        i = i + 1;
        proof {
            assert(r@ =~= Seq::new(
                i as nat,
                |x: int|
                    if x < cx {
                        src@[x]
                    } else if x < cx + m {
                        b
                    } else {
                        src@[x - m]
                    },
            ));
        }
    }
    proof {
        assert(r@ =~= Seq::new(
            src@.len(),
            |x: int|
                if x < cx {
                    src@[x]
                } else if x < cx + m {
                    b
                } else {
                    src@[x - m]
                },
        ));
    }
    r
}

/// Copy of `src` with `m` cells deleted at column `cx`; the freed tail is
/// filled with `b`.
fn deleted_row(src: &Vec<Glyph>, cx: usize, m: usize, b: Glyph) -> (r: Vec<Glyph>)
    requires
        cx + m <= src.len(),
        src@.len() <= MAX_DIM,
    ensures
        r@ == Seq::new(
            src@.len(),
            |x: int|
                if x < cx {
                    src@[x]
                } else if x + m < src@.len() {
                    src@[x + m]
                } else {
                    b
                },
        ),
{
    let mut r: Vec<Glyph> = Vec::new();
    let mut i: usize = 0;
    while i < src.len()
        invariant
            cx + m <= src.len(),
            src@.len() <= MAX_DIM,
            i <= src.len(),
            r@ =~= Seq::new(
                i as nat,
                |x: int|
                    if x < cx {
                        src@[x]
                    } else if x + m < src@.len() {
                        src@[x + m]
                    } else {
                        b
                    },
            ),
        decreases src.len() - i,
    {
        if i < cx {
            r.push(src[i]);
        } else if i + m < src.len() {
            r.push(src[i + m]);
        } else {
            r.push(b);
        }
        i = i + 1;
        proof {
            assert(r@ =~= Seq::new(
                i as nat,
                |x: int|
                    if x < cx {
                        src@[x]
                    } else if x + m < src@.len() {
                        src@[x + m]
                    } else {
                        b
                    },
            ));
        }
    }
    proof {
        assert(r@ =~= Seq::new(
            src@.len(),
            |x: int|
                if x < cx {
                    src@[x]
                } else if x + m < src@.len() {
                    src@[x + m]
                } else {
                    b
                },
        ));
    }
    r
}

/// Copy of `src` with the cells in columns `[xa, xb]` replaced by `b`.
fn cleared_row(src: &Vec<Glyph>, xa: usize, xb: usize, b: Glyph) -> (r: Vec<Glyph>)
    ensures
        r@ == Seq::new(src@.len(), |x: int| if xa <= x <= xb { b } else { src@[x] }),
{
    let mut r: Vec<Glyph> = Vec::new();
    let mut i: usize = 0;
    while i < src.len()
        invariant
            i <= src.len(),
            r@ =~= Seq::new(i as nat, |x: int| if xa <= x <= xb { b } else { src@[x] }),
        decreases src.len() - i,
    {
        if xa <= i && i <= xb {
            r.push(b);
        } else {
            r.push(src[i]);
        }
        i = i + 1;
        proof {
            assert(r@ =~= Seq::new(i as nat, |x: int| if xa <= x <= xb { b } else { src@[x] }));
        }
    }
    proof {
        assert(r@ =~= Seq::new(src@.len(), |x: int| if xa <= x <= xb { b } else { src@[x] }));
    }
    r
}

} // verus!
