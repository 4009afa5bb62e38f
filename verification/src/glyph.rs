use vstd::prelude::*;

verus! {

/// Default foreground colour index (entry 7 of the 256-colour palette).
pub const DEFAULTFG: u16 = 7;

/// Default background colour index (entry 0 of the 256-colour palette).
pub const DEFAULTBG: u16 = 0;

/// Distance between default tab stops, in columns.
pub const TABSPACES: usize = 8;

/// The space codepoint, the content of a blank cell.
pub const SPACE: u32 = 0x20;

/// Style attributes of one cell, one named flag per capability.
#[derive(Clone, Copy, PartialEq, Eq, Structural, Debug)]
pub struct Attr {
    pub reverse: bool,
    pub underline: bool,
    pub bold: bool,
    pub gfx: bool,
    pub italic: bool,
    pub blink: bool,
}

/// One character cell: a Unicode codepoint plus its style.
///
/// A cell with `set` false is treated as blank whatever `ch` holds;
/// `fg`/`bg` are palette indices resolved only by a renderer.
#[derive(Clone, Copy, PartialEq, Eq, Structural, Debug)]
pub struct Glyph {
    pub ch: u32,
    pub attr: Attr,
    pub fg: u16,
    pub bg: u16,
    pub set: bool,
    pub dirty: bool,
}

/// All style flags off.
pub open spec fn attr_plain() -> Attr {
    Attr { reverse: false, underline: false, bold: false, gfx: false, italic: false, blink: false }
}

/// The glyph a freshly reset cell holds: a blank with the default colours.
pub open spec fn default_glyph() -> Glyph {
    Glyph {
        ch: SPACE,
        attr: attr_plain(),
        fg: DEFAULTFG,
        bg: DEFAULTBG,
        set: false,
        dirty: false,
    }
}

/// A blank cell carrying the colours and attributes of `style`
/// (clearing uses the cursor's current style, not the default one).
pub open spec fn blank_from(style: Glyph) -> Glyph {
    Glyph { ch: SPACE, set: false, dirty: false, ..style }
}

/// Build the default glyph.
pub fn mk_default_glyph() -> (g: Glyph)
    ensures
        g == default_glyph(),
{
    Glyph {
        ch: SPACE,
        attr: Attr {
            reverse: false,
            underline: false,
            bold: false,
            gfx: false,
            italic: false,
            blink: false,
        },
        fg: DEFAULTFG,
        bg: DEFAULTBG,
        set: false,
        dirty: false,
    }
}

/// Build a blank cell in the given style.
pub fn mk_blank_from(style: Glyph) -> (g: Glyph)
    ensures
        g == blank_from(style),
{
    Glyph { ch: SPACE, set: false, dirty: false, ..style }
}

} // verus!
