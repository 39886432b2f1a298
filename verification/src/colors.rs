//! The canonical color enumeration and its ANSI SGR code tables.

use vstd::prelude::*;

use crate::text::{push_dec, spec_dec};

verus! {

/// A terminal color: the default (reset) color, one of the 16 named ANSI
/// colors, an 8-bit palette index, or a 24-bit RGB triple.
#[derive(Clone, Copy, Debug, PartialEq, Eq, Structural)]
pub enum Color {
    Reset,
    Black,
    Red,
    Green,
    Yellow,
    Blue,
    Magenta,
    Cyan,
    White,
    DarkGray,
    LightRed,
    LightGreen,
    LightYellow,
    LightBlue,
    LightMagenta,
    LightCyan,
    Gray,
    Rgb(u8, u8, u8),
    Indexed(u8),
}

/// The number of entries in the color picker palette.
pub open spec fn spec_palette_len() -> int {
    17
}

/// The palette color at a picker index: the reset marker first, then the
/// eight standard colors, then the eight bright variants.
pub open spec fn spec_palette_color(i: int) -> Color {
    if i == 0 { Color::Reset }
    else if i == 1 { Color::Black }
    else if i == 2 { Color::Red }
    else if i == 3 { Color::Green }
    else if i == 4 { Color::Yellow }
    else if i == 5 { Color::Blue }
    else if i == 6 { Color::Magenta }
    else if i == 7 { Color::Cyan }
    else if i == 8 { Color::White }
    else if i == 9 { Color::DarkGray }
    else if i == 10 { Color::LightRed }
    else if i == 11 { Color::LightGreen }
    else if i == 12 { Color::LightYellow }
    else if i == 13 { Color::LightBlue }
    else if i == 14 { Color::LightMagenta }
    else if i == 15 { Color::LightCyan }
    else { Color::Gray }
}

/// How many palette entries there are.
pub fn palette_len() -> (n: usize)
    ensures
        n == spec_palette_len(),
{
    17
}

/// The palette color at picker index `i`.
pub fn palette_color(i: usize) -> (c: Color)
    requires
        i < spec_palette_len(),
    ensures
        c == spec_palette_color(i as int),
{
    if i == 0 { Color::Reset }
    else if i == 1 { Color::Black }
    else if i == 2 { Color::Red }
    else if i == 3 { Color::Green }
    else if i == 4 { Color::Yellow }
    else if i == 5 { Color::Blue }
    else if i == 6 { Color::Magenta }
    else if i == 7 { Color::Cyan }
    else if i == 8 { Color::White }
    else if i == 9 { Color::DarkGray }
    else if i == 10 { Color::LightRed }
    else if i == 11 { Color::LightGreen }
    else if i == 12 { Color::LightYellow }
    else if i == 13 { Color::LightBlue }
    else if i == 14 { Color::LightMagenta }
    else if i == 15 { Color::LightCyan }
    else { Color::Gray }
}

/// The SGR parameter list that selects a color as the foreground: `30`-`37`
/// for the standard colors, `90`-`97` for the bright ones, `39` for the
/// default, and the extended `38;5;n` / `38;2;r;g;b` forms.
pub open spec fn spec_fg_codes(c: Color) -> Seq<u32> {
    match c {
        Color::Black => seq![30u32],
        Color::Red => seq![31u32],
        Color::Green => seq![32u32],
        Color::Yellow => seq![33u32],
        Color::Blue => seq![34u32],
        Color::Magenta => seq![35u32],
        Color::Cyan => seq![36u32],
        Color::White => seq![37u32],
        Color::DarkGray => seq![90u32],
        Color::LightRed => seq![91u32],
        Color::LightGreen => seq![92u32],
        Color::LightYellow => seq![93u32],
        Color::LightBlue => seq![94u32],
        Color::LightMagenta => seq![95u32],
        Color::LightCyan => seq![96u32],
        Color::Gray => seq![97u32],
        Color::Reset => seq![39u32],
        Color::Rgb(r, g, b) => seq![38u32, 2u32, r as u32, g as u32, b as u32],
        Color::Indexed(i) => seq![38u32, 5u32, i as u32],
    }
}

/// The SGR parameter list that selects a color as the background: `40`-`47`,
/// `100`-`107`, `49` for the default, and the extended `48;...` forms.
pub open spec fn spec_bg_codes(c: Color) -> Seq<u32> {
    match c {
        Color::Black => seq![40u32],
        Color::Red => seq![41u32],
        Color::Green => seq![42u32],
        Color::Yellow => seq![43u32],
        Color::Blue => seq![44u32],
        Color::Magenta => seq![45u32],
        Color::Cyan => seq![46u32],
        Color::White => seq![47u32],
        Color::DarkGray => seq![100u32],
        Color::LightRed => seq![101u32],
        Color::LightGreen => seq![102u32],
        Color::LightYellow => seq![103u32],
        Color::LightBlue => seq![104u32],
        Color::LightMagenta => seq![105u32],
        Color::LightCyan => seq![106u32],
        Color::Gray => seq![107u32],
        Color::Reset => seq![49u32],
        Color::Rgb(r, g, b) => seq![48u32, 2u32, r as u32, g as u32, b as u32],
        Color::Indexed(i) => seq![48u32, 5u32, i as u32],
    }
}

/// Append the foreground parameter list for a color.
pub fn push_fg_codes(out: &mut Vec<u32>, c: Color)
    ensures
        final(out)@ == old(out)@ + spec_fg_codes(c),
{
    match c {
        Color::Black => out.push(30),
        Color::Red => out.push(31),
        Color::Green => out.push(32),
        Color::Yellow => out.push(33),
        Color::Blue => out.push(34),
        Color::Magenta => out.push(35),
        Color::Cyan => out.push(36),
        Color::White => out.push(37),
        Color::DarkGray => out.push(90),
        Color::LightRed => out.push(91),
        Color::LightGreen => out.push(92),
        Color::LightYellow => out.push(93),
        Color::LightBlue => out.push(94),
        Color::LightMagenta => out.push(95),
        Color::LightCyan => out.push(96),
        Color::Gray => out.push(97),
        Color::Reset => out.push(39),
        Color::Rgb(r, g, b) => {
            out.push(38);
            out.push(2);
            out.push(r as u32);
            out.push(g as u32);
            out.push(b as u32);
        },
        Color::Indexed(i) => {
            out.push(38);
            out.push(5);
            out.push(i as u32);
        },
    }
    proof {
        assert(out@ =~= old(out)@ + spec_fg_codes(c));
    }
}

/// Append the background parameter list for a color.
pub fn push_bg_codes(out: &mut Vec<u32>, c: Color)
    ensures
        final(out)@ == old(out)@ + spec_bg_codes(c),
{
    match c {
        Color::Black => out.push(40),
        Color::Red => out.push(41),
        Color::Green => out.push(42),
        Color::Yellow => out.push(43),
        Color::Blue => out.push(44),
        Color::Magenta => out.push(45),
        Color::Cyan => out.push(46),
        Color::White => out.push(47),
        Color::DarkGray => out.push(100),
        Color::LightRed => out.push(101),
        Color::LightGreen => out.push(102),
        Color::LightYellow => out.push(103),
        Color::LightBlue => out.push(104),
        Color::LightMagenta => out.push(105),
        Color::LightCyan => out.push(106),
        Color::Gray => out.push(107),
        Color::Reset => out.push(49),
        Color::Rgb(r, g, b) => {
            out.push(48);
            out.push(2);
            out.push(r as u32);
            out.push(g as u32);
            out.push(b as u32);
        },
        Color::Indexed(i) => {
            out.push(48);
            out.push(5);
            out.push(i as u32);
        },
    }
    proof {
        assert(out@ =~= old(out)@ + spec_bg_codes(c));
    }
}

/// A parameter list joined with `;` separators, each number in decimal.
pub open spec fn spec_join_codes(codes: Seq<u32>) -> Seq<char>
    decreases codes.len(),
{
    if codes.len() == 0 {
        Seq::empty()
    } else if codes.len() == 1 {
        spec_dec(codes[0] as nat)
    } else {
        spec_dec(codes[0] as nat) + (seq![';'] + spec_join_codes(codes.drop_first()))
    }
}

/// Append the parameter list `codes[i..]` joined with `;` separators.
pub fn push_joined_codes(out: &mut Vec<char>, codes: &Vec<u32>, i: usize)
    requires
        i <= codes.len(),
    ensures
        final(out)@ == old(out)@ + spec_join_codes(codes@.skip(i as int)),
    decreases codes.len() - i,
{
    if i < codes.len() {
        push_dec(out, codes[i]);
        if i + 1 < codes.len() {
            out.push(';');
        }
        push_joined_codes(out, codes, i + 1);
        proof {
            assert(codes@.skip(i as int).drop_first() =~= codes@.skip(i + 1));
            assert(out@ =~= old(out)@ + spec_join_codes(codes@.skip(i as int)));
        }
    } else {
        proof {
            assert(out@ =~= old(out)@ + spec_join_codes(codes@.skip(i as int)));
        }
    }
}

/// The ANSI foreground code string for a color.
pub fn fg_ansi_code(color: Color) -> (r: String)
    ensures
        r@ == spec_join_codes(spec_fg_codes(color)),
{
    let mut codes: Vec<u32> = Vec::new();
    push_fg_codes(&mut codes, color);
    let mut out: Vec<char> = Vec::new();
    push_joined_codes(&mut out, &codes, 0);
    proof {
        assert(codes@.skip(0) =~= codes@);
        assert(out@ =~= spec_join_codes(spec_fg_codes(color)));
    }
    crate::text::chars_to_string(&out)
}

/// The ANSI background code string for a color.
pub fn bg_ansi_code(color: Color) -> (r: String)
    ensures
        r@ == spec_join_codes(spec_bg_codes(color)),
{
    let mut codes: Vec<u32> = Vec::new();
    push_bg_codes(&mut codes, color);
    let mut out: Vec<char> = Vec::new();
    push_joined_codes(&mut out, &codes, 0);
    proof {
        assert(codes@.skip(0) =~= codes@);
        assert(out@ =~= spec_join_codes(spec_bg_codes(color)));
    }
    crate::text::chars_to_string(&out)
}

/// The ANSI code for bold, when set.
pub fn bold_ansi_code(bold: bool) -> (r: Option<&'static str>)
    ensures
        match r {
            Some(s) => bold && s@ == "1"@,
            None => !bold,
        },
{
    if bold {
        Some("1")
    } else {
        None
    }
}

/// The ANSI dim code, shared by all three dim levels.
pub fn dim_ansi_code(level: u8) -> (r: Option<&'static str>)
    ensures
        match r {
            Some(s) => 1 <= level <= 3 && s@ == "2"@,
            None => level == 0 || level > 3,
        },
{
    if 1 <= level && level <= 3 {
        Some("2")
    } else {
        None
    }
}

/// The ANSI code for italic, when set.
pub fn italic_ansi_code(italic: bool) -> (r: Option<&'static str>)
    ensures
        match r {
            Some(s) => italic && s@ == "3"@,
            None => !italic,
        },
{
    if italic {
        Some("3")
    } else {
        None
    }
}

/// The ANSI code for underline, when set.
pub fn underline_ansi_code(underline: bool) -> (r: Option<&'static str>)
    ensures
        match r {
            Some(s) => underline && s@ == "4"@,
            None => !underline,
        },
{
    if underline {
        Some("4")
    } else {
        None
    }
}

/// The ANSI code for strikethrough, when set.
pub fn strikethrough_ansi_code(strikethrough: bool) -> (r: Option<&'static str>)
    ensures
        match r {
            Some(s) => strikethrough && s@ == "9"@,
            None => !strikethrough,
        },
{
    if strikethrough {
        Some("9")
    } else {
        None
    }
}

/// The picker index of a palette color; colors outside the palette (RGB and
/// indexed) fall back to the first entry.
pub open spec fn spec_color_index_from_color(c: Color) -> int {
    if c == Color::Black { 1 }
    else if c == Color::Red { 2 }
    else if c == Color::Green { 3 }
    else if c == Color::Yellow { 4 }
    else if c == Color::Blue { 5 }
    else if c == Color::Magenta { 6 }
    else if c == Color::Cyan { 7 }
    else if c == Color::White { 8 }
    else if c == Color::DarkGray { 9 }
    else if c == Color::LightRed { 10 }
    else if c == Color::LightGreen { 11 }
    else if c == Color::LightYellow { 12 }
    else if c == Color::LightBlue { 13 }
    else if c == Color::LightMagenta { 14 }
    else if c == Color::LightCyan { 15 }
    else if c == Color::Gray { 16 }
    else { 0 }
}

/// The picker index showing a given color, the first entry when the color is
/// not in the palette.
pub fn color_index_from_color(c: Color) -> (i: usize)
    ensures
        i == spec_color_index_from_color(c),
        i < spec_palette_len(),
        (match c {
            Color::Rgb(..) => i == 0,
            Color::Indexed(..) => i == 0,
            _ => spec_palette_color(i as int) == c,
        }),
{
    match c {
        Color::Black => 1,
        Color::Red => 2,
        Color::Green => 3,
        Color::Yellow => 4,
        Color::Blue => 5,
        Color::Magenta => 6,
        Color::Cyan => 7,
        Color::White => 8,
        Color::DarkGray => 9,
        Color::LightRed => 10,
        Color::LightGreen => 11,
        Color::LightYellow => 12,
        Color::LightBlue => 13,
        Color::LightMagenta => 14,
        Color::LightCyan => 15,
        Color::Gray => 16,
        _ => 0,
    }
}

/// The palette index that a key press selects, taking either letter case:
/// digits `0`-`9` pick the first ten entries, letters `a`-`g` the rest.
pub open spec fn spec_color_index_from_key(key: char) -> Option<int> {
    if key == '0' { Some(0int) }
    else if key == '1' { Some(1int) }
    else if key == '2' { Some(2int) }
    else if key == '3' { Some(3int) }
    else if key == '4' { Some(4int) }
    else if key == '5' { Some(5int) }
    else if key == '6' { Some(6int) }
    else if key == '7' { Some(7int) }
    else if key == '8' { Some(8int) }
    else if key == '9' { Some(9int) }
    else if key == 'a' || key == 'A' { Some(10int) }
    else if key == 'b' || key == 'B' { Some(11int) }
    else if key == 'c' || key == 'C' { Some(12int) }
    else if key == 'd' || key == 'D' { Some(13int) }
    else if key == 'e' || key == 'E' { Some(14int) }
    else if key == 'f' || key == 'F' { Some(15int) }
    else if key == 'g' || key == 'G' { Some(16int) }
    else { None }
}

/// The palette index selected by a key press, if the key (case-insensitive)
/// names a palette entry.
pub fn color_index_from_key(key: char) -> (r: Option<usize>)
    ensures
        match r {
            Some(i) => spec_color_index_from_key(key) == Some(i as int) && i < spec_palette_len(),
            None => spec_color_index_from_key(key) is None,
        },
{
    if key == '0' { Some(0) }
    else if key == '1' { Some(1) }
    else if key == '2' { Some(2) }
    else if key == '3' { Some(3) }
    else if key == '4' { Some(4) }
    else if key == '5' { Some(5) }
    else if key == '6' { Some(6) }
    else if key == '7' { Some(7) }
    else if key == '8' { Some(8) }
    else if key == '9' { Some(9) }
    else if key == 'a' || key == 'A' { Some(10) }
    else if key == 'b' || key == 'B' { Some(11) }
    else if key == 'c' || key == 'C' { Some(12) }
    else if key == 'd' || key == 'D' { Some(13) }
    else if key == 'e' || key == 'E' { Some(14) }
    else if key == 'f' || key == 'F' { Some(15) }
    else if key == 'g' || key == 'G' { Some(16) }
    else { None }
}

} // verus!
