//! The structured serializer: a lossless, versioned text encoding of the
//! whole document. Colors are written as tagged variants and every style
//! field round-trips exactly, including the full dim ordinal, unlike the
//! ANSI path.

use vstd::prelude::*;

use crate::app::{CharStyle, StyledChar};
use crate::colors::Color;
use crate::text::{chars_to_string, is_digit, lemma_digits_end_bounds, lemma_sat_acc_bound,
    push_dec, push_str_chars, scan_number, skip_ws, spec_dec, spec_digits_end, spec_is_digit,
    spec_is_space, spec_sat_value, spec_skip_ws, str_to_chars};

verus! {

/// The versioned container that the structured format stores: a format
/// version tag and the ordered character records.
pub struct StyledDocument {
    pub version: u8,
    pub chars: Vec<StyledChar>,
}

/// The current version tag of the structured format.
pub open spec fn spec_format_version() -> nat {
    1
}

/// A failed structured decode; the document is left untouched.
#[derive(Clone, Copy, Debug, PartialEq, Eq, Structural)]
pub enum DecodeError {
    /// The text does not follow the structured grammar, or a field is
    /// missing or out of range.
    Malformed,
    /// The container's version tag is not the supported one.
    UnsupportedVersion,
}

impl DecodeError {
    /// A short description of the failure.
    pub fn describe(&self) -> &'static str {
        match self {
            DecodeError::Malformed => "malformed structured document",
            DecodeError::UnsupportedVersion => "unsupported structured document version",
        }
    }
}

/// A boolean in the structured format.
pub open spec fn spec_enc_bool(b: bool) -> Seq<char> {
    if b {
        "true"@
    } else {
        "false"@
    }
}

/// A color in the structured format: a bare variant name, or `Rgb(r,g,b)`
/// or `Indexed(n)` with decimal components.
pub open spec fn spec_enc_color(c: Color) -> Seq<char> {
    match c {
        Color::Reset => "Reset"@,
        Color::Black => "Black"@,
        Color::Red => "Red"@,
        Color::Green => "Green"@,
        Color::Yellow => "Yellow"@,
        Color::Blue => "Blue"@,
        Color::Magenta => "Magenta"@,
        Color::Cyan => "Cyan"@,
        Color::White => "White"@,
        Color::DarkGray => "DarkGray"@,
        Color::LightRed => "LightRed"@,
        Color::LightGreen => "LightGreen"@,
        Color::LightYellow => "LightYellow"@,
        Color::LightBlue => "LightBlue"@,
        Color::LightMagenta => "LightMagenta"@,
        Color::LightCyan => "LightCyan"@,
        Color::Gray => "Gray"@,
        Color::Rgb(r, g, b) => "Rgb("@ + (spec_dec(r as nat) + (","@ + (spec_dec(g as nat) + (","@
            + (spec_dec(b as nat) + ")"@))))),
        Color::Indexed(i) => "Indexed("@ + (spec_dec(i as nat) + ")"@),
    }
}

/// The quoted-character escape body: backslash, quote and the three control
/// characters are escaped, everything else stands for itself.
pub open spec fn spec_enc_char_body(c: char) -> Seq<char> {
    if c == '\\' { "\\\\"@ }
    else if c == '\'' { "\\'"@ }
    else if c == '\n' { "\\n"@ }
    else if c == '\t' { "\\t"@ }
    else if c == '\r' { "\\r"@ }
    else { seq![c] }
}

/// A character in the structured format, quoted.
pub open spec fn spec_enc_char(c: char) -> Seq<char> {
    "'"@ + (spec_enc_char_body(c) + "'"@)
}

/// A named color field with its separators: `name:color,`.
pub open spec fn spec_enc_color_field(name: Seq<char>, c: Color) -> Seq<char> {
    name + (":"@ + (spec_enc_color(c) + ","@))
}

/// A named boolean field with its separators: `name:bool,`.
pub open spec fn spec_enc_bool_field(name: Seq<char>, b: bool) -> Seq<char> {
    name + (":"@ + (spec_enc_bool(b) + ","@))
}

/// The final dim field and the record's closing bracket: `dim_level:n)`.
pub open spec fn spec_enc_dim_field(d: u8) -> Seq<char> {
    "dim_level"@ + (":"@ + (spec_dec(d as nat) + ")"@))
}

/// A style record in the structured format, fields in fixed order.
pub open spec fn spec_enc_style(st: CharStyle) -> Seq<char> {
    "("@ + (spec_enc_color_field("fg"@, st.fg) + (spec_enc_color_field("bg"@, st.bg)
        + (spec_enc_bool_field("bold"@, st.bold) + (spec_enc_bool_field("italic"@, st.italic)
        + (spec_enc_bool_field("underline"@, st.underline) + (spec_enc_bool_field(
        "strikethrough"@,
        st.strikethrough,
    ) + spec_enc_dim_field(st.dim_level)))))))
}

/// A character record in the structured format.
pub open spec fn spec_enc_styled_char(sc: StyledChar) -> Seq<char> {
    "("@ + ("ch"@ + (":"@ + (spec_enc_char(sc.ch) + (","@ + ("style"@ + (":"@
        + (spec_enc_style(sc.style) + ")"@)))))))
}

/// The records `cs[i..]`, comma-separated.
pub open spec fn spec_enc_list(cs: Seq<StyledChar>, i: int) -> Seq<char>
    decreases cs.len() - i,
{
    if 0 <= i < cs.len() {
        spec_enc_styled_char(cs[i]) + ((if i + 1 < cs.len() {
            ","@
        } else {
            Seq::<char>::empty()
        }) + spec_enc_list(cs, i + 1))
    } else {
        Seq::empty()
    }
}

/// The whole document in the structured format, version tag first.
pub open spec fn spec_enc_doc(cs: Seq<StyledChar>) -> Seq<char> {
    "("@ + ("version"@ + (":"@ + (spec_dec(spec_format_version()) + (","@ + ("chars"@ + (":"@
        + ("["@ + (spec_enc_list(cs, 0) + ("]"@ + ")"@)))))))))
}

fn push_bool(out: &mut Vec<char>, b: bool)
    ensures
        final(out)@ == old(out)@ + spec_enc_bool(b),
{
    if b {
        push_str_chars(out, "true");
    } else {
        push_str_chars(out, "false");
    }
}

fn push_color(out: &mut Vec<char>, c: Color)
    ensures
        final(out)@ == old(out)@ + spec_enc_color(c),
{
    match c {
        Color::Reset => push_str_chars(out, "Reset"),
        Color::Black => push_str_chars(out, "Black"),
        Color::Red => push_str_chars(out, "Red"),
        Color::Green => push_str_chars(out, "Green"),
        Color::Yellow => push_str_chars(out, "Yellow"),
        Color::Blue => push_str_chars(out, "Blue"),
        Color::Magenta => push_str_chars(out, "Magenta"),
        Color::Cyan => push_str_chars(out, "Cyan"),
        Color::White => push_str_chars(out, "White"),
        Color::DarkGray => push_str_chars(out, "DarkGray"),
        Color::LightRed => push_str_chars(out, "LightRed"),
        Color::LightGreen => push_str_chars(out, "LightGreen"),
        Color::LightYellow => push_str_chars(out, "LightYellow"),
        Color::LightBlue => push_str_chars(out, "LightBlue"),
        Color::LightMagenta => push_str_chars(out, "LightMagenta"),
        Color::LightCyan => push_str_chars(out, "LightCyan"),
        Color::Gray => push_str_chars(out, "Gray"),
        Color::Rgb(r, g, b) => {
            push_str_chars(out, "Rgb(");
            push_dec(out, r as u32);
            push_str_chars(out, ",");
            push_dec(out, g as u32);
            push_str_chars(out, ",");
            push_dec(out, b as u32);
            push_str_chars(out, ")");
            proof {
                assert(out@ =~= old(out)@ + spec_enc_color(c));
            }
        },
        Color::Indexed(i) => {
            push_str_chars(out, "Indexed(");
            push_dec(out, i as u32);
            push_str_chars(out, ")");
            proof {
                assert(out@ =~= old(out)@ + spec_enc_color(c));
            }
        },
    }
}

fn push_char_record(out: &mut Vec<char>, c: char)
    ensures
        final(out)@ == old(out)@ + spec_enc_char(c),
{
    push_str_chars(out, "'");
    if c == '\\' {
        push_str_chars(out, "\\\\");
    } else if c == '\'' {
        push_str_chars(out, "\\'");
    } else if c == '\n' {
        push_str_chars(out, "\\n");
    } else if c == '\t' {
        push_str_chars(out, "\\t");
    } else if c == '\r' {
        push_str_chars(out, "\\r");
    } else {
        out.push(c);
    }
    push_str_chars(out, "'");
    proof {
        assert(out@ =~= old(out)@ + spec_enc_char(c));
    }
}

fn push_color_field(out: &mut Vec<char>, name: &str, c: Color)
    ensures
        final(out)@ == old(out)@ + spec_enc_color_field(name@, c),
{
    push_str_chars(out, name);
    push_str_chars(out, ":");
    push_color(out, c);
    push_str_chars(out, ",");
    proof {
        assert(out@ =~= old(out)@ + spec_enc_color_field(name@, c));
    }
}

fn push_bool_field(out: &mut Vec<char>, name: &str, b: bool)
    ensures
        final(out)@ == old(out)@ + spec_enc_bool_field(name@, b),
{
    push_str_chars(out, name);
    push_str_chars(out, ":");
    push_bool(out, b);
    push_str_chars(out, ",");
    proof {
        assert(out@ =~= old(out)@ + spec_enc_bool_field(name@, b));
    }
}

#[verifier::rlimit(100)]
fn push_style(out: &mut Vec<char>, st: &CharStyle)
    ensures
        final(out)@ == old(out)@ + spec_enc_style(*st),
{
    push_str_chars(out, "(");
    push_color_field(out, "fg", st.fg);
    push_color_field(out, "bg", st.bg);
    push_bool_field(out, "bold", st.bold);
    push_bool_field(out, "italic", st.italic);
    push_bool_field(out, "underline", st.underline);
    push_bool_field(out, "strikethrough", st.strikethrough);
    push_str_chars(out, "dim_level");
    push_str_chars(out, ":");
    push_dec(out, st.dim_level as u32);
    push_str_chars(out, ")");
    proof {
        assert(out@ =~= old(out)@ + spec_enc_style(*st));
    }
}

fn push_styled_char(out: &mut Vec<char>, sc: &StyledChar)
    ensures
        final(out)@ == old(out)@ + spec_enc_styled_char(*sc),
{
    push_str_chars(out, "(");
    push_str_chars(out, "ch");
    push_str_chars(out, ":");
    push_char_record(out, sc.ch);
    push_str_chars(out, ",");
    push_str_chars(out, "style");
    push_str_chars(out, ":");
    push_style(out, &sc.style);
    push_str_chars(out, ")");
    proof {
        assert(out@ =~= old(out)@ + spec_enc_styled_char(*sc));
    }
}

/// Export styled text to the structured format.
#[verifier::loop_isolation(false)]
#[verifier::rlimit(100)]
pub fn export_ron(text: &Vec<StyledChar>) -> (r: Result<String, DecodeError>)
    ensures
        match r {
            Ok(s) => s@ == spec_enc_doc(text@),
            Err(_) => false,
        },
{
    let mut out: Vec<char> = Vec::new();
    push_str_chars(&mut out, "(");
    push_str_chars(&mut out, "version");
    push_str_chars(&mut out, ":");
    push_dec(&mut out, 1);
    push_str_chars(&mut out, ",");
    push_str_chars(&mut out, "chars");
    push_str_chars(&mut out, ":");
    push_str_chars(&mut out, "[");
    let ghost head = out@;
    let ghost mut taken = Seq::<char>::empty();
    let mut i: usize = 0;
    while i < text.len()
        invariant
            i <= text.len(),
            out@ == head + taken,
            spec_enc_list(text@, 0) == taken + spec_enc_list(text@, i as int),
        decreases text.len() - i,
    {
        let ghost taken0 = taken;
        push_styled_char(&mut out, &text[i]);
        proof {
            taken = taken + spec_enc_styled_char(text@[i as int]);
        }
        if i + 1 < text.len() {
            push_str_chars(&mut out, ",");
            proof {
                taken = taken + ","@;
            }
        }
        proof {
            assert(out@ =~= head + taken);
            let chunk = spec_enc_styled_char(text@[i as int]) + (if i + 1 < text@.len() {
                ","@
            } else {
                Seq::<char>::empty()
            });
            assert(taken =~= taken0 + chunk);
            assert(spec_enc_list(text@, i as int) == chunk + spec_enc_list(text@, i + 1));
            assert(taken0 + (chunk + spec_enc_list(text@, i + 1)) =~= (taken0 + chunk)
                + spec_enc_list(text@, i + 1));
        }
        i = i + 1;
    }
    push_str_chars(&mut out, "]");
    push_str_chars(&mut out, ")");
    proof {
        assert(spec_enc_list(text@, text@.len() as int) =~= Seq::<char>::empty());
        assert(taken =~= spec_enc_list(text@, 0));
        assert(out@ =~= spec_enc_doc(text@));
    }
    Ok(chars_to_string(&out))
}



/// The index after any whitespace at `i`, never before `i`.
pub open spec fn spec_ws(s: Seq<char>, i: int) -> int {
    let w = spec_skip_ws(s, i);
    if w < i {
        i
    } else {
        w
    }
}

/// The index just past `kw` when it stands at `i`.
pub open spec fn spec_dec_kw(s: Seq<char>, i: int, kw: Seq<char>) -> Option<int> {
    if 0 <= i && i + kw.len() <= s.len() && s.subrange(i, i + kw.len()) == kw {
        Some(i + kw.len())
    } else {
        None
    }
}

/// The index just past `kw` when it stands after any whitespace at `i`.
pub open spec fn spec_tok(s: Seq<char>, i: int, kw: Seq<char>) -> Option<int> {
    spec_dec_kw(s, spec_ws(s, i), kw)
}

/// A decimal number at `i`: its (saturated) value and the index past its
/// digits.
pub open spec fn spec_dec_number(s: Seq<char>, i: int) -> Option<(nat, int)> {
    if 0 <= i < s.len() && spec_is_digit(s[i]) {
        let k0 = spec_digits_end(s, i);
        let k = if k0 <= i {
            i + 1
        } else {
            k0
        };
        Some((spec_sat_value(s, i, k), k))
    } else {
        None
    }
}

/// A boolean literal at `i`.
pub open spec fn spec_dec_bool(s: Seq<char>, i: int) -> Option<(bool, int)> {
    if spec_dec_kw(s, i, "true"@) is Some {
        Some((true, spec_dec_kw(s, i, "true"@)->Some_0))
    } else if spec_dec_kw(s, i, "false"@) is Some {
        Some((false, spec_dec_kw(s, i, "false"@)->Some_0))
    } else {
        None
    }
}

/// An RGB or palette-index component: a number no larger than a byte, after
/// any whitespace.
pub open spec fn spec_dec_component(s: Seq<char>, i: int) -> Option<(u8, int)> {
    match spec_dec_number(s, spec_ws(s, i)) {
        Some((v, j)) => if v <= 255 {
            Some((v as u8, j))
        } else {
            None
        },
        None => None,
    }
}

/// A bare color variant name at `i`.
pub open spec fn spec_dec_color_name(s: Seq<char>, i: int) -> Option<(Color, int)> {
    if spec_dec_kw(s, i, "Reset"@) is Some { Some((Color::Reset, i + 5)) }
    else if spec_dec_kw(s, i, "Black"@) is Some { Some((Color::Black, i + 5)) }
    else if spec_dec_kw(s, i, "Red"@) is Some { Some((Color::Red, i + 3)) }
    else if spec_dec_kw(s, i, "Green"@) is Some { Some((Color::Green, i + 5)) }
    else if spec_dec_kw(s, i, "Yellow"@) is Some { Some((Color::Yellow, i + 6)) }
    else if spec_dec_kw(s, i, "Blue"@) is Some { Some((Color::Blue, i + 4)) }
    else if spec_dec_kw(s, i, "Magenta"@) is Some { Some((Color::Magenta, i + 7)) }
    else if spec_dec_kw(s, i, "Cyan"@) is Some { Some((Color::Cyan, i + 4)) }
    else if spec_dec_kw(s, i, "White"@) is Some { Some((Color::White, i + 5)) }
    else if spec_dec_kw(s, i, "DarkGray"@) is Some { Some((Color::DarkGray, i + 8)) }
    else if spec_dec_kw(s, i, "LightRed"@) is Some { Some((Color::LightRed, i + 8)) }
    else if spec_dec_kw(s, i, "LightGreen"@) is Some { Some((Color::LightGreen, i + 10)) }
    else if spec_dec_kw(s, i, "LightYellow"@) is Some { Some((Color::LightYellow, i + 11)) }
    else if spec_dec_kw(s, i, "LightBlue"@) is Some { Some((Color::LightBlue, i + 9)) }
    else if spec_dec_kw(s, i, "LightMagenta"@) is Some { Some((Color::LightMagenta, i + 12)) }
    else if spec_dec_kw(s, i, "LightCyan"@) is Some { Some((Color::LightCyan, i + 9)) }
    else if spec_dec_kw(s, i, "Gray"@) is Some { Some((Color::Gray, i + 4)) }
    else { None }
}

/// The inside of an `Rgb(...)` form, from just after the opening bracket.
pub open spec fn spec_dec_rgb_args(s: Seq<char>, i: int) -> Option<(Color, int)> {
    match spec_dec_component(s, i) {
        Some((r, j1)) => match spec_tok(s, j1, ","@) {
            Some(j2) => match spec_dec_component(s, j2) {
                Some((g, j3)) => match spec_tok(s, j3, ","@) {
                    Some(j4) => match spec_dec_component(s, j4) {
                        Some((b, j5)) => match spec_tok(s, j5, ")"@) {
                            Some(j6) => Some((Color::Rgb(r, g, b), j6)),
                            None => None,
                        },
                        None => None,
                    },
                    None => None,
                },
                None => None,
            },
            None => None,
        },
        None => None,
    }
}

/// The inside of an `Indexed(...)` form, from just after the opening
/// bracket.
pub open spec fn spec_dec_indexed_args(s: Seq<char>, i: int) -> Option<(Color, int)> {
    match spec_dec_component(s, i) {
        Some((n, j1)) => match spec_tok(s, j1, ")"@) {
            Some(j2) => Some((Color::Indexed(n), j2)),
            None => None,
        },
        None => None,
    }
}

/// A color tag at `i`: a bare variant name, or the `Rgb(...)`/`Indexed(...)`
/// forms with whitespace allowed around their components.
pub open spec fn spec_dec_color(s: Seq<char>, i: int) -> Option<(Color, int)> {
    if spec_dec_color_name(s, i) is Some {
        spec_dec_color_name(s, i)
    } else if spec_dec_kw(s, i, "Rgb("@) is Some {
        spec_dec_rgb_args(s, spec_dec_kw(s, i, "Rgb("@)->Some_0)
    } else if spec_dec_kw(s, i, "Indexed("@) is Some {
        spec_dec_indexed_args(s, spec_dec_kw(s, i, "Indexed("@)->Some_0)
    } else {
        None
    }
}

/// A quoted character at `i`, with the five escape forms of the encoder.
pub open spec fn spec_dec_char(s: Seq<char>, i: int) -> Option<(char, int)> {
    if !(0 <= i && i + 1 < s.len() && s[i] == '\'') {
        None
    } else if s[i + 1] == '\\' {
        if i + 3 < s.len() && s[i + 3] == '\'' {
            if s[i + 2] == '\\' { Some(('\\', i + 4)) }
            else if s[i + 2] == '\'' { Some(('\'', i + 4)) }
            else if s[i + 2] == 'n' { Some(('\n', i + 4)) }
            else if s[i + 2] == 't' { Some(('\t', i + 4)) }
            else if s[i + 2] == 'r' { Some(('\r', i + 4)) }
            else { None }
        } else {
            None
        }
    } else {
        if i + 2 < s.len() && s[i + 2] == '\'' {
            Some((s[i + 1], i + 3))
        } else {
            None
        }
    }
}

/// A named color field with its trailing comma: `name : color ,`.
pub open spec fn spec_dec_color_field(s: Seq<char>, i: int, name: Seq<char>) -> Option<(Color, int)> {
    match spec_tok(s, i, name) {
        Some(j1) => match spec_tok(s, j1, ":"@) {
            Some(j2) => match spec_dec_color(s, spec_ws(s, j2)) {
                Some((c, j3)) => match spec_tok(s, j3, ","@) {
                    Some(j4) => Some((c, j4)),
                    None => None,
                },
                None => None,
            },
            None => None,
        },
        None => None,
    }
}

/// A named boolean field with its trailing comma: `name : bool ,`.
pub open spec fn spec_dec_bool_field(s: Seq<char>, i: int, name: Seq<char>) -> Option<(bool, int)> {
    match spec_tok(s, i, name) {
        Some(j1) => match spec_tok(s, j1, ":"@) {
            Some(j2) => match spec_dec_bool(s, spec_ws(s, j2)) {
                Some((b, j3)) => match spec_tok(s, j3, ","@) {
                    Some(j4) => Some((b, j4)),
                    None => None,
                },
                None => None,
            },
            None => None,
        },
        None => None,
    }
}

/// The final dim field and the record's closing bracket:
/// `dim_level : n )` with `n` one of the four levels.
pub open spec fn spec_dec_dim_field(s: Seq<char>, i: int) -> Option<(u8, int)> {
    match spec_tok(s, i, "dim_level"@) {
        Some(j1) => match spec_tok(s, j1, ":"@) {
            Some(j2) => match spec_dec_number(s, spec_ws(s, j2)) {
                Some((v, j3)) => if v > 3 {
                    None
                } else {
                    let j3b = match spec_tok(s, j3, ","@) {
                        Some(x) => x,
                        None => j3,
                    };
                    match spec_tok(s, j3b, ")"@) {
                        Some(j4) => Some((v as u8, j4)),
                        None => None,
                    }
                },
                None => None,
            },
            None => None,
        },
        None => None,
    }
}

/// A style record at `i`, fields in fixed order, whitespace allowed between
/// tokens.
pub open spec fn spec_dec_style(s: Seq<char>, i: int) -> Option<(CharStyle, int)> {
    match spec_tok(s, i, "("@) {
        Some(j0) => match spec_dec_color_field(s, j0, "fg"@) {
            Some((fg, j1)) => match spec_dec_color_field(s, j1, "bg"@) {
                Some((bg, j2)) => match spec_dec_bool_field(s, j2, "bold"@) {
                    Some((bold, j3)) => match spec_dec_bool_field(s, j3, "italic"@) {
                        Some((italic, j4)) => match spec_dec_bool_field(s, j4, "underline"@) {
                            Some((underline, j5)) => spec_dec_style_end(
                                s, j5, fg, bg, bold, italic, underline,
                            ),
                            None => None,
                        },
                        None => None,
                    },
                    None => None,
                },
                None => None,
            },
            None => None,
        },
        None => None,
    }
}

/// The tail of a style record: the strikethrough and dim fields.
pub open spec fn spec_dec_style_end(
    s: Seq<char>,
    i: int,
    fg: Color,
    bg: Color,
    bold: bool,
    italic: bool,
    underline: bool,
) -> Option<(CharStyle, int)> {
    match spec_dec_bool_field(s, i, "strikethrough"@) {
        Some((strikethrough, j1)) => match spec_dec_dim_field(s, j1) {
            Some((dim_level, j2)) => Some(
                (CharStyle { fg, bg, bold, italic, underline, strikethrough, dim_level }, j2),
            ),
            None => None,
        },
        None => None,
    }
}

/// A character record at `i`: the quoted character and its style record.
pub open spec fn spec_dec_styled_char(s: Seq<char>, i: int) -> Option<(StyledChar, int)> {
    match spec_tok(s, i, "("@) {
        Some(j1) => match spec_tok(s, j1, "ch"@) {
            Some(j2) => match spec_tok(s, j2, ":"@) {
                Some(j3) => match spec_dec_char(s, spec_ws(s, j3)) {
                    Some((ch, j4)) => spec_dec_styled_char_end(s, j4, ch),
                    None => None,
                },
                None => None,
            },
            None => None,
        },
        None => None,
    }
}

/// The tail of a character record: the style field and the closing bracket.
pub open spec fn spec_dec_styled_char_end(s: Seq<char>, i: int, ch: char) -> Option<(StyledChar, int)> {
    match spec_tok(s, i, ","@) {
        Some(j1) => match spec_tok(s, j1, "style"@) {
            Some(j2) => match spec_tok(s, j2, ":"@) {
                Some(j3) => match spec_dec_style(s, j3) {
                    Some((style, j4)) => {
                        let j4b = match spec_tok(s, j4, ","@) {
                            Some(x) => x,
                            None => j4,
                        };
                        match spec_tok(s, j4b, ")"@) {
                            Some(j5) => Some((StyledChar { ch, style }, j5)),
                            None => None,
                        }
                    },
                    None => None,
                },
                None => None,
            },
            None => None,
        },
        None => None,
    }
}

/// The record list at `i`, up to and including its closing bracket; a
/// trailing comma before the bracket is tolerated.
pub open spec fn spec_dec_list(s: Seq<char>, i: int) -> Option<(Seq<StyledChar>, int)>
    decreases s.len() - i,
{
    let a = spec_ws(s, i);
    if a < s.len() && s[a] == ']' {
        Some((Seq::empty(), a + 1))
    } else {
        match spec_dec_styled_char(s, a) {
            None => None,
            Some((sc, j)) => {
                if j <= a || j > s.len() {
                    None
                } else {
                    spec_dec_list_tail(s, i, sc, j)
                }
            },
        }
    }
}

/// After one record: the closing bracket, or a comma and the rest of the
/// list.
pub open spec fn spec_dec_list_tail(s: Seq<char>, i: int, sc: StyledChar, j: int) -> Option<
    (Seq<StyledChar>, int),
>
    decreases s.len() - i, 0int,
{
    let b = spec_ws(s, j);
    if b < s.len() && s[b] == ']' {
        Some((seq![sc], b + 1))
    } else if b < s.len() && s[b] == ',' && spec_ws(s, i) < j && b + 1 > i {
        match spec_dec_list(s, b + 1) {
            None => None,
            Some((rest, k)) => Some((seq![sc] + rest, k)),
        }
    } else {
        None
    }
}

/// The version header: optional container name, the opening bracket, and a
/// version tag that must be the supported one, with its trailing comma.
pub open spec fn spec_dec_header(s: Seq<char>) -> Option<int> {
    let i0 = spec_ws(s, 0);
    let i1 = match spec_dec_kw(s, i0, "StyledDocument"@) {
        Some(j) => j,
        None => i0,
    };
    match spec_tok(s, i1, "("@) {
        Some(j1) => match spec_tok(s, j1, "version"@) {
            Some(j2) => match spec_tok(s, j2, ":"@) {
                Some(j3) => match spec_dec_number(s, spec_ws(s, j3)) {
                    Some((v, j4)) => if v != spec_format_version() {
                        None
                    } else {
                        spec_tok(s, j4, ","@)
                    },
                    None => None,
                },
                None => None,
            },
            None => None,
        },
        None => None,
    }
}

/// The decode of a whole structured document: the version header, the
/// record list, and nothing but whitespace after the closing bracket.
pub open spec fn spec_dec_doc(s: Seq<char>) -> Option<Seq<StyledChar>> {
    match spec_dec_header(s) {
        Some(j1) => match spec_tok(s, j1, "chars"@) {
            Some(j2) => match spec_tok(s, j2, ":"@) {
                Some(j3) => match spec_tok(s, j3, "["@) {
                    Some(j4) => spec_dec_doc_end(s, j4),
                    None => None,
                },
                None => None,
            },
            None => None,
        },
        None => None,
    }
}

/// The record list and the document's closing bracket, with only whitespace
/// allowed after it.
pub open spec fn spec_dec_doc_end(s: Seq<char>, i: int) -> Option<Seq<StyledChar>> {
    match spec_dec_list(s, i) {
        Some((cs, j1)) => {
            let j1b = match spec_tok(s, j1, ","@) {
                Some(x) => x,
                None => j1,
            };
            match spec_tok(s, j1b, ")"@) {
                Some(j2) => if spec_ws(s, j2) == s.len() {
                    Some(cs)
                } else {
                    None
                },
                None => None,
            }
        },
        None => None,
    }
}


/// Advance past whitespace.
fn ws(s: &Vec<char>, i: usize) -> (r: usize)
    requires
        i <= s.len(),
    ensures
        r as int == spec_ws(s@, i as int),
        i <= r <= s.len(),
{
    skip_ws(s, i)
}

/// Match a keyword exactly at `i`.
fn match_kw(s: &Vec<char>, i: usize, kw: &str) -> (r: Option<usize>)
    requires
        i <= s.len(),
    ensures
        match r {
            Some(j) => spec_dec_kw(s@, i as int, kw@) == Some(j as int) && i <= j <= s.len(),
            None => spec_dec_kw(s@, i as int, kw@) is None,
        },
{
    let pat = str_to_chars(kw);
    if pat.len() > s.len() - i {
        return None;
    }
    let mut k: usize = 0;
    while k < pat.len()
        invariant
            k <= pat.len(),
            i + pat.len() <= s.len(),
            pat@ == kw@,
            forall|m: int| 0 <= m < k ==> s@[i + m] == pat@[m],
        decreases pat.len() - k,
    {
        if s[i + k] != pat[k] {
            proof {
                assert(s@.subrange(i as int, i + pat@.len())[k as int] == s@[i + k]);
            }
            return None;
        }
        k = k + 1;
    }
    proof {
        assert(s@.subrange(i as int, i + pat@.len()) =~= pat@);
    }
    Some(i + pat.len())
}

/// Match a keyword after any whitespace at `i`.
fn tok(s: &Vec<char>, i: usize, kw: &str) -> (r: Option<usize>)
    requires
        i <= s.len(),
    ensures
        match r {
            Some(j) => spec_tok(s@, i as int, kw@) == Some(j as int) && i <= j <= s.len(),
            None => spec_tok(s@, i as int, kw@) is None,
        },
{
    let a = ws(s, i);
    match_kw(s, a, kw)
}

/// Read a decimal number at `i`.
fn dec_number(s: &Vec<char>, i: usize) -> (r: Option<(u32, usize)>)
    requires
        i <= s.len(),
    ensures
        match r {
            Some(pr) => spec_dec_number(s@, i as int) == Some((pr.0 as nat, pr.1 as int)) && i
                < pr.1 <= s.len(),
            None => spec_dec_number(s@, i as int) is None,
        },
{
    if i >= s.len() || !is_digit(s[i]) {
        return None;
    }
    let (v, k) = scan_number(s, i);
    proof {
        lemma_digits_end_bounds(s@, i + 1);
        assert(spec_digits_end(s@, i as int) == spec_digits_end(s@, i + 1));
        lemma_sat_acc_bound(s@, i as int, k as int, 0);
    }
    Some((v, k))
}

/// Read a boolean literal at `i`.
fn dec_bool(s: &Vec<char>, i: usize) -> (r: Option<(bool, usize)>)
    requires
        i <= s.len(),
    ensures
        match r {
            Some(pr) => spec_dec_bool(s@, i as int) == Some((pr.0, pr.1 as int)) && i < pr.1
                <= s.len(),
            None => spec_dec_bool(s@, i as int) is None,
        },
{
    if let Some(j) = match_kw(s, i, "true") {
        proof {
            reveal_strlit("true");
        }
        return Some((true, j));
    }
    if let Some(j) = match_kw(s, i, "false") {
        proof {
            reveal_strlit("true");
            reveal_strlit("false");
        }
        return Some((false, j));
    }
    None
}

/// Read a color component at `i`.
fn dec_component(s: &Vec<char>, i: usize) -> (r: Option<(u8, usize)>)
    requires
        i <= s.len(),
    ensures
        match r {
            Some(pr) => spec_dec_component(s@, i as int) == Some((pr.0, pr.1 as int)) && i < pr.1
                <= s.len(),
            None => spec_dec_component(s@, i as int) is None,
        },
{
    let a = ws(s, i);
    match dec_number(s, a) {
        Some((v, j)) => {
            if v <= 255 {
                Some((v as u8, j))
            } else {
                None
            }
        },
        None => None,
    }
}

/// Read a bare color variant name at `i`.
fn dec_color_name(s: &Vec<char>, i: usize) -> (r: Option<(Color, usize)>)
    requires
        i <= s.len(),
    ensures
        match r {
            Some(pr) => spec_dec_color_name(s@, i as int) == Some((pr.0, pr.1 as int)) && i < pr.1
                <= s.len(),
            None => spec_dec_color_name(s@, i as int) is None,
        },
{
    proof {
        reveal_strlit("Reset");
        reveal_strlit("Black");
        reveal_strlit("Red");
        reveal_strlit("Green");
        reveal_strlit("Yellow");
        reveal_strlit("Blue");
        reveal_strlit("Magenta");
        reveal_strlit("Cyan");
        reveal_strlit("White");
        reveal_strlit("DarkGray");
        reveal_strlit("LightRed");
        reveal_strlit("LightGreen");
        reveal_strlit("LightYellow");
        reveal_strlit("LightBlue");
        reveal_strlit("LightMagenta");
        reveal_strlit("LightCyan");
        reveal_strlit("Gray");
    }
    if let Some(j) = match_kw(s, i, "Reset") { Some((Color::Reset, j)) }
    else if let Some(j) = match_kw(s, i, "Black") { Some((Color::Black, j)) }
    else if let Some(j) = match_kw(s, i, "Red") { Some((Color::Red, j)) }
    else if let Some(j) = match_kw(s, i, "Green") { Some((Color::Green, j)) }
    else if let Some(j) = match_kw(s, i, "Yellow") { Some((Color::Yellow, j)) }
    else if let Some(j) = match_kw(s, i, "Blue") { Some((Color::Blue, j)) }
    else if let Some(j) = match_kw(s, i, "Magenta") { Some((Color::Magenta, j)) }
    else if let Some(j) = match_kw(s, i, "Cyan") { Some((Color::Cyan, j)) }
    else if let Some(j) = match_kw(s, i, "White") { Some((Color::White, j)) }
    else if let Some(j) = match_kw(s, i, "DarkGray") { Some((Color::DarkGray, j)) }
    else if let Some(j) = match_kw(s, i, "LightRed") { Some((Color::LightRed, j)) }
    else if let Some(j) = match_kw(s, i, "LightGreen") { Some((Color::LightGreen, j)) }
    else if let Some(j) = match_kw(s, i, "LightYellow") { Some((Color::LightYellow, j)) }
    else if let Some(j) = match_kw(s, i, "LightBlue") { Some((Color::LightBlue, j)) }
    else if let Some(j) = match_kw(s, i, "LightMagenta") { Some((Color::LightMagenta, j)) }
    else if let Some(j) = match_kw(s, i, "LightCyan") { Some((Color::LightCyan, j)) }
    else if let Some(j) = match_kw(s, i, "Gray") { Some((Color::Gray, j)) }
    else { None }
}

/// Read a color tag at `i`.
fn dec_color(s: &Vec<char>, i: usize) -> (r: Option<(Color, usize)>)
    requires
        i <= s.len(),
    ensures
        match r {
            Some(pr) => spec_dec_color(s@, i as int) == Some((pr.0, pr.1 as int)) && i < pr.1
                <= s.len(),
            None => spec_dec_color(s@, i as int) is None,
        },
{
    if let Some((c, j)) = dec_color_name(s, i) {
        return Some((c, j));
    }
    if let Some(j0) = match_kw(s, i, "Rgb(") {
        let r = match dec_component(s, j0) {
            Some((cr, j1)) => match tok(s, j1, ",") {
                Some(j2) => match dec_component(s, j2) {
                    Some((cg, j3)) => match tok(s, j3, ",") {
                        Some(j4) => match dec_component(s, j4) {
                            Some((cb, j5)) => match tok(s, j5, ")") {
                                Some(j6) => Some((Color::Rgb(cr, cg, cb), j6)),
                                None => None,
                            },
                            None => None,
                        },
                        None => None,
                    },
                    None => None,
                },
                None => None,
            },
            None => None,
        };
        return r;
    }
    if let Some(j0) = match_kw(s, i, "Indexed(") {
        let r = match dec_component(s, j0) {
            Some((n, j1)) => match tok(s, j1, ")") {
                Some(j2) => Some((Color::Indexed(n), j2)),
                None => None,
            },
            None => None,
        };
        return r;
    }
    None
}

/// Read a quoted character at `i`.
fn dec_char(s: &Vec<char>, i: usize) -> (r: Option<(char, usize)>)
    requires
        i <= s.len(),
    ensures
        match r {
            Some(pr) => spec_dec_char(s@, i as int) == Some((pr.0, pr.1 as int)) && i < pr.1
                <= s.len(),
            None => spec_dec_char(s@, i as int) is None,
        },
{
    if s.len() - i < 2 || s[i] != '\'' {
        return None;
    }
    if s[i + 1] == '\\' {
        if s.len() - i < 4 || s[i + 3] != '\'' {
            return None;
        }
        let e = s[i + 2];
        if e == '\\' { Some(('\\', i + 4)) }
        else if e == '\'' { Some(('\'', i + 4)) }
        else if e == 'n' { Some(('\n', i + 4)) }
        else if e == 't' { Some(('\t', i + 4)) }
        else if e == 'r' { Some(('\r', i + 4)) }
        else { None }
    } else {
        if s.len() - i >= 3 && s[i + 2] == '\'' {
            Some((s[i + 1], i + 3))
        } else {
            None
        }
    }
}

/// Read a named color field with its trailing comma.
fn dec_color_field(s: &Vec<char>, i: usize, name: &str) -> (r: Option<(Color, usize)>)
    requires
        i <= s.len(),
    ensures
        match r {
            Some(pr) => spec_dec_color_field(s@, i as int, name@) == Some((pr.0, pr.1 as int))
                && i <= pr.1 <= s.len(),
            None => spec_dec_color_field(s@, i as int, name@) is None,
        },
{
    match tok(s, i, name) {
        Some(j1) => match tok(s, j1, ":") {
            Some(j2) => {
                let a = ws(s, j2);
                match dec_color(s, a) {
                    Some((c, j3)) => match tok(s, j3, ",") {
                        Some(j4) => Some((c, j4)),
                        None => None,
                    },
                    None => None,
                }
            },
            None => None,
        },
        None => None,
    }
}

/// Read a named boolean field with its trailing comma.
fn dec_bool_field(s: &Vec<char>, i: usize, name: &str) -> (r: Option<(bool, usize)>)
    requires
        i <= s.len(),
    ensures
        match r {
            Some(pr) => spec_dec_bool_field(s@, i as int, name@) == Some((pr.0, pr.1 as int)) && i
                <= pr.1 <= s.len(),
            None => spec_dec_bool_field(s@, i as int, name@) is None,
        },
{
    match tok(s, i, name) {
        Some(j1) => match tok(s, j1, ":") {
            Some(j2) => {
                let a = ws(s, j2);
                match dec_bool(s, a) {
                    Some((b, j3)) => match tok(s, j3, ",") {
                        Some(j4) => Some((b, j4)),
                        None => None,
                    },
                    None => None,
                }
            },
            None => None,
        },
        None => None,
    }
}

/// Read the dim field and the record's closing bracket.
fn dec_dim_field(s: &Vec<char>, i: usize) -> (r: Option<(u8, usize)>)
    requires
        i <= s.len(),
    ensures
        match r {
            Some(pr) => spec_dec_dim_field(s@, i as int) == Some((pr.0, pr.1 as int)) && i <= pr.1
                <= s.len(),
            None => spec_dec_dim_field(s@, i as int) is None,
        },
{
    match tok(s, i, "dim_level") {
        Some(j1) => match tok(s, j1, ":") {
            Some(j2) => {
                let a = ws(s, j2);
                match dec_number(s, a) {
                    Some((v, j3)) => {
                        if v > 3 {
                            None
                        } else {
                            let j3b = match tok(s, j3, ",") {
                                Some(x) => x,
                                None => j3,
                            };
                            match tok(s, j3b, ")") {
                                Some(j4) => Some((v as u8, j4)),
                                None => None,
                            }
                        }
                    },
                    None => None,
                }
            },
            None => None,
        },
        None => None,
    }
}

/// Read a style record at `i`.
fn dec_style(s: &Vec<char>, i: usize) -> (r: Option<(CharStyle, usize)>)
    requires
        i <= s.len(),
    ensures
        match r {
            Some(pr) => spec_dec_style(s@, i as int) == Some((pr.0, pr.1 as int)) && i <= pr.1
                <= s.len(),
            None => spec_dec_style(s@, i as int) is None,
        },
{
    match tok(s, i, "(") {
        Some(j0) => match dec_color_field(s, j0, "fg") {
            Some((fg, j1)) => match dec_color_field(s, j1, "bg") {
                Some((bg, j2)) => match dec_bool_field(s, j2, "bold") {
                    Some((bold, j3)) => match dec_bool_field(s, j3, "italic") {
                        Some((italic, j4)) => match dec_bool_field(s, j4, "underline") {
                            Some((underline, j5)) => match dec_bool_field(s, j5, "strikethrough") {
                                Some((strikethrough, j6)) => match dec_dim_field(s, j6) {
                                    Some((dim_level, j7)) => Some(
                                        (
                                            CharStyle {
                                                fg,
                                                bg,
                                                bold,
                                                italic,
                                                underline,
                                                strikethrough,
                                                dim_level,
                                            },
                                            j7,
                                        ),
                                    ),
                                    None => None,
                                },
                                None => None,
                            },
                            None => None,
                        },
                        None => None,
                    },
                    None => None,
                },
                None => None,
            },
            None => None,
        },
        None => None,
    }
}

/// Read a character record at `i`.
fn dec_styled_char(s: &Vec<char>, i: usize) -> (r: Option<(StyledChar, usize)>)
    requires
        i <= s.len(),
    ensures
        match r {
            Some(pr) => spec_dec_styled_char(s@, i as int) == Some((pr.0, pr.1 as int)) && i
                <= pr.1 <= s.len(),
            None => spec_dec_styled_char(s@, i as int) is None,
        },
{
    match tok(s, i, "(") {
        Some(j1) => match tok(s, j1, "ch") {
            Some(j2) => match tok(s, j2, ":") {
                Some(j3) => {
                    let a = ws(s, j3);
                    match dec_char(s, a) {
                        Some((ch, j4)) => match tok(s, j4, ",") {
                            Some(j5) => match tok(s, j5, "style") {
                                Some(j6) => match tok(s, j6, ":") {
                                    Some(j7) => match dec_style(s, j7) {
                                        Some((style, j8)) => {
                                            let j8b = match tok(s, j8, ",") {
                                                Some(x) => x,
                                                None => j8,
                                            };
                                            match tok(s, j8b, ")") {
                                                Some(j9) => Some((StyledChar { ch, style }, j9)),
                                                None => None,
                                            }
                                        },
                                        None => None,
                                    },
                                    None => None,
                                },
                                None => None,
                            },
                            None => None,
                        },
                        None => None,
                    }
                },
                None => None,
            },
            None => None,
        },
        None => None,
    }
}


/// Read the record list at `i`, through its closing bracket.
#[verifier::loop_isolation(false)]
#[verifier::rlimit(100)]
#[verifier::spinoff_prover]
fn dec_list(s: &Vec<char>, i: usize) -> (r: Option<(Vec<StyledChar>, usize)>)
    requires
        i <= s.len(),
    ensures
        match r {
            Some(pr) => spec_dec_list(s@, i as int) == Some((pr.0@, pr.1 as int)) && i <= pr.1
                <= s.len(),
            None => spec_dec_list(s@, i as int) is None,
        },
{
    let mut out: Vec<StyledChar> = Vec::new();
    let mut pos = i;
    loop
        invariant
            i <= pos <= s.len(),
            (match spec_dec_list(s@, pos as int) {
                Some(pr) => spec_dec_list(s@, i as int) == Some((out@ + pr.0, pr.1)),
                None => spec_dec_list(s@, i as int) is None,
            }),
        decreases s.len() - pos,
    {
        let a = ws(s, pos);
        if a < s.len() && s[a] == ']' {
            proof {
                assert(out@ + Seq::<StyledChar>::empty() =~= out@);
            }
            return Some((out, a + 1));
        }
        match dec_styled_char(s, a) {
            None => {
                return None;
            },
            Some((sc, j)) => {
                if j <= a {
                    return None;
                }
                let b = ws(s, j);
                if b < s.len() && s[b] == ']' {
                    let ghost out0 = out@;
                    out.push(sc);
                    proof {
                        assert(out0 + seq![sc] =~= out@);
                    }
                    return Some((out, b + 1));
                } else if b < s.len() && s[b] == ',' {
                    let ghost out0 = out@;
                    out.push(sc);
                    proof {
                        if spec_dec_list(s@, b + 1) is Some {
                            let pr = spec_dec_list(s@, b + 1)->Some_0;
                            assert(out0 + (seq![sc] + pr.0) =~= out@ + pr.0);
                        }
                    }
                    pos = b + 1;
                } else {
                    return None;
                }
            },
        }
    }
}

/// Decode a whole structured document.
fn dec_doc(s: &Vec<char>) -> (r: Result<Vec<StyledChar>, DecodeError>)
    ensures
        match r {
            Ok(v) => spec_dec_doc(s@) == Some(v@),
            Err(_) => spec_dec_doc(s@) is None,
        },
{
    let i0 = ws(s, 0);
    let i1 = match match_kw(s, i0, "StyledDocument") {
        Some(j) => j,
        None => i0,
    };
    let j1 = match tok(s, i1, "(") {
        Some(j) => j,
        None => {
            return Err(DecodeError::Malformed);
        },
    };
    let j2 = match tok(s, j1, "version") {
        Some(j) => j,
        None => {
            return Err(DecodeError::Malformed);
        },
    };
    let j3 = match tok(s, j2, ":") {
        Some(j) => j,
        None => {
            return Err(DecodeError::Malformed);
        },
    };
    let a = ws(s, j3);
    let (v, j4) = match dec_number(s, a) {
        Some(p) => p,
        None => {
            return Err(DecodeError::Malformed);
        },
    };
    if v != 1 {
        return Err(DecodeError::UnsupportedVersion);
    }
    let j5 = match tok(s, j4, ",") {
        Some(j) => j,
        None => {
            return Err(DecodeError::Malformed);
        },
    };
    let j6 = match tok(s, j5, "chars") {
        Some(j) => j,
        None => {
            return Err(DecodeError::Malformed);
        },
    };
    let j7 = match tok(s, j6, ":") {
        Some(j) => j,
        None => {
            return Err(DecodeError::Malformed);
        },
    };
    let j8 = match tok(s, j7, "[") {
        Some(j) => j,
        None => {
            return Err(DecodeError::Malformed);
        },
    };
    let (cs, j9) = match dec_list(s, j8) {
        Some(p) => p,
        None => {
            return Err(DecodeError::Malformed);
        },
    };
    let j9b = match tok(s, j9, ",") {
        Some(x) => x,
        None => j9,
    };
    let j10 = match tok(s, j9b, ")") {
        Some(j) => j,
        None => {
            return Err(DecodeError::Malformed);
        },
    };
    let e = ws(s, j10);
    if e != s.len() {
        return Err(DecodeError::Malformed);
    }
    Ok(cs)
}

/// Decode a structured document into its versioned container.
pub fn decode_document(input: &str) -> (r: Result<StyledDocument, DecodeError>)
    ensures
        match r {
            Ok(d) => spec_dec_doc(input@) == Some(d.chars@) && d.version == 1,
            Err(_) => spec_dec_doc(input@) is None,
        },
{
    let s = str_to_chars(input);
    match dec_doc(&s) {
        Ok(cs) => Ok(StyledDocument { version: 1, chars: cs }),
        Err(e) => Err(e),
    }
}

/// Import styled text from the structured format.
pub fn import_ron(input: &str) -> (r: Result<Vec<StyledChar>, DecodeError>)
    ensures
        match r {
            Ok(v) => spec_dec_doc(input@) == Some(v@),
            Err(_) => spec_dec_doc(input@) is None,
        },
{
    let s = str_to_chars(input);
    dec_doc(&s)
}


/// Skipping whitespace at a non-space position stays put.
proof fn lemma_ws_at(s: Seq<char>, i: int)
    requires
        0 <= i <= s.len(),
        i == s.len() || !spec_is_space(s[i]),
    ensures
        spec_ws(s, i) == i,
{
}

/// A keyword standing at `i` matches there.
proof fn lemma_kw_at(s: Seq<char>, i: int, kw: Seq<char>)
    requires
        0 <= i,
        i + kw.len() <= s.len(),
        s.subrange(i, i + kw.len()) == kw,
    ensures
        spec_dec_kw(s, i, kw) == Some(i + kw.len()),
{
}

/// A keyword that disagrees with the text at some offset does not match.
proof fn lemma_kw_differs_at(s: Seq<char>, i: int, kw: Seq<char>, m: int)
    requires
        0 <= i,
        0 <= m < kw.len(),
        i + m < s.len(),
        s[i + m] != kw[m],
    ensures
        spec_dec_kw(s, i, kw) is None,
{
    if 0 <= i && i + kw.len() <= s.len() && s.subrange(i, i + kw.len()) == kw {
        assert(s.subrange(i, i + kw.len())[m] == s[i + m]);
        assert(false);
    }
}

/// A token standing at a non-space position matches there.
proof fn lemma_tok_at(s: Seq<char>, i: int, kw: Seq<char>)
    requires
        0 <= i,
        kw.len() > 0,
        i + kw.len() <= s.len(),
        s.subrange(i, i + kw.len()) == kw,
        !spec_is_space(s[i]),
    ensures
        spec_tok(s, i, kw) == Some(i + kw.len()),
{
    lemma_ws_at(s, i);
    lemma_kw_at(s, i, kw);
}

/// The first character under a matched slice.
proof fn lemma_char_at(s: Seq<char>, i: int, kw: Seq<char>)
    requires
        0 <= i,
        kw.len() >= 1,
        i + kw.len() <= s.len(),
        s.subrange(i, i + kw.len()) == kw,
    ensures
        s[i] == kw[0],
{
    assert(s.subrange(i, i + kw.len())[0] == s[i]);
}

/// A slice equal to a concatenation splits into slices equal to its parts.
proof fn lemma_subrange_split(s: Seq<char>, i: int, a: Seq<char>, b: Seq<char>)
    requires
        0 <= i,
        i + a.len() + b.len() <= s.len(),
        s.subrange(i, i + a.len() + b.len()) == a + b,
    ensures
        s.subrange(i, i + a.len()) == a,
        s.subrange(i + a.len(), i + a.len() + b.len()) == b,
{
    assert(s.subrange(i, i + a.len()) =~= a) by {
        assert forall|k: int| 0 <= k < a.len() implies s.subrange(i, i + a.len())[k] == a[k] by {
            assert(s.subrange(i, i + a.len() + b.len())[k] == s[i + k]);
            assert((a + b)[k] == a[k]);
        }
    }
    assert(s.subrange(i + a.len(), i + a.len() + b.len()) =~= b) by {
        assert forall|k: int| 0 <= k < b.len() implies s.subrange(
            i + a.len(),
            i + a.len() + b.len(),
        )[k] == b[k] by {
            assert(s.subrange(i, i + a.len() + b.len())[a.len() + k] == s[i + a.len() + k]);
            assert((a + b)[a.len() + k] == b[k]);
        }
    }
}

/// A color encoding is non-empty and starts with a printable character.
proof fn lemma_enc_color_head(c: Color)
    ensures
        spec_enc_color(c).len() >= 1,
        !spec_is_space(spec_enc_color(c)[0]),
{
    reveal_strlit("Reset");
    reveal_strlit("Black");
    reveal_strlit("Red");
    reveal_strlit("Green");
    reveal_strlit("Yellow");
    reveal_strlit("Blue");
    reveal_strlit("Magenta");
    reveal_strlit("Cyan");
    reveal_strlit("White");
    reveal_strlit("DarkGray");
    reveal_strlit("LightRed");
    reveal_strlit("LightGreen");
    reveal_strlit("LightYellow");
    reveal_strlit("LightBlue");
    reveal_strlit("LightMagenta");
    reveal_strlit("LightCyan");
    reveal_strlit("Gray");
    reveal_strlit("Rgb(");
    reveal_strlit("Indexed(");
    match c {
        Color::Rgb(..) => {
            assert(spec_enc_color(c)[0] == 'R');
        },
        Color::Indexed(..) => {
            assert(spec_enc_color(c)[0] == 'I');
        },
        _ => {
        },
    }
}

/// A boolean literal written by the encoder reads back as itself.
proof fn lemma_dec_bool_of_enc(b: bool, s: Seq<char>, i: int)
    requires
        0 <= i,
        i + spec_enc_bool(b).len() <= s.len(),
        s.subrange(i, i + spec_enc_bool(b).len()) == spec_enc_bool(b),
    ensures
        spec_dec_bool(s, i) == Some((b, i + spec_enc_bool(b).len())),
{
    reveal_strlit("true");
    reveal_strlit("false");
    let e = spec_enc_bool(b);
    if b {
        lemma_kw_at(s, i, "true"@);
    } else {
        assert(s[i] == e[0]);
        lemma_kw_differs_at(s, i, "true"@, 0);
        lemma_kw_at(s, i, "false"@);
    }
}

/// A color tag written by the encoder reads back as itself.
#[verifier::rlimit(100)]
proof fn lemma_dec_color_of_enc(c: Color, s: Seq<char>, i: int)
    requires
        0 <= i,
        i + spec_enc_color(c).len() <= s.len(),
        s.subrange(i, i + spec_enc_color(c).len()) == spec_enc_color(c),
    ensures
        spec_dec_color(s, i) == Some((c, i + spec_enc_color(c).len())),
{
    reveal_strlit("Reset");
    reveal_strlit("Black");
    reveal_strlit("Red");
    reveal_strlit("Green");
    reveal_strlit("Yellow");
    reveal_strlit("Blue");
    reveal_strlit("Magenta");
    reveal_strlit("Cyan");
    reveal_strlit("White");
    reveal_strlit("DarkGray");
    reveal_strlit("LightRed");
    reveal_strlit("LightGreen");
    reveal_strlit("LightYellow");
    reveal_strlit("LightBlue");
    reveal_strlit("LightMagenta");
    reveal_strlit("LightCyan");
    reveal_strlit("Gray");
    reveal_strlit("Rgb(");
    reveal_strlit("Indexed(");
    reveal_strlit(",");
    reveal_strlit(")");
    let e = spec_enc_color(c);
    assert forall|k: int| 0 <= k < e.len() implies s[i + k] == e[k] by {
        assert(s.subrange(i, i + e.len())[k] == s[i + k]);
    }
    match c {
        Color::Reset => {
            lemma_kw_at(s, i, "Reset"@);
        },
        Color::Black => {
            assert(s[i + 0] == e[0]);
            lemma_kw_differs_at(s, i, "Reset"@, 0);
            lemma_kw_at(s, i, "Black"@);
        },
        Color::Red => {
            assert(s[i + 2] == e[2]);
            lemma_kw_differs_at(s, i, "Reset"@, 2);
            assert(s[i + 0] == e[0]);
            lemma_kw_differs_at(s, i, "Black"@, 0);
            lemma_kw_at(s, i, "Red"@);
        },
        Color::Green => {
            assert(s[i + 0] == e[0]);
            lemma_kw_differs_at(s, i, "Reset"@, 0);
            assert(s[i + 0] == e[0]);
            lemma_kw_differs_at(s, i, "Black"@, 0);
            assert(s[i + 0] == e[0]);
            lemma_kw_differs_at(s, i, "Red"@, 0);
            lemma_kw_at(s, i, "Green"@);
        },
        Color::Yellow => {
            assert(s[i + 0] == e[0]);
            lemma_kw_differs_at(s, i, "Reset"@, 0);
            assert(s[i + 0] == e[0]);
            lemma_kw_differs_at(s, i, "Black"@, 0);
            assert(s[i + 0] == e[0]);
            lemma_kw_differs_at(s, i, "Red"@, 0);
            assert(s[i + 0] == e[0]);
            lemma_kw_differs_at(s, i, "Green"@, 0);
            lemma_kw_at(s, i, "Yellow"@);
        },
        Color::Blue => {
            assert(s[i + 0] == e[0]);
            lemma_kw_differs_at(s, i, "Reset"@, 0);
            assert(s[i + 2] == e[2]);
            lemma_kw_differs_at(s, i, "Black"@, 2);
            assert(s[i + 0] == e[0]);
            lemma_kw_differs_at(s, i, "Red"@, 0);
            assert(s[i + 0] == e[0]);
            lemma_kw_differs_at(s, i, "Green"@, 0);
            assert(s[i + 0] == e[0]);
            lemma_kw_differs_at(s, i, "Yellow"@, 0);
            lemma_kw_at(s, i, "Blue"@);
        },
        Color::Magenta => {
            assert(s[i + 0] == e[0]);
            lemma_kw_differs_at(s, i, "Reset"@, 0);
            assert(s[i + 0] == e[0]);
            lemma_kw_differs_at(s, i, "Black"@, 0);
            assert(s[i + 0] == e[0]);
            lemma_kw_differs_at(s, i, "Red"@, 0);
            assert(s[i + 0] == e[0]);
            lemma_kw_differs_at(s, i, "Green"@, 0);
            assert(s[i + 0] == e[0]);
            lemma_kw_differs_at(s, i, "Yellow"@, 0);
            assert(s[i + 0] == e[0]);
            lemma_kw_differs_at(s, i, "Blue"@, 0);
            lemma_kw_at(s, i, "Magenta"@);
        },
        Color::Cyan => {
            assert(s[i + 0] == e[0]);
            lemma_kw_differs_at(s, i, "Reset"@, 0);
            assert(s[i + 0] == e[0]);
            lemma_kw_differs_at(s, i, "Black"@, 0);
            assert(s[i + 0] == e[0]);
            lemma_kw_differs_at(s, i, "Red"@, 0);
            assert(s[i + 0] == e[0]);
            lemma_kw_differs_at(s, i, "Green"@, 0);
            assert(s[i + 0] == e[0]);
            lemma_kw_differs_at(s, i, "Yellow"@, 0);
            assert(s[i + 0] == e[0]);
            lemma_kw_differs_at(s, i, "Blue"@, 0);
            assert(s[i + 0] == e[0]);
            lemma_kw_differs_at(s, i, "Magenta"@, 0);
            lemma_kw_at(s, i, "Cyan"@);
        },
        Color::White => {
            assert(s[i + 0] == e[0]);
            lemma_kw_differs_at(s, i, "Reset"@, 0);
            assert(s[i + 0] == e[0]);
            lemma_kw_differs_at(s, i, "Black"@, 0);
            assert(s[i + 0] == e[0]);
            lemma_kw_differs_at(s, i, "Red"@, 0);
            assert(s[i + 0] == e[0]);
            lemma_kw_differs_at(s, i, "Green"@, 0);
            assert(s[i + 0] == e[0]);
            lemma_kw_differs_at(s, i, "Yellow"@, 0);
            assert(s[i + 0] == e[0]);
            lemma_kw_differs_at(s, i, "Blue"@, 0);
            assert(s[i + 0] == e[0]);
            lemma_kw_differs_at(s, i, "Magenta"@, 0);
            assert(s[i + 0] == e[0]);
            lemma_kw_differs_at(s, i, "Cyan"@, 0);
            lemma_kw_at(s, i, "White"@);
        },
        Color::DarkGray => {
            assert(s[i + 0] == e[0]);
            lemma_kw_differs_at(s, i, "Reset"@, 0);
            assert(s[i + 0] == e[0]);
            lemma_kw_differs_at(s, i, "Black"@, 0);
            assert(s[i + 0] == e[0]);
            lemma_kw_differs_at(s, i, "Red"@, 0);
            assert(s[i + 0] == e[0]);
            lemma_kw_differs_at(s, i, "Green"@, 0);
            assert(s[i + 0] == e[0]);
            lemma_kw_differs_at(s, i, "Yellow"@, 0);
            assert(s[i + 0] == e[0]);
            lemma_kw_differs_at(s, i, "Blue"@, 0);
            assert(s[i + 0] == e[0]);
            lemma_kw_differs_at(s, i, "Magenta"@, 0);
            assert(s[i + 0] == e[0]);
            lemma_kw_differs_at(s, i, "Cyan"@, 0);
            assert(s[i + 0] == e[0]);
            lemma_kw_differs_at(s, i, "White"@, 0);
            lemma_kw_at(s, i, "DarkGray"@);
        },
        Color::LightRed => {
            assert(s[i + 0] == e[0]);
            lemma_kw_differs_at(s, i, "Reset"@, 0);
            assert(s[i + 0] == e[0]);
            lemma_kw_differs_at(s, i, "Black"@, 0);
            assert(s[i + 0] == e[0]);
            lemma_kw_differs_at(s, i, "Red"@, 0);
            assert(s[i + 0] == e[0]);
            lemma_kw_differs_at(s, i, "Green"@, 0);
            assert(s[i + 0] == e[0]);
            lemma_kw_differs_at(s, i, "Yellow"@, 0);
            assert(s[i + 0] == e[0]);
            lemma_kw_differs_at(s, i, "Blue"@, 0);
            assert(s[i + 0] == e[0]);
            lemma_kw_differs_at(s, i, "Magenta"@, 0);
            assert(s[i + 0] == e[0]);
            lemma_kw_differs_at(s, i, "Cyan"@, 0);
            assert(s[i + 0] == e[0]);
            lemma_kw_differs_at(s, i, "White"@, 0);
            assert(s[i + 0] == e[0]);
            lemma_kw_differs_at(s, i, "DarkGray"@, 0);
            lemma_kw_at(s, i, "LightRed"@);
        },
        Color::LightGreen => {
            assert(s[i + 0] == e[0]);
            lemma_kw_differs_at(s, i, "Reset"@, 0);
            assert(s[i + 0] == e[0]);
            lemma_kw_differs_at(s, i, "Black"@, 0);
            assert(s[i + 0] == e[0]);
            lemma_kw_differs_at(s, i, "Red"@, 0);
            assert(s[i + 0] == e[0]);
            lemma_kw_differs_at(s, i, "Green"@, 0);
            assert(s[i + 0] == e[0]);
            lemma_kw_differs_at(s, i, "Yellow"@, 0);
            assert(s[i + 0] == e[0]);
            lemma_kw_differs_at(s, i, "Blue"@, 0);
            assert(s[i + 0] == e[0]);
            lemma_kw_differs_at(s, i, "Magenta"@, 0);
            assert(s[i + 0] == e[0]);
            lemma_kw_differs_at(s, i, "Cyan"@, 0);
            assert(s[i + 0] == e[0]);
            lemma_kw_differs_at(s, i, "White"@, 0);
            assert(s[i + 0] == e[0]);
            lemma_kw_differs_at(s, i, "DarkGray"@, 0);
            assert(s[i + 5] == e[5]);
            lemma_kw_differs_at(s, i, "LightRed"@, 5);
            lemma_kw_at(s, i, "LightGreen"@);
        },
        Color::LightYellow => {
            assert(s[i + 0] == e[0]);
            lemma_kw_differs_at(s, i, "Reset"@, 0);
            assert(s[i + 0] == e[0]);
            lemma_kw_differs_at(s, i, "Black"@, 0);
            assert(s[i + 0] == e[0]);
            lemma_kw_differs_at(s, i, "Red"@, 0);
            assert(s[i + 0] == e[0]);
            lemma_kw_differs_at(s, i, "Green"@, 0);
            assert(s[i + 0] == e[0]);
            lemma_kw_differs_at(s, i, "Yellow"@, 0);
            assert(s[i + 0] == e[0]);
            lemma_kw_differs_at(s, i, "Blue"@, 0);
            assert(s[i + 0] == e[0]);
            lemma_kw_differs_at(s, i, "Magenta"@, 0);
            assert(s[i + 0] == e[0]);
            lemma_kw_differs_at(s, i, "Cyan"@, 0);
            assert(s[i + 0] == e[0]);
            lemma_kw_differs_at(s, i, "White"@, 0);
            assert(s[i + 0] == e[0]);
            lemma_kw_differs_at(s, i, "DarkGray"@, 0);
            assert(s[i + 5] == e[5]);
            lemma_kw_differs_at(s, i, "LightRed"@, 5);
            assert(s[i + 5] == e[5]);
            lemma_kw_differs_at(s, i, "LightGreen"@, 5);
            lemma_kw_at(s, i, "LightYellow"@);
        },
        Color::LightBlue => {
            assert(s[i + 0] == e[0]);
            lemma_kw_differs_at(s, i, "Reset"@, 0);
            assert(s[i + 0] == e[0]);
            lemma_kw_differs_at(s, i, "Black"@, 0);
            assert(s[i + 0] == e[0]);
            lemma_kw_differs_at(s, i, "Red"@, 0);
            assert(s[i + 0] == e[0]);
            lemma_kw_differs_at(s, i, "Green"@, 0);
            assert(s[i + 0] == e[0]);
            lemma_kw_differs_at(s, i, "Yellow"@, 0);
            assert(s[i + 0] == e[0]);
            lemma_kw_differs_at(s, i, "Blue"@, 0);
            assert(s[i + 0] == e[0]);
            lemma_kw_differs_at(s, i, "Magenta"@, 0);
            assert(s[i + 0] == e[0]);
            lemma_kw_differs_at(s, i, "Cyan"@, 0);
            assert(s[i + 0] == e[0]);
            lemma_kw_differs_at(s, i, "White"@, 0);
            assert(s[i + 0] == e[0]);
            lemma_kw_differs_at(s, i, "DarkGray"@, 0);
            assert(s[i + 5] == e[5]);
            lemma_kw_differs_at(s, i, "LightRed"@, 5);
            assert(s[i + 5] == e[5]);
            lemma_kw_differs_at(s, i, "LightGreen"@, 5);
            assert(s[i + 5] == e[5]);
            lemma_kw_differs_at(s, i, "LightYellow"@, 5);
            lemma_kw_at(s, i, "LightBlue"@);
        },
        Color::LightMagenta => {
            assert(s[i + 0] == e[0]);
            lemma_kw_differs_at(s, i, "Reset"@, 0);
            assert(s[i + 0] == e[0]);
            lemma_kw_differs_at(s, i, "Black"@, 0);
            assert(s[i + 0] == e[0]);
            lemma_kw_differs_at(s, i, "Red"@, 0);
            assert(s[i + 0] == e[0]);
            lemma_kw_differs_at(s, i, "Green"@, 0);
            assert(s[i + 0] == e[0]);
            lemma_kw_differs_at(s, i, "Yellow"@, 0);
            assert(s[i + 0] == e[0]);
            lemma_kw_differs_at(s, i, "Blue"@, 0);
            assert(s[i + 0] == e[0]);
            lemma_kw_differs_at(s, i, "Magenta"@, 0);
            assert(s[i + 0] == e[0]);
            lemma_kw_differs_at(s, i, "Cyan"@, 0);
            assert(s[i + 0] == e[0]);
            lemma_kw_differs_at(s, i, "White"@, 0);
            assert(s[i + 0] == e[0]);
            lemma_kw_differs_at(s, i, "DarkGray"@, 0);
            assert(s[i + 5] == e[5]);
            lemma_kw_differs_at(s, i, "LightRed"@, 5);
            assert(s[i + 5] == e[5]);
            lemma_kw_differs_at(s, i, "LightGreen"@, 5);
            assert(s[i + 5] == e[5]);
            lemma_kw_differs_at(s, i, "LightYellow"@, 5);
            assert(s[i + 5] == e[5]);
            lemma_kw_differs_at(s, i, "LightBlue"@, 5);
            lemma_kw_at(s, i, "LightMagenta"@);
        },
        Color::LightCyan => {
            assert(s[i + 0] == e[0]);
            lemma_kw_differs_at(s, i, "Reset"@, 0);
            assert(s[i + 0] == e[0]);
            lemma_kw_differs_at(s, i, "Black"@, 0);
            assert(s[i + 0] == e[0]);
            lemma_kw_differs_at(s, i, "Red"@, 0);
            assert(s[i + 0] == e[0]);
            lemma_kw_differs_at(s, i, "Green"@, 0);
            assert(s[i + 0] == e[0]);
            lemma_kw_differs_at(s, i, "Yellow"@, 0);
            assert(s[i + 0] == e[0]);
            lemma_kw_differs_at(s, i, "Blue"@, 0);
            assert(s[i + 0] == e[0]);
            lemma_kw_differs_at(s, i, "Magenta"@, 0);
            assert(s[i + 0] == e[0]);
            lemma_kw_differs_at(s, i, "Cyan"@, 0);
            assert(s[i + 0] == e[0]);
            lemma_kw_differs_at(s, i, "White"@, 0);
            assert(s[i + 0] == e[0]);
            lemma_kw_differs_at(s, i, "DarkGray"@, 0);
            assert(s[i + 5] == e[5]);
            lemma_kw_differs_at(s, i, "LightRed"@, 5);
            assert(s[i + 5] == e[5]);
            lemma_kw_differs_at(s, i, "LightGreen"@, 5);
            assert(s[i + 5] == e[5]);
            lemma_kw_differs_at(s, i, "LightYellow"@, 5);
            assert(s[i + 5] == e[5]);
            lemma_kw_differs_at(s, i, "LightBlue"@, 5);
            assert(s[i + 5] == e[5]);
            lemma_kw_differs_at(s, i, "LightMagenta"@, 5);
            lemma_kw_at(s, i, "LightCyan"@);
        },
        Color::Gray => {
            assert(s[i + 0] == e[0]);
            lemma_kw_differs_at(s, i, "Reset"@, 0);
            assert(s[i + 0] == e[0]);
            lemma_kw_differs_at(s, i, "Black"@, 0);
            assert(s[i + 0] == e[0]);
            lemma_kw_differs_at(s, i, "Red"@, 0);
            assert(s[i + 2] == e[2]);
            lemma_kw_differs_at(s, i, "Green"@, 2);
            assert(s[i + 0] == e[0]);
            lemma_kw_differs_at(s, i, "Yellow"@, 0);
            assert(s[i + 0] == e[0]);
            lemma_kw_differs_at(s, i, "Blue"@, 0);
            assert(s[i + 0] == e[0]);
            lemma_kw_differs_at(s, i, "Magenta"@, 0);
            assert(s[i + 0] == e[0]);
            lemma_kw_differs_at(s, i, "Cyan"@, 0);
            assert(s[i + 0] == e[0]);
            lemma_kw_differs_at(s, i, "White"@, 0);
            assert(s[i + 0] == e[0]);
            lemma_kw_differs_at(s, i, "DarkGray"@, 0);
            assert(s[i + 0] == e[0]);
            lemma_kw_differs_at(s, i, "LightRed"@, 0);
            assert(s[i + 0] == e[0]);
            lemma_kw_differs_at(s, i, "LightGreen"@, 0);
            assert(s[i + 0] == e[0]);
            lemma_kw_differs_at(s, i, "LightYellow"@, 0);
            assert(s[i + 0] == e[0]);
            lemma_kw_differs_at(s, i, "LightBlue"@, 0);
            assert(s[i + 0] == e[0]);
            lemma_kw_differs_at(s, i, "LightMagenta"@, 0);
            assert(s[i + 0] == e[0]);
            lemma_kw_differs_at(s, i, "LightCyan"@, 0);
            lemma_kw_at(s, i, "Gray"@);
        },
        Color::Rgb(cr, cg, cb) => {
            assert(s[i + 1] == e[1]);
            lemma_kw_differs_at(s, i, "Reset"@, 1);
            assert(s[i + 0] == e[0]);
            lemma_kw_differs_at(s, i, "Black"@, 0);
            assert(s[i + 1] == e[1]);
            lemma_kw_differs_at(s, i, "Red"@, 1);
            assert(s[i + 0] == e[0]);
            lemma_kw_differs_at(s, i, "Green"@, 0);
            assert(s[i + 0] == e[0]);
            lemma_kw_differs_at(s, i, "Yellow"@, 0);
            assert(s[i + 0] == e[0]);
            lemma_kw_differs_at(s, i, "Blue"@, 0);
            assert(s[i + 0] == e[0]);
            lemma_kw_differs_at(s, i, "Magenta"@, 0);
            assert(s[i + 0] == e[0]);
            lemma_kw_differs_at(s, i, "Cyan"@, 0);
            assert(s[i + 0] == e[0]);
            lemma_kw_differs_at(s, i, "White"@, 0);
            assert(s[i + 0] == e[0]);
            lemma_kw_differs_at(s, i, "DarkGray"@, 0);
            assert(s[i + 0] == e[0]);
            lemma_kw_differs_at(s, i, "LightRed"@, 0);
            assert(s[i + 0] == e[0]);
            lemma_kw_differs_at(s, i, "LightGreen"@, 0);
            assert(s[i + 0] == e[0]);
            lemma_kw_differs_at(s, i, "LightYellow"@, 0);
            assert(s[i + 0] == e[0]);
            lemma_kw_differs_at(s, i, "LightBlue"@, 0);
            assert(s[i + 0] == e[0]);
            lemma_kw_differs_at(s, i, "LightMagenta"@, 0);
            assert(s[i + 0] == e[0]);
            lemma_kw_differs_at(s, i, "LightCyan"@, 0);
            assert(s[i + 0] == e[0]);
            lemma_kw_differs_at(s, i, "Gray"@, 0);
            let dr = spec_dec(cr as nat);
            let dg = spec_dec(cg as nat);
            let db = spec_dec(cb as nat);
            crate::text::lemma_spec_dec_digits(cr as nat);
            crate::text::lemma_spec_dec_digits(cg as nat);
            crate::text::lemma_spec_dec_digits(cb as nat);
            let r0 = dr + (","@ + (dg + (","@ + (db + ")"@))));
            lemma_subrange_split(s, i, "Rgb("@, r0);
            let p1 = i + 4;
            lemma_subrange_split(s, p1, dr, ","@ + (dg + (","@ + (db + ")"@))));
            let p2 = p1 + dr.len();
            lemma_subrange_split(s, p2, ","@, dg + (","@ + (db + ")"@)));
            let p3 = p2 + 1;
            lemma_subrange_split(s, p3, dg, ","@ + (db + ")"@));
            let p4 = p3 + dg.len();
            lemma_subrange_split(s, p4, ","@, db + ")"@);
            let p5 = p4 + 1;
            lemma_subrange_split(s, p5, db, ")"@);
            let p6 = p5 + db.len();
            lemma_kw_at(s, i, "Rgb("@);
            lemma_char_at(s, p2, ","@);
            assert(s[p2] == ',');
            crate::text::lemma_read_back_dec(cr as nat, s, p1);
            lemma_ws_at(s, p1);
            assert(spec_dec_component(s, p1) == Some((cr, p2)));
            lemma_tok_at(s, p2, ","@);
            lemma_char_at(s, p4, ","@);
            assert(s[p4] == ',');
            crate::text::lemma_read_back_dec(cg as nat, s, p3);
            lemma_ws_at(s, p3);
            assert(spec_dec_component(s, p3) == Some((cg, p4)));
            lemma_tok_at(s, p4, ","@);
            lemma_char_at(s, p6, ")"@);
            assert(s[p6] == ')');
            crate::text::lemma_read_back_dec(cb as nat, s, p5);
            lemma_ws_at(s, p5);
            assert(spec_dec_component(s, p5) == Some((cb, p6)));
            lemma_tok_at(s, p6, ")"@);
            assert(spec_dec_rgb_args(s, i + 4) == Some((c, i + e.len())));
        },
        Color::Indexed(n) => {
            assert(s[i + 0] == e[0]);
            lemma_kw_differs_at(s, i, "Reset"@, 0);
            assert(s[i + 0] == e[0]);
            lemma_kw_differs_at(s, i, "Black"@, 0);
            assert(s[i + 0] == e[0]);
            lemma_kw_differs_at(s, i, "Red"@, 0);
            assert(s[i + 0] == e[0]);
            lemma_kw_differs_at(s, i, "Green"@, 0);
            assert(s[i + 0] == e[0]);
            lemma_kw_differs_at(s, i, "Yellow"@, 0);
            assert(s[i + 0] == e[0]);
            lemma_kw_differs_at(s, i, "Blue"@, 0);
            assert(s[i + 0] == e[0]);
            lemma_kw_differs_at(s, i, "Magenta"@, 0);
            assert(s[i + 0] == e[0]);
            lemma_kw_differs_at(s, i, "Cyan"@, 0);
            assert(s[i + 0] == e[0]);
            lemma_kw_differs_at(s, i, "White"@, 0);
            assert(s[i + 0] == e[0]);
            lemma_kw_differs_at(s, i, "DarkGray"@, 0);
            assert(s[i + 0] == e[0]);
            lemma_kw_differs_at(s, i, "LightRed"@, 0);
            assert(s[i + 0] == e[0]);
            lemma_kw_differs_at(s, i, "LightGreen"@, 0);
            assert(s[i + 0] == e[0]);
            lemma_kw_differs_at(s, i, "LightYellow"@, 0);
            assert(s[i + 0] == e[0]);
            lemma_kw_differs_at(s, i, "LightBlue"@, 0);
            assert(s[i + 0] == e[0]);
            lemma_kw_differs_at(s, i, "LightMagenta"@, 0);
            assert(s[i + 0] == e[0]);
            lemma_kw_differs_at(s, i, "LightCyan"@, 0);
            assert(s[i + 0] == e[0]);
            lemma_kw_differs_at(s, i, "Gray"@, 0);
            let dn = spec_dec(n as nat);
            crate::text::lemma_spec_dec_digits(n as nat);
            let r0 = dn + ")"@;
            lemma_subrange_split(s, i, "Indexed("@, r0);
            let p1 = i + 8;
            lemma_subrange_split(s, p1, dn, ")"@);
            let p2 = p1 + dn.len();
            lemma_kw_at(s, i, "Indexed("@);
            lemma_char_at(s, p2, ")"@);
            assert(s[p2] == ')');
            crate::text::lemma_read_back_dec(n as nat, s, p1);
            lemma_ws_at(s, p1);
            assert(spec_dec_component(s, p1) == Some((n, p2)));
            lemma_tok_at(s, p2, ")"@);
            assert(spec_dec_indexed_args(s, i + 8) == Some((c, i + e.len())));
        },
    }
}


/// A quoted character written by the encoder reads back as itself.
proof fn lemma_dec_char_of_enc(c: char, s: Seq<char>, i: int)
    requires
        0 <= i,
        i + spec_enc_char(c).len() <= s.len(),
        s.subrange(i, i + spec_enc_char(c).len()) == spec_enc_char(c),
    ensures
        spec_dec_char(s, i) == Some((c, i + spec_enc_char(c).len())),
{
    reveal_strlit("'");
    reveal_strlit("\\\\");
    reveal_strlit("\\'");
    reveal_strlit("\\n");
    reveal_strlit("\\t");
    reveal_strlit("\\r");
    let body = spec_enc_char_body(c);
    lemma_subrange_split(s, i, "'"@, body + "'"@);
    let p1 = i + 1;
    lemma_subrange_split(s, p1, body, "'"@);
    let p2 = p1 + body.len();
    lemma_char_at(s, i, "'"@);
    lemma_char_at(s, p1, body);
    lemma_char_at(s, p2, "'"@);
    if body.len() >= 2 {
        assert(s.subrange(p1, p1 + body.len())[1] == s[p1 + 1]);
    }
}

/// A boolean encoding starts with a letter.
proof fn lemma_enc_bool_head(b: bool)
    ensures
        spec_enc_bool(b).len() >= 1,
        !spec_is_space(spec_enc_bool(b)[0]),
{
    reveal_strlit("true");
    reveal_strlit("false");
}

/// A color field written by the encoder reads back as itself.
proof fn lemma_dec_color_field_of_enc(s: Seq<char>, i: int, name: Seq<char>, c: Color)
    requires
        0 <= i,
        name.len() > 0,
        !spec_is_space(name[0]),
        i + spec_enc_color_field(name, c).len() <= s.len(),
        s.subrange(i, i + spec_enc_color_field(name, c).len()) == spec_enc_color_field(name, c),
    ensures
        spec_dec_color_field(s, i, name) == Some((c, i + spec_enc_color_field(name, c).len())),
{
    reveal_strlit(":");
    reveal_strlit(",");
    let ec = spec_enc_color(c);
    let r0 = ":"@ + (ec + ","@);
    lemma_subrange_split(s, i, name, r0);
    let p1 = i + name.len();
    lemma_subrange_split(s, p1, ":"@, ec + ","@);
    let p2 = p1 + 1;
    lemma_subrange_split(s, p2, ec, ","@);
    let p3 = p2 + ec.len();
    lemma_char_at(s, i, name);
    lemma_tok_at(s, i, name);
    lemma_char_at(s, p1, ":"@);
    lemma_tok_at(s, p1, ":"@);
    lemma_enc_color_head(c);
    lemma_char_at(s, p2, ec);
    lemma_ws_at(s, p2);
    lemma_dec_color_of_enc(c, s, p2);
    lemma_char_at(s, p3, ","@);
    lemma_tok_at(s, p3, ","@);
}

/// A boolean field written by the encoder reads back as itself.
proof fn lemma_dec_bool_field_of_enc(s: Seq<char>, i: int, name: Seq<char>, b: bool)
    requires
        0 <= i,
        name.len() > 0,
        !spec_is_space(name[0]),
        i + spec_enc_bool_field(name, b).len() <= s.len(),
        s.subrange(i, i + spec_enc_bool_field(name, b).len()) == spec_enc_bool_field(name, b),
    ensures
        spec_dec_bool_field(s, i, name) == Some((b, i + spec_enc_bool_field(name, b).len())),
{
    reveal_strlit(":");
    reveal_strlit(",");
    let eb = spec_enc_bool(b);
    let r0 = ":"@ + (eb + ","@);
    lemma_subrange_split(s, i, name, r0);
    let p1 = i + name.len();
    lemma_subrange_split(s, p1, ":"@, eb + ","@);
    let p2 = p1 + 1;
    lemma_subrange_split(s, p2, eb, ","@);
    let p3 = p2 + eb.len();
    lemma_char_at(s, i, name);
    lemma_tok_at(s, i, name);
    lemma_char_at(s, p1, ":"@);
    lemma_tok_at(s, p1, ":"@);
    lemma_enc_bool_head(b);
    lemma_char_at(s, p2, eb);
    lemma_ws_at(s, p2);
    lemma_dec_bool_of_enc(b, s, p2);
    lemma_char_at(s, p3, ","@);
    lemma_tok_at(s, p3, ","@);
}

/// The dim field written by the encoder reads back as itself.
proof fn lemma_dec_dim_field_of_enc(s: Seq<char>, i: int, d: u8)
    requires
        d <= 3,
        0 <= i,
        i + spec_enc_dim_field(d).len() <= s.len(),
        s.subrange(i, i + spec_enc_dim_field(d).len()) == spec_enc_dim_field(d),
    ensures
        spec_dec_dim_field(s, i) == Some((d, i + spec_enc_dim_field(d).len())),
{
    reveal_strlit("dim_level");
    reveal_strlit(":");
    reveal_strlit(",");
    reveal_strlit(")");
    let dd = spec_dec(d as nat);
    crate::text::lemma_spec_dec_digits(d as nat);
    let r0 = ":"@ + (dd + ")"@);
    lemma_subrange_split(s, i, "dim_level"@, r0);
    let p1 = i + 9;
    lemma_subrange_split(s, p1, ":"@, dd + ")"@);
    let p2 = p1 + 1;
    lemma_subrange_split(s, p2, dd, ")"@);
    let p3 = p2 + dd.len();
    lemma_char_at(s, i, "dim_level"@);
    lemma_tok_at(s, i, "dim_level"@);
    lemma_char_at(s, p1, ":"@);
    lemma_tok_at(s, p1, ":"@);
    lemma_char_at(s, p3, ")"@);
    crate::text::lemma_read_back_dec(d as nat, s, p2);
    lemma_ws_at(s, p2);
    lemma_ws_at(s, p3);
    lemma_kw_differs_at(s, p3, ","@, 0);
    lemma_tok_at(s, p3, ")"@);
}

/// A style record written by the encoder reads back as itself.
#[verifier::rlimit(100)]
#[verifier::spinoff_prover]
proof fn lemma_dec_style_of_enc(st: CharStyle, s: Seq<char>, i: int)
    requires
        st.wf(),
        0 <= i,
        i + spec_enc_style(st).len() <= s.len(),
        s.subrange(i, i + spec_enc_style(st).len()) == spec_enc_style(st),
    ensures
        spec_dec_style(s, i) == Some((st, i + spec_enc_style(st).len())),
{
    reveal_strlit("(");
    reveal_strlit("fg");
    reveal_strlit("bg");
    reveal_strlit("bold");
    reveal_strlit("italic");
    let f1 = spec_enc_color_field("fg"@, st.fg);
    let f2 = spec_enc_color_field("bg"@, st.bg);
    let b3 = spec_enc_bool_field("bold"@, st.bold);
    let b4 = spec_enc_bool_field("italic"@, st.italic);
    let b5 = spec_enc_bool_field("underline"@, st.underline);
    let b6 = spec_enc_bool_field("strikethrough"@, st.strikethrough);
    let d7 = spec_enc_dim_field(st.dim_level);
    let r6 = b6 + d7;
    let r5 = b5 + r6;
    let r4 = b4 + r5;
    let r3 = b3 + r4;
    let r2 = f2 + r3;
    let r1 = f1 + r2;
    lemma_subrange_split(s, i, "("@, r1);
    let p1 = i + 1;
    lemma_subrange_split(s, p1, f1, r2);
    let p2 = p1 + f1.len();
    lemma_subrange_split(s, p2, f2, r3);
    let p3 = p2 + f2.len();
    lemma_subrange_split(s, p3, b3, r4);
    let p4 = p3 + b3.len();
    lemma_subrange_split(s, p4, b4, r5);
    let p5 = p4 + b4.len();
    lemma_char_at(s, i, "("@);
    lemma_tok_at(s, i, "("@);
    assert(spec_tok(s, i, "("@) == Some(p1));
    lemma_dec_color_field_of_enc(s, p1, "fg"@, st.fg);
    assert(spec_dec_color_field(s, p1, "fg"@) == Some((st.fg, p2)));
    lemma_dec_color_field_of_enc(s, p2, "bg"@, st.bg);
    assert(spec_dec_color_field(s, p2, "bg"@) == Some((st.bg, p3)));
    lemma_dec_bool_field_of_enc(s, p3, "bold"@, st.bold);
    assert(spec_dec_bool_field(s, p3, "bold"@) == Some((st.bold, p4)));
    lemma_dec_bool_field_of_enc(s, p4, "italic"@, st.italic);
    assert(spec_dec_bool_field(s, p4, "italic"@) == Some((st.italic, p5)));
    lemma_dec_style_tail_of_enc(st, s, p5);
    assert(spec_dec_bool_field(s, p5, "underline"@) == Some((st.underline, p5 + b5.len())));
    assert(spec_dec_style_end(s, p5 + b5.len(), st.fg, st.bg, st.bold, st.italic, st.underline)
        == Some((st, i + spec_enc_style(st).len())));
}

/// The underline, strikethrough and dim fields read back as themselves.
#[verifier::rlimit(100)]
proof fn lemma_dec_style_tail_of_enc(st: CharStyle, s: Seq<char>, i: int)
    requires
        st.wf(),
        0 <= i,
        i + spec_enc_bool_field("underline"@, st.underline).len() + spec_enc_bool_field(
            "strikethrough"@,
            st.strikethrough,
        ).len() + spec_enc_dim_field(st.dim_level).len() <= s.len(),
        s.subrange(
            i,
            i + spec_enc_bool_field("underline"@, st.underline).len() + spec_enc_bool_field(
                "strikethrough"@,
                st.strikethrough,
            ).len() + spec_enc_dim_field(st.dim_level).len(),
        ) == spec_enc_bool_field("underline"@, st.underline) + (spec_enc_bool_field(
            "strikethrough"@,
            st.strikethrough,
        ) + spec_enc_dim_field(st.dim_level)),
    ensures
        ({
            let b5 = spec_enc_bool_field("underline"@, st.underline);
            let b6 = spec_enc_bool_field("strikethrough"@, st.strikethrough);
            let d7 = spec_enc_dim_field(st.dim_level);
            match spec_dec_bool_field(s, i, "underline"@) {
                Some(pr) => pr == (st.underline, i + b5.len()) && spec_dec_style_end(
                    s,
                    i + b5.len(),
                    st.fg,
                    st.bg,
                    st.bold,
                    st.italic,
                    st.underline,
                ) == Some((st, i + b5.len() + b6.len() + d7.len())),
                None => false,
            }
        }),
{
    reveal_strlit("underline");
    reveal_strlit("strikethrough");
    let b5 = spec_enc_bool_field("underline"@, st.underline);
    let b6 = spec_enc_bool_field("strikethrough"@, st.strikethrough);
    let d7 = spec_enc_dim_field(st.dim_level);
    let r6 = b6 + d7;
    lemma_subrange_split(s, i, b5, r6);
    let p6 = i + b5.len();
    lemma_subrange_split(s, p6, b6, d7);
    let p7 = p6 + b6.len();
    lemma_dec_bool_field_of_enc(s, i, "underline"@, st.underline);
    lemma_dec_bool_field_of_enc(s, p6, "strikethrough"@, st.strikethrough);
    lemma_dec_dim_field_of_enc(s, p7, st.dim_level);
}

/// A character record written by the encoder reads back as itself.
#[verifier::rlimit(100)]
#[verifier::spinoff_prover]
proof fn lemma_dec_styled_char_of_enc(sc: StyledChar, s: Seq<char>, i: int)
    requires
        sc.style.wf(),
        0 <= i,
        i + spec_enc_styled_char(sc).len() <= s.len(),
        s.subrange(i, i + spec_enc_styled_char(sc).len()) == spec_enc_styled_char(sc),
    ensures
        spec_dec_styled_char(s, i) == Some((sc, i + spec_enc_styled_char(sc).len())),
{
    reveal_strlit("(");
    reveal_strlit("ch");
    reveal_strlit(":");
    reveal_strlit(",");
    reveal_strlit("style");
    reveal_strlit(")");
    reveal_strlit("'");
    let ec = spec_enc_char(sc.ch);
    let es = spec_enc_style(sc.style);
    let r7 = es + ")"@;
    let r6 = ":"@ + r7;
    let r5 = "style"@ + r6;
    let r4 = ","@ + r5;
    let r3 = ec + r4;
    let r2 = ":"@ + r3;
    let r1 = "ch"@ + r2;
    lemma_subrange_split(s, i, "("@, r1);
    let p1 = i + 1;
    lemma_subrange_split(s, p1, "ch"@, r2);
    let p2 = p1 + 2;
    lemma_subrange_split(s, p2, ":"@, r3);
    let p3 = p2 + 1;
    lemma_subrange_split(s, p3, ec, r4);
    let p4 = p3 + ec.len();
    lemma_char_at(s, i, "("@);
    lemma_tok_at(s, i, "("@);
    lemma_char_at(s, p1, "ch"@);
    lemma_tok_at(s, p1, "ch"@);
    lemma_char_at(s, p2, ":"@);
    lemma_tok_at(s, p2, ":"@);
    lemma_char_at(s, p3, ec);
    lemma_ws_at(s, p3);
    lemma_dec_char_of_enc(sc.ch, s, p3);
    assert(spec_dec_char(s, p3) == Some((sc.ch, p4)));
    lemma_dec_styled_char_end_of_enc(sc, s, p4);
}

/// The tail of a character record written by the encoder: the style field
/// and the closing bracket.
#[verifier::rlimit(100)]
#[verifier::spinoff_prover]
proof fn lemma_dec_styled_char_end_of_enc(sc: StyledChar, s: Seq<char>, i: int)
    requires
        sc.style.wf(),
        0 <= i,
        i + 1 + 5 + 1 + spec_enc_style(sc.style).len() + 1 <= s.len(),
        s.subrange(i, i + 1 + 5 + 1 + spec_enc_style(sc.style).len() + 1) == ","@ + ("style"@
            + (":"@ + (spec_enc_style(sc.style) + ")"@))),
    ensures
        spec_dec_styled_char_end(s, i, sc.ch) == Some(
            (sc, i + 1 + 5 + 1 + spec_enc_style(sc.style).len() + 1),
        ),
{
    reveal_strlit(",");
    reveal_strlit("style");
    reveal_strlit(":");
    reveal_strlit(")");
    let es = spec_enc_style(sc.style);
    let r7 = es + ")"@;
    let r6 = ":"@ + r7;
    let r5 = "style"@ + r6;
    lemma_subrange_split(s, i, ","@, r5);
    let p5 = i + 1;
    lemma_subrange_split(s, p5, "style"@, r6);
    let p6 = p5 + 5;
    lemma_subrange_split(s, p6, ":"@, r7);
    let p7 = p6 + 1;
    lemma_subrange_split(s, p7, es, ")"@);
    let p8 = p7 + es.len();
    lemma_char_at(s, i, ","@);
    lemma_tok_at(s, i, ","@);
    lemma_char_at(s, p5, "style"@);
    lemma_tok_at(s, p5, "style"@);
    lemma_char_at(s, p6, ":"@);
    lemma_tok_at(s, p6, ":"@);
    lemma_dec_style_of_enc(sc.style, s, p7);
    assert(spec_dec_style(s, p7) == Some((sc.style, p8)));
    lemma_char_at(s, p8, ")"@);
    lemma_ws_at(s, p8);
    lemma_kw_differs_at(s, p8, ","@, 0);
    lemma_tok_at(s, p8, ")"@);
}

/// A record list written by the encoder, followed by the closing bracket,
/// reads back as the encoded records.
#[verifier::rlimit(100)]
proof fn lemma_dec_list_of_enc(cs: Seq<StyledChar>, idx: int, s: Seq<char>, pos: int)
    requires
        0 <= idx <= cs.len(),
        forall|k: int| 0 <= k < cs.len() ==> (#[trigger] cs[k]).style.wf(),
        0 <= pos,
        pos + spec_enc_list(cs, idx).len() < s.len(),
        s.subrange(pos, pos + spec_enc_list(cs, idx).len()) == spec_enc_list(cs, idx),
        s[pos + spec_enc_list(cs, idx).len()] == ']',
    ensures
        spec_dec_list(s, pos) == Some(
            (cs.subrange(idx, cs.len() as int), pos + spec_enc_list(cs, idx).len() + 1),
        ),
    decreases cs.len() - idx, 3int,
{
    if idx == cs.len() {
        lemma_ws_at(s, pos);
        assert(cs.subrange(idx, cs.len() as int) =~= Seq::<StyledChar>::empty());
    } else {
        lemma_dec_list_cons(cs, idx, s, pos);
    }
}

/// The step case of the list read-back: one record, its separator, and the
/// rest of the list.
proof fn lemma_dec_list_cons(cs: Seq<StyledChar>, idx: int, s: Seq<char>, pos: int)
    requires
        0 <= idx < cs.len(),
        forall|k: int| 0 <= k < cs.len() ==> (#[trigger] cs[k]).style.wf(),
        0 <= pos,
        pos + spec_enc_list(cs, idx).len() < s.len(),
        s.subrange(pos, pos + spec_enc_list(cs, idx).len()) == spec_enc_list(cs, idx),
        s[pos + spec_enc_list(cs, idx).len()] == ']',
    ensures
        spec_dec_list(s, pos) == Some(
            (cs.subrange(idx, cs.len() as int), pos + spec_enc_list(cs, idx).len() + 1),
        ),
    decreases cs.len() - idx, 2int,
{
    if idx + 1 < cs.len() {
        lemma_dec_list_more(cs, idx, s, pos);
    } else {
        lemma_dec_list_last(cs, idx, s, pos);
    }
}

/// The list read-back for the last record, closed by the bracket.
#[verifier::rlimit(100)]
#[verifier::spinoff_prover]
proof fn lemma_dec_list_last(cs: Seq<StyledChar>, idx: int, s: Seq<char>, pos: int)
    requires
        0 <= idx < cs.len(),
        idx + 1 == cs.len(),
        forall|k: int| 0 <= k < cs.len() ==> (#[trigger] cs[k]).style.wf(),
        0 <= pos,
        pos + spec_enc_list(cs, idx).len() < s.len(),
        s.subrange(pos, pos + spec_enc_list(cs, idx).len()) == spec_enc_list(cs, idx),
        s[pos + spec_enc_list(cs, idx).len()] == ']',
    ensures
        spec_dec_list(s, pos) == Some(
            (cs.subrange(idx, cs.len() as int), pos + spec_enc_list(cs, idx).len() + 1),
        ),
    decreases cs.len() - idx, 1int,
{
    reveal_strlit("(");
    let el = spec_enc_list(cs, idx);
    let esc = spec_enc_styled_char(cs[idx]);
    assert(spec_enc_list(cs, idx + 1) =~= Seq::<char>::empty());
    assert(el =~= esc);
    lemma_char_at(s, pos, esc);
    assert(esc[0] == '(');
    lemma_ws_at(s, pos);
    lemma_dec_styled_char_of_enc(cs[idx], s, pos);
    let p1 = pos + esc.len();
    assert(spec_dec_styled_char(s, pos) == Some((cs[idx], p1)));
    assert(s[p1] == ']');
    lemma_ws_at(s, p1);
    assert(spec_dec_list_tail(s, pos, cs[idx], p1) == Some((seq![cs[idx]], pos + el.len() + 1)));
    assert(seq![cs[idx]] =~= cs.subrange(idx, cs.len() as int));
}

/// The list read-back for a record followed by a comma and further records.
#[verifier::rlimit(100)]
#[verifier::spinoff_prover]
proof fn lemma_dec_list_more(cs: Seq<StyledChar>, idx: int, s: Seq<char>, pos: int)
    requires
        0 <= idx,
        idx + 1 < cs.len(),
        forall|k: int| 0 <= k < cs.len() ==> (#[trigger] cs[k]).style.wf(),
        0 <= pos,
        pos + spec_enc_list(cs, idx).len() < s.len(),
        s.subrange(pos, pos + spec_enc_list(cs, idx).len()) == spec_enc_list(cs, idx),
        s[pos + spec_enc_list(cs, idx).len()] == ']',
    ensures
        spec_dec_list(s, pos) == Some(
            (cs.subrange(idx, cs.len() as int), pos + spec_enc_list(cs, idx).len() + 1),
        ),
    decreases cs.len() - idx, 1int,
{
    reveal_strlit("(");
    reveal_strlit(",");
    let el = spec_enc_list(cs, idx);
    let esc = spec_enc_styled_char(cs[idx]);
    let rest = spec_enc_list(cs, idx + 1);
    lemma_subrange_split(s, pos, esc, ","@ + rest);
    let p1 = pos + esc.len();
    lemma_subrange_split(s, p1, ","@, rest);
    let p2 = p1 + 1;
    lemma_char_at(s, pos, esc);
    assert(esc[0] == '(');
    lemma_ws_at(s, pos);
    lemma_dec_styled_char_of_enc(cs[idx], s, pos);
    assert(spec_dec_styled_char(s, pos) == Some((cs[idx], p1)));
    lemma_char_at(s, p1, ","@);
    lemma_ws_at(s, p1);
    lemma_dec_list_of_enc(cs, idx + 1, s, p2);
    assert(spec_dec_list(s, p2) == Some(
        (cs.subrange(idx + 1, cs.len() as int), pos + el.len() + 1),
    ));
    assert(spec_dec_list_tail(s, pos, cs[idx], p1) == Some(
        (seq![cs[idx]] + cs.subrange(idx + 1, cs.len() as int), pos + el.len() + 1),
    ));
    assert(seq![cs[idx]] + cs.subrange(idx + 1, cs.len() as int) =~= cs.subrange(
        idx,
        cs.len() as int,
    ));
}

/// Law: the structured round trip is lossless. Decoding what the encoder
/// wrote for any well-formed document yields that document exactly, every
/// style field and the full dim ordinal included.
#[verifier::rlimit(100)]
pub proof fn lemma_structured_round_trip(cs: Seq<StyledChar>)
    requires
        forall|k: int| 0 <= k < cs.len() ==> (#[trigger] cs[k]).style.wf(),
    ensures
        spec_dec_doc(spec_enc_doc(cs)) == Some(cs),
{
    reveal_strlit("(");
    reveal_strlit("version");
    reveal_strlit(":");
    reveal_strlit(",");
    reveal_strlit("chars");
    reveal_strlit("[");
    reveal_strlit("]");
    reveal_strlit(")");
    reveal_strlit("StyledDocument");
    let s = spec_enc_doc(cs);
    let el = spec_enc_list(cs, 0);
    let dv = spec_dec(spec_format_version());
    crate::text::lemma_spec_dec_digits(spec_format_version());
    let r9 = "]"@ + ")"@;
    let r8 = el + r9;
    let r7 = "["@ + r8;
    let r6 = ":"@ + r7;
    let r5 = "chars"@ + r6;
    let r4 = ","@ + r5;
    let r3 = dv + r4;
    let r2 = ":"@ + r3;
    let r1 = "version"@ + r2;
    assert(s.subrange(0, s.len() as int) =~= s);
    lemma_subrange_split(s, 0, "("@, r1);
    let p1 = 1int;
    lemma_subrange_split(s, p1, "version"@, r2);
    let p2 = p1 + 7;
    lemma_subrange_split(s, p2, ":"@, r3);
    let p3 = p2 + 1;
    lemma_subrange_split(s, p3, dv, r4);
    let p4 = p3 + dv.len();
    lemma_subrange_split(s, p4, ","@, r5);
    let p5 = p4 + 1;
    lemma_subrange_split(s, p5, "chars"@, r6);
    let p6 = p5 + 5;
    lemma_subrange_split(s, p6, ":"@, r7);
    let p7 = p6 + 1;
    lemma_subrange_split(s, p7, "["@, r8);
    let p8 = p7 + 1;
    lemma_subrange_split(s, p8, el, r9);
    let p9 = p8 + el.len();
    lemma_subrange_split(s, p9, "]"@, ")"@);
    let p10 = p9 + 1;
    lemma_char_at(s, 0, "("@);
    lemma_ws_at(s, 0);
    lemma_kw_differs_at(s, 0, "StyledDocument"@, 0);
    lemma_tok_at(s, 0, "("@);
    lemma_char_at(s, p1, "version"@);
    lemma_tok_at(s, p1, "version"@);
    lemma_char_at(s, p2, ":"@);
    lemma_tok_at(s, p2, ":"@);
    lemma_char_at(s, p3, dv);
    lemma_char_at(s, p4, ","@);
    crate::text::lemma_read_back_dec(spec_format_version(), s, p3);
    lemma_ws_at(s, p3);
    assert(spec_dec_number(s, p3) == Some((spec_format_version(), p4)));
    lemma_tok_at(s, p4, ","@);
    assert(spec_dec_header(s) == Some(p5));
    lemma_char_at(s, p5, "chars"@);
    lemma_tok_at(s, p5, "chars"@);
    lemma_char_at(s, p6, ":"@);
    lemma_tok_at(s, p6, ":"@);
    lemma_char_at(s, p7, "["@);
    lemma_tok_at(s, p7, "["@);
    lemma_char_at(s, p9, "]"@);
    lemma_dec_list_of_enc(cs, 0, s, p8);
    assert(cs.subrange(0, cs.len() as int) =~= cs);
    lemma_char_at(s, p10, ")"@);
    lemma_ws_at(s, p10);
    lemma_kw_differs_at(s, p10, ","@, 0);
    lemma_tok_at(s, p10, ")"@);
    lemma_ws_at(s, p10 + 1);
    assert(p10 + 1 == s.len());
    assert(spec_dec_doc(s) == Some(cs));
}

} // verus!
