//! The ANSI import path: the escape grammar that tokenizes input into plain
//! characters, literal control escapes and SGR sequences, and the SGR state
//! machine that interprets parameter lists against a persistent style
//! accumulator.

use vstd::prelude::*;

use crate::app::{CharStyle, StyledChar};
use crate::colors::Color;
use crate::text::{is_digit, is_space, lemma_digits_end_bounds, lemma_sat_acc_bound, scan_number,
    spec_digits_end, spec_is_digit, spec_is_space, spec_sat_value, spec_skip_ws, str_to_chars};

verus! {

/// A failed parse of ANSI input; the document is left untouched.
#[derive(Clone, Copy, Debug, PartialEq, Eq, Structural)]
pub enum ParseError {
    /// An escape introducer whose sequence is not a well-formed,
    /// `m`-terminated SGR parameter list.
    MalformedEscape { at: usize },
    /// A raw escape byte not followed by the control sequence introducer.
    StrayEscape { at: usize },
}

impl ParseError {
    /// A short description of the failure.
    pub fn describe(&self) -> &'static str {
        match self {
            ParseError::MalformedEscape { .. } => "malformed or unterminated escape sequence",
            ParseError::StrayEscape { .. } => "escape byte does not introduce an SGR sequence",
        }
    }
}

/// The style accumulator of the SGR state machine. Dim is tracked only as a
/// boolean while parsing; it snapshots to dim level 1.
#[derive(Clone, Copy, Debug, PartialEq, Eq, Structural)]
pub struct ParseState {
    pub fg: Color,
    pub bg: Color,
    pub bold: bool,
    pub italic: bool,
    pub underline: bool,
    pub strikethrough: bool,
    pub dim: bool,
}

impl ParseState {
    /// The accumulator at the start of input and after a reset code.
    pub open spec fn spec_default() -> ParseState {
        ParseState {
            fg: Color::Reset,
            bg: Color::Reset,
            bold: false,
            italic: false,
            underline: false,
            strikethrough: false,
            dim: false,
        }
    }

    /// The style stamped onto an emitted character.
    pub open spec fn spec_snapshot(self) -> CharStyle {
        CharStyle {
            fg: self.fg,
            bg: self.bg,
            bold: self.bold,
            italic: self.italic,
            underline: self.underline,
            strikethrough: self.strikethrough,
            dim_level: if self.dim { 1 as u8 } else { 0 as u8 },
        }
    }

    fn snapshot(&self) -> (r: CharStyle)
        ensures
            r == self.spec_snapshot(),
    {
        CharStyle {
            fg: self.fg,
            bg: self.bg,
            bold: self.bold,
            italic: self.italic,
            underline: self.underline,
            strikethrough: self.strikethrough,
            dim_level: if self.dim { 1 } else { 0 },
        }
    }
}

impl Default for ParseState {
    fn default() -> (r: Self)
        ensures
            r == ParseState::spec_default(),
    {
        ParseState {
            fg: Color::Reset,
            bg: Color::Reset,
            bold: false,
            italic: false,
            underline: false,
            strikethrough: false,
            dim: false,
        }
    }
}

/// The standard color selected by the low digit of codes 30-37 and 40-47.
pub open spec fn spec_std_color(d: u32) -> Color {
    if d == 0 { Color::Black }
    else if d == 1 { Color::Red }
    else if d == 2 { Color::Green }
    else if d == 3 { Color::Yellow }
    else if d == 4 { Color::Blue }
    else if d == 5 { Color::Magenta }
    else if d == 6 { Color::Cyan }
    else { Color::White }
}

/// The bright color selected by the low digit of codes 90-97 and 100-107.
pub open spec fn spec_bright_color(d: u32) -> Color {
    if d == 0 { Color::DarkGray }
    else if d == 1 { Color::LightRed }
    else if d == 2 { Color::LightGreen }
    else if d == 3 { Color::LightYellow }
    else if d == 4 { Color::LightBlue }
    else if d == 5 { Color::LightMagenta }
    else if d == 6 { Color::LightCyan }
    else { Color::Gray }
}

/// One step of the SGR state machine at parameter slot `i`: the new
/// accumulator and how many slots the code consumed. The extended color
/// codes 38 and 48 inspect up to four following slots; a short or unknown
/// extended form is ignored without error, and any other unknown code is
/// ignored too.
pub open spec fn spec_sgr_step(st: ParseState, params: Seq<u32>, i: int) -> (ParseState, int) {
    let p = params[i];
    if p == 0 { (ParseState::spec_default(), 1) }
    else if p == 1 { (ParseState { bold: true, ..st }, 1) }
    else if p == 2 { (ParseState { dim: true, ..st }, 1) }
    else if p == 3 { (ParseState { italic: true, ..st }, 1) }
    else if p == 4 { (ParseState { underline: true, ..st }, 1) }
    else if p == 9 { (ParseState { strikethrough: true, ..st }, 1) }
    else if p == 22 { (ParseState { bold: false, dim: false, ..st }, 1) }
    else if p == 23 { (ParseState { italic: false, ..st }, 1) }
    else if p == 24 { (ParseState { underline: false, ..st }, 1) }
    else if p == 29 { (ParseState { strikethrough: false, ..st }, 1) }
    else if 30 <= p <= 37 { (ParseState { fg: spec_std_color((p - 30) as u32), ..st }, 1) }
    else if p == 39 { (ParseState { fg: Color::Reset, ..st }, 1) }
    else if 40 <= p <= 47 { (ParseState { bg: spec_std_color((p - 40) as u32), ..st }, 1) }
    else if p == 49 { (ParseState { bg: Color::Reset, ..st }, 1) }
    else if 90 <= p <= 97 { (ParseState { fg: spec_bright_color((p - 90) as u32), ..st }, 1) }
    else if 100 <= p <= 107 { (ParseState { bg: spec_bright_color((p - 100) as u32), ..st }, 1) }
    else if p == 38 || p == 48 {
        if i + 1 >= params.len() {
            (st, 2)
        } else if params[i + 1] == 5 {
            if i + 2 < params.len() {
                let c = Color::Indexed((params[i + 2] % 256) as u8);
                if p == 38 {
                    (ParseState { fg: c, ..st }, 3)
                } else {
                    (ParseState { bg: c, ..st }, 3)
                }
            } else {
                (st, 3)
            }
        } else if params[i + 1] == 2 {
            if i + 4 < params.len() {
                let c = Color::Rgb(
                    (params[i + 2] % 256) as u8,
                    (params[i + 3] % 256) as u8,
                    (params[i + 4] % 256) as u8,
                );
                if p == 38 {
                    (ParseState { fg: c, ..st }, 5)
                } else {
                    (ParseState { bg: c, ..st }, 5)
                }
            } else {
                (st, 2)
            }
        } else {
            (st, 2)
        }
    }
    else { (st, 1) }
}

/// The accumulator after processing the parameter list from slot `i` on,
/// left to right, with multi-slot codes advancing the cursor by what they
/// consumed.
pub open spec fn spec_apply_params(st: ParseState, params: Seq<u32>, i: int) -> ParseState
    decreases params.len() - i,
{
    if 0 <= i < params.len() {
        let step = spec_sgr_step(st, params, i);
        let di = if step.1 < 1 { 1int } else { step.1 };
        let j = if i + di > params.len() { params.len() as int } else { i + di };
        spec_apply_params(step.0, params, j)
    } else {
        st
    }
}

fn std_color(d: u32) -> (c: Color)
    ensures
        c == spec_std_color(d),
{
    if d == 0 { Color::Black }
    else if d == 1 { Color::Red }
    else if d == 2 { Color::Green }
    else if d == 3 { Color::Yellow }
    else if d == 4 { Color::Blue }
    else if d == 5 { Color::Magenta }
    else if d == 6 { Color::Cyan }
    else { Color::White }
}

fn bright_color(d: u32) -> (c: Color)
    ensures
        c == spec_bright_color(d),
{
    if d == 0 { Color::DarkGray }
    else if d == 1 { Color::LightRed }
    else if d == 2 { Color::LightGreen }
    else if d == 3 { Color::LightYellow }
    else if d == 4 { Color::LightBlue }
    else if d == 5 { Color::LightMagenta }
    else if d == 6 { Color::LightCyan }
    else { Color::Gray }
}

/// One step of the SGR state machine.
fn sgr_step(st: &ParseState, params: &Vec<u32>, i: usize) -> (r: (ParseState, usize))
    requires
        i < params@.len(),
    ensures
        spec_sgr_step(*st, params@, i as int) == (r.0, r.1 as int),
        1 <= r.1 <= 5,
{
    let p = params[i];
    if p == 0 { (ParseState::default(), 1) }
    else if p == 1 { (ParseState { bold: true, ..*st }, 1) }
    else if p == 2 { (ParseState { dim: true, ..*st }, 1) }
    else if p == 3 { (ParseState { italic: true, ..*st }, 1) }
    else if p == 4 { (ParseState { underline: true, ..*st }, 1) }
    else if p == 9 { (ParseState { strikethrough: true, ..*st }, 1) }
    else if p == 22 { (ParseState { bold: false, dim: false, ..*st }, 1) }
    else if p == 23 { (ParseState { italic: false, ..*st }, 1) }
    else if p == 24 { (ParseState { underline: false, ..*st }, 1) }
    else if p == 29 { (ParseState { strikethrough: false, ..*st }, 1) }
    else if 30 <= p && p <= 37 { (ParseState { fg: std_color(p - 30), ..*st }, 1) }
    else if p == 39 { (ParseState { fg: Color::Reset, ..*st }, 1) }
    else if 40 <= p && p <= 47 { (ParseState { bg: std_color(p - 40), ..*st }, 1) }
    else if p == 49 { (ParseState { bg: Color::Reset, ..*st }, 1) }
    else if 90 <= p && p <= 97 { (ParseState { fg: bright_color(p - 90), ..*st }, 1) }
    else if 100 <= p && p <= 107 { (ParseState { bg: bright_color(p - 100), ..*st }, 1) }
    else if p == 38 || p == 48 {
        if params.len() - i <= 1 {
            (*st, 2)
        } else if params[i + 1] == 5 {
            if params.len() - i > 2 {
                let c = Color::Indexed((params[i + 2] % 256) as u8);
                if p == 38 {
                    (ParseState { fg: c, ..*st }, 3)
                } else {
                    (ParseState { bg: c, ..*st }, 3)
                }
            } else {
                (*st, 3)
            }
        } else if params[i + 1] == 2 {
            if params.len() - i > 4 {
                let c = Color::Rgb(
                    (params[i + 2] % 256) as u8,
                    (params[i + 3] % 256) as u8,
                    (params[i + 4] % 256) as u8,
                );
                if p == 38 {
                    (ParseState { fg: c, ..*st }, 5)
                } else {
                    (ParseState { bg: c, ..*st }, 5)
                }
            } else {
                (*st, 2)
            }
        } else {
            (*st, 2)
        }
    }
    else { (*st, 1) }
}

/// Process a whole parameter list against the accumulator.
#[verifier::loop_isolation(false)]
fn apply_params(st: &mut ParseState, params: &Vec<u32>)
    ensures
        *final(st) == spec_apply_params(*old(st), params@, 0),
{
    let mut i: usize = 0;
    while i < params.len()
        invariant
            i <= params.len(),
            spec_apply_params(*old(st), params@, 0) == spec_apply_params(*st, params@, i as int),
        decreases params.len() - i,
    {
        let ghost st0 = *st;
        let (st2, di) = sgr_step(st, params, i);
        *st = st2;
        proof {
            let step = spec_sgr_step(st0, params@, i as int);
            let sdi = if step.1 < 1 { 1int } else { step.1 };
            let j = if i + sdi > params@.len() { params@.len() as int } else { i + sdi };
            assert(sdi == di as int);
            assert(spec_apply_params(st0, params@, i as int) == spec_apply_params(
                st2,
                params@,
                j,
            ));
        }
        if di > params.len() - i {
            i = params.len();
        } else {
            i = i + di;
        }
    }
}

/// The length of the escape introducer at index `i`: one of the literal
/// spellings `\x1b[`, `\033[`, `\e[` (longest match first) or the raw escape
/// byte followed by `[`; zero when none of them starts here.
pub open spec fn spec_intro_len_at(s: Seq<char>, i: int) -> int {
    if i + 5 <= s.len() && s[i] == '\\' && s[i + 1] == 'x' && s[i + 2] == '1' && s[i + 3] == 'b'
        && s[i + 4] == '[' { 5 }
    else if i + 5 <= s.len() && s[i] == '\\' && s[i + 1] == '0' && s[i + 2] == '3' && s[i + 3]
        == '3' && s[i + 4] == '[' { 5 }
    else if i + 3 <= s.len() && s[i] == '\\' && s[i + 1] == 'e' && s[i + 2] == '[' { 3 }
    else if i + 2 <= s.len() && s[i] == '\x1b' && s[i + 1] == '[' { 2 }
    else { 0 }
}

/// The character denoted by a two-character literal escape at index `i`
/// (`\n`, `\t` or `\r` written as backslash-letter), if one starts here.
pub open spec fn spec_literal_escape_at(s: Seq<char>, i: int) -> Option<char> {
    if i + 2 <= s.len() && s[i] == '\\' && s[i + 1] == 'n' { Some('\n') }
    else if i + 2 <= s.len() && s[i] == '\\' && s[i + 1] == 't' { Some('\t') }
    else if i + 2 <= s.len() && s[i] == '\\' && s[i + 1] == 'r' { Some('\r') }
    else { None }
}

fn intro_len_at(s: &Vec<char>, i: usize) -> (n: usize)
    requires
        i <= s.len(),
    ensures
        n == spec_intro_len_at(s@, i as int),
        n > 0 ==> i + n <= s.len(),
{
    if s.len() >= 5 && i <= s.len() - 5 && s[i] == '\\' && s[i + 1] == 'x' && s[i + 2] == '1'
        && s[i + 3] == 'b' && s[i + 4] == '[' { 5 }
    else if s.len() >= 5 && i <= s.len() - 5 && s[i] == '\\' && s[i + 1] == '0' && s[i + 2] == '3'
        && s[i + 3] == '3' && s[i + 4] == '[' { 5 }
    else if s.len() >= 3 && i <= s.len() - 3 && s[i] == '\\' && s[i + 1] == 'e' && s[i + 2] == '[' {
        3
    }
    else if s.len() >= 2 && i <= s.len() - 2 && s[i] == '\x1b' && s[i + 1] == '[' { 2 }
    else { 0 }
}

/// The SGR parameter list starting at index `i` (just after an introducer):
/// either an immediate `m` (an empty list), or decimal runs separated by `;`
/// and terminated by `m`. The result carries the index just past the
/// terminator. Anything else, including a trailing or doubled separator and
/// an unterminated sequence, fails.
pub open spec fn spec_scan_params(s: Seq<char>, i: int) -> Option<(Seq<u32>, int)>
    decreases s.len() - i,
{
    if !(0 <= i < s.len()) { None }
    else if s[i] == 'm' { Some((Seq::empty(), i + 1)) }
    else if spec_is_digit(s[i]) {
        let k0 = spec_digits_end(s, i);
        let k = if k0 <= i { i + 1 } else { k0 };
        let v = spec_sat_value(s, i, k) as u32;
        if k < s.len() {
            if s[k] == 'm' { Some((seq![v], k + 1)) }
            else if s[k] == ';' {
                match spec_scan_params(s, k + 1) {
                    None => None,
                    Some(pr) => if pr.0.len() == 0 {
                        None
                    } else {
                        Some((seq![v] + pr.0, pr.1))
                    },
                }
            }
            else { None }
        } else {
            None
        }
    }
    else { None }
}

fn scan_params(s: &Vec<char>, i: usize) -> (r: Option<(Vec<u32>, usize)>)
    requires
        i <= s.len(),
    ensures
        match r {
            Some(pr) => spec_scan_params(s@, i as int) == Some((pr.0@, pr.1 as int)) && i < pr.1
                <= s.len(),
            None => spec_scan_params(s@, i as int) is None,
        },
    decreases s.len() - i,
{
    if i >= s.len() {
        return None;
    }
    if s[i] == 'm' {
        let ps: Vec<u32> = Vec::new();
        proof {
            assert(ps@ =~= Seq::<u32>::empty());
        }
        return Some((ps, i + 1));
    }
    if !is_digit(s[i]) {
        return None;
    }
    let (v, k) = scan_number(s, i);
    proof {
        lemma_digits_end_bounds(s@, i + 1);
        assert(spec_digits_end(s@, i as int) == spec_digits_end(s@, i + 1));
        lemma_sat_acc_bound(s@, i as int, k as int, 0);
    }
    if k >= s.len() {
        return None;
    }
    if s[k] == 'm' {
        let mut ps: Vec<u32> = Vec::new();
        ps.push(v);
        proof {
            assert(ps@ =~= seq![v]);
        }
        return Some((ps, k + 1));
    }
    if s[k] == ';' {
        match scan_params(s, k + 1) {
            None => None,
            Some((ps, end)) => {
                if ps.len() == 0 {
                    None
                } else {
                    let ghost ps0 = ps@;
                    let mut ps2 = ps;
                    ps2.insert(0, v);
                    proof {
                        assert(ps2@ =~= seq![v] + ps0);
                    }
                    Some((ps2, end))
                }
            },
        }
    } else {
        None
    }
}

/// The parse of `s[i..]` under accumulator `st`: `None` on a malformed or
/// unterminated escape sequence or a stray raw escape byte, otherwise the
/// styled characters, each plain or literal-escaped character stamped with a
/// snapshot of the accumulator at its position. An empty parameter list
/// resets the accumulator, exactly like code `0`; the accumulator persists
/// across every emitted character, including line breaks.
pub open spec fn spec_parse_ansi_rec(s: Seq<char>, i: int, st: ParseState) -> Option<
    Seq<StyledChar>,
>
    decreases s.len() - i,
{
    if !(0 <= i < s.len()) { Some(Seq::empty()) }
    else {
        let il = spec_intro_len_at(s, i);
        if il > 0 {
            match spec_scan_params(s, i + il) {
                None => None,
                Some(pr) => {
                    let st2 = if pr.0.len() == 0 {
                        ParseState::spec_default()
                    } else {
                        spec_apply_params(st, pr.0, 0)
                    };
                    if pr.1 <= i || pr.1 > s.len() {
                        None
                    } else {
                        spec_parse_ansi_rec(s, pr.1, st2)
                    }
                },
            }
        } else if spec_literal_escape_at(s, i) is Some {
            match spec_parse_ansi_rec(s, i + 2, st) {
                None => None,
                Some(t) => Some(
                    seq![
                        StyledChar {
                            ch: spec_literal_escape_at(s, i)->Some_0,
                            style: st.spec_snapshot(),
                        },
                    ] + t,
                ),
            }
        } else if s[i] == '\x1b' {
            None
        } else {
            match spec_parse_ansi_rec(s, i + 1, st) {
                None => None,
                Some(t) => Some(seq![StyledChar { ch: s[i], style: st.spec_snapshot() }] + t),
            }
        }
    }
}

/// The parse of a whole input from the default accumulator.
pub open spec fn spec_parse_ansi(s: Seq<char>) -> Option<Seq<StyledChar>> {
    spec_parse_ansi_rec(s, 0, ParseState::spec_default())
}

#[verifier::loop_isolation(false)]
fn parse_chars(s: &Vec<char>) -> (r: Result<Vec<StyledChar>, ParseError>)
    ensures
        match r {
            Ok(v) => spec_parse_ansi(s@) == Some(v@),
            Err(_) => spec_parse_ansi(s@) is None,
        },
{
    let mut out: Vec<StyledChar> = Vec::new();
    let mut st = ParseState::default();
    let mut i: usize = 0;
    proof {
        assert(out@ =~= Seq::<StyledChar>::empty());
    }
    while i < s.len()
        invariant
            i <= s.len(),
            match spec_parse_ansi_rec(s@, i as int, st) {
                Some(t) => spec_parse_ansi(s@) == Some(out@ + t),
                None => spec_parse_ansi(s@) is None,
            },
        decreases s.len() - i,
    {
        let il = intro_len_at(s, i);
        if il > 0 {
            match scan_params(s, i + il) {
                None => {
                    return Err(ParseError::MalformedEscape { at: i });
                },
                Some((ps, end)) => {
                    if ps.len() == 0 {
                        st = ParseState::default();
                    } else {
                        apply_params(&mut st, &ps);
                    }
                    i = end;
                },
            }
        } else if is_literal_escape_at(s, i) {
            let c = literal_escape_char(s, i);
            let ghost out0 = out@;
            let snap = st.snapshot();
            out.push(StyledChar { ch: c, style: snap });
            proof {
                step_cons(s@, i as int, st, out0, c);
            }
            i = i + 2;
        } else if s[i] == '\x1b' {
            return Err(ParseError::StrayEscape { at: i });
        } else {
            let c = s[i];
            let ghost out0 = out@;
            let snap = st.snapshot();
            out.push(StyledChar { ch: c, style: snap });
            proof {
                step_cons(s@, i as int, st, out0, c);
            }
            i = i + 1;
        }
    }
    Ok(out)
}

/// Appending the head character keeps the parse-composition invariant: the
/// accumulated output grows by the stamped character as the parse moves past
/// a plain or literal-escaped character.
proof fn step_cons(s: Seq<char>, i: int, st: ParseState, out0: Seq<StyledChar>, c: char)
    requires
        0 <= i < s.len(),
        spec_intro_len_at(s, i) == 0,
        ({
            ||| (spec_literal_escape_at(s, i) == Some(c))
            ||| (spec_literal_escape_at(s, i) is None && s[i] != '\x1b' && c == s[i])
        }),
        match spec_parse_ansi_rec(s, i, st) {
            Some(t) => spec_parse_ansi(s) == Some(out0 + t),
            None => spec_parse_ansi(s) is None,
        },
    ensures
        ({
            let j = if spec_literal_escape_at(s, i) is Some { i + 2 } else { i + 1 };
            match spec_parse_ansi_rec(s, j, st) {
                Some(t) => spec_parse_ansi(s) == Some(
                    out0.push(StyledChar { ch: c, style: st.spec_snapshot() }) + t,
                ),
                None => spec_parse_ansi(s) is None,
            }
        }),
{
    let j = if spec_literal_escape_at(s, i) is Some { i + 2 } else { i + 1 };
    let head = StyledChar { ch: c, style: st.spec_snapshot() };
    match spec_parse_ansi_rec(s, j, st) {
        Some(t) => {
            assert(spec_parse_ansi_rec(s, i, st) == Some(seq![head] + t));
            assert(out0 + (seq![head] + t) =~= out0.push(head) + t);
        },
        None => {
            assert(spec_parse_ansi_rec(s, i, st) is None);
        },
    }
}

fn is_literal_escape_at(s: &Vec<char>, i: usize) -> (r: bool)
    requires
        i < s.len(),
    ensures
        r == (spec_literal_escape_at(s@, i as int) is Some),
{
    s[i] == '\\' && i + 1 < s.len() && (s[i + 1] == 'n' || s[i + 1] == 't' || s[i + 1] == 'r')
}

fn literal_escape_char(s: &Vec<char>, i: usize) -> (c: char)
    requires
        i < s.len(),
        spec_literal_escape_at(s@, i as int) is Some,
    ensures
        spec_literal_escape_at(s@, i as int) == Some(c),
{
    if s[i + 1] == 'n' { '\n' } else if s[i + 1] == 't' { '\t' } else { '\r' }
}

/// The index before which trailing spaces start, scanning left from `j`.
pub open spec fn spec_trim_end_idx(s: Seq<char>, j: int) -> int
    decreases j,
{
    if 0 < j <= s.len() && spec_is_space(s[j - 1]) {
        spec_trim_end_idx(s, j - 1)
    } else {
        j
    }
}

/// The input with leading and trailing whitespace removed.
pub open spec fn spec_trim(s: Seq<char>) -> Seq<char> {
    let a = spec_skip_ws(s, 0);
    let b = spec_trim_end_idx(s, s.len() as int);
    if a >= b {
        Seq::empty()
    } else {
        s.subrange(a, b)
    }
}

/// Whether `p` is a prefix of `t`.
pub open spec fn spec_has_prefix(t: Seq<char>, p: Seq<char>) -> bool {
    p.len() <= t.len() && t.subrange(0, p.len() as int) == p
}

/// The last index strictly below `j` holding `c`, or -1 when there is none.
pub open spec fn spec_rfind(t: Seq<char>, j: int, c: char) -> int
    decreases j,
{
    if j <= 0 || j > t.len() {
        -1
    } else if t[j - 1] == c {
        j - 1
    } else {
        spec_rfind(t, j - 1, c)
    }
}

/// The payload cut out of a matched wrapper: the text between the prefix of
/// length `plen` and the last occurrence of the quote character, or the
/// whole original input when no closing quote follows the prefix.
pub open spec fn spec_strip_payload(t: Seq<char>, plen: int, q: char, orig: Seq<char>) -> Seq<
    char,
> {
    let k = spec_rfind(t, t.len() as int, q);
    if k >= plen {
        t.subrange(plen, k)
    } else {
        orig
    }
}

/// The result of stripping a recognized shell-invocation wrapper from the
/// trimmed input: the quoted payload of an `echo`/`printf` form, or the
/// original input unchanged when no wrapper is recognized. The closing-quote
/// search takes the last occurrence of the quote character and is not
/// escape-aware.
pub open spec fn spec_strip_echo_wrapper(s: Seq<char>) -> Seq<char> {
    let t = spec_trim(s);
    if spec_has_prefix(t, "echo -e \""@) { spec_strip_payload(t, 9, '"', s) }
    else if spec_has_prefix(t, "echo -e '"@) { spec_strip_payload(t, 9, '\'', s) }
    else if spec_has_prefix(t, "echo \""@) { spec_strip_payload(t, 6, '"', s) }
    else if spec_has_prefix(t, "echo '"@) { spec_strip_payload(t, 6, '\'', s) }
    else if spec_has_prefix(t, "printf \""@) { spec_strip_payload(t, 8, '"', s) }
    else if spec_has_prefix(t, "printf '"@) { spec_strip_payload(t, 8, '\'', s) }
    else if spec_has_prefix(t, "echo $'"@) { spec_strip_payload(t, 7, '\'', s) }
    else if spec_has_prefix(t, "echo -e $'"@) { spec_strip_payload(t, 10, '\'', s) }
    else { s }
}

/// Whether trimmed input looks like the structured document format: it
/// starts with an opening parenthesis or with the container's type name.
pub open spec fn spec_is_ron_format(s: Seq<char>) -> bool {
    let t = spec_trim(s);
    (t.len() > 0 && t[0] == '(') || spec_has_prefix(t, "StyledDocument"@)
}

/// The index where trailing spaces start.
fn trim_end_idx(s: &Vec<char>) -> (r: usize)
    ensures
        r == spec_trim_end_idx(s@, s@.len() as int),
        r <= s.len(),
{
    let mut j = s.len();
    while j > 0 && is_space(s[j - 1])
        invariant
            j <= s.len(),
            spec_trim_end_idx(s@, s@.len() as int) == spec_trim_end_idx(s@, j as int),
        decreases j,
    {
        j = j - 1;
    }
    j
}

/// The characters `t[a..b]`.
fn copy_range(t: &Vec<char>, a: usize, b: usize) -> (r: Vec<char>)
    requires
        a <= b <= t.len(),
    ensures
        r@ == t@.subrange(a as int, b as int),
{
    let mut r: Vec<char> = Vec::new();
    let mut i = a;
    while i < b
        invariant
            a <= i <= b <= t.len(),
            r@ == t@.subrange(a as int, i as int),
        decreases b - i,
    {
        r.push(t[i]);
        proof {
            assert(r@ =~= t@.subrange(a as int, i + 1));
        }
        i = i + 1;
    }
    r
}

/// The input trimmed of leading and trailing whitespace.
fn trim_chars(s: &Vec<char>) -> (t: Vec<char>)
    ensures
        t@ == spec_trim(s@),
{
    let a = crate::text::skip_ws(s, 0);
    let b = trim_end_idx(s);
    if a >= b {
        let t: Vec<char> = Vec::new();
        proof {
            assert(t@ =~= spec_trim(s@));
        }
        t
    } else {
        copy_range(s, a, b)
    }
}

/// Whether `p` is a prefix of `t`.
fn has_prefix(t: &Vec<char>, p: &Vec<char>) -> (b: bool)
    ensures
        b == spec_has_prefix(t@, p@),
{
    if p.len() > t.len() {
        return false;
    }
    let mut k: usize = 0;
    while k < p.len()
        invariant
            k <= p.len() <= t.len(),
            forall|m: int| 0 <= m < k ==> t@[m] == p@[m],
        decreases p.len() - k,
    {
        if t[k] != p[k] {
            proof {
                assert(t@.subrange(0, p@.len() as int)[k as int] == t@[k as int]);
            }
            return false;
        }
        k = k + 1;
    }
    proof {
        assert(t@.subrange(0, p@.len() as int) =~= p@);
    }
    true
}

/// The last index of `q` in `t`, if any.
fn rfind_char(t: &Vec<char>, q: char) -> (r: Option<usize>)
    ensures
        match r {
            Some(k) => spec_rfind(t@, t@.len() as int, q) == k as int && k < t.len(),
            None => spec_rfind(t@, t@.len() as int, q) == -1,
        },
{
    let mut j = t.len();
    while j > 0
        invariant
            j <= t.len(),
            spec_rfind(t@, t@.len() as int, q) == spec_rfind(t@, j as int, q),
        decreases j,
    {
        if t[j - 1] == q {
            return Some(j - 1);
        }
        j = j - 1;
    }
    None
}

/// The payload between the prefix and the last quote, or the original input.
fn strip_payload(t: &Vec<char>, plen: usize, q: char, input: &str) -> (r: String)
    requires
        plen <= t.len(),
    ensures
        r@ == spec_strip_payload(t@, plen as int, q, input@),
{
    match rfind_char(t, q) {
        Some(k) => {
            if k >= plen {
                let payload = copy_range(t, plen, k);
                crate::text::chars_to_string(&payload)
            } else {
                let chars = str_to_chars(input);
                crate::text::chars_to_string(&chars)
            }
        },
        None => {
            let chars = str_to_chars(input);
            crate::text::chars_to_string(&chars)
        },
    }
}

/// Detect a shell `echo`/`printf` wrapper and extract the content inside its
/// quotes; input without a recognized wrapper is returned unchanged.
pub fn strip_echo_wrapper(input: &str) -> (r: String)
    ensures
        r@ == spec_strip_echo_wrapper(input@),
{
    let chars = str_to_chars(input);
    let t = trim_chars(&chars);
    proof {
        reveal_strlit("echo -e \"");
        reveal_strlit("echo -e '");
        reveal_strlit("echo \"");
        reveal_strlit("echo '");
        reveal_strlit("printf \"");
        reveal_strlit("printf '");
        reveal_strlit("echo $'");
        reveal_strlit("echo -e $'");
    }
    if has_prefix(&t, &str_to_chars("echo -e \"")) {
        strip_payload(&t, 9, '"', input)
    } else if has_prefix(&t, &str_to_chars("echo -e '")) {
        strip_payload(&t, 9, '\'', input)
    } else if has_prefix(&t, &str_to_chars("echo \"")) {
        strip_payload(&t, 6, '"', input)
    } else if has_prefix(&t, &str_to_chars("echo '")) {
        strip_payload(&t, 6, '\'', input)
    } else if has_prefix(&t, &str_to_chars("printf \"")) {
        strip_payload(&t, 8, '"', input)
    } else if has_prefix(&t, &str_to_chars("printf '")) {
        strip_payload(&t, 8, '\'', input)
    } else if has_prefix(&t, &str_to_chars("echo $'")) {
        strip_payload(&t, 7, '\'', input)
    } else if has_prefix(&t, &str_to_chars("echo -e $'")) {
        strip_payload(&t, 10, '\'', input)
    } else {
        let whole = str_to_chars(input);
        crate::text::chars_to_string(&whole)
    }
}

/// Detect whether input is in the structured document format rather than
/// ANSI text.
pub fn is_ron_format(input: &str) -> (r: bool)
    ensures
        r == spec_is_ron_format(input@),
{
    let chars = str_to_chars(input);
    let t = trim_chars(&chars);
    proof {
        reveal_strlit("StyledDocument");
    }
    (t.len() > 0 && t[0] == '(') || has_prefix(&t, &str_to_chars("StyledDocument"))
}

/// Parse ANSI-styled text into styled characters. Succeeds on exactly the
/// inputs the escape grammar accepts, with no partial output on failure.
pub fn parse_ansi(input: &str) -> (r: Result<Vec<StyledChar>, ParseError>)
    ensures
        match r {
            Ok(v) => spec_parse_ansi(input@) == Some(v@),
            Err(_) => spec_parse_ansi(input@) is None,
        },
{
    let chars = str_to_chars(input);
    parse_chars(&chars)
}

} // verus!
