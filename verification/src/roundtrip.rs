//! The ANSI round trip: parsing what the style encoder emitted reproduces
//! the styled document, so re-encoding a parse result is semantically
//! lossless.

use vstd::prelude::*;

use crate::app::{CharStyle, StyledChar};
use crate::colors::{spec_bg_codes, spec_fg_codes, spec_join_codes, Color};
use crate::export::{spec_echo_body, spec_echo_command, spec_echo_escape_char, spec_style_codes,
    spec_style_escape};
use crate::import::{spec_apply_params, spec_has_prefix, spec_intro_len_at,
    spec_literal_escape_at, spec_parse_ansi, spec_parse_ansi_rec, spec_rfind, spec_scan_params,
    spec_sgr_step, spec_strip_echo_wrapper, spec_strip_payload, spec_trim, spec_trim_end_idx,
    ParseState};
use crate::text::{lemma_digits_end_run, lemma_first_at, lemma_read_back_dec, lemma_seq_split,
    lemma_spec_dec_digits, spec_dec, spec_is_space, spec_skip_ws};

verus! {

/// Characters that the shell encoder rewrites, plus the raw escape byte: a
/// document free of them survives the ANSI round trip verbatim.
pub open spec fn spec_echo_plain_char(c: char) -> bool {
    c != '"' && c != '\\' && c != '$' && c != '`' && c != '!' && c != '\x1b'
}

/// Documents in the ANSI parser's image whose characters the shell encoder
/// passes through unchanged: dim is at most level one and no character needs
/// shell escaping.
pub open spec fn spec_round_trippable(cs: Seq<StyledChar>) -> bool {
    forall|k: int| 0 <= k < cs.len() ==> (#[trigger] cs[k]).style.dim_level <= 1
        && spec_echo_plain_char(cs[k].ch)
}

/// Every style has at least its foreground code.
proof fn lemma_style_codes_nonempty(st: CharStyle)
    ensures
        spec_style_codes(st).len() >= 1,
{
    match st.fg {
        Color::Rgb(..) => {},
        Color::Indexed(..) => {},
        _ => {},
    }
}

/// One machine step on a foreground parameter list sets exactly the
/// foreground.
#[verifier::rlimit(100)]
proof fn lemma_step_fg(st: ParseState, c: Color, params: Seq<u32>, i: int)
    requires
        0 <= i,
        i + spec_fg_codes(c).len() <= params.len(),
        params.subrange(i, i + spec_fg_codes(c).len()) == spec_fg_codes(c),
    ensures
        spec_sgr_step(st, params, i) == (ParseState { fg: c, ..st }, spec_fg_codes(c).len() as int),
{
    let e = spec_fg_codes(c);
    assert forall|k: int| 0 <= k < e.len() implies params[i + k] == e[k] by {
        assert(params.subrange(i, i + e.len())[k] == params[i + k]);
    }
    lemma_first_at(params, i, e);
    match c {
        Color::Rgb(r, g, b) => {
            assert(params[i] == 38 && params[i + 1] == 2);
            assert(params[i + 2] == r as u32 && params[i + 3] == g as u32 && params[i + 4]
                == b as u32);
            assert(spec_sgr_step(st, params, i) == (ParseState { fg: c, ..st }, 5int));
        },
        Color::Indexed(n) => {
            assert(params[i] == 38 && params[i + 1] == 5 && params[i + 2] == n as u32);
            assert(spec_sgr_step(st, params, i) == (ParseState { fg: c, ..st }, 3int));
        },
        Color::Black => {
            assert(params[i] == 30);
            assert(spec_sgr_step(st, params, i) == (ParseState { fg: c, ..st }, 1int));
        },
        Color::Red => {
            assert(params[i] == 31);
            assert(spec_sgr_step(st, params, i) == (ParseState { fg: c, ..st }, 1int));
        },
        Color::Green => {
            assert(params[i] == 32);
            assert(spec_sgr_step(st, params, i) == (ParseState { fg: c, ..st }, 1int));
        },
        Color::Yellow => {
            assert(params[i] == 33);
            assert(spec_sgr_step(st, params, i) == (ParseState { fg: c, ..st }, 1int));
        },
        Color::Blue => {
            assert(params[i] == 34);
            assert(spec_sgr_step(st, params, i) == (ParseState { fg: c, ..st }, 1int));
        },
        Color::Magenta => {
            assert(params[i] == 35);
            assert(spec_sgr_step(st, params, i) == (ParseState { fg: c, ..st }, 1int));
        },
        Color::Cyan => {
            assert(params[i] == 36);
            assert(spec_sgr_step(st, params, i) == (ParseState { fg: c, ..st }, 1int));
        },
        Color::White => {
            assert(params[i] == 37);
            assert(spec_sgr_step(st, params, i) == (ParseState { fg: c, ..st }, 1int));
        },
        Color::DarkGray => {
            assert(params[i] == 90);
            assert(spec_sgr_step(st, params, i) == (ParseState { fg: c, ..st }, 1int));
        },
        Color::LightRed => {
            assert(params[i] == 91);
            assert(spec_sgr_step(st, params, i) == (ParseState { fg: c, ..st }, 1int));
        },
        Color::LightGreen => {
            assert(params[i] == 92);
            assert(spec_sgr_step(st, params, i) == (ParseState { fg: c, ..st }, 1int));
        },
        Color::LightYellow => {
            assert(params[i] == 93);
            assert(spec_sgr_step(st, params, i) == (ParseState { fg: c, ..st }, 1int));
        },
        Color::LightBlue => {
            assert(params[i] == 94);
            assert(spec_sgr_step(st, params, i) == (ParseState { fg: c, ..st }, 1int));
        },
        Color::LightMagenta => {
            assert(params[i] == 95);
            assert(spec_sgr_step(st, params, i) == (ParseState { fg: c, ..st }, 1int));
        },
        Color::LightCyan => {
            assert(params[i] == 96);
            assert(spec_sgr_step(st, params, i) == (ParseState { fg: c, ..st }, 1int));
        },
        Color::Gray => {
            assert(params[i] == 97);
            assert(spec_sgr_step(st, params, i) == (ParseState { fg: c, ..st }, 1int));
        },
        Color::Reset => {
            assert(params[i] == 39);
            assert(spec_sgr_step(st, params, i) == (ParseState { fg: c, ..st }, 1int));
        },
    }
}

/// One machine step on a background parameter list sets exactly the
/// background.
#[verifier::rlimit(100)]
proof fn lemma_step_bg(st: ParseState, c: Color, params: Seq<u32>, i: int)
    requires
        0 <= i,
        i + spec_bg_codes(c).len() <= params.len(),
        params.subrange(i, i + spec_bg_codes(c).len()) == spec_bg_codes(c),
    ensures
        spec_sgr_step(st, params, i) == (ParseState { bg: c, ..st }, spec_bg_codes(c).len() as int),
{
    let e = spec_bg_codes(c);
    assert forall|k: int| 0 <= k < e.len() implies params[i + k] == e[k] by {
        assert(params.subrange(i, i + e.len())[k] == params[i + k]);
    }
    lemma_first_at(params, i, e);
    match c {
        Color::Rgb(r, g, b) => {
            assert(params[i] == 48 && params[i + 1] == 2);
            assert(params[i + 2] == r as u32 && params[i + 3] == g as u32 && params[i + 4]
                == b as u32);
            assert(spec_sgr_step(st, params, i) == (ParseState { bg: c, ..st }, 5int));
        },
        Color::Indexed(n) => {
            assert(params[i] == 48 && params[i + 1] == 5 && params[i + 2] == n as u32);
            assert(spec_sgr_step(st, params, i) == (ParseState { bg: c, ..st }, 3int));
        },
        Color::Black => {
            assert(params[i] == 40);
            assert(spec_sgr_step(st, params, i) == (ParseState { bg: c, ..st }, 1int));
        },
        Color::Red => {
            assert(params[i] == 41);
            assert(spec_sgr_step(st, params, i) == (ParseState { bg: c, ..st }, 1int));
        },
        Color::Green => {
            assert(params[i] == 42);
            assert(spec_sgr_step(st, params, i) == (ParseState { bg: c, ..st }, 1int));
        },
        Color::Yellow => {
            assert(params[i] == 43);
            assert(spec_sgr_step(st, params, i) == (ParseState { bg: c, ..st }, 1int));
        },
        Color::Blue => {
            assert(params[i] == 44);
            assert(spec_sgr_step(st, params, i) == (ParseState { bg: c, ..st }, 1int));
        },
        Color::Magenta => {
            assert(params[i] == 45);
            assert(spec_sgr_step(st, params, i) == (ParseState { bg: c, ..st }, 1int));
        },
        Color::Cyan => {
            assert(params[i] == 46);
            assert(spec_sgr_step(st, params, i) == (ParseState { bg: c, ..st }, 1int));
        },
        Color::White => {
            assert(params[i] == 47);
            assert(spec_sgr_step(st, params, i) == (ParseState { bg: c, ..st }, 1int));
        },
        Color::DarkGray => {
            assert(params[i] == 100);
            assert(spec_sgr_step(st, params, i) == (ParseState { bg: c, ..st }, 1int));
        },
        Color::LightRed => {
            assert(params[i] == 101);
            assert(spec_sgr_step(st, params, i) == (ParseState { bg: c, ..st }, 1int));
        },
        Color::LightGreen => {
            assert(params[i] == 102);
            assert(spec_sgr_step(st, params, i) == (ParseState { bg: c, ..st }, 1int));
        },
        Color::LightYellow => {
            assert(params[i] == 103);
            assert(spec_sgr_step(st, params, i) == (ParseState { bg: c, ..st }, 1int));
        },
        Color::LightBlue => {
            assert(params[i] == 104);
            assert(spec_sgr_step(st, params, i) == (ParseState { bg: c, ..st }, 1int));
        },
        Color::LightMagenta => {
            assert(params[i] == 105);
            assert(spec_sgr_step(st, params, i) == (ParseState { bg: c, ..st }, 1int));
        },
        Color::LightCyan => {
            assert(params[i] == 106);
            assert(spec_sgr_step(st, params, i) == (ParseState { bg: c, ..st }, 1int));
        },
        Color::Gray => {
            assert(params[i] == 107);
            assert(spec_sgr_step(st, params, i) == (ParseState { bg: c, ..st }, 1int));
        },
        Color::Reset => {
            assert(params[i] == 49);
            assert(spec_sgr_step(st, params, i) == (ParseState { bg: c, ..st }, 1int));
        },
    }
}

/// Applying a reset followed by a style's full parameter set leaves the
/// machine exactly in that style, whatever the accumulator held before; this
/// is why each emitted escape sequence fully restates the style.
#[verifier::rlimit(100)]
proof fn lemma_apply_style_codes(st0: ParseState, sty: CharStyle)
    requires
        sty.dim_level <= 1,
    ensures
        spec_apply_params(st0, seq![0u32] + spec_style_codes(sty), 0).spec_snapshot() == sty,
{
    let fgc = spec_fg_codes(sty.fg);
    let bgc: Seq<u32> = if sty.bg == Color::Reset {
        Seq::empty()
    } else {
        spec_bg_codes(sty.bg)
    };
    let bo: Seq<u32> = if sty.bold {
        seq![1u32]
    } else {
        Seq::empty()
    };
    let it: Seq<u32> = if sty.italic {
        seq![3u32]
    } else {
        Seq::empty()
    };
    let un: Seq<u32> = if sty.underline {
        seq![4u32]
    } else {
        Seq::empty()
    };
    let sk: Seq<u32> = if sty.strikethrough {
        seq![9u32]
    } else {
        Seq::empty()
    };
    let dm: Seq<u32> = if 1 <= sty.dim_level <= 3 {
        seq![2u32]
    } else {
        Seq::empty()
    };
    let codes = spec_style_codes(sty);
    let params = seq![0u32] + codes;
    assert(params.subrange(0, params.len() as int) =~= params);
    lemma_seq_split(params, 0, seq![0u32], codes);
    let q1 = 1int;
    lemma_seq_split(params, q1, fgc, bgc + (bo + (it + (un + (sk + dm)))));
    let q2 = q1 + fgc.len();
    lemma_seq_split(params, q2, bgc, bo + (it + (un + (sk + dm))));
    let q3 = q2 + bgc.len();
    lemma_seq_split(params, q3, bo, it + (un + (sk + dm)));
    let q4 = q3 + bo.len();
    lemma_seq_split(params, q4, it, un + (sk + dm));
    let q5 = q4 + it.len();
    lemma_seq_split(params, q5, un, sk + dm);
    let q6 = q5 + un.len();
    lemma_seq_split(params, q6, sk, dm);
    let q7 = q6 + sk.len();
    let q8 = q7 + dm.len();
    assert(q8 == params.len());

    assert(params[0] == 0);
    let st1 = ParseState::spec_default();
    assert(spec_apply_params(st0, params, 0) == spec_apply_params(st1, params, q1));

    lemma_step_fg(st1, sty.fg, params, q1);
    let st2 = ParseState { fg: sty.fg, ..st1 };
    assert(spec_apply_params(st1, params, q1) == spec_apply_params(st2, params, q2));

    let st3 = if sty.bg == Color::Reset {
        st2
    } else {
        ParseState { bg: sty.bg, ..st2 }
    };
    if sty.bg == Color::Reset {
        assert(q3 == q2);
    } else {
        lemma_step_bg(st2, sty.bg, params, q2);
        assert(spec_apply_params(st2, params, q2) == spec_apply_params(st3, params, q3));
    }

    let st4 = if sty.bold {
        ParseState { bold: true, ..st3 }
    } else {
        st3
    };
    if sty.bold {
        lemma_first_at(params, q3, bo);
        assert(params[q3] == 1);
        assert(spec_apply_params(st3, params, q3) == spec_apply_params(st4, params, q4));
    } else {
        assert(q4 == q3);
    }

    let st5 = if sty.italic {
        ParseState { italic: true, ..st4 }
    } else {
        st4
    };
    if sty.italic {
        lemma_first_at(params, q4, it);
        assert(params[q4] == 3);
        assert(spec_apply_params(st4, params, q4) == spec_apply_params(st5, params, q5));
    } else {
        assert(q5 == q4);
    }

    let st6 = if sty.underline {
        ParseState { underline: true, ..st5 }
    } else {
        st5
    };
    if sty.underline {
        lemma_first_at(params, q5, un);
        assert(params[q5] == 4);
        assert(spec_apply_params(st5, params, q5) == spec_apply_params(st6, params, q6));
    } else {
        assert(q6 == q5);
    }

    let st7 = if sty.strikethrough {
        ParseState { strikethrough: true, ..st6 }
    } else {
        st6
    };
    if sty.strikethrough {
        lemma_first_at(params, q6, sk);
        assert(params[q6] == 9);
        assert(spec_apply_params(st6, params, q6) == spec_apply_params(st7, params, q7));
    } else {
        assert(q7 == q6);
    }

    let st8 = if 1 <= sty.dim_level {
        ParseState { dim: true, ..st7 }
    } else {
        st7
    };
    if 1 <= sty.dim_level {
        lemma_first_at(params, q7, dm);
        assert(params[q7] == 2);
        assert(spec_apply_params(st7, params, q7) == spec_apply_params(st8, params, q8));
    } else {
        assert(q8 == q7);
    }

    assert(spec_apply_params(st8, params, q8) == st8);
    assert(st8.spec_snapshot() == sty);
}

/// Within the parser's image, equal parameter sets mean equal styles: the
/// full restatement loses nothing.
proof fn lemma_style_codes_injective(a: CharStyle, b: CharStyle)
    requires
        a.dim_level <= 1,
        b.dim_level <= 1,
        spec_style_codes(a) == spec_style_codes(b),
    ensures
        a == b,
{
    let st0 = ParseState::spec_default();
    lemma_apply_style_codes(st0, a);
    lemma_apply_style_codes(st0, b);
}


/// A joined parameter list followed by the terminator scans back to exactly
/// those parameters.
#[verifier::rlimit(100)]
proof fn lemma_scan_joined(codes: Seq<u32>, s: Seq<char>, p: int)
    requires
        codes.len() >= 1,
        0 <= p,
        p + spec_join_codes(codes).len() + 1 <= s.len(),
        s.subrange(p, p + spec_join_codes(codes).len() + 1) == spec_join_codes(codes)
            + seq!['m'],
    ensures
        spec_scan_params(s, p) == Some((codes, p + spec_join_codes(codes).len() + 1)),
    decreases codes.len(),
{
    let jn = spec_join_codes(codes);
    let c0 = codes[0];
    let d0 = spec_dec(c0 as nat);
    lemma_spec_dec_digits(c0 as nat);
    if codes.len() == 1 {
        assert(jn == d0);
        lemma_seq_split(s, p, d0, seq!['m']);
        let k = p + d0.len();
        lemma_first_at(s, k, seq!['m']);
        lemma_read_back_dec(c0 as nat, s, p);
        assert(spec_scan_params(s, p) == Some((seq![c0], k + 1)));
        assert(seq![c0] =~= codes);
    } else {
        let rest = codes.drop_first();
        let jr = spec_join_codes(rest);
        assert(jn + seq!['m'] =~= d0 + (seq![';'] + (jr + seq!['m'])));
        lemma_seq_split(s, p, d0, seq![';'] + (jr + seq!['m']));
        let k = p + d0.len();
        lemma_seq_split(s, k, seq![';'], jr + seq!['m']);
        lemma_first_at(s, k, seq![';']);
        lemma_read_back_dec(c0 as nat, s, p);
        lemma_scan_joined(rest, s, k + 1);
        assert(spec_scan_params(s, p) == Some((seq![c0] + rest, p + jn.len() + 1)));
        assert(seq![c0] + rest =~= codes);
    }
}

/// An emitted escape sequence parses as the literal `\033[` introducer
/// followed by a reset and the style's full parameter set.
#[verifier::rlimit(100)]
proof fn lemma_parse_style_escape(sty: CharStyle, s: Seq<char>, p: int)
    requires
        0 <= p,
        p + spec_style_escape(sty).len() <= s.len(),
        s.subrange(p, p + spec_style_escape(sty).len()) == spec_style_escape(sty),
    ensures
        spec_intro_len_at(s, p) == 5,
        spec_scan_params(s, p + 5) == Some(
            (seq![0u32] + spec_style_codes(sty), p + spec_style_escape(sty).len()),
        ),
{
    let codes = spec_style_codes(sty);
    let jn = spec_join_codes(codes);
    lemma_style_codes_nonempty(sty);
    let head = seq!['\\', '0', '3', '3', '[', '0', ';'];
    lemma_seq_split(s, p, head, jn + seq!['m']);
    assert forall|k: int| 0 <= k < 7 implies s[p + k] == head[k] by {
        assert(s.subrange(p, p + 7)[k] == s[p + k]);
    }
    assert(s[p] == '\\' && s[p + 1] == '0' && s[p + 2] == '3' && s[p + 3] == '3' && s[p + 4]
        == '[' && s[p + 5] == '0' && s[p + 6] == ';');
    assert(spec_intro_len_at(s, p) == 5);
    lemma_digits_end_run(s, p + 5, p + 6);
    assert(s.subrange(p + 5, p + 6) =~= spec_dec(0));
    lemma_read_back_dec(0, s, p + 5);
    lemma_scan_joined(codes, s, p + 7);
    assert(spec_scan_params(s, p + 5) == Some((seq![0u32] + codes, p + 7 + jn.len() + 1)));
}

/// A character the encoder passed through (or wrote as a two-character
/// literal escape) parses back as one character stamped with the current
/// accumulator.
proof fn lemma_parse_plain_char(c: char, s: Seq<char>, q: int, st: ParseState)
    requires
        spec_echo_plain_char(c),
        0 <= q,
        q + spec_echo_escape_char(c).len() <= s.len(),
        s.subrange(q, q + spec_echo_escape_char(c).len()) == spec_echo_escape_char(c),
    ensures
        spec_parse_ansi_rec(s, q, st) == (match spec_parse_ansi_rec(
            s,
            q + spec_echo_escape_char(c).len(),
            st,
        ) {
            None => None::<Seq<StyledChar>>,
            Some(t) => Some(seq![StyledChar { ch: c, style: st.spec_snapshot() }] + t),
        }),
{
    let e = spec_echo_escape_char(c);
    lemma_first_at(s, q, e);
    if c == '\n' {
        assert(s.subrange(q, q + 2)[1] == s[q + 1]);
        assert(s[q] == '\\' && s[q + 1] == 'n');
        assert(spec_intro_len_at(s, q) == 0);
        assert(spec_literal_escape_at(s, q) == Some('\n'));
    } else {
        assert(s[q] == c);
        assert(spec_intro_len_at(s, q) == 0);
        assert(spec_literal_escape_at(s, q) is None);
    }
}

/// The trailing reset at the end of every non-empty command parses to no
/// output, ending the input.
proof fn lemma_parse_trailing_reset(s: Seq<char>, pos: int, st: ParseState)
    requires
        0 <= pos,
        s.len() == pos + 7,
        s.subrange(pos, pos + 7) == seq!['\\', '0', '3', '3', '[', '0', 'm'],
    ensures
        spec_parse_ansi_rec(s, pos, st) == Some(Seq::<StyledChar>::empty()),
{
    assert forall|k: int| 0 <= k < 7 implies s[pos + k] == seq![
        '\\',
        '0',
        '3',
        '3',
        '[',
        '0',
        'm',
    ][k] by {
        assert(s.subrange(pos, pos + 7)[k] == s[pos + k]);
    }
    assert(s[pos] == '\\' && s[pos + 1] == '0' && s[pos + 2] == '3' && s[pos + 3] == '3' && s[pos
        + 4] == '[' && s[pos + 5] == '0' && s[pos + 6] == 'm');
    assert(spec_intro_len_at(s, pos) == 5);
    lemma_digits_end_run(s, pos + 5, pos + 6);
    assert(s.subrange(pos + 5, pos + 6) =~= spec_dec(0));
    lemma_read_back_dec(0, s, pos + 5);
    assert(spec_scan_params(s, pos + 5) == Some((seq![0u32], pos + 7)));
    assert(spec_parse_ansi_rec(s, pos + 7, spec_apply_params(st, seq![0u32], 0)) == Some(
        Seq::<StyledChar>::empty(),
    ));
}

/// Trimming changes nothing when the ends are not whitespace.
proof fn lemma_trim_id(s: Seq<char>)
    requires
        s.len() > 0,
        !spec_is_space(s[0]),
        !spec_is_space(s[s.len() - 1]),
    ensures
        spec_trim(s) == s,
{
    assert(spec_skip_ws(s, 0) == 0);
    assert(spec_trim_end_idx(s, s.len() as int) == s.len() as int);
    assert(s.subrange(0, s.len() as int) =~= s);
}

/// Stripping the wrapper from an emitted command yields the encoded payload
/// with its trailing reset: the last quote of the command is its final
/// character.
#[verifier::rlimit(100)]
proof fn lemma_strip_echo_command(cs: Seq<StyledChar>)
    requires
        cs.len() > 0,
    ensures
        spec_strip_echo_wrapper(spec_echo_command(cs)) == spec_echo_body(cs, 0, Seq::empty())
            + seq!['\\', '0', '3', '3', '[', '0', 'm'],
{
    reveal_strlit("echo -e \"");
    let body = spec_echo_body(cs, 0, Seq::<u32>::empty());
    let cmd = spec_echo_command(cs);
    let head = seq!['e', 'c', 'h', 'o', ' ', '-', 'e', ' ', '"'];
    let tail8 = seq!['\\', '0', '3', '3', '[', '0', 'm', '"'];
    assert(cmd.subrange(0, cmd.len() as int) =~= cmd);
    lemma_seq_split(cmd, 0, head, body + tail8);
    lemma_seq_split(cmd, 9, body, tail8);
    lemma_first_at(cmd, 0, head);
    assert(cmd.subrange(9 + body.len() as int, cmd.len() as int)[7] == cmd[9 + body.len() as int + 7]);
    assert(cmd[cmd.len() - 1] == '"');
    lemma_trim_id(cmd);
    assert(head =~= "echo -e \""@);
    assert(spec_has_prefix(cmd, "echo -e \""@));
    assert(spec_rfind(cmd, cmd.len() as int, '"') == cmd.len() - 1);
    assert(cmd.subrange(9, cmd.len() - 1) =~= body + seq!['\\', '0', '3', '3', '[', '0', 'm']);
}

/// Stripping the wrapper from the empty command yields the empty payload.
proof fn lemma_strip_empty_command()
    ensures
        spec_strip_echo_wrapper(spec_echo_command(Seq::<StyledChar>::empty())) == Seq::<
            char,
        >::empty(),
{
    reveal_strlit("echo -e \"");
    let cmd = spec_echo_command(Seq::<StyledChar>::empty());
    assert(cmd[0] == 'e' && cmd[9] == '"');
    lemma_trim_id(cmd);
    assert(cmd.subrange(0, 9) =~= "echo -e \""@);
    assert(spec_has_prefix(cmd, "echo -e \""@));
    assert(spec_rfind(cmd, 10, '"') == 9);
    assert(cmd.subrange(9, 9) =~= Seq::<char>::empty());
}


/// Parsing the encoded payload from position `pos` reproduces the remaining
/// document; `cur` names the style whose parameter set was emitted last.
#[verifier::rlimit(100)]
#[verifier::spinoff_prover]
proof fn lemma_parse_echo_body(
    cs: Seq<StyledChar>,
    i: int,
    s: Seq<char>,
    pos: int,
    prev: Seq<u32>,
    st: ParseState,
    cur: CharStyle,
)
    requires
        spec_round_trippable(cs),
        0 <= i <= cs.len(),
        0 <= pos,
        s.len() == pos + spec_echo_body(cs, i, prev).len() + 7,
        s.subrange(pos, s.len() as int) == spec_echo_body(cs, i, prev) + seq![
            '\\',
            '0',
            '3',
            '3',
            '[',
            '0',
            'm',
        ],
        (i == 0 && prev == Seq::<u32>::empty()) || (prev == spec_style_codes(cur)
            && st.spec_snapshot() == cur && cur.dim_level <= 1),
    ensures
        spec_parse_ansi_rec(s, pos, st) == Some(cs.subrange(i, cs.len() as int)),
    decreases cs.len() - i,
{
    let tail7 = seq!['\\', '0', '3', '3', '[', '0', 'm'];
    if i == cs.len() {
        assert(spec_echo_body(cs, i, prev) =~= Seq::<char>::empty());
        assert(s.subrange(pos, pos + 7) =~= tail7) by {
            assert forall|k: int| 0 <= k < 7 implies s.subrange(pos, pos + 7)[k] == tail7[k] by {
                assert(s.subrange(pos, s.len() as int)[k] == s[pos + k]);
                assert(s.subrange(pos, pos + 7)[k] == s[pos + k]);
            }
        }
        lemma_parse_trailing_reset(s, pos, st);
        assert(cs.subrange(i, cs.len() as int) =~= Seq::<StyledChar>::empty());
    } else {
        let codes = spec_style_codes(cs[i].style);
        let c = cs[i].ch;
        let ech = spec_echo_escape_char(c);
        let emitted: Seq<char> = if codes == prev {
            Seq::empty()
        } else {
            spec_style_escape(cs[i].style)
        };
        let restbody = spec_echo_body(cs, i + 1, codes);
        assert(spec_echo_body(cs, i, prev) + tail7 =~= emitted + (ech + (restbody + tail7)));
        lemma_seq_split(s, pos, emitted, ech + (restbody + tail7));
        let q = pos + emitted.len();
        lemma_seq_split(s, q, ech, restbody + tail7);
        let q2 = q + ech.len();
        assert(s.subrange(q2, s.len() as int) == restbody + tail7);
        if codes == prev {
            lemma_style_codes_nonempty(cs[i].style);
            assert(prev == spec_style_codes(cur) && st.spec_snapshot() == cur && cur.dim_level
                <= 1);
            lemma_style_codes_injective(cur, cs[i].style);
            lemma_parse_plain_char(c, s, q, st);
            lemma_parse_echo_body(cs, i + 1, s, q2, codes, st, cs[i].style);
            assert(pos == q);
            assert(seq![StyledChar { ch: c, style: st.spec_snapshot() }] + cs.subrange(
                i + 1,
                cs.len() as int,
            ) =~= cs.subrange(i, cs.len() as int));
        } else {
            lemma_parse_style_escape(cs[i].style, s, pos);
            let st2 = spec_apply_params(st, seq![0u32] + codes, 0);
            lemma_apply_style_codes(st, cs[i].style);
            assert(st2.spec_snapshot() == cs[i].style);
            lemma_parse_plain_char(c, s, q, st2);
            lemma_parse_echo_body(cs, i + 1, s, q2, codes, st2, cs[i].style);
            assert(spec_parse_ansi_rec(s, pos, st) == spec_parse_ansi_rec(s, q, st2));
            assert(seq![StyledChar { ch: c, style: st2.spec_snapshot() }] + cs.subrange(
                i + 1,
                cs.len() as int,
            ) =~= cs.subrange(i, cs.len() as int));
        }
    }
}

/// Law: the ANSI round trip is semantically lossless. For any document in
/// the parser's image whose characters need no shell escaping, parsing the
/// stripped re-encoded command reproduces the document exactly; characters
/// the encoder rewrites for the shell (quote, backslash, dollar, backtick,
/// exclamation mark) and dim levels above one are excluded, as re-parsing
/// recovers neither.
pub proof fn lemma_ansi_round_trip(cs: Seq<StyledChar>)
    requires
        spec_round_trippable(cs),
    ensures
        spec_parse_ansi(spec_strip_echo_wrapper(spec_echo_command(cs))) == Some(cs),
{
    if cs.len() == 0 {
        lemma_strip_empty_command();
        assert(cs =~= Seq::<StyledChar>::empty());
    } else {
        lemma_strip_echo_command(cs);
        let s = spec_echo_body(cs, 0, Seq::<u32>::empty()) + seq![
            '\\',
            '0',
            '3',
            '3',
            '[',
            '0',
            'm',
        ];
        assert(s.subrange(0, s.len() as int) =~= s);
        lemma_parse_echo_body(
            cs,
            0,
            s,
            0,
            Seq::empty(),
            ParseState::spec_default(),
            CharStyle::spec_default(),
        );
        assert(cs.subrange(0, cs.len() as int) =~= cs);
    }
}

/// A bounded-dim head keeps a bounded-dim tail bounded.
proof fn lemma_cons_dim(head: StyledChar, t: Seq<StyledChar>)
    requires
        head.style.dim_level <= 1,
        forall|k: int| 0 <= k < t.len() ==> (#[trigger] t[k]).style.dim_level <= 1,
    ensures
        forall|k: int| 0 <= k < (seq![head] + t).len() ==> (#[trigger] (seq![head]
            + t)[k]).style.dim_level <= 1,
{
    assert forall|k: int| 0 <= k < (seq![head] + t).len() implies (#[trigger] (seq![head]
        + t)[k]).style.dim_level <= 1 by {
        if k > 0 {
            assert((seq![head] + t)[k] == t[k - 1]);
        } else {
            assert((seq![head] + t)[0] == head);
        }
    }
}

/// Every style the parser stamps has dim level zero or one.
proof fn lemma_parse_dim_bounded(s: Seq<char>, i: int, st: ParseState)
    ensures
        match spec_parse_ansi_rec(s, i, st) {
            Some(t) => forall|k: int| 0 <= k < t.len() ==> (#[trigger] t[k]).style.dim_level <= 1,
            None => true,
        },
    decreases s.len() - i,
{
    if 0 <= i < s.len() {
        let il = spec_intro_len_at(s, i);
        if il > 0 {
            match spec_scan_params(s, i + il) {
                None => {},
                Some(pr) => {
                    let st2 = if pr.0.len() == 0 {
                        ParseState::spec_default()
                    } else {
                        spec_apply_params(st, pr.0, 0)
                    };
                    if pr.1 <= i || pr.1 > s.len() {
                    } else {
                        lemma_parse_dim_bounded(s, pr.1, st2);
                    }
                },
            }
        } else if spec_literal_escape_at(s, i) is Some {
            lemma_parse_dim_bounded(s, i + 2, st);
            match spec_parse_ansi_rec(s, i + 2, st) {
                Some(t) => {
                    let head = StyledChar {
                        ch: spec_literal_escape_at(s, i)->Some_0,
                        style: st.spec_snapshot(),
                    };
                    lemma_cons_dim(head, t);
                    assert(spec_parse_ansi_rec(s, i, st) == Some(seq![head] + t));
                },
                None => {},
            }
        } else if s[i] == '\x1b' {
        } else {
            lemma_parse_dim_bounded(s, i + 1, st);
            match spec_parse_ansi_rec(s, i + 1, st) {
                Some(t) => {
                    let head = StyledChar { ch: s[i], style: st.spec_snapshot() };
                    lemma_cons_dim(head, t);
                    assert(spec_parse_ansi_rec(s, i, st) == Some(seq![head] + t));
                },
                None => {},
            }
        }
    }
}

/// Law: re-encoding a parse result is semantically idempotent. Whenever a
/// parse succeeds and none of the parsed characters needs shell escaping,
/// encoding the result and parsing the stripped command again yields the
/// same styled characters.
pub proof fn lemma_reencode_preserves_parse(input: Seq<char>, cs: Seq<StyledChar>)
    requires
        spec_parse_ansi(input) == Some(cs),
        forall|k: int| 0 <= k < cs.len() ==> spec_echo_plain_char((#[trigger] cs[k]).ch),
    ensures
        spec_parse_ansi(spec_strip_echo_wrapper(spec_echo_command(cs))) == Some(cs),
{
    lemma_parse_dim_bounded(input, 0, ParseState::spec_default());
    lemma_ansi_round_trip(cs);
}

} // verus!
