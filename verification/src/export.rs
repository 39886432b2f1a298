//! The ANSI style encoder: renders a styled document as a single
//! shell-safe `echo -e "..."` command, emitting a full escape sequence only
//! where the style changes between neighbouring characters.

use vstd::prelude::*;

use crate::app::{CharStyle, StyledChar};
use crate::colors::{push_bg_codes, push_fg_codes, push_joined_codes, spec_bg_codes, spec_fg_codes,
    spec_join_codes, Color};
use crate::text::{chars_to_string, vec_u32_eq};

verus! {

/// The full SGR parameter set of a style: the foreground code, the
/// background code unless it is the default, and one code per set
/// decoration, with dim shared by all three dim levels.
pub open spec fn spec_style_codes(st: CharStyle) -> Seq<u32> {
    spec_fg_codes(st.fg) + ((if st.bg == Color::Reset {
        Seq::<u32>::empty()
    } else {
        spec_bg_codes(st.bg)
    }) + ((if st.bold {
        seq![1u32]
    } else {
        Seq::<u32>::empty()
    }) + ((if st.italic {
        seq![3u32]
    } else {
        Seq::<u32>::empty()
    }) + ((if st.underline {
        seq![4u32]
    } else {
        Seq::<u32>::empty()
    }) + ((if st.strikethrough {
        seq![9u32]
    } else {
        Seq::<u32>::empty()
    }) + (if 1 <= st.dim_level <= 3 {
        seq![2u32]
    } else {
        Seq::<u32>::empty()
    }))))))
}

/// The escape sequence restating a style in full: a reset followed by the
/// style's whole parameter set.
pub open spec fn spec_style_escape(st: CharStyle) -> Seq<char> {
    seq!['\\', '0', '3', '3', '[', '0', ';'] + (spec_join_codes(spec_style_codes(st)) + seq!['m'])
}

/// A character escaped for embedding in a double-quoted shell string.
pub open spec fn spec_echo_escape_char(c: char) -> Seq<char> {
    if c == '\n' { seq!['\\', 'n'] }
    else if c == '"' { seq!['\\', '"'] }
    else if c == '\\' { seq!['\\', '\\'] }
    else if c == '$' { seq!['\\', '$'] }
    else if c == '`' { seq!['\\', '`'] }
    else if c == '!' { seq!['\\', '!'] }
    else { seq![c] }
}

/// The encoded payload for `text[i..]`, given the parameter set `prev` last
/// emitted: each character is preceded by its style's escape sequence only
/// when its parameter set differs from the previous character's.
pub open spec fn spec_echo_body(text: Seq<StyledChar>, i: int, prev: Seq<u32>) -> Seq<char>
    decreases text.len() - i,
{
    if 0 <= i < text.len() {
        let codes = spec_style_codes(text[i].style);
        (if codes == prev {
            Seq::<char>::empty()
        } else {
            spec_style_escape(text[i].style)
        }) + (spec_echo_escape_char(text[i].ch) + spec_echo_body(text, i + 1, codes))
    } else {
        Seq::<char>::empty()
    }
}

/// The complete echo command for a document: the quoted encoded payload with
/// a trailing reset, or `echo -e ""` for an empty document.
pub open spec fn spec_echo_command(text: Seq<StyledChar>) -> Seq<char> {
    if text.len() == 0 {
        seq!['e', 'c', 'h', 'o', ' ', '-', 'e', ' ', '"', '"']
    } else {
        seq!['e', 'c', 'h', 'o', ' ', '-', 'e', ' ', '"'] + (spec_echo_body(text, 0, Seq::empty())
            + seq!['\\', '0', '3', '3', '[', '0', 'm', '"'])
    }
}

/// The SGR parameter set of one style, as the encoder computes it.
fn style_codes(st: &CharStyle) -> (v: Vec<u32>)
    ensures
        v@ == spec_style_codes(*st),
{
    let mut v: Vec<u32> = Vec::new();
    push_fg_codes(&mut v, st.fg);
    if !(st.bg == Color::Reset) {
        push_bg_codes(&mut v, st.bg);
    }
    if st.bold {
        v.push(1);
    }
    if st.italic {
        v.push(3);
    }
    if st.underline {
        v.push(4);
    }
    if st.strikethrough {
        v.push(9);
    }
    if 1 <= st.dim_level && st.dim_level <= 3 {
        v.push(2);
    }
    proof {
        assert(v@ =~= spec_style_codes(*st));
    }
    v
}

/// Append a character escaped for a double-quoted shell string.
fn push_escaped_char(out: &mut Vec<char>, c: char)
    ensures
        final(out)@ == old(out)@ + spec_echo_escape_char(c),
{
    if c == '\n' {
        out.push('\\');
        out.push('n');
    } else if c == '"' {
        out.push('\\');
        out.push('"');
    } else if c == '\\' {
        out.push('\\');
        out.push('\\');
    } else if c == '$' {
        out.push('\\');
        out.push('$');
    } else if c == '`' {
        out.push('\\');
        out.push('`');
    } else if c == '!' {
        out.push('\\');
        out.push('!');
    } else {
        out.push(c);
    }
    proof {
        assert(out@ =~= old(out)@ + spec_echo_escape_char(c));
    }
}

/// Generate an echo command with ANSI escape codes for the styled text.
#[verifier::loop_isolation(false)]
#[verifier::rlimit(100)]
pub fn generate_echo_command(text: &Vec<StyledChar>) -> (r: String)
    ensures
        r@ == spec_echo_command(text@),
{
    if text.len() == 0 {
        let mut out: Vec<char> = Vec::new();
        out.push('e');
        out.push('c');
        out.push('h');
        out.push('o');
        out.push(' ');
        out.push('-');
        out.push('e');
        out.push(' ');
        out.push('"');
        out.push('"');
        proof {
            assert(out@ =~= spec_echo_command(text@));
        }
        return chars_to_string(&out);
    }
    let mut out: Vec<char> = Vec::new();
    out.push('e');
    out.push('c');
    out.push('h');
    out.push('o');
    out.push(' ');
    out.push('-');
    out.push('e');
    out.push(' ');
    out.push('"');
    let ghost prefix = out@;
    let mut prev: Vec<u32> = Vec::new();
    let ghost mut taken = Seq::<char>::empty();
    let mut i: usize = 0;
    while i < text.len()
        invariant
            i <= text.len(),
            out@ == prefix + taken,
            spec_echo_body(text@, 0, Seq::empty()) == taken + spec_echo_body(
                text@,
                i as int,
                prev@,
            ),
        decreases text.len() - i,
    {
        let ghost taken0 = taken;
        let ghost prev0 = prev@;
        let codes = style_codes(&text[i].style);
        if !vec_u32_eq(&codes, &prev) {
            out.push('\\');
            out.push('0');
            out.push('3');
            out.push('3');
            out.push('[');
            out.push('0');
            out.push(';');
            push_joined_codes(&mut out, &codes, 0);
            out.push('m');
            proof {
                assert(codes@.skip(0) =~= codes@);
                taken = taken + spec_style_escape(text@[i as int].style);
                assert(out@ =~= prefix + taken);
            }
        }
        push_escaped_char(&mut out, text[i].ch);
        proof {
            taken = taken + spec_echo_escape_char(text@[i as int].ch);
            assert(out@ =~= prefix + taken);
        }
        prev = codes;
        proof {
            let emitted = if spec_style_codes(text@[i as int].style) == prev0 {
                Seq::<char>::empty()
            } else {
                spec_style_escape(text@[i as int].style)
            };
            assert(taken =~= taken0 + (emitted + spec_echo_escape_char(text@[i as int].ch)));
            assert(spec_echo_body(text@, i as int, prev0) == (emitted + spec_echo_escape_char(
                text@[i as int].ch,
            )) + spec_echo_body(text@, i + 1, prev@));
            assert(taken0 + ((emitted + spec_echo_escape_char(text@[i as int].ch))
                + spec_echo_body(text@, i + 1, prev@)) =~= (taken0 + (emitted
                + spec_echo_escape_char(text@[i as int].ch))) + spec_echo_body(
                text@,
                i + 1,
                prev@,
            ));
        }
        i = i + 1;
    }
    out.push('\\');
    out.push('0');
    out.push('3');
    out.push('3');
    out.push('[');
    out.push('0');
    out.push('m');
    out.push('"');
    proof {
        assert(spec_echo_body(text@, text@.len() as int, prev@) =~= Seq::<char>::empty());
        assert(taken =~= spec_echo_body(text@, 0, Seq::empty()));
        assert(out@ =~= spec_echo_command(text@));
    }
    chars_to_string(&out)
}

} // verus!
