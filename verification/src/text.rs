//! Character-level text utilities shared by the transcoders: decimal
//! rendering and scanning over character sequences, and conversions between
//! `str`/`String` and `Vec<char>`.

use vstd::prelude::*;
use vstd::string::StrSliceExecFns;

verus! {

/// Decimal digit characters.
pub open spec fn spec_is_digit(c: char) -> bool {
    c == '0' || c == '1' || c == '2' || c == '3' || c == '4' || c == '5' || c == '6' || c == '7'
        || c == '8' || c == '9'
}

/// The numeric value of a decimal digit character; zero for any other
/// character.
pub open spec fn spec_digit_val(c: char) -> nat {
    if c == '1' { 1 } else if c == '2' { 2 } else if c == '3' { 3 } else if c == '4' { 4 }
    else if c == '5' { 5 } else if c == '6' { 6 } else if c == '7' { 7 } else if c == '8' { 8 }
    else if c == '9' { 9 } else { 0 }
}

/// The digit character for a value below ten.
pub open spec fn spec_digit_char(d: nat) -> char {
    if d == 0 { '0' } else if d == 1 { '1' } else if d == 2 { '2' } else if d == 3 { '3' }
    else if d == 4 { '4' } else if d == 5 { '5' } else if d == 6 { '6' } else if d == 7 { '7' }
    else if d == 8 { '8' } else { '9' }
}

/// The decimal rendering of a number, most significant digit first, with no
/// leading zeros (zero itself renders as `0`).
pub open spec fn spec_dec(n: nat) -> Seq<char>
    decreases n,
{
    if n < 10 {
        seq![spec_digit_char(n)]
    } else {
        spec_dec(n / 10).push(spec_digit_char(n % 10))
    }
}

pub fn is_digit(c: char) -> (b: bool)
    ensures
        b == spec_is_digit(c),
{
    c == '0' || c == '1' || c == '2' || c == '3' || c == '4' || c == '5' || c == '6' || c == '7'
        || c == '8' || c == '9'
}

pub fn digit_val(c: char) -> (d: u32)
    ensures
        d == spec_digit_val(c),
        d <= 9,
{
    if c == '1' { 1 } else if c == '2' { 2 } else if c == '3' { 3 } else if c == '4' { 4 }
    else if c == '5' { 5 } else if c == '6' { 6 } else if c == '7' { 7 } else if c == '8' { 8 }
    else if c == '9' { 9 } else { 0 }
}

fn digit_char(d: u32) -> (c: char)
    requires
        d <= 9,
    ensures
        c == spec_digit_char(d as nat),
{
    if d == 0 { '0' } else if d == 1 { '1' } else if d == 2 { '2' } else if d == 3 { '3' }
    else if d == 4 { '4' } else if d == 5 { '5' } else if d == 6 { '6' } else if d == 7 { '7' }
    else if d == 8 { '8' } else { '9' }
}

/// Append the decimal rendering of `n` to `out`.
pub fn push_dec(out: &mut Vec<char>, n: u32)
    ensures
        final(out)@ == old(out)@ + spec_dec(n as nat),
    decreases n,
{
    if n < 10 {
        out.push(digit_char(n));
    } else {
        push_dec(out, n / 10);
        out.push(digit_char(n % 10));
    }
}

/// The index of the first non-space character at or after `i` (spaces are
/// blank, tab, newline and carriage return).
pub open spec fn spec_is_space(c: char) -> bool {
    c == ' ' || c == '\t' || c == '\n' || c == '\r'
}

pub fn is_space(c: char) -> (b: bool)
    ensures
        b == spec_is_space(c),
{
    c == ' ' || c == '\t' || c == '\n' || c == '\r'
}

pub open spec fn spec_skip_ws(s: Seq<char>, i: int) -> int
    decreases s.len() - i,
{
    if 0 <= i < s.len() && spec_is_space(s[i]) {
        spec_skip_ws(s, i + 1)
    } else {
        i
    }
}

/// Advance an index past spaces.
pub fn skip_ws(s: &Vec<char>, i: usize) -> (r: usize)
    requires
        i <= s.len(),
    ensures
        r == spec_skip_ws(s@, i as int),
        i <= r <= s.len(),
{
    let mut j = i;
    while j < s.len() && is_space(s[j])
        invariant
            i <= j <= s.len(),
            spec_skip_ws(s@, i as int) == spec_skip_ws(s@, j as int),
        decreases s.len() - j,
    {
        j = j + 1;
    }
    j
}

/// The index of the first non-digit character at or after `i`.
pub open spec fn spec_digits_end(s: Seq<char>, i: int) -> int
    decreases s.len() - i,
{
    if 0 <= i < s.len() && spec_is_digit(s[i]) {
        spec_digits_end(s, i + 1)
    } else {
        i
    }
}

pub proof fn lemma_digits_end_bounds(s: Seq<char>, i: int)
    requires
        0 <= i <= s.len(),
    ensures
        i <= spec_digits_end(s, i) <= s.len(),
    decreases s.len() - i,
{
    if i < s.len() && spec_is_digit(s[i]) {
        lemma_digits_end_bounds(s, i + 1);
    }
}

/// The value of the digits `s[i..j]` read most significant first, saturating
/// at the largest 32-bit value.
pub open spec fn spec_sat_acc(s: Seq<char>, i: int, j: int, acc: nat) -> nat
    decreases j - i,
{
    if i < j {
        let a2 = acc * 10 + spec_digit_val(s[i]);
        spec_sat_acc(s, i + 1, j, if a2 > 0xFFFF_FFFF { 0xFFFF_FFFF } else { a2 })
    } else {
        acc
    }
}

pub open spec fn spec_sat_value(s: Seq<char>, i: int, j: int) -> nat {
    spec_sat_acc(s, i, j, 0)
}

pub proof fn lemma_sat_acc_bound(s: Seq<char>, i: int, j: int, acc: nat)
    requires
        acc <= 0xFFFF_FFFF,
    ensures
        spec_sat_acc(s, i, j, acc) <= 0xFFFF_FFFF,
    decreases j - i,
{
    if i < j {
        let a2 = acc * 10 + spec_digit_val(s[i]);
        lemma_sat_acc_bound(s, i + 1, j, if a2 > 0xFFFF_FFFF { 0xFFFF_FFFF } else { a2 });
    }
}

/// Scan the run of digits starting at `i`: its end index and its saturated
/// value.
pub fn scan_number(s: &Vec<char>, i: usize) -> (r: (u32, usize))
    requires
        i <= s.len(),
    ensures
        r.1 == spec_digits_end(s@, i as int),
        i <= r.1 <= s.len(),
        r.0 == spec_sat_value(s@, i as int, r.1 as int),
{
    let mut j = i;
    let mut acc: u64 = 0;
    while j < s.len() && is_digit(s[j])
        invariant
            i <= j <= s.len(),
            acc <= 0xFFFF_FFFF,
            spec_digits_end(s@, i as int) == spec_digits_end(s@, j as int),
            spec_sat_acc(s@, i as int, spec_digits_end(s@, i as int), 0) == spec_sat_acc(
                s@,
                j as int,
                spec_digits_end(s@, i as int),
                acc as nat,
            ),
        decreases s.len() - j,
    {
        proof {
            lemma_digits_end_bounds(s@, j + 1);
            assert(spec_digits_end(s@, j as int) == spec_digits_end(s@, j + 1));
        }
        let d = digit_val(s[j]);
        let a2 = acc * 10 + d as u64;
        acc = if a2 > 0xFFFF_FFFF { 0xFFFF_FFFF } else { a2 };
        j = j + 1;
    }
    proof {
        assert(spec_digits_end(s@, j as int) == j);
        assert(spec_sat_acc(s@, j as int, j as int, acc as nat) == acc as nat);
    }
    (acc as u32, j)
}

/// The characters of a string, in order.
pub fn str_to_chars(s: &str) -> (r: Vec<char>)
    ensures
        r@ == s@,
{
    let n = s.unicode_len();
    let mut v: Vec<char> = Vec::new();
    let mut i: usize = 0;
    while i < n
        invariant
            i <= n,
            n == s@.len(),
            v@ == s@.subrange(0, i as int),
        decreases n - i,
    {
        v.push(s.get_char(i));
        proof {
            assert(v@ =~= s@.subrange(0, i + 1));
        }
        i = i + 1;
    }
    proof {
        assert(v@ =~= s@);
    }
    v
}

/// Append every character of a string slice.
pub fn push_str_chars(out: &mut Vec<char>, s: &str)
    ensures
        final(out)@ == old(out)@ + s@,
{
    let cs = str_to_chars(s);
    let mut k: usize = 0;
    while k < cs.len()
        invariant
            k <= cs.len(),
            cs@ == s@,
            out@ == old(out)@ + cs@.subrange(0, k as int),
        decreases cs.len() - k,
    {
        out.push(cs[k]);
        proof {
            assert(out@ =~= old(out)@ + cs@.subrange(0, k + 1));
        }
        k = k + 1;
    }
    proof {
        assert(out@ =~= old(out)@ + s@);
    }
}

/// Element-wise equality of two numeric vectors.
pub fn vec_u32_eq(a: &Vec<u32>, b: &Vec<u32>) -> (r: bool)
    ensures
        r == (a@ == b@),
{
    if a.len() != b.len() {
        return false;
    }
    let mut i: usize = 0;
    while i < a.len()
        invariant
            i <= a.len(),
            a.len() == b.len(),
            forall|k: int| 0 <= k < i ==> a@[k] == b@[k],
        decreases a.len() - i,
    {
        if a[i] != b[i] {
            return false;
        }
        i = i + 1;
    }
    proof {
        assert(a@ =~= b@);
    }
    true
}

/// Relies on std's `FromIterator<char> for String`: collecting characters
/// yields the string of exactly those characters in order.
#[verifier::external_body]
pub fn chars_to_string(v: &Vec<char>) -> (r: String)
    ensures
        r@ == v@,
{
    v.iter().collect()
}


/// Decimal renderings are non-empty and consist of digit characters.
pub proof fn lemma_spec_dec_digits(n: nat)
    ensures
        spec_dec(n).len() >= 1,
        forall|k: int| 0 <= k < spec_dec(n).len() ==> spec_is_digit(#[trigger] spec_dec(n)[k]),
    decreases n,
{
    if n >= 10 {
        lemma_spec_dec_digits(n / 10);
    }
}

/// A run of digits bounded by a non-digit (or the end) is exactly what the
/// digit scan finds.
pub proof fn lemma_digits_end_run(s: Seq<char>, i: int, j: int)
    requires
        0 <= i <= j <= s.len(),
        forall|k: int| i <= k < j ==> spec_is_digit(#[trigger] s[k]),
        j == s.len() || !spec_is_digit(s[j]),
    ensures
        spec_digits_end(s, i) == j,
    decreases j - i,
{
    if i < j {
        lemma_digits_end_run(s, i + 1, j);
    }
}

/// Reading one more digit multiplies the accumulated value by ten and adds
/// it, saturating.
pub proof fn lemma_sat_append(s: Seq<char>, i: int, j: int, acc: nat)
    requires
        i <= j,
    ensures
        spec_sat_acc(s, i, j + 1, acc) == ({
            let a2 = spec_sat_acc(s, i, j, acc) * 10 + spec_digit_val(s[j]);
            if a2 > 0xFFFF_FFFF {
                0xFFFF_FFFFnat
            } else {
                a2
            }
        }),
    decreases j - i,
{
    let a0 = acc * 10 + spec_digit_val(s[i]);
    let acc2: nat = if a0 > 0xFFFF_FFFF {
        0xFFFF_FFFF
    } else {
        a0
    };
    if i < j {
        lemma_sat_append(s, i + 1, j, acc2);
        assert(spec_sat_acc(s, i, j + 1, acc) == spec_sat_acc(s, i + 1, j + 1, acc2));
        assert(spec_sat_acc(s, i, j, acc) == spec_sat_acc(s, i + 1, j, acc2));
    } else {
        assert(spec_sat_acc(s, i, j + 1, acc) == spec_sat_acc(s, i + 1, j + 1, acc2));
        assert(spec_sat_acc(s, i + 1, j + 1, acc2) == acc2);
        assert(spec_sat_acc(s, i, j, acc) == acc);
    }
}

/// The digit scan reads back exactly the value that the decimal rendering
/// wrote.
pub proof fn lemma_sat_of_dec(n: nat, s: Seq<char>, i: int)
    requires
        n <= 0xFFFF_FFFF,
        0 <= i,
        i + spec_dec(n).len() <= s.len(),
        s.subrange(i, i + spec_dec(n).len()) == spec_dec(n),
    ensures
        spec_sat_value(s, i, i + spec_dec(n).len()) == n,
    decreases n,
{
    let d = spec_dec(n);
    if n < 10 {
        assert(s[i] == s.subrange(i, i + 1)[0]);
        assert(spec_digit_val(spec_digit_char(n)) == n);
        lemma_sat_append(s, i, i, 0);
        assert(spec_sat_acc(s, i, i, 0) == 0);
    } else {
        let dp = spec_dec(n / 10);
        assert(d == dp.push(spec_digit_char(n % 10)));
        assert(s.subrange(i, i + dp.len()) =~= dp) by {
            assert forall|k: int| 0 <= k < dp.len() implies s.subrange(i, i + dp.len())[k]
                == dp[k] by {
                assert(s.subrange(i, i + d.len())[k] == s[i + k]);
                assert(d[k] == dp[k]);
            }
        }
        lemma_sat_of_dec(n / 10, s, i);
        lemma_sat_append(s, i, i + dp.len(), 0);
        assert(s[i + dp.len()] == s.subrange(i, i + d.len())[d.len() - 1]);
        assert(spec_digit_val(spec_digit_char(n % 10)) == n % 10);
        assert((n / 10) * 10 + n % 10 == n) by (nonlinear_arith);
    }
}

/// Reading a number where a decimal rendering was written yields the number
/// itself, ending at the first character after it, which must not be another
/// digit.
pub proof fn lemma_read_back_dec(n: nat, s: Seq<char>, i: int)
    requires
        n <= 0xFFFF_FFFF,
        0 <= i,
        i + spec_dec(n).len() <= s.len(),
        s.subrange(i, i + spec_dec(n).len()) == spec_dec(n),
        i + spec_dec(n).len() == s.len() || !spec_is_digit(s[i + spec_dec(n).len()]),
    ensures
        spec_is_digit(s[i]),
        spec_digits_end(s, i) == i + spec_dec(n).len(),
        spec_sat_value(s, i, i + spec_dec(n).len()) == n,
{
    let d = spec_dec(n);
    lemma_spec_dec_digits(n);
    assert forall|k: int| i <= k < i + d.len() implies spec_is_digit(#[trigger] s[k]) by {
        assert(s[k] == s.subrange(i, i + d.len())[k - i]);
    }
    assert(s[i] == s.subrange(i, i + d.len())[0]);
    lemma_digits_end_run(s, i, i + d.len());
    lemma_sat_of_dec(n, s, i);
}


/// A slice equal to a concatenation splits into slices equal to its parts.
pub proof fn lemma_seq_split<T>(s: Seq<T>, i: int, a: Seq<T>, b: Seq<T>)
    requires
        0 <= i,
        i + a.len() + b.len() <= s.len(),
        s.subrange(i, i + a.len() + b.len()) == a + b,
    ensures
        s.subrange(i, i + a.len()) == a,
        s.subrange(i + a.len(), i + a.len() + b.len()) == b,
{
    assert(s.subrange(i, i + a.len()) =~= a) by {
        assert forall|k: int| 0 <= k < a.len() implies s.subrange(i, i + a.len())[k] == a[k] by {
            assert(s.subrange(i, i + a.len() + b.len())[k] == s[i + k]);
            assert((a + b)[k] == a[k]);
        }
    }
    assert(s.subrange(i + a.len(), i + a.len() + b.len()) =~= b) by {
        assert forall|k: int| 0 <= k < b.len() implies s.subrange(
            i + a.len(),
            i + a.len() + b.len(),
        )[k] == b[k] by {
            assert(s.subrange(i, i + a.len() + b.len())[a.len() + k] == s[i + a.len() + k]);
            assert((a + b)[a.len() + k] == b[k]);
        }
    }
}

/// The first element under a matched slice.
pub proof fn lemma_first_at<T>(s: Seq<T>, i: int, kw: Seq<T>)
    requires
        0 <= i,
        kw.len() >= 1,
        i + kw.len() <= s.len(),
        s.subrange(i, i + kw.len()) == kw,
    ensures
        s[i] == kw[0],
{
    assert(s.subrange(i, i + kw.len())[0] == s[i]);
}

} // verus!
