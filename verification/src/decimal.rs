//! Integers in decimal notation: how the wire and the table write them, and
//! how they are read back.

use vstd::prelude::*;
use vstd::slice::slice_subrange;

verus! {

/// Whether `c` is one of the ten ASCII digits.
pub open spec fn is_digit(c: char) -> bool {
    0x30 <= c as u32 <= 0x39
}

/// The number that the digit `c` stands for.
pub open spec fn digit_value(c: char) -> nat {
    (c as u32 - 0x30) as nat
}

/// The digit that stands for `d`, for `d` below ten.
pub open spec fn digit_char(d: nat) -> char {
    ((0x30 + d) as u8) as char
}

/// Whether `s` holds digits only.
pub open spec fn all_digits(s: Seq<char>) -> bool {
    forall|i: int| 0 <= i < s.len() ==> is_digit(#[trigger] s[i])
}

/// The number that the digits `s` write, most significant first.
pub open spec fn digits_value(s: Seq<char>) -> nat
    decreases s.len(),
{
    if s.len() == 0 {
        0
    } else {
        digits_value(s.drop_last()) * 10 + digit_value(s.last())
    }
}

/// `s` without one leading `+`.
pub open spec fn without_plus(s: Seq<char>) -> Seq<char> {
    if s.len() > 0 && s[0] == '+' {
        s.skip(1)
    } else {
        s
    }
}

/// The unsigned 64-bit number that `s` writes: an optional `+` and at least
/// one digit, the value within range. Anything else is no number.
pub open spec fn parse_u64(s: Seq<char>) -> Option<u64> {
    let d = without_plus(s);
    if d.len() > 0 && all_digits(d) && digits_value(d) <= u64::MAX {
        Some(digits_value(d) as u64)
    } else {
        None
    }
}

/// The signed number that `s` writes: an optional `+` or `-` and at least one
/// digit. Anything else is no number.
pub open spec fn parse_int(s: Seq<char>) -> Option<int> {
    if s.len() > 0 && s[0] == '-' {
        let d = s.skip(1);
        if d.len() > 0 && all_digits(d) {
            Some(-(digits_value(d) as int))
        } else {
            None
        }
    } else {
        let d = without_plus(s);
        if d.len() > 0 && all_digits(d) {
            Some(digits_value(d) as int)
        } else {
            None
        }
    }
}

/// The signed 32-bit number that `s` writes, where it writes one within
/// range.
pub open spec fn parse_i32(s: Seq<char>) -> Option<i32> {
    match parse_int(s) {
        Some(v) => if i32::MIN <= v <= i32::MAX {
            Some(v as i32)
        } else {
            None
        },
        None => None,
    }
}

/// The digits of `n`, most significant first, without leading zeros.
pub open spec fn render_nat(n: nat) -> Seq<char>
    decreases n,
{
    if n < 10 {
        seq![digit_char(n)]
    } else {
        render_nat(n / 10).push(digit_char(n % 10))
    }
}

/// `v` in decimal, with a leading `-` where it is negative.
pub open spec fn render_int(v: int) -> Seq<char> {
    if v < 0 {
        seq!['-'] + render_nat((-v) as nat)
    } else {
        render_nat(v as nat)
    }
}

/// A number is never smaller than the number that a prefix of its digits
/// writes.
pub proof fn lemma_digits_value_prefix(s: Seq<char>, i: int)
    requires
        0 <= i <= s.len(),
    ensures
        digits_value(s.take(i)) <= digits_value(s),
    decreases s.len() - i,
{
    if i < s.len() {
        lemma_digits_value_prefix(s.drop_last(), i);
        assert(s.drop_last().take(i) =~= s.take(i));
        assert(digits_value(s.drop_last()) * 10 >= digits_value(s.drop_last())) by (nonlinear_arith);
    } else {
        assert(s.take(i) =~= s);
    }
}

/// What is written is digits, at least one, and reads back as the number.
pub proof fn lemma_render_nat(n: nat)
    ensures
        render_nat(n).len() > 0,
        all_digits(render_nat(n)),
        digits_value(render_nat(n)) == n,
    decreases n,
{
    if n < 10 {
        let s = render_nat(n);
        assert(digits_value(s.drop_last()) == 0);
    } else {
        lemma_render_nat(n / 10);
        let s = render_nat(n);
        assert(s.drop_last() =~= render_nat(n / 10));
    }
}

/// What writes a signed number holds digits and at most a leading `-`: it is
/// not empty and it ends in a digit.
pub proof fn lemma_render_int_chars(v: int)
    ensures
        render_int(v).len() > 0,
        is_digit(render_int(v).last()),
        forall|j: int|
            0 <= j < render_int(v).len() ==> is_digit(#[trigger] render_int(v)[j]) || render_int(
                v,
            )[j] == '-',
{
    if v < 0 {
        lemma_render_nat((-v) as nat);
    } else {
        lemma_render_nat(v as nat);
    }
}

/// Reading what was written gives the number back.
pub proof fn lemma_parse_render_u64(n: u64)
    ensures
        parse_u64(render_nat(n as nat)) == Some(n),
{
    lemma_render_nat(n as nat);
}

/// Reading what was written gives the number back.
pub proof fn lemma_parse_render_i32(v: i32)
    ensures
        parse_i32(render_int(v as int)) == Some(v),
{
    if v < 0 {
        let d = render_nat((-v) as nat);
        lemma_render_nat((-v) as nat);
        let s = render_int(v as int);
        assert(s.skip(1) =~= d);
    } else {
        lemma_render_nat(v as nat);
    }
}

/// Whether `c` is a digit.
pub fn is_digit_char(c: char) -> (b: bool)
    ensures
        b == is_digit(c),
{
    let u: u32 = c as u32;
    0x30 <= u && u <= 0x39
}

/// The number that the digits `s` write, where they are digits, at least
/// one, and the number is at most `limit`.
fn read_digits(s: &[char], limit: u64) -> (out: Option<u64>)
    requires
        limit >= 9,
    ensures
        out == if s@.len() > 0 && all_digits(s@) && digits_value(s@) <= limit {
            Some(digits_value(s@) as u64)
        } else {
            None
        },
{
    let n = s.len();
    if n == 0 {
        return None;
    }
    let mut acc: u64 = 0;
    let mut i: usize = 0;
    while i < n
        invariant
            i <= n,
            n == s@.len(),
            all_digits(s@.take(i as int)),
            acc == digits_value(s@.take(i as int)),
            acc <= limit,
            limit >= 9,
        decreases n - i,
    {
        let c = s[i];
        if !is_digit_char(c) {
            return None;
        }
        let d: u64 = (c as u32 - 0x30) as u64;
        proof {
            let t = s@.take(i + 1);
            assert(t.drop_last() =~= s@.take(i as int));
            lemma_digits_value_prefix(s@, i + 1);
        }
        if acc > (limit - d) / 10 {
            return None;
        }
        acc = acc * 10 + d;
        i = i + 1;
    }
    assert(s@.take(n as int) =~= s@);
    Some(acc)
}

/// Reads an unsigned 64-bit number.
pub fn read_u64(s: &[char]) -> (out: Option<u64>)
    ensures
        out == parse_u64(s@),
{
    if s.len() > 0 && s[0] == '+' {
        read_digits(slice_subrange(s, 1, s.len()), u64::MAX)
    } else {
        read_digits(s, u64::MAX)
    }
}

/// Reads a signed 32-bit number.
pub fn read_i32(s: &[char]) -> (out: Option<i32>)
    ensures
        out == parse_i32(s@),
{
    if s.len() > 0 && s[0] == '-' {
        match read_digits(slice_subrange(s, 1, s.len()), 0x8000_0000) {
            Some(m) => {
                let v: i64 = -(m as i64);
                Some(v as i32)
            },
            None => None,
        }
    } else if s.len() > 0 && s[0] == '+' {
        match read_digits(slice_subrange(s, 1, s.len()), 0x7fff_ffff) {
            Some(m) => Some(m as i32),
            None => None,
        }
    } else {
        match read_digits(s, 0x7fff_ffff) {
            Some(m) => Some(m as i32),
            None => None,
        }
    }
}

/// Appends the digits of `n` to `out`.
pub fn write_u64(out: &mut String, n: u64)
    ensures
        final(out)@ == old(out)@ + render_nat(n as nat),
    decreases n,
{
    if n >= 10 {
        write_u64(out, n / 10);
    }
    let d: u8 = (n % 10) as u8;
    out.push((0x30 + d) as char);
}

/// Appends `v` in decimal to `out`.
pub fn write_i32(out: &mut String, v: i32)
    ensures
        final(out)@ == old(out)@ + render_int(v as int),
{
    if v < 0 {
        out.push('-');
        let m: u64 = (-(v as i64)) as u64;
        write_u64(out, m);
    } else {
        write_u64(out, v as u64);
    }
}

} // verus!
