//! Text as a sequence of characters: the primitives that the line grammar,
//! the table format and the command vocabulary are built from.

use vstd::prelude::*;
use vstd::slice::slice_subrange;

verus! {

/// `String::push` appends one character at the end of the string and changes
/// nothing else.
pub assume_specification[ String::push ](s: &mut String, ch: char)
    ensures
        final(s)@ == old(s)@.push(ch),
;

/// White space in the sense of the Unicode property `White_Space`.
pub open spec fn is_space(c: char) -> bool {
    let u = c as u32;
    ||| 0x09 <= u <= 0x0D
    ||| u == 0x20
    ||| u == 0x85
    ||| u == 0xA0
    ||| u == 0x1680
    ||| 0x2000 <= u <= 0x200A
    ||| u == 0x2028
    ||| u == 0x2029
    ||| u == 0x202F
    ||| u == 0x205F
    ||| u == 0x3000
}

/// `s` without its leading white space.
pub open spec fn trim_start(s: Seq<char>) -> Seq<char>
    decreases s.len(),
{
    if s.len() > 0 && is_space(s[0]) {
        trim_start(s.skip(1))
    } else {
        s
    }
}

/// `s` without its trailing white space.
pub open spec fn trim_end(s: Seq<char>) -> Seq<char>
    decreases s.len(),
{
    if s.len() > 0 && is_space(s.last()) {
        trim_end(s.drop_last())
    } else {
        s
    }
}

/// `s` without the white space at either end.
pub open spec fn trim(s: Seq<char>) -> Seq<char> {
    trim_end(trim_start(s))
}

/// Whether `s` begins with `prefix`.
pub open spec fn starts_with(s: Seq<char>, prefix: Seq<char>) -> bool {
    prefix.len() <= s.len() && s.take(prefix.len() as int) == prefix
}

/// The position of the last `c` in `s`, or -1 where `s` holds none.
pub open spec fn last_index_of(s: Seq<char>, c: char) -> int
    decreases s.len(),
{
    if s.len() == 0 {
        -1
    } else if s.last() == c {
        s.len() - 1
    } else {
        last_index_of(s.drop_last(), c)
    }
}

/// The fields of `s` between occurrences of `sep`: one more than there are
/// separators, empty fields included.
pub open spec fn split(s: Seq<char>, sep: char) -> Seq<Seq<char>>
    decreases s.len(),
{
    let k = last_index_of(s, sep);
    if 0 <= k < s.len() {
        split(s.take(k), sep).push(s.skip(k + 1))
    } else {
        seq![s]
    }
}

/// What each slice of `v` holds.
pub open spec fn views(v: Seq<&[char]>) -> Seq<Seq<char>> {
    Seq::new(v.len(), |i: int| v[i]@)
}

/// What each string of `v` holds.
pub open spec fn fields_of(v: Seq<String>) -> Seq<Seq<char>> {
    Seq::new(v.len(), |i: int| v[i]@)
}

/// `String::pop` takes the last character off the string and returns it;
/// an empty string stays empty and gives nothing.
pub assume_specification[ String::pop ](s: &mut String) -> (c: Option<char>)
    ensures
        old(s)@.len() > 0 ==> c == Some(old(s)@.last()) && final(s)@ == old(s)@.drop_last(),
        old(s)@.len() == 0 ==> c is None && final(s)@ == old(s)@,
;

/// The characters of `s`, in order.
pub fn chars_of(s: &str) -> (out: Vec<char>)
    ensures
        out@ == s@,
{
    let mut out: Vec<char> = Vec::new();
    for c in it: s.chars()
        invariant
            it.seq() == s@,
            out@ == it.seq().take(it.index() as int),
    {
        out.push(c);
    }
    out
}

/// The string that holds the characters of `chars`, in order.
pub fn string_of(chars: &[char]) -> (out: String)
    ensures
        out@ == chars@,
{
    let mut out = String::new();
    let mut i: usize = 0;
    while i < chars.len()
        invariant
            i <= chars.len(),
            out@ == chars@.take(i as int),
        decreases chars.len() - i,
    {
        out.push(chars[i]);
        i = i + 1;
    }
    out
}

/// Whether `c` is white space.
pub fn is_space_char(c: char) -> (b: bool)
    ensures
        b == is_space(c),
{
    let u: u32 = c as u32;
    (0x09 <= u && u <= 0x0D) || u == 0x20 || u == 0x85 || u == 0xA0 || u == 0x1680 || (0x2000 <= u
        && u <= 0x200A) || u == 0x2028 || u == 0x2029 || u == 0x202F || u == 0x205F || u == 0x3000
}

proof fn lemma_trim_start_skip(s: Seq<char>, i: int)
    requires
        0 <= i <= s.len(),
        forall|j: int| 0 <= j < i ==> is_space(s[j]),
    ensures
        trim_start(s) == trim_start(s.skip(i)),
    decreases i,
{
    if i > 0 {
        lemma_trim_start_skip(s, i - 1);
        let t = s.skip(i - 1);
        assert(t.skip(1) =~= s.skip(i));
    } else {
        assert(s.skip(0) =~= s);
    }
}

proof fn lemma_trim_end_take(s: Seq<char>, i: int)
    requires
        0 <= i <= s.len(),
        forall|j: int| i <= j < s.len() ==> is_space(s[j]),
    ensures
        trim_end(s) == trim_end(s.take(i)),
    decreases s.len() - i,
{
    if i < s.len() {
        lemma_trim_end_take(s.drop_last(), i);
        assert(s.drop_last().take(i) =~= s.take(i));
    } else {
        assert(s.take(i) =~= s);
    }
}

/// The part of `s` between its leading and its trailing white space.
pub fn trimmed<'a>(s: &'a [char]) -> (out: &'a [char])
    ensures
        out@ == trim(s@),
{
    let n = s.len();
    let mut a: usize = 0;
    while a < n && is_space_char(s[a])
        invariant
            a <= n,
            n == s@.len(),
            forall|j: int| 0 <= j < a ==> is_space(s@[j]),
        decreases n - a,
    {
        a = a + 1;
    }
    let mut b: usize = n;
    while b > a && is_space_char(s[b - 1])
        invariant
            a <= b <= n,
            n == s@.len(),
            forall|j: int| b <= j < n ==> is_space(s@[j]),
        decreases b,
    {
        b = b - 1;
    }
    proof {
        lemma_trim_start_skip(s@, a as int);
        let t = s@.skip(a as int);
        lemma_trim_end_take(t, b - a);
    }
    slice_subrange(s, a, b)
}

/// Whether `s` begins with `prefix`.
pub fn has_prefix(s: &[char], prefix: &[char]) -> (b: bool)
    ensures
        b == starts_with(s@, prefix@),
{
    if prefix.len() > s.len() {
        return false;
    }
    let mut i: usize = 0;
    while i < prefix.len()
        invariant
            i <= prefix.len() <= s.len(),
            forall|j: int| 0 <= j < i ==> s@[j] == prefix@[j],
        decreases prefix.len() - i,
    {
        if s[i] != prefix[i] {
            return false;
        }
        i = i + 1;
    }
    assert(s@.take(prefix@.len() as int) =~= prefix@);
    true
}

/// Where the last `c` of `s` stands, given that none follows position `k`.
pub proof fn lemma_last_index_of(s: Seq<char>, c: char, k: int)
    requires
        -1 <= k < s.len(),
        k >= 0 ==> s[k] == c,
        forall|j: int| k < j < s.len() ==> s[j] != c,
    ensures
        last_index_of(s, c) == k,
    decreases s.len(),
{
    if s.len() > 0 && k < s.len() - 1 {
        lemma_last_index_of(s.drop_last(), c, k);
    }
}

/// The last `c` of `s`, where there is one, is a `c` and no `c` follows it.
pub proof fn lemma_last_index_of_is_last(s: Seq<char>, c: char)
    ensures
        -1 <= last_index_of(s, c) < s.len(),
        last_index_of(s, c) >= 0 ==> s[last_index_of(s, c)] == c,
        forall|j: int| last_index_of(s, c) < j < s.len() ==> s[j] != c,
    decreases s.len(),
{
    if s.len() > 0 && s.last() != c {
        let t = s.drop_last();
        lemma_last_index_of_is_last(t, c);
        assert forall|j: int| last_index_of(s, c) < j < s.len() implies s[j] != c by {
            if j < t.len() {
                assert(t[j] == s[j]);
            }
        }
    }
}

/// The fields of `s` between occurrences of `sep`, as parts of `s`.
pub fn split_fields<'a>(s: &'a [char], sep: char) -> (out: Vec<&'a [char]>)
    ensures
        views(out@) == split(s@, sep),
{
    let n = s.len();
    let mut out: Vec<&'a [char]> = Vec::new();
    let mut start: usize = 0;
    let mut i: usize = 0;
    while i < n
        invariant
            start <= i <= n,
            n == s@.len(),
            forall|j: int| start <= j < i ==> s@[j] != sep,
            start == 0 ==> out@.len() == 0,
            start > 0 ==> s@[start - 1] == sep && views(out@) == split(s@.take(start - 1), sep),
        decreases n - i,
    {
        if s[i] == sep {
            let field = slice_subrange(s, start, i);
            proof {
                let t = s@.take(i as int);
                lemma_last_index_of(t, sep, start - 1);
                if start > 0 {
                    assert(t.take(start - 1) =~= s@.take(start - 1));
                    assert(t.skip(start as int) =~= field@);
                }
            }
            out.push(field);
            start = i + 1;
        }
        i = i + 1;
    }
    let field = slice_subrange(s, start, n);
    proof {
        lemma_last_index_of(s@, sep, start - 1);
        if start == 0 {
            assert(s@ =~= field@);
        }
    }
    out.push(field);
    out
}

/// Whether `needle` stands somewhere in `s`.
pub open spec fn holds(s: Seq<char>, needle: Seq<char>) -> bool {
    exists|i: int| 0 <= i <= s.len() && starts_with(#[trigger] s.skip(i), needle)
}

/// Whether `s` ends with `suffix`.
pub open spec fn ends_with(s: Seq<char>, suffix: Seq<char>) -> bool {
    suffix.len() <= s.len() && s.skip(s.len() - suffix.len()) == suffix
}

/// Whether `needle` stands somewhere in `s`.
pub fn contains_text(s: &[char], needle: &[char]) -> (b: bool)
    ensures
        b == holds(s@, needle@),
{
    let n = s.len();
    let mut i: usize = 0;
    while i <= n
        invariant
            i <= n + 1,
            n == s@.len(),
            forall|j: int| 0 <= j < i ==> !starts_with(#[trigger] s@.skip(j), needle@),
        decreases n + 1 - i,
    {
        let rest = slice_subrange(s, i, n);
        if has_prefix(rest, needle) {
            return true;
        }
        if i == n {
            return false;
        }
        i = i + 1;
    }
    false
}

/// Whether `s` ends with `suffix`.
pub fn has_suffix(s: &[char], suffix: &[char]) -> (b: bool)
    ensures
        b == ends_with(s@, suffix@),
{
    if suffix.len() > s.len() {
        return false;
    }
    let rest = slice_subrange(s, s.len() - suffix.len(), s.len());
    let b = has_prefix(rest, suffix);
    assert(b == (rest@ == suffix@)) by {
        assert(rest@.take(suffix@.len() as int) =~= rest@);
    }
    b
}

/// Text that neither begins nor ends with white space is its own trimmed
/// form.
pub proof fn lemma_trim_tight(s: Seq<char>)
    requires
        s.len() > 0 ==> !is_space(s[0]) && !is_space(s.last()),
    ensures
        trim(s) == s,
{
}

/// White space in front of tight text is trimmed away, and nothing else.
pub proof fn lemma_trim_gap(gap: Seq<char>, s: Seq<char>)
    requires
        forall|j: int| 0 <= j < gap.len() ==> is_space(gap[j]),
        s.len() > 0,
        !is_space(s[0]),
        !is_space(s.last()),
    ensures
        trim(gap + s) == s,
{
    let t = gap + s;
    lemma_trim_start_skip(t, gap.len() as int);
}

/// White space on both sides of tight text is trimmed away, and nothing
/// else.
pub proof fn lemma_trim_padded(lead: Seq<char>, s: Seq<char>, trail: Seq<char>)
    requires
        forall|j: int| 0 <= j < lead.len() ==> is_space(lead[j]),
        forall|j: int| 0 <= j < trail.len() ==> is_space(trail[j]),
        s.len() > 0,
        !is_space(s[0]),
        !is_space(s.last()),
    ensures
        trim(lead + s + trail) == s,
{
    let t = lead + s + trail;
    lemma_trim_start_skip(t, lead.len() as int);
    let u = t.skip(lead.len() as int);
    lemma_trim_end_take(u, s.len() as int);
}

/// Every text has at least one field.
pub proof fn lemma_split_not_empty(s: Seq<char>, sep: char)
    ensures
        split(s, sep).len() > 0,
{
}

/// A field without a separator in it is the only field of its text.
pub proof fn lemma_split_single(b: Seq<char>, sep: char)
    requires
        forall|j: int| 0 <= j < b.len() ==> b[j] != sep,
    ensures
        split(b, sep) == seq![b],
{
    lemma_last_index_of(b, sep, -1);
}

/// A separator and a field without one, put behind a text, add that field
/// to its fields.
pub proof fn lemma_split_push(a: Seq<char>, b: Seq<char>, sep: char)
    requires
        forall|j: int| 0 <= j < b.len() ==> b[j] != sep,
    ensures
        split(a + seq![sep] + b, sep) == split(a, sep).push(b),
{
    let t = a + seq![sep] + b;
    let k = a.len() as int;
    lemma_last_index_of(t, sep, k);
    assert(t.take(k) =~= a);
    assert(t.skip(k + 1) =~= b);
}

/// The fields of a text that continues are the fields of what was there,
/// but that its last field goes on into the fields of what it and the
/// continuation make together.
pub proof fn lemma_split_continued(x: Seq<char>, y: Seq<char>, sep: char)
    ensures
        split(x, sep).len() > 0,
        split(x + y, sep) == split(x, sep).drop_last() + split(split(x, sep).last() + y, sep),
    decreases y.len(),
{
    let kx = last_index_of(x, sep);
    let ky = last_index_of(y, sep);
    lemma_last_index_of_is_last(x, sep);
    lemma_last_index_of_is_last(y, sep);
    let open = split(x, sep).last();
    let whole = x + y;
    if ky < 0 {
        // The continuation ends no field.
        let joined = open + y;
        lemma_split_single(joined, sep);
        lemma_last_index_of(whole, sep, kx);
        if 0 <= kx < x.len() {
            assert(whole.take(kx) =~= x.take(kx));
            assert(whole.skip(kx + 1) =~= joined);
        }
    } else {
        let head = y.take(ky);
        let tail = y.skip(ky + 1);
        lemma_split_continued(x, head, sep);
        // In the whole text the last separator is that of the continuation.
        let k = x.len() + ky;
        lemma_last_index_of(whole, sep, k);
        assert(whole.take(k) =~= x + head);
        assert(whole.skip(k + 1) =~= tail);
        // And so it is in the open field with the continuation.
        let joined = open + y;
        let kj = open.len() + ky;
        lemma_last_index_of(joined, sep, kj);
        assert(joined.take(kj) =~= open + head);
        assert(joined.skip(kj + 1) =~= tail);
    }
}

} // verus!
