//! Text: the decimal and binary renderings that the logs use, and the
//! character-level scanning (lines, trimming, words) that the parsers use.
use vstd::prelude::*;
use vstd::string::*;
use vstd::utf8::*;
use vstd::arithmetic::power2::*;

verus! {

/// The character of a decimal digit.
pub open spec fn digit_char(d: nat) -> char {
    (d + 48) as char
}

/// `v` in binary, most significant digit first, padded with zeros to at
/// least `w` digits (the rendering of `{:0wb}`; zero with `w == 0` is empty).
pub open spec fn bin_text(v: nat, w: nat) -> Seq<char>
    decreases v + w,
{
    if v == 0 && w == 0 {
        Seq::empty()
    } else {
        bin_text(v / 2, if w > 0 { (w - 1) as nat } else { 0 }).push(
            if v % 2 == 1 { '1' } else { '0' },
        )
    }
}

/// `n` in decimal, without leading zeros (the rendering of `{}`).
pub open spec fn dec_text(n: nat) -> Seq<char>
    decreases n,
{
    if n < 10 {
        seq![digit_char(n)]
    } else {
        dec_text(n / 10).push(digit_char(n % 10))
    }
}

/// Appends one character (`String::push`).
#[verifier::external_body]
fn push_char(out: &mut String, c: char)
    ensures
        final(out)@ == old(out)@.push(c),
{
    out.push(c)
}

/// Appends `text`.
pub fn push_str(out: &mut String, text: &str)
    ensures
        final(out)@ == old(out)@ + text@,
{
    out.append(text);
}

/// Appends the characters `v`.
pub fn push_chars(out: &mut String, v: &Vec<char>)
    ensures
        final(out)@ == old(out)@ + v@,
{
    let mut i: usize = 0;
    while i < v.len()
        invariant
            i <= v.len(),
            out@ == old(out)@ + v@.take(i as int),
        decreases v.len() - i,
    {
        push_char(out, v[i]);
        i = i + 1;
        assert(out@ =~= old(out)@ + v@.take(i as int));
    }
    assert(v@.take(v.len() as int) =~= v@);
}

/// Appends the binary rendering of `v` padded to `w` digits.
pub fn push_bin(out: &mut String, v: u64, w: u64)
    ensures
        final(out)@ == old(out)@ + bin_text(v as nat, w as nat),
    decreases v + w,
{
    if v == 0 && w == 0 {
        assert(old(out)@ + bin_text(0, 0) =~= old(out)@);
        return;
    }
    let w2: u64 = if w > 0 { w - 1 } else { 0 };
    push_bin(out, v / 2, w2);
    let c: char = if v % 2 == 1 { '1' } else { '0' };
    push_char(out, c);
    proof {
        let a = old(out)@;
        let b = bin_text((v / 2) as nat, w2 as nat);
        assert(bin_text(v as nat, w as nat) == b.push(c));
        assert((a + b).push(c) =~= a + b.push(c));
    }
}

/// Appends the decimal rendering of `n`.
pub fn push_dec(out: &mut String, n: u64)
    ensures
        final(out)@ == old(out)@ + dec_text(n as nat),
    decreases n,
{
    if n >= 10 {
        push_dec(out, n / 10);
    }
    let d: u8 = (n % 10) as u8;
    let c: char = (d + 48) as char;
    push_char(out, c);
    proof {
        let a = old(out)@;
        if n >= 10 {
            let b = dec_text((n / 10) as nat);
            assert((a + b).push(c) =~= a + b.push(c));
        } else {
            assert(a.push(c) =~= a + seq![c]);
        }
    }
}

/// The characters of `s`, in order.
pub fn chars_of(s: &str) -> (r: Vec<char>)
    ensures
        r@ == s@,
{
    let mut v: Vec<char> = Vec::new();
    for c in it: s.chars()
        invariant
            v@ == it.seq().take(it.index() as int),
    {
        v.push(c);
    }
    v
}

} // verus!

verus! {

/// Whether `c` has the Unicode `White_Space` property (what `char::is_whitespace`
/// and `str::trim` go by).
pub open spec fn is_ws(c: char) -> bool {
    ('\u{9}' <= c && c <= '\u{d}') || c == ' ' || c == '\u{85}' || c == '\u{a0}' || c
        == '\u{1680}' || ('\u{2000}' <= c && c <= '\u{200a}') || c == '\u{2028}' || c
        == '\u{2029}' || c == '\u{202f}' || c == '\u{205f}' || c == '\u{3000}'
}

/// `s` without its leading white space.
pub open spec fn trim_start(s: Seq<char>) -> Seq<char>
    decreases s.len(),
{
    if s.len() > 0 && is_ws(s[0]) {
        trim_start(s.drop_first())
    } else {
        s
    }
}

/// `s` without its trailing white space.
pub open spec fn trim_end(s: Seq<char>) -> Seq<char>
    decreases s.len(),
{
    if s.len() > 0 && is_ws(s.last()) {
        trim_end(s.drop_last())
    } else {
        s
    }
}

/// `s` without leading or trailing white space (`str::trim`).
pub open spec fn trim(s: Seq<char>) -> Seq<char> {
    trim_end(trim_start(s))
}

/// The index of the first `'\n'` of `s` at or after `i`, or the length of `s`.
pub open spec fn next_newline(s: Seq<char>, i: int) -> int
    decreases s.len() - i,
{
    if i >= s.len() {
        s.len() as int
    } else if s[i] == '\n' {
        i
    } else {
        next_newline(s, i + 1)
    }
}

pub proof fn lemma_next_newline_bounds(s: Seq<char>, i: int)
    requires
        0 <= i <= s.len(),
    ensures
        i <= next_newline(s, i) <= s.len(),
        next_newline(s, i) < s.len() ==> s[next_newline(s, i)] == '\n',
        forall|k: int| i <= k < next_newline(s, i) ==> s[k] != '\n',
    decreases s.len() - i,
{
    if i < s.len() && s[i] != '\n' {
        lemma_next_newline_bounds(s, i + 1);
    }
}

/// The line of `s` that runs from `i` to `e` (exclusive); a `'\r'` just
/// before the ending `'\n'` belongs to the line ending.
pub open spec fn line_at(s: Seq<char>, i: int, e: int) -> Seq<char> {
    let raw = s.subrange(i, e);
    if e < s.len() && raw.len() > 0 && raw.last() == '\r' {
        raw.drop_last()
    } else {
        raw
    }
}

/// The lines of `s` from index `i` on (`str::lines`): split at `'\n'` or
/// `"\r\n"`; the last line ending is optional.
pub open spec fn lines_from(s: Seq<char>, i: int) -> Seq<Seq<char>>
    decreases s.len() - i,
    via lines_from_decreases
{
    if i < 0 || i >= s.len() {
        Seq::empty()
    } else {
        let e = next_newline(s, i);
        if e < s.len() {
            seq![line_at(s, i, e)] + lines_from(s, e + 1)
        } else {
            seq![line_at(s, i, e)]
        }
    }
}

#[via_fn]
proof fn lines_from_decreases(s: Seq<char>, i: int) {
    if !(i < 0 || i >= s.len()) {
        lemma_next_newline_bounds(s, i);
    }
}

/// The lines of `s` (`str::lines`).
pub open spec fn lines(s: Seq<char>) -> Seq<Seq<char>> {
    lines_from(s, 0)
}

/// The number of bytes of `s` in UTF-8 (`str::len`).
pub open spec fn utf8_len(s: Seq<char>) -> nat
    decreases s.len(),
{
    if s.len() == 0 {
        0
    } else {
        char_utf8_len(s[0]) + utf8_len(s.drop_first())
    }
}

/// The number of bytes of `c` in UTF-8.
pub open spec fn char_utf8_len(c: char) -> nat {
    if (c as u32) < 0x80 {
        1
    } else if (c as u32) < 0x800 {
        2
    } else if (c as u32) < 0x1_0000 {
        3
    } else {
        4
    }
}

/// Whether every character of `s` is `'0'` or `'1'`.
pub open spec fn all_binary(s: Seq<char>) -> bool {
    forall|k: int| 0 <= k < s.len() ==> s[k] == '0' || s[k] == '1'
}

/// The value of the binary numeral `s` (of binary digits).
pub open spec fn bin_value(s: Seq<char>) -> nat
    decreases s.len(),
{
    if s.len() == 0 {
        0
    } else {
        2 * bin_value(s.drop_last()) + if s.last() == '1' { 1nat } else { 0nat }
    }
}

/// `v[lo..hi]` as a vector of its own.
pub fn sub_chars(v: &Vec<char>, lo: usize, hi: usize) -> (r: Vec<char>)
    requires
        lo <= hi <= v.len(),
    ensures
        r@ == v@.subrange(lo as int, hi as int),
{
    let mut r: Vec<char> = Vec::new();
    let mut i: usize = lo;
    while i < hi
        invariant
            lo <= i <= hi <= v.len(),
            r@ == v@.subrange(lo as int, i as int),
        decreases hi - i,
    {
        r.push(v[i]);
        i = i + 1;
        assert(r@ =~= v@.subrange(lo as int, i as int));
    }
    r
}

/// Whether `c` is white space.
pub fn is_whitespace(c: char) -> (r: bool)
    ensures
        r == is_ws(c),
{
    ('\u{9}' <= c && c <= '\u{d}') || c == ' ' || c == '\u{85}' || c == '\u{a0}' || c
        == '\u{1680}' || ('\u{2000}' <= c && c <= '\u{200a}') || c == '\u{2028}' || c
        == '\u{2029}' || c == '\u{202f}' || c == '\u{205f}' || c == '\u{3000}'
}

proof fn lemma_trim_start_skip(s: Seq<char>, i: int)
    requires
        0 <= i < s.len(),
        is_ws(s[i]),
    ensures
        trim_start(s.subrange(i, s.len() as int)) == trim_start(s.subrange(i + 1, s.len() as int)),
{
    let t = s.subrange(i, s.len() as int);
    assert(t.drop_first() =~= s.subrange(i + 1, s.len() as int));
}

proof fn lemma_trim_end_skip(s: Seq<char>, j: int)
    requires
        0 < j <= s.len(),
        is_ws(s[j - 1]),
    ensures
        trim_end(s.subrange(0, j)) == trim_end(s.subrange(0, j - 1)),
{
    let t = s.subrange(0, j);
    assert(t.drop_last() =~= s.subrange(0, j - 1));
}

/// `v` without trailing white space (`str::trim_end`).
pub fn trim_end_chars(v: &Vec<char>) -> (r: Vec<char>)
    ensures
        r@ == trim_end(v@),
{
    let mut j: usize = v.len();
    assert(v@.subrange(0, j as int) =~= v@);
    while j > 0 && is_whitespace(v[j - 1])
        invariant
            j <= v.len(),
            trim_end(v@) == trim_end(v@.subrange(0, j as int)),
        decreases j,
    {
        proof {
            lemma_trim_end_skip(v@, j as int);
        }
        j = j - 1;
    }
    let r = sub_chars(v, 0, j);
    proof {
        let t = v@.subrange(0, j as int);
        if j > 0 {
            assert(t.last() == v@[j - 1]);
        }
    }
    r
}

/// `v` without leading or trailing white space (`str::trim`).
pub fn trim_chars(v: &Vec<char>) -> (r: Vec<char>)
    ensures
        r@ == trim(v@),
{
    let mut i: usize = 0;
    assert(v@.subrange(0, v.len() as int) =~= v@);
    while i < v.len() && is_whitespace(v[i])
        invariant
            i <= v.len(),
            trim_start(v@) == trim_start(v@.subrange(i as int, v.len() as int)),
        decreases v.len() - i,
    {
        proof {
            lemma_trim_start_skip(v@, i as int);
        }
        i = i + 1;
    }
    let head = sub_chars(v, i, v.len());
    proof {
        if i < v.len() {
            assert(head@[0] == v@[i as int]);
        }
        assert(trim_start(head@) == head@);
    }
    trim_end_chars(&head)
}

/// The index of the first `'\n'` of `v` at or after `i`, or the length of `v`.
fn find_newline(v: &Vec<char>, i: usize) -> (r: usize)
    requires
        i <= v.len(),
    ensures
        r == next_newline(v@, i as int),
{
    let mut k: usize = i;
    while k < v.len() && v[k] != '\n'
        invariant
            i <= k <= v.len(),
            next_newline(v@, i as int) == next_newline(v@, k as int),
        decreases v.len() - k,
    {
        k = k + 1;
    }
    k
}

/// The lines of `v` (`str::lines`).
pub fn split_lines(v: &Vec<char>) -> (r: Vec<Vec<char>>)
    ensures
        r@.map_values(|l: Vec<char>| l@) == lines(v@),
{
    let mut out: Vec<Vec<char>> = Vec::new();
    let mut i: usize = 0;
    while i < v.len()
        invariant
            i <= v.len(),
            lines(v@) == out@.map_values(|l: Vec<char>| l@) + lines_from(v@, i as int),
        decreases v.len() - i,
    {
        let e = find_newline(v, i);
        proof {
            lemma_next_newline_bounds(v@, i as int);
        }
        let mut line = sub_chars(v, i, e);
        if e < v.len() && line.len() > 0 && line[line.len() - 1] == '\r' {
            line.pop();
        }
        assert(line@ == line_at(v@, i as int, e as int));
        let ghost before = out@.map_values(|l: Vec<char>| l@);
        out.push(line);
        assert(out@.map_values(|l: Vec<char>| l@) =~= before.push(line_at(v@, i as int, e as int)));
        assert(lines_from(v@, i as int) == seq![line_at(v@, i as int, e as int)] + lines_from(
            v@,
            e + 1,
        ));
        assert(before + lines_from(v@, i as int) =~= before.push(line_at(v@, i as int, e as int))
            + lines_from(v@, e + 1));
        i = if e < v.len() { e + 1 } else { e };
    }
    assert(lines_from(v@, i as int) =~= Seq::<Seq<char>>::empty());
    assert(out@.map_values(|l: Vec<char>| l@) + Seq::<Seq<char>>::empty() =~= out@.map_values(
        |l: Vec<char>| l@,
    ));
    out
}

} // verus!

verus! {

/// The UTF-8 length agrees with the length of the UTF-8 encoding.
pub proof fn lemma_utf8_len_encoding(s: Seq<char>)
    ensures
        utf8_len(s) == encode_utf8(s).len(),
    decreases s.len(),
{
    if s.len() > 0 {
        lemma_utf8_len_encoding(s.drop_first());
        char_is_scalar(s[0]);
    }
}

/// The UTF-8 length of a concatenation is the sum of the lengths.
pub proof fn lemma_utf8_len_concat(a: Seq<char>, b: Seq<char>)
    ensures
        utf8_len(a + b) == utf8_len(a) + utf8_len(b),
    decreases a.len(),
{
    if a.len() > 0 {
        assert((a + b).drop_first() =~= a.drop_first() + b);
        lemma_utf8_len_concat(a.drop_first(), b);
    } else {
        assert(a + b =~= b);
    }
}

/// A piece of `s` is no longer in UTF-8 than `s`.
pub proof fn lemma_utf8_len_subrange(s: Seq<char>, i: int, j: int)
    requires
        0 <= i <= j <= s.len(),
    ensures
        utf8_len(s.subrange(i, j)) <= utf8_len(s),
{
    let a = s.subrange(0, i);
    let b = s.subrange(i, j);
    let c = s.subrange(j, s.len() as int);
    assert(s =~= a + b + c);
    lemma_utf8_len_concat(a + b, c);
    lemma_utf8_len_concat(a, b);
}

/// Trimming makes a text no longer.
pub proof fn lemma_utf8_len_trim(s: Seq<char>)
    ensures
        utf8_len(trim_start(s)) <= utf8_len(s),
        utf8_len(trim_end(s)) <= utf8_len(s),
        utf8_len(trim(s)) <= utf8_len(s),
    decreases s.len(),
{
    if s.len() > 0 {
        lemma_utf8_len_trim(s.drop_first());
        lemma_utf8_len_trim(s.drop_last());
        lemma_utf8_len_subrange(s, 0, s.len() - 1);
        assert(s.drop_last() =~= s.subrange(0, s.len() - 1));
    }
    lemma_utf8_len_trim_end(trim_start(s));
}

proof fn lemma_utf8_len_trim_end(s: Seq<char>)
    ensures
        utf8_len(trim_end(s)) <= utf8_len(s),
    decreases s.len(),
{
    if s.len() > 0 {
        lemma_utf8_len_trim_end(s.drop_last());
        lemma_utf8_len_subrange(s, 0, s.len() - 1);
        assert(s.drop_last() =~= s.subrange(0, s.len() - 1));
    }
}

/// Every line of `s` from `i` on is no longer in UTF-8 than `s`.
pub proof fn lemma_utf8_len_lines_from(s: Seq<char>, i: int)
    ensures
        forall|k: int|
            0 <= k < lines_from(s, i).len() ==> utf8_len(#[trigger] lines_from(s, i)[k])
                <= utf8_len(s),
    decreases s.len() - i,
{
    if !(i < 0 || i >= s.len()) {
        lemma_next_newline_bounds(s, i);
        let e = next_newline(s, i);
        lemma_utf8_len_subrange(s, i, e);
        let raw = s.subrange(i, e);
        if raw.len() > 0 {
            lemma_utf8_len_subrange(raw, 0, raw.len() - 1);
            assert(raw.drop_last() =~= raw.subrange(0, raw.len() - 1));
        }
        if e < s.len() {
            lemma_utf8_len_lines_from(s, e + 1);
        }
        let ls = lines_from(s, i);
        assert forall|k: int| 0 <= k < ls.len() implies utf8_len(#[trigger] ls[k]) <= utf8_len(
            s,
        ) by {
            if k > 0 {
                assert(ls[k] == lines_from(s, e + 1)[k - 1]);
            }
        }
    }
}

/// The number of bytes of `c` in UTF-8.
pub fn char_len_utf8(c: char) -> (r: usize)
    ensures
        r == char_utf8_len(c),
{
    let u: u32 = c as u32;
    if u < 0x80 {
        1
    } else if u < 0x800 {
        2
    } else if u < 0x1_0000 {
        3
    } else {
        4
    }
}

/// The number of bytes of `v` in UTF-8.
pub fn utf8_count(v: &Vec<char>) -> (r: usize)
    requires
        utf8_len(v@) <= usize::MAX,
    ensures
        r == utf8_len(v@),
{
    let mut n: usize = 0;
    let mut i: usize = 0;
    while i < v.len()
        invariant
            i <= v.len(),
            utf8_len(v@) <= usize::MAX,
            n == utf8_len(v@.subrange(0, i as int)),
        decreases v.len() - i,
    {
        proof {
            let pre = v@.subrange(0, i as int);
            assert(v@.subrange(0, i + 1) =~= pre + seq![v@[i as int]]);
            lemma_utf8_len_concat(pre, seq![v@[i as int]]);
            assert(seq![v@[i as int]].drop_first() =~= Seq::<char>::empty());
            assert(utf8_len(Seq::<char>::empty()) == 0);
            assert(utf8_len(seq![v@[i as int]]) == char_utf8_len(v@[i as int]));
            lemma_utf8_len_subrange(v@, 0, i + 1);
        }
        n = n + char_len_utf8(v[i]);
        i = i + 1;
    }
    assert(v@.subrange(0, v.len() as int) =~= v@);
    n
}

/// The characters of `s`, with the fact that their UTF-8 length fits a `usize`.
pub fn chars_in_bounds(s: &str) -> (r: Vec<char>)
    ensures
        r@ == s@,
        utf8_len(s@) <= usize::MAX,
{
    let bytes = s.as_bytes();
    let _n: usize = bytes.len();
    proof {
        lemma_utf8_len_encoding(s@);
    }
    chars_of(s)
}

} // verus!

verus! {

/// A text of binary digits is one byte per character in UTF-8.
pub proof fn lemma_utf8_len_binary(t: Seq<char>)
    requires
        all_binary(t),
    ensures
        utf8_len(t) == t.len(),
    decreases t.len(),
{
    if t.len() > 0 {
        lemma_utf8_len_binary(t.drop_first());
    }
}

/// A binary numeral of `n` digits is below `2^n`.
pub proof fn lemma_bin_value_bound(t: Seq<char>)
    ensures
        bin_value(t) < pow2(t.len()),
    decreases t.len(),
{
    if t.len() == 0 {
        lemma2_to64();
    } else {
        lemma_bin_value_bound(t.drop_last());
        lemma_pow2_unfold(t.len());
    }
}

/// The value of the binary numeral `v` (of at most 32 binary digits).
pub fn bin_value_of(v: &Vec<char>) -> (r: u32)
    requires
        all_binary(v@),
        v.len() <= 32,
    ensures
        r == bin_value(v@),
{
    let mut val: u64 = 0;
    let mut i: usize = 0;
    proof {
        lemma2_to64();
    }
    while i < v.len()
        invariant
            i <= v.len() <= 32,
            all_binary(v@),
            val == bin_value(v@.take(i as int)),
            pow2(32) == 0x1_0000_0000,
        decreases v.len() - i,
    {
        proof {
            let next = v@.take(i + 1);
            assert(next.drop_last() =~= v@.take(i as int));
            lemma_bin_value_bound(next);
            if i + 1 < 32 {
                lemma_pow2_strictly_increases((i + 1) as nat, 32);
            }
        }
        let d: u64 = if v[i] == '1' { 1 } else { 0 };
        val = 2 * val + d;
        i = i + 1;
    }
    assert(v@.take(v.len() as int) =~= v@);
    proof {
        lemma_bin_value_bound(v@);
        if v.len() < 32 {
            lemma_pow2_strictly_increases(v.len() as nat, 32);
        }
    }
    val as u32
}

/// A binary numeral of at most `n` digits is below `2^n`, for the widths used
/// here.
pub proof fn lemma_bin_value_fits(t: Seq<char>, n: nat)
    requires
        t.len() <= n,
        n <= 32,
    ensures
        bin_value(t) < pow2(n),
        n == 2 ==> bin_value(t) < 4,
        n == 4 ==> bin_value(t) < 16,
        n == 6 ==> bin_value(t) < 64,
        n == 8 ==> bin_value(t) < 256,
        n == 9 ==> bin_value(t) < 512,
        n == 32 ==> bin_value(t) < 0x1_0000_0000,
{
    lemma_bin_value_bound(t);
    if t.len() < n {
        lemma_pow2_strictly_increases(t.len(), n);
    }
    lemma2_to64();
}

/// Whether every character of `v` is a binary digit.
pub fn is_all_binary(v: &Vec<char>) -> (r: bool)
    ensures
        r == all_binary(v@),
{
    let mut i: usize = 0;
    while i < v.len()
        invariant
            i <= v.len(),
            forall|k: int| 0 <= k < i ==> v@[k] == '0' || v@[k] == '1',
        decreases v.len() - i,
    {
        if v[i] != '0' && v[i] != '1' {
            return false;
        }
        i = i + 1;
    }
    true
}

/// A text of binary digits is its own trimming.
pub proof fn lemma_trim_binary(t: Seq<char>)
    requires
        all_binary(t),
    ensures
        trim(t) == t,
{
    if t.len() > 0 {
        assert(!is_ws(t[0]));
        assert(!is_ws(t.last()));
    }
}

/// Leading zeros do not change the value of a binary numeral.
pub proof fn lemma_bin_value_leading_zeros(z: Seq<char>, t: Seq<char>)
    requires
        forall|k: int| 0 <= k < z.len() ==> z[k] == '0',
    ensures
        bin_value(z + t) == bin_value(t),
    decreases t.len(),
{
    if t.len() == 0 {
        assert(z + t =~= z);
        lemma_bin_value_zeros(z);
    } else {
        assert((z + t).drop_last() =~= z + t.drop_last());
        lemma_bin_value_leading_zeros(z, t.drop_last());
    }
}

proof fn lemma_bin_value_zeros(z: Seq<char>)
    requires
        forall|k: int| 0 <= k < z.len() ==> z[k] == '0',
    ensures
        bin_value(z) == 0,
    decreases z.len(),
{
    if z.len() > 0 {
        lemma_bin_value_zeros(z.drop_last());
    }
}

} // verus!

verus! {

/// The index of the first white space of `s` at or after `i`, or the length
/// of `s`.
pub open spec fn word_end(s: Seq<char>, i: int) -> int
    decreases s.len() - i,
{
    if i >= s.len() {
        s.len() as int
    } else if is_ws(s[i]) {
        i
    } else {
        word_end(s, i + 1)
    }
}

pub proof fn lemma_word_end_bounds(s: Seq<char>, i: int)
    requires
        0 <= i <= s.len(),
    ensures
        i <= word_end(s, i) <= s.len(),
        i < s.len() && !is_ws(s[i]) ==> i < word_end(s, i),
        word_end(s, i) < s.len() ==> is_ws(s[word_end(s, i)]),
    decreases s.len() - i,
{
    if i < s.len() && !is_ws(s[i]) {
        lemma_word_end_bounds(s, i + 1);
    }
}

/// The words of `s` from index `i` on: the maximal runs of characters that
/// are not white space (`str::split_whitespace`).
pub open spec fn words_from(s: Seq<char>, i: int) -> Seq<Seq<char>>
    decreases s.len() - i,
    via words_from_decreases
{
    if i < 0 || i >= s.len() {
        Seq::empty()
    } else if is_ws(s[i]) {
        words_from(s, i + 1)
    } else {
        let e = word_end(s, i);
        seq![s.subrange(i, e)] + words_from(s, e)
    }
}

#[via_fn]
proof fn words_from_decreases(s: Seq<char>, i: int) {
    if !(i < 0 || i >= s.len()) && !is_ws(s[i]) {
        lemma_word_end_bounds(s, i);
    }
}

/// The words of `s` (`str::split_whitespace`).
pub open spec fn words(s: Seq<char>) -> Seq<Seq<char>> {
    words_from(s, 0)
}

/// The words of `v` (`str::split_whitespace`).
pub fn split_words(v: &Vec<char>) -> (r: Vec<Vec<char>>)
    ensures
        r@.map_values(|w: Vec<char>| w@) == words(v@),
{
    let mut out: Vec<Vec<char>> = Vec::new();
    let mut i: usize = 0;
    while i < v.len()
        invariant
            i <= v.len(),
            words(v@) == out@.map_values(|w: Vec<char>| w@) + words_from(v@, i as int),
        decreases v.len() - i,
    {
        let ghost before = out@.map_values(|w: Vec<char>| w@);
        if is_whitespace(v[i]) {
            i = i + 1;
        } else {
            let mut j: usize = i;
            while j < v.len() && !is_whitespace(v[j])
                invariant
                    i <= j <= v.len(),
                    word_end(v@, i as int) == word_end(v@, j as int),
                decreases v.len() - j,
            {
                j = j + 1;
            }
            proof {
                lemma_word_end_bounds(v@, i as int);
            }
            let w = sub_chars(v, i, j);
            out.push(w);
            assert(out@.map_values(|w: Vec<char>| w@) =~= before.push(v@.subrange(i as int, j as int)));
            assert(before + words_from(v@, i as int) =~= before.push(v@.subrange(i as int, j as int))
                + words_from(v@, j as int));
            i = j;
        }
    }
    assert(words_from(v@, i as int) =~= Seq::<Seq<char>>::empty());
    assert(out@.map_values(|w: Vec<char>| w@) + Seq::<Seq<char>>::empty() =~= out@.map_values(
        |w: Vec<char>| w@,
    ));
    out
}

/// Whether `c` is an ASCII decimal digit.
pub open spec fn is_digit(c: char) -> bool {
    '0' <= c && c <= '9'
}

/// The value of the decimal numeral `s` (of digits).
pub open spec fn dec_value(s: Seq<char>) -> nat
    decreases s.len(),
{
    if s.len() == 0 {
        0
    } else {
        10 * dec_value(s.drop_last()) + ((s.last() as u32) - 48) as nat
    }
}

/// Whether every character of `d` is a decimal digit.
pub open spec fn all_digits(d: Seq<char>) -> bool {
    forall|k: int| 0 <= k < d.len() ==> is_digit(#[trigger] d[k])
}

/// `s` without a leading `+`.
pub open spec fn unsigned_digits(s: Seq<char>) -> Seq<char> {
    if s.len() > 0 && s[0] == '+' {
        s.drop_first()
    } else {
        s
    }
}

/// `s` read as a `u8` (`u8::from_str`): an optional `+`, then at least one
/// decimal digit, of a value up to 255.
pub open spec fn parse_u8(s: Seq<char>) -> Option<u8> {
    let d = unsigned_digits(s);
    if d.len() == 0 || !all_digits(d) {
        None
    } else if dec_value(d) > 255 {
        None
    } else {
        Some(dec_value(d) as u8)
    }
}

/// Reads `v` as a `u8` (see [`parse_u8`]).
pub fn parse_u8_chars(v: &Vec<char>) -> (r: Option<u8>)
    ensures
        r == parse_u8(v@),
{
    let start: usize = if v.len() > 0 && v[0] == '+' { 1 } else { 0 };
    let ghost d = unsigned_digits(v@);
    assert(d =~= v@.subrange(start as int, v.len() as int));
    if start >= v.len() {
        return None;
    }
    let mut val: u32 = 0;
    let mut i: usize = start;
    while i < v.len()
        invariant
            start <= i <= v.len(),
            d == unsigned_digits(v@),
            d =~= v@.subrange(start as int, v.len() as int),
            forall|k: int| start <= k < i ==> is_digit(#[trigger] v@[k]),
            val == if dec_value(v@.subrange(start as int, i as int)) > 255 {
                256
            } else {
                dec_value(v@.subrange(start as int, i as int))
            },
        decreases v.len() - i,
    {
        let c = v[i];
        if !('0' <= c && c <= '9') {
            assert(d[i - start] == v@[i as int]);
            assert(!is_digit(d[i - start]));
            assert(!all_digits(d));
            return None;
        }
        let digit: u32 = (c as u32) - 48;
        proof {
            let pre = v@.subrange(start as int, i as int);
            let next = v@.subrange(start as int, i + 1);
            assert(next.drop_last() =~= pre);
        }
        val = if val > 255 { 256 } else {
            let n = 10 * val + digit;
            if n > 255 { 256 } else { n }
        };
        i = i + 1;
    }
    assert(v@.subrange(start as int, v.len() as int) =~= d);
    assert forall|k: int| 0 <= k < d.len() implies is_digit(#[trigger] d[k]) by {
        assert(d[k] == v@[start + k]);
    }
    assert(all_digits(d));
    if val > 255 {
        None
    } else {
        Some(val as u8)
    }
}

/// Whether the views of `a` and `b` are equal.
pub fn chars_eq(a: &Vec<char>, b: &Vec<char>) -> (r: bool)
    ensures
        r == (a@ == b@),
{
    if a.len() != b.len() {
        return false;
    }
    let mut i: usize = 0;
    while i < a.len()
        invariant
            i <= a.len() == b.len(),
            forall|k: int| 0 <= k < i ==> a@[k] == b@[k],
        decreases a.len() - i,
    {
        if a[i] != b[i] {
            return false;
        }
        i = i + 1;
    }
    assert(a@ =~= b@);
    true
}

/// A string of the characters `v`.
pub fn string_of(v: &Vec<char>) -> (r: String)
    ensures
        r@ == v@,
{
    let mut out = String::new();
    push_chars(&mut out, v);
    assert(out@ =~= v@);
    out
}

} // verus!

verus! {

/// Whether every character of `s` is ASCII.
pub open spec fn all_ascii(s: Seq<char>) -> bool {
    forall|k: int| 0 <= k < s.len() ==> (#[trigger] s[k] as u32) < 128
}

/// `s` with the ASCII letters `a` to `z` in upper case.
pub open spec fn ascii_upper(s: Seq<char>) -> Seq<char> {
    s.map_values(|c: char| if 'a' <= c && c <= 'z' { ((c as u32) - 32) as char } else { c })
}

/// What `str::to_uppercase` makes of a text.
pub uninterp spec fn uppercase(s: Seq<char>) -> Seq<char>;

/// `str::to_uppercase`: the upper-case equivalent of `s` by the Unicode
/// `Uppercase` property. The result is named by [`uppercase`]; the Unicode
/// case tables are not restated, but for ASCII text the result is stated: the
/// text with `a` to `z` in upper case.
#[verifier::external_body]
pub(crate) fn to_uppercase(s: &str) -> (r: String)
    ensures
        r@ == uppercase(s@),
        all_ascii(s@) ==> r@ == ascii_upper(s@),
{
    s.to_uppercase()
}

/// A value below `2^w` takes exactly `w` binary digits at width `w`.
pub proof fn lemma_bin_text_len(v: nat, w: nat)
    requires
        v < pow2(w),
    ensures
        bin_text(v, w).len() == w,
    decreases w,
{
    if w == 0 {
        lemma2_to64();
        assert(v == 0);
    } else {
        lemma_pow2_unfold(w);
        assert(v / 2 < pow2((w - 1) as nat));
        lemma_bin_text_len(v / 2, (w - 1) as nat);
    }
}

} // verus!
