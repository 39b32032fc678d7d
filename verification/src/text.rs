//! Text helpers for option parsing: characters of a string, splitting at a
//! separator, decimal numbers, and lower case.

use vstd::prelude::*;
use vstd::string::StringExecFns;
use vstd::string::StrSliceExecFns;

verus! {

/// The lower-case form of a text, as Unicode defines it.
pub uninterp spec fn lowercase(s: Seq<char>) -> Seq<char>;

/// `str::to_lowercase`: the lower-case equivalent of `s` as a new string.
/// The result is a function of the characters of `s` alone; which
/// characters change follows the Unicode tables and is not stated here.
#[verifier::external_body]
pub(crate) fn to_lowercase(s: &str) -> (r: String)
    ensures
        r@ == lowercase(s@),
{
    s.to_lowercase()
}

/// The characters of `s`, in order.
pub fn chars_of(s: &str) -> (v: Vec<char>)
    ensures
        v@ == s@,
{
    let mut v: Vec<char> = Vec::new();
    for c in it: s.chars()
        invariant
            it.seq() == s@,
            v@ == s@.take(it.index() as int),
    {
        v.push(c);
        assert(v@ =~= s@.take(it.index() + 1));
    }
    assert(s@.take(s@.len() as int) =~= s@);
    v
}

/// Whether two strings hold the same characters.
pub fn str_eq(a: &str, b: &str) -> (r: bool)
    ensures
        r == (a@ == b@),
{
    let x = a.to_owned();
    let y = b.to_owned();
    x == y
}

/// The position of the first `c` in `s` from position `from` on, or the
/// length of `s` if there is none.
pub open spec fn find_char(s: Seq<char>, c: char, from: int) -> int
    decreases s.len() - from,
{
    if from < 0 || from >= s.len() {
        s.len() as int
    } else if s[from] == c {
        from
    } else {
        find_char(s, c, from + 1)
    }
}

/// What `find_char` returns: a position from `from` on that holds `c` and
/// before which none does, or the length.
pub proof fn lemma_find_char(s: Seq<char>, c: char, from: int)
    requires
        0 <= from <= s.len(),
    ensures
        from <= find_char(s, c, from) <= s.len(),
        find_char(s, c, from) < s.len() ==> s[find_char(s, c, from)] == c,
        forall|i: int| from <= i < find_char(s, c, from) ==> s[i] != c,
    decreases s.len() - from,
{
    if from < s.len() && s[from] != c {
        lemma_find_char(s, c, from + 1);
    }
}

/// `s` has a `c` exactly if `find_char` stops before the end.
pub proof fn lemma_find_char_contains(s: Seq<char>, c: char)
    ensures
        s.contains(c) <==> find_char(s, c, 0) < s.len(),
{
    lemma_find_char(s, c, 0);
    if find_char(s, c, 0) < s.len() {
        assert(s[find_char(s, c, 0)] == c);
    }
}

/// `s` without its first `c`; `s` itself if it has none.
pub open spec fn remove_first(s: Seq<char>, c: char) -> Seq<char> {
    let at = find_char(s, c, 0);
    if at < s.len() {
        s.take(at) + s.skip(at + 1)
    } else {
        s
    }
}

/// The pieces of `s` from position `from` on that the separator `sep`
/// parts: one more than there are separators, empty pieces included.
pub open spec fn split_from(s: Seq<char>, sep: char, from: int) -> Seq<Seq<char>>
    decreases s.len() - from,
{
    if from < 0 || from > s.len() {
        Seq::empty()
    } else {
        let at = find_char(s, sep, from);
        if at >= s.len() {
            seq![s.subrange(from, s.len() as int)]
        } else {
            proof {
                lemma_find_char(s, sep, from);
            }
            seq![s.subrange(from, at)] + split_from(s, sep, at + 1)
        }
    }
}

/// The pieces of `s` that the separator `sep` parts.
pub open spec fn split(s: Seq<char>, sep: char) -> Seq<Seq<char>> {
    split_from(s, sep, 0)
}

/// Whether `c` is one of the ten decimal digits.
pub open spec fn is_digit(c: char) -> bool {
    '0' <= c <= '9'
}

/// The number a sequence of decimal digits denotes.
pub open spec fn digits_value(s: Seq<char>) -> nat
    decreases s.len(),
{
    if s.len() == 0 {
        0
    } else {
        (digits_value(s.drop_last()) * 10 + (s.last() as int - '0' as int)) as nat
    }
}

/// The digits of a decimal number text: the text without one leading `+`.
pub open spec fn unsigned_digits(s: Seq<char>) -> Seq<char> {
    if s.len() > 0 && s[0] == '+' {
        s.skip(1)
    } else {
        s
    }
}

/// The number that `s` denotes, if `s` is one optional `+` and then one or
/// more decimal digits, and the number is at most `max`.
pub open spec fn decimal(s: Seq<char>, max: u64) -> Option<u64> {
    let digits = unsigned_digits(s);
    if digits.len() > 0 && (forall|i: int| 0 <= i < digits.len() ==> is_digit(#[trigger] digits[i]))
        && digits_value(digits) <= max {
        Some(digits_value(digits) as u64)
    } else {
        None
    }
}

/// A number grows with every digit appended to it.
pub proof fn lemma_digits_value_grows(s: Seq<char>, n: int)
    requires
        0 <= n <= s.len(),
        forall|i: int| 0 <= i < s.len() ==> is_digit(#[trigger] s[i]),
    ensures
        digits_value(s.take(n)) <= digits_value(s),
    decreases s.len() - n,
{
    if n < s.len() {
        let longer = s.take(n + 1);
        assert(longer.drop_last() =~= s.take(n));
        assert(is_digit(s[n]));
        assert(longer.last() == s[n]);
        assert(digits_value(longer) == digits_value(s.take(n)) * 10 + (s[n] as int - '0' as int));
        lemma_digits_value_grows(s, n + 1);
    } else {
        assert(s.take(n) =~= s);
    }
}

/// The position of the first `c` in `v` from `from` on, or its length.
pub fn find_in(v: &Vec<char>, c: char, from: usize) -> (r: usize)
    requires
        from <= v.len(),
    ensures
        r == find_char(v@, c, from as int),
        from <= r <= v.len(),
        r < v.len() ==> v@[r as int] == c,
        forall|i: int| from <= i < r ==> v@[i] != c,
{
    let mut i: usize = from;
    while i < v.len() && v[i] != c
        invariant
            from <= i <= v.len(),
            find_char(v@, c, from as int) == find_char(v@, c, i as int),
        decreases v.len() - i,
    {
        i = i + 1;
    }
    proof {
        lemma_find_char(v@, c, from as int);
    }
    i
}

/// Whether `v` holds a `c`.
pub fn has_char(v: &Vec<char>, c: char) -> (r: bool)
    ensures
        r == v@.contains(c),
{
    proof {
        lemma_find_char_contains(v@, c);
    }
    find_in(v, c, 0) < v.len()
}

/// The characters of `v` from `from` up to `to`.
pub fn copy_range(v: &Vec<char>, from: usize, to: usize) -> (r: Vec<char>)
    requires
        from <= to <= v.len(),
    ensures
        r@ == v@.subrange(from as int, to as int),
{
    let mut out: Vec<char> = Vec::new();
    let mut i: usize = from;
    while i < to
        invariant
            from <= i <= to <= v.len(),
            out@ == v@.subrange(from as int, i as int),
        decreases to - i,
    {
        out.push(v[i]);
        assert(out@ =~= v@.subrange(from as int, i + 1));
        i = i + 1;
    }
    out
}

/// `v` without its first `c`.
pub fn without_first(v: &Vec<char>, c: char) -> (r: Vec<char>)
    ensures
        r@ == remove_first(v@, c),
{
    let at: usize = find_in(v, c, 0);
    let mut out: Vec<char> = copy_range(v, 0, at);
    if at < v.len() {
        let mut i: usize = at + 1;
        while i < v.len()
            invariant
                at < i <= v.len(),
                out@ == v@.take(at as int) + v@.subrange(at + 1, i as int),
            decreases v.len() - i,
        {
            out.push(v[i]);
            assert(out@ =~= v@.take(at as int) + v@.subrange(at + 1, i + 1));
            i = i + 1;
        }
        assert(out@ =~= remove_first(v@, c));
    } else {
        assert(out@ =~= v@);
    }
    out
}

/// Reads `v` as a decimal number of at most `max`.
pub fn parse_decimal(v: &Vec<char>, max: u64) -> (r: Option<u64>)
    ensures
        r == decimal(v@, max),
{
    let n: usize = v.len();
    let start: usize = if n > 0 && v[0] == '+' {
        1
    } else {
        0
    };
    let ghost digits = unsigned_digits(v@);
    assert(digits =~= v@.subrange(start as int, n as int));
    if start == n {
        return None;
    }
    let mut acc: u64 = 0;
    let mut i: usize = start;
    while i < n
        invariant
            start <= i <= n,
            n == v.len(),
            digits == v@.subrange(start as int, n as int),
            digits == unsigned_digits(v@),
            forall|k: int| 0 <= k < i - start ==> is_digit(#[trigger] digits[k]),
            acc == digits_value(digits.take(i - start)),
            acc <= max,
        decreases n - i,
    {
        let c: char = v[i];
        assert(c == digits[i - start]);
        if !('0' <= c && c <= '9') {
            assert(0 <= i - start < digits.len());
            assert(!is_digit(digits[i - start]));
            return None;
        }
        let d: u64 = (c as u32 - '0' as u32) as u64;
        proof {
            let longer = digits.take(i - start + 1);
            assert(longer.drop_last() =~= digits.take(i - start));
            assert(longer.last() == c);
            assert(digits_value(longer) == acc * 10 + d);
            if d > max || acc > (max - d) / 10 {
                assert(acc * 10 + d > max);
                if forall|k: int| 0 <= k < digits.len() ==> is_digit(#[trigger] digits[k]) {
                    lemma_digits_value_grows(digits, i - start + 1);
                }
            }
        }
        if d > max || acc > (max - d) / 10 {
            return None;
        }
        acc = acc * 10 + d;
        i = i + 1;
    }
    assert(digits.take(n - start) =~= digits);
    Some(acc)
}

/// `s` without any `c`: the other characters, in their order.
pub open spec fn without_char(s: Seq<char>, c: char) -> Seq<char>
    decreases s.len(),
{
    if s.len() == 0 {
        s
    } else if s.last() == c {
        without_char(s.drop_last(), c)
    } else {
        without_char(s.drop_last(), c).push(s.last())
    }
}

/// A text that holds no `c` loses nothing when every `c` is taken out.
pub proof fn lemma_without_char_absent(s: Seq<char>, c: char)
    requires
        forall|i: int| 0 <= i < s.len() ==> s[i] != c,
    ensures
        without_char(s, c) == s,
    decreases s.len(),
{
    if s.len() > 0 {
        lemma_without_char_absent(s.drop_last(), c);
        assert(s.drop_last().push(s.last()) =~= s);
    }
}

/// Taking every `c` out of two joined texts is joining what is left of
/// each.
pub proof fn lemma_without_char_joined(a: Seq<char>, b: Seq<char>, c: char)
    ensures
        without_char(a + b, c) == without_char(a, c) + without_char(b, c),
    decreases b.len(),
{
    if b.len() == 0 {
        assert(a + b =~= a);
        assert(without_char(a, c) + without_char(b, c) =~= without_char(a, c));
    } else {
        lemma_without_char_joined(a, b.drop_last(), c);
        assert((a + b).drop_last() =~= a + b.drop_last());
        assert((a + b).last() == b.last());
        if b.last() != c {
            assert(without_char(a, c) + without_char(b.drop_last(), c).push(b.last()) =~= (
            without_char(a, c) + without_char(b.drop_last(), c)).push(b.last()));
        }
    }
}

/// A copy of `s` without any `c`.
pub fn remove_char(s: &str, c: char) -> (r: String)
    ensures
        r@ == without_char(s@, c),
{
    let chars: Vec<char> = chars_of(s);
    let n: usize = chars.len();
    let mut out: String = String::new();
    let mut pos: usize = 0;
    loop
        invariant
            chars@ == s@,
            n == chars.len(),
            pos <= n,
            out@ == without_char(s@.take(pos as int), c),
        decreases n - pos,
    {
        let at: usize = find_in(&chars, c, pos);
        out.append(s.substring_char(pos, at));
        proof {
            let piece = s@.subrange(pos as int, at as int);
            assert(s@.take(at as int) =~= s@.take(pos as int) + piece);
            lemma_without_char_joined(s@.take(pos as int), piece, c);
            lemma_without_char_absent(piece, c);
        }
        if at >= n {
            assert(s@.take(n as int) =~= s@);
            return out;
        }
        proof {
            let one = seq![c];
            assert(s@.take(at + 1) =~= s@.take(at as int) + one);
            lemma_without_char_joined(s@.take(at as int), one, c);
            assert(one.drop_last() =~= Seq::<char>::empty());
            assert(without_char(one.drop_last(), c) =~= Seq::<char>::empty());
            assert(without_char(one, c) =~= Seq::<char>::empty());
            assert(without_char(s@.take(at as int), c) + Seq::<char>::empty() =~= without_char(
                s@.take(at as int),
                c,
            ));
            assert(out@ =~= without_char(s@.take(at + 1), c));
        }
        pos = at + 1;
    }
}

} // verus!
