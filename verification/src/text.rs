//! Small operations on text: its characters, prefixes and suffixes,
//! finding a character, cutting at it, and reading a number.

use vstd::prelude::*;

verus! {

/// The characters of a string, one by one.
pub fn chars_of(s: &str) -> (v: Vec<char>)
    ensures
        v@ == s@,
{
    let n = s.unicode_len();
    let mut v: Vec<char> = Vec::new();
    let mut i: usize = 0;
    while i < n
        invariant
            i <= n,
            n == s@.len(),
            v@ == s@.subrange(0, i as int),
        decreases n - i,
    {
        v.push(s.get_char(i));
        assert(v@ == s@.subrange(0, i + 1));
        i += 1;
    }
    assert(s@.subrange(0, n as int) == s@);
    v
}

/// Whether `a` starts with `b`.
pub fn starts_with(a: &Vec<char>, b: &Vec<char>) -> (r: bool)
    ensures
        r == b@.is_prefix_of(a@),
{
    if b.len() > a.len() {
        return false;
    }
    let mut i: usize = 0;
    while i < b.len()
        invariant
            i <= b.len() <= a.len(),
            forall|j: int| 0 <= j < i ==> a@[j] == b@[j],
        decreases b.len() - i,
    {
        if a[i] != b[i] {
            return false;
        }
        i += 1;
    }
    assert(a@.subrange(0, b@.len() as int) =~= b@);
    true
}

/// Whether `a` ends with `b`.
pub fn ends_with(a: &Vec<char>, b: &Vec<char>) -> (r: bool)
    ensures
        r == b@.is_suffix_of(a@),
{
    if b.len() > a.len() {
        return false;
    }
    let shift = a.len() - b.len();
    let mut i: usize = 0;
    while i < b.len()
        invariant
            i <= b.len() <= a.len(),
            shift == a.len() - b.len(),
            forall|j: int| 0 <= j < i ==> a@[shift + j] == b@[j],
        decreases b.len() - i,
    {
        if a[shift + i] != b[i] {
            assert(a@.subrange(shift as int, a@.len() as int)[i as int] != b@[i as int]);
            return false;
        }
        i += 1;
    }
    assert(a@.subrange(shift as int, a@.len() as int) =~= b@);
    true
}

/// The first index at or after `i` where `s` holds `c`, or the length of `s`
/// when there is none.
pub open spec fn index_of(s: Seq<char>, c: char, i: int) -> int
    decreases s.len() - i,
{
    if i < 0 || i >= s.len() || s[i] == c {
        i
    } else {
        index_of(s, c, i + 1)
    }
}

/// No `c` stands before the place found, and `c` stands at it unless it is
/// the end of `s`.
pub proof fn lemma_index_of_bounds(s: Seq<char>, c: char, i: int)
    requires
        0 <= i <= s.len(),
    ensures
        i <= index_of(s, c, i) <= s.len(),
        forall|j: int| i <= j < index_of(s, c, i) ==> #[trigger] s[j] != c,
        index_of(s, c, i) < s.len() ==> s[index_of(s, c, i)] == c,
    decreases s.len() - i,
{
    if i < s.len() && s[i] != c {
        lemma_index_of_bounds(s, c, i + 1);
    }
}

/// What stands in `s` from `start` up to the first `c`, or up to the end
/// where there is no `c`.
pub open spec fn head_from(s: Seq<char>, c: char, start: int) -> Seq<char> {
    s.subrange(start, index_of(s, c, start))
}

/// What stands in `s` after the first `c` at or after `start`; `None` where
/// there is no `c`.
pub open spec fn tail_from(s: Seq<char>, c: char, start: int) -> Option<Seq<char>> {
    let k = index_of(s, c, start);
    if k < s.len() {
        Some(s.subrange(k + 1, s.len() as int))
    } else {
        None
    }
}

/// The pieces of `s` from `start` on that the separator `c` parts. There is
/// always at least one piece, and a piece may be empty.
pub open spec fn split_from(s: Seq<char>, c: char, start: int) -> Seq<Seq<char>>
    decreases s.len() - start,
    when 0 <= start <= s.len()
    via split_from_decreases
{
    let k = index_of(s, c, start);
    if k >= s.len() {
        seq![s.subrange(start, s.len() as int)]
    } else {
        seq![s.subrange(start, k)] + split_from(s, c, k + 1)
    }
}

#[via_fn]
proof fn split_from_decreases(s: Seq<char>, c: char, start: int) {
    lemma_index_of_bounds(s, c, start);
}

/// The pieces of `s` that the separator `c` parts.
pub open spec fn split(s: Seq<char>, c: char) -> Seq<Seq<char>> {
    split_from(s, c, 0)
}

/// The texts of the given strings.
pub open spec fn texts(v: Seq<String>) -> Seq<Seq<char>> {
    v.map_values(|s: String| s@)
}

/// The first index at or after `from` where `chars` holds `c`.
pub fn find_char(chars: &Vec<char>, c: char, from: usize) -> (k: usize)
    requires
        from <= chars.len(),
    ensures
        k == index_of(chars@, c, from as int),
        from <= k <= chars.len(),
{
    let mut i: usize = from;
    while i < chars.len() && chars[i] != c
        invariant
            from <= i <= chars.len(),
            index_of(chars@, c, from as int) == index_of(chars@, c, i as int),
        decreases chars.len() - i,
    {
        i += 1;
    }
    i
}

/// The pieces of `s` that the separator `c` parts.
pub fn split_text(s: &str, c: char) -> (pieces: Vec<String>)
    ensures
        texts(pieces@) == split(s@, c),
{
    let chars = chars_of(s);
    let mut pieces: Vec<String> = Vec::new();
    let mut start: usize = 0;
    assert(texts(pieces@) =~= Seq::<Seq<char>>::empty());
    loop
        invariant
            chars@ == s@,
            start <= chars.len(),
            split(s@, c) == texts(pieces@) + split_from(s@, c, start as int),
        decreases chars.len() - start,
    {
        let k = find_char(&chars, c, start);
        let piece = s.substring_char(start, k).to_owned();
        let ghost before = pieces@;
        pieces.push(piece);
        assert(texts(pieces@) =~= texts(before).push(s@.subrange(start as int, k as int)));
        if k >= chars.len() {
            assert(split(s@, c) =~= texts(pieces@));
            return pieces;
        }
        assert(texts(before) + (seq![s@.subrange(start as int, k as int)] + split_from(
            s@,
            c,
            k + 1,
        )) =~= texts(pieces@) + split_from(s@, c, k + 1));
        start = k + 1;
    }
}

/// Whether `c` is a decimal digit.
pub open spec fn is_digit(c: char) -> bool {
    '0' <= c <= '9'
}

/// The number that the decimal digits `s` write.
pub open spec fn decimal_value(s: Seq<char>) -> nat
    decreases s.len(),
{
    if s.len() == 0 {
        0
    } else {
        decimal_value(s.drop_last()) * 10 + (s.last() as nat - '0' as nat) as nat
    }
}

/// The digits of a number in text: the text itself, without the `+` that
/// may lead it.
pub open spec fn digits_of(s: Seq<char>) -> Seq<char> {
    if s.len() > 0 && s[0] == '+' {
        s.subrange(1, s.len() as int)
    } else {
        s
    }
}

/// The 16-bit number that `s` writes in decimal, if it writes one: digits
/// only, at least one, after an optional `+`, and no more than 65535.
pub open spec fn parse_u16(s: Seq<char>) -> Option<u16> {
    let d = digits_of(s);
    if d.len() > 0 && (forall|i: int| 0 <= i < d.len() ==> is_digit(#[trigger] d[i]))
        && decimal_value(d) <= u16::MAX {
        Some(decimal_value(d) as u16)
    } else {
        None
    }
}

/// More digits never write a smaller number.
pub proof fn lemma_decimal_value_grows(s: Seq<char>, n: int)
    requires
        0 <= n <= s.len(),
    ensures
        decimal_value(s.take(n)) <= decimal_value(s),
    decreases s.len() - n,
{
    if n == s.len() {
        assert(s.take(n) =~= s);
    } else {
        assert(s.take(n + 1).drop_last() =~= s.take(n));
        lemma_decimal_value_grows(s, n + 1);
    }
}

/// Reads `s` as a 16-bit number in decimal.
pub fn read_u16(s: &str) -> (r: Option<u16>)
    ensures
        r == parse_u16(s@),
{
    let chars = chars_of(s);
    let first: usize = if chars.len() > 0 && chars[0] == '+' {
        1
    } else {
        0
    };
    let ghost d = digits_of(s@);
    assert(d =~= chars@.subrange(first as int, chars.len() as int));
    if first == chars.len() {
        return None;
    }
    let mut value: u32 = 0;
    let mut i: usize = first;
    while i < chars.len()
        invariant
            first <= i <= chars.len(),
            d == digits_of(s@),
            d == chars@.subrange(first as int, chars.len() as int),
            forall|j: int| 0 <= j < i - first ==> is_digit(#[trigger] d[j]),
            value == decimal_value(d.take(i - first)),
            value <= u16::MAX,
        decreases chars.len() - i,
    {
        let c = chars[i];
        if !('0' <= c && c <= '9') {
            assert(!is_digit(d[i - first]));
            return None;
        }
        assert(d.take(i - first + 1).drop_last() =~= d.take(i - first));
        let digit: u32 = (c as u32) - ('0' as u32);
        value = value * 10 + digit;
        if value > 65535 {
            proof {
                lemma_decimal_value_grows(d, i - first + 1);
            }
            return None;
        }
        i += 1;
    }
    assert(d.take(d.len() as int) =~= d);
    Some(value as u16)
}

} // verus!
