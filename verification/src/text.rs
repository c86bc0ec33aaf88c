//! Text as sequences of characters: conversion between strings and character
//! vectors, decimal numbers, splitting on a separator, and the two std
//! conversions whose results are only named.

use vstd::prelude::*;

verus! {

/// `String::push`: appends one character.
pub assume_specification[ String::push ](s: &mut String, ch: char)
    ensures
        final(s)@ == old(s)@.push(ch),
;

/// An optional string as optional characters.
pub open spec fn optional_text(text: Option<String>) -> Option<Seq<char>> {
    match text {
        Some(t) => Some(t@),
        None => None,
    }
}

/// A result whose error is a static message, with the message as characters.
pub open spec fn with_error_text<T>(result: Result<T, &'static str>) -> Result<T, Seq<char>> {
    match result {
        Ok(value) => Ok(value),
        Err(reason) => Err(reason@),
    }
}

/// What `str::to_uppercase` makes of a text: its upper-case equivalent under
/// Unicode's case mapping, which may change the number of characters.
pub uninterp spec fn uppercase(s: Seq<char>) -> Seq<char>;

/// `str::to_uppercase`.
#[verifier::external_body]
pub(crate) fn to_uppercase(s: &str) -> (upper: String)
    ensures
        upper@ == uppercase(s@),
{
    s.to_uppercase()
}

/// What `String::from_utf8_lossy` makes of bytes: their text as UTF-8, with
/// the replacement character in place of each ill-formed stretch.
pub uninterp spec fn utf8_lossy(bytes: Seq<u8>) -> Seq<char>;

/// `String::from_utf8_lossy`, as an owned string.
#[verifier::external_body]
pub(crate) fn lossy_text(bytes: &[u8]) -> (text: String)
    ensures
        text@ == utf8_lossy(bytes@),
{
    String::from_utf8_lossy(bytes).into_owned()
}

/// The characters of `s`.
pub fn to_chars(s: &str) -> (chars: Vec<char>)
    ensures
        chars@ == s@,
{
    let mut chars: Vec<char> = Vec::new();
    for c in it: s.chars()
        invariant
            it.seq() == s@,
            chars@ == s@.take(it.index() as int),
    {
        chars.push(c);
    }
    chars
}

/// The string made of `chars`.
pub fn from_chars(chars: &Vec<char>) -> (s: String)
    ensures
        s@ == chars@,
{
    let mut s = String::new();
    let mut i: usize = 0;
    while i < chars.len()
        invariant
            i <= chars.len(),
            s@ == chars@.take(i as int),
        decreases chars.len() - i,
    {
        s.push(chars[i]);
        i += 1;
    }
    s
}

/// Whether two texts hold the same characters.
pub fn same_text(a: &str, b: &str) -> (same: bool)
    ensures
        same == (a@ == b@),
{
    a.to_owned() == b.to_owned()
}

/// The characters of `chars` from `from` up to, not including, `to`.
pub fn copy_range(chars: &Vec<char>, from: usize, to: usize) -> (part: Vec<char>)
    requires
        from <= to <= chars.len(),
    ensures
        part@ == chars@.subrange(from as int, to as int),
{
    let mut part: Vec<char> = Vec::new();
    let mut i: usize = from;
    while i < to
        invariant
            from <= i <= to <= chars.len(),
            part@ == chars@.subrange(from as int, i as int),
        decreases to - i,
    {
        part.push(chars[i]);
        i += 1;
    }
    part
}

/// The character that writes the digit `d`.
pub open spec fn digit_char(d: nat) -> char {
    if d == 0 {
        '0'
    } else if d == 1 {
        '1'
    } else if d == 2 {
        '2'
    } else if d == 3 {
        '3'
    } else if d == 4 {
        '4'
    } else if d == 5 {
        '5'
    } else if d == 6 {
        '6'
    } else if d == 7 {
        '7'
    } else if d == 8 {
        '8'
    } else {
        '9'
    }
}

/// The digit that `c` writes, if it is one of `0` to `9`.
pub open spec fn digit_value(c: char) -> Option<nat> {
    if c == '0' {
        Some(0)
    } else if c == '1' {
        Some(1)
    } else if c == '2' {
        Some(2)
    } else if c == '3' {
        Some(3)
    } else if c == '4' {
        Some(4)
    } else if c == '5' {
        Some(5)
    } else if c == '6' {
        Some(6)
    } else if c == '7' {
        Some(7)
    } else if c == '8' {
        Some(8)
    } else if c == '9' {
        Some(9)
    } else {
        None
    }
}

/// `n` written in decimal, without sign or leading zeros.
pub open spec fn decimal(n: nat) -> Seq<char>
    decreases n,
{
    if n < 10 {
        seq![digit_char(n)]
    } else {
        decimal(n / 10).push(digit_char(n % 10))
    }
}

fn digit_of(d: usize) -> (c: char)
    requires
        d < 10,
    ensures
        c == digit_char(d as nat),
{
    if d == 0 {
        '0'
    } else if d == 1 {
        '1'
    } else if d == 2 {
        '2'
    } else if d == 3 {
        '3'
    } else if d == 4 {
        '4'
    } else if d == 5 {
        '5'
    } else if d == 6 {
        '6'
    } else if d == 7 {
        '7'
    } else if d == 8 {
        '8'
    } else {
        '9'
    }
}

fn value_of(c: char) -> (d: Option<usize>)
    ensures
        match d {
            Some(v) => digit_value(c) == Some(v as nat) && v < 10,
            None => digit_value(c) is None,
        },
{
    if c == '0' {
        Some(0)
    } else if c == '1' {
        Some(1)
    } else if c == '2' {
        Some(2)
    } else if c == '3' {
        Some(3)
    } else if c == '4' {
        Some(4)
    } else if c == '5' {
        Some(5)
    } else if c == '6' {
        Some(6)
    } else if c == '7' {
        Some(7)
    } else if c == '8' {
        Some(8)
    } else if c == '9' {
        Some(9)
    } else {
        None
    }
}

/// Appends `n` in decimal to `out`.
pub fn push_decimal(n: usize, out: &mut Vec<char>)
    ensures
        final(out)@ == old(out)@ + decimal(n as nat),
    decreases n,
{
    if n < 10 {
        out.push(digit_of(n));
    } else {
        push_decimal(n / 10, out);
        out.push(digit_of(n % 10));
    }
}

/// `n` in decimal.
pub fn decimal_text(n: usize) -> (text: String)
    ensures
        text@ == decimal(n as nat),
{
    let mut chars: Vec<char> = Vec::new();
    push_decimal(n, &mut chars);
    from_chars(&chars)
}

/// The part of `s` after its last `sep`, or all of `s` if it holds none.
pub open spec fn last_segment(s: Seq<char>, sep: char) -> Seq<char>
    decreases s.len(),
{
    if s.len() == 0 {
        s
    } else if s.last() == sep {
        Seq::empty()
    } else {
        last_segment(s.drop_last(), sep).push(s.last())
    }
}

proof fn lemma_last_segment(s: Seq<char>, sep: char, start: int)
    requires
        0 <= start <= s.len(),
        forall|i: int| start <= i < s.len() ==> s[i] != sep,
        start == 0 || s[start - 1] == sep,
    ensures
        last_segment(s, sep) == s.subrange(start, s.len() as int),
    decreases s.len(),
{
    if s.len() == start {
        assert(s.subrange(start, s.len() as int) =~= Seq::empty());
        if s.len() == 0 {
            assert(s =~= Seq::empty());
        }
    } else {
        let front = s.drop_last();
        assert forall|i: int| start <= i < front.len() implies front[i] != sep by {
            assert(front[i] == s[i]);
        }
        lemma_last_segment(front, sep, start);
        assert(front.subrange(start, front.len() as int).push(s.last()) =~= s.subrange(
            start,
            s.len() as int,
        ));
    }
}

/// The part of `s` after its last `sep`.
pub fn last_segment_of(s: &str, sep: char) -> (segment: String)
    ensures
        segment@ == last_segment(s@, sep),
{
    let chars = to_chars(s);
    let mut start: usize = chars.len();
    while start > 0 && chars[start - 1] != sep
        invariant
            start <= chars.len(),
            forall|i: int| start <= i < chars.len() ==> chars@[i] != sep,
        decreases start,
    {
        start -= 1;
    }
    proof {
        lemma_last_segment(chars@, sep, start as int);
    }
    let part = copy_range(&chars, start, chars.len());
    from_chars(&part)
}

/// Whether `s` begins with `prefix`.
pub fn starts_with(s: &str, prefix: &str) -> (found: bool)
    ensures
        found == prefix@.is_prefix_of(s@),
{
    let chars = to_chars(s);
    let head = to_chars(prefix);
    if head.len() > chars.len() {
        return false;
    }
    let mut i: usize = 0;
    while i < head.len()
        invariant
            i <= head.len() <= chars.len(),
            chars@ == s@,
            head@ == prefix@,
            forall|j: int| 0 <= j < i ==> head@[j] == chars@[j],
        decreases head.len() - i,
    {
        if head[i] != chars[i] {
            assert(chars@.subrange(0, head@.len() as int)[i as int] != head@[i as int]);
            return false;
        }
        i += 1;
    }
    assert(head@ =~= chars@.subrange(0, head@.len() as int));
    true
}

/// Whether `sep` stands in `s` at position `at`.
pub open spec fn matches_at(s: Seq<char>, sep: Seq<char>, at: int) -> bool {
    0 <= at && at + sep.len() <= s.len() && s.subrange(at, at + sep.len()) == sep
}

/// The pieces of `s` from `start` on, where the search for the next
/// separator has reached `at`.
pub open spec fn split_from(s: Seq<char>, sep: Seq<char>, start: int, at: int) -> Seq<Seq<char>>
    recommends
        0 <= start <= at,
    decreases s.len() - at,
{
    if sep.len() == 0 || at + sep.len() > s.len() {
        seq![s.subrange(start, s.len() as int)]
    } else if matches_at(s, sep, at) {
        seq![s.subrange(start, at)] + split_from(s, sep, at + sep.len(), at + sep.len())
    } else {
        split_from(s, sep, start, at + 1)
    }
}

/// The pieces between the occurrences of `sep` in `s`, found from left to
/// right without overlap. There is always at least one piece; a text without
/// the separator is its own single piece.
pub open spec fn split(s: Seq<char>, sep: Seq<char>) -> Seq<Seq<char>> {
    split_from(s, sep, 0, 0)
}

/// The character sequences held by a sequence of vectors.
pub open spec fn texts(pieces: Seq<Vec<char>>) -> Seq<Seq<char>> {
    pieces.map_values(|p: Vec<char>| p@)
}

/// A split yields at least one piece.
pub proof fn lemma_split_nonempty(s: Seq<char>, sep: Seq<char>, start: int, at: int)
    ensures
        split_from(s, sep, start, at).len() >= 1,
    decreases s.len() - at,
{
    if sep.len() == 0 || at + sep.len() > s.len() {
    } else if matches_at(s, sep, at) {
    } else {
        lemma_split_nonempty(s, sep, start, at + 1);
    }
}

fn matches_here(s: &Vec<char>, sep: &Vec<char>, at: usize) -> (found: bool)
    requires
        at + sep.len() <= s.len(),
    ensures
        found == matches_at(s@, sep@, at as int),
{
    let mut i: usize = 0;
    while i < sep.len()
        invariant
            i <= sep.len(),
            at + sep.len() <= s.len(),
            forall|j: int| 0 <= j < i ==> s@[at + j] == sep@[j],
        decreases sep.len() - i,
    {
        if s[at + i] != sep[i] {
            assert(s@.subrange(at as int, at + sep.len())[i as int] != sep@[i as int]);
            return false;
        }
        i += 1;
    }
    assert(s@.subrange(at as int, at + sep.len()) =~= sep@);
    true
}

/// Splits `s` at each occurrence of `sep`.
pub fn split_chars(s: &Vec<char>, sep: &Vec<char>) -> (pieces: Vec<Vec<char>>)
    requires
        sep.len() > 0,
    ensures
        texts(pieces@) == split(s@, sep@),
        pieces.len() >= 1,
{
    let mut pieces: Vec<Vec<char>> = Vec::new();
    let mut start: usize = 0;
    let mut at: usize = 0;
    assert(texts(pieces@) =~= Seq::empty());
    while sep.len() <= s.len() && at <= s.len() - sep.len()
        invariant
            sep.len() > 0,
            start <= at <= s.len(),
            split(s@, sep@) == texts(pieces@) + split_from(s@, sep@, start as int, at as int),
        decreases s.len() - at,
    {
        if matches_here(s, sep, at) {
            let piece = copy_range(s, start, at);
            let ghost before = pieces@;
            pieces.push(piece);
            assert(texts(pieces@) =~= texts(before) + seq![s@.subrange(start as int, at as int)]);
            at += sep.len();
            start = at;
        } else {
            at += 1;
        }
    }
    let piece = copy_range(s, start, s.len());
    let ghost before = pieces@;
    pieces.push(piece);
    assert(texts(pieces@) =~= texts(before) + seq![s@.subrange(start as int, s@.len() as int)]);
    pieces
}

/// Splits `s` at each occurrence of `sep`.
pub fn split_text(s: &str, sep: &str) -> (pieces: Vec<Vec<char>>)
    requires
        sep@.len() > 0,
    ensures
        texts(pieces@) == split(s@, sep@),
        pieces.len() >= 1,
{
    let chars = to_chars(s);
    let by = to_chars(sep);
    split_chars(&chars, &by)
}

/// The number that a run of digits writes; zero for no digits, nothing if a
/// character is no digit.
pub open spec fn digits_value(s: Seq<char>) -> Option<nat>
    decreases s.len(),
{
    if s.len() == 0 {
        Some(0)
    } else {
        match (digits_value(s.drop_last()), digit_value(s.last())) {
            (Some(high), Some(low)) => Some(10 * high + low),
            _ => None,
        }
    }
}

/// The number that `s` writes in decimal: one or more digits after an
/// optional `+`.
pub open spec fn unsigned_value(s: Seq<char>) -> Option<nat> {
    let digits = if s.len() > 0 && s[0] == '+' {
        s.skip(1)
    } else {
        s
    };
    if digits.len() == 0 {
        None
    } else {
        digits_value(digits)
    }
}

/// The number that `s` writes in decimal: one or more digits after an
/// optional `+` or `-`.
pub open spec fn signed_value(s: Seq<char>) -> Option<int> {
    if s.len() > 0 && s[0] == '-' {
        if s.len() == 1 {
            None
        } else {
            match digits_value(s.skip(1)) {
                Some(n) => Some(-(n as int)),
                None => None,
            }
        }
    } else {
        match unsigned_value(s) {
            Some(n) => Some(n as int),
            None => None,
        }
    }
}

/// A run of digits has a value only if each of its beginnings has one, and
/// that value is no smaller than theirs.
proof fn lemma_digits_prefix(s: Seq<char>, k: int)
    requires
        0 <= k <= s.len(),
    ensures
        digits_value(s) is Some ==> digits_value(s.take(k)) is Some && digits_value(s.take(k))->0
            <= digits_value(s)->0,
    decreases s.len() - k,
{
    if k == s.len() {
        assert(s.take(k) =~= s);
    } else {
        lemma_digits_prefix(s, k + 1);
        assert(s.take(k + 1).drop_last() =~= s.take(k));
    }
}

/// The value of the digits of `s` from `from` on, if it is at most `limit`.
fn bounded_digits(s: &Vec<char>, from: usize, limit: usize) -> (value: Option<usize>)
    requires
        from <= s.len(),
    ensures
        match value {
            Some(v) => digits_value(s@.skip(from as int)) == Some(v as nat) && v <= limit,
            None => match digits_value(s@.skip(from as int)) {
                Some(n) => n > limit,
                None => true,
            },
        },
{
    let ghost digits = s@.skip(from as int);
    let mut value: usize = 0;
    let mut i: usize = from;
    assert(digits.take(0) =~= Seq::empty());
    while i < s.len()
        invariant
            from <= i <= s.len(),
            digits == s@.skip(from as int),
            digits_value(digits.take(i - from)) == Some(value as nat),
            value <= limit,
        decreases s.len() - i,
    {
        proof {
            lemma_digits_prefix(digits, i - from + 1);
            assert(digits.take(i - from + 1).drop_last() =~= digits.take(i - from));
            assert(digits.take(i - from + 1).last() == s@[i as int]);
        }
        match value_of(s[i]) {
            None => {
                return None;
            },
            Some(d) => {
                if d > limit || value > (limit - d) / 10 {
                    return None;
                }
                value = value * 10 + d;
            },
        }
        i += 1;
    }
    assert(digits.take(i - from) =~= digits);
    Some(value)
}

/// Reads a `usize` written in decimal.
pub fn parse_usize(s: &str) -> (value: Option<usize>)
    ensures
        value == match unsigned_value(s@) {
            Some(n) => if n <= usize::MAX {
                Some(n as usize)
            } else {
                None
            },
            None => None,
        },
{
    let chars = to_chars(s);
    let from: usize = if chars.len() > 0 && chars[0] == '+' {
        1
    } else {
        0
    };
    if from == chars.len() {
        return None;
    }
    assert(chars@.skip(0) =~= chars@);
    bounded_digits(&chars, from, usize::MAX)
}

/// Reads an `i16` written in decimal.
pub fn parse_i16(s: &str) -> (value: Option<i16>)
    ensures
        value == match signed_value(s@) {
            Some(n) => if -32768 <= n <= 32767 {
                Some(n as i16)
            } else {
                None
            },
            None => None,
        },
{
    let chars = to_chars(s);
    if chars.len() > 0 && chars[0] == '-' {
        if chars.len() == 1 {
            return None;
        }
        match bounded_digits(&chars, 1, 32768) {
            Some(n) => {
                if n == 32768 {
                    Some(-32768)
                } else {
                    let small = n as i16;
                    Some(-small)
                }
            },
            None => None,
        }
    } else {
        let from: usize = if chars.len() > 0 && chars[0] == '+' {
            1
        } else {
            0
        };
        if from == chars.len() {
            return None;
        }
        assert(chars@.skip(0) =~= chars@);
        match bounded_digits(&chars, from, 32767) {
            Some(n) => Some(n as i16),
            None => None,
        }
    }
}

/// The pieces written one after the other with `sep` between them.
pub open spec fn join(pieces: Seq<Seq<char>>, sep: Seq<char>) -> Seq<char>
    decreases pieces.len(),
{
    if pieces.len() == 0 {
        Seq::empty()
    } else if pieces.len() == 1 {
        pieces[0]
    } else {
        pieces[0] + sep + join(pieces.skip(1), sep)
    }
}

proof fn lemma_join_split_from(s: Seq<char>, sep: Seq<char>, start: int, at: int)
    requires
        0 <= start <= at <= s.len(),
        sep.len() > 0,
    ensures
        join(split_from(s, sep, start, at), sep) == s.subrange(start, s.len() as int),
    decreases s.len() - at,
{
    if at + sep.len() > s.len() {
    } else if matches_at(s, sep, at) {
        let next = at + sep.len();
        let rest = split_from(s, sep, next, next);
        lemma_join_split_from(s, sep, next, next);
        lemma_split_nonempty(s, sep, next, next);
        let all = seq![s.subrange(start, at)] + rest;
        assert(all.skip(1) =~= rest);
        assert(all[0] == s.subrange(start, at));
        assert(s.subrange(start, at) + sep + s.subrange(next, s.len() as int) =~= s.subrange(
            start,
            s.len() as int,
        ));
    } else {
        lemma_join_split_from(s, sep, start, at + 1);
    }
}

/// Splitting loses nothing: the pieces, joined by the separator, are the
/// text again.
pub proof fn lemma_join_split(s: Seq<char>, sep: Seq<char>)
    requires
        sep.len() > 0,
    ensures
        join(split(s, sep), sep) == s,
{
    lemma_join_split_from(s, sep, 0, 0);
    assert(s.subrange(0, s.len() as int) =~= s);
}

/// A number written in decimal reads back as itself.
pub proof fn lemma_decimal_reads_back(n: nat)
    ensures
        digits_value(decimal(n)) == Some(n),
        decimal(n).len() >= 1,
        decimal(n)[0] != '+',
        decimal(n)[0] != '-',
        unsigned_value(decimal(n)) == Some(n),
        signed_value(decimal(n)) == Some(n as int),
    decreases n,
{
    if n < 10 {
        assert(decimal(n).drop_last() =~= Seq::<char>::empty());
        assert(digits_value(Seq::<char>::empty()) == Some(0nat));
    } else {
        lemma_decimal_reads_back(n / 10);
        assert(decimal(n).drop_last() =~= decimal(n / 10));
        assert(decimal(n)[0] == decimal(n / 10)[0]);
    }
}

/// Whether `sep` begins at none of the first `upto` positions of `s`.
pub open spec fn begins_nowhere(s: Seq<char>, sep: Seq<char>, upto: int) -> bool {
    forall|q: int| 0 <= q < upto ==> !#[trigger] matches_at(s, sep, q)
}

/// Whether a piece is cut as early as can be: the separator stands nowhere
/// in the last piece, and begins nowhere inside any other piece, not even
/// running over into the separator that ends it.
pub open spec fn cut_early(piece: Seq<char>, sep: Seq<char>, last: bool) -> bool {
    if last {
        begins_nowhere(piece, sep, piece.len() as int)
    } else {
        begins_nowhere(piece + sep, sep, piece.len() as int)
    }
}

proof fn lemma_match_in_window(s: Seq<char>, sep: Seq<char>, start: int, end: int, q: int)
    requires
        0 <= start <= end <= s.len(),
        matches_at(s.subrange(start, end), sep, q),
    ensures
        matches_at(s, sep, start + q),
{
    assert(s.subrange(start, end).subrange(q, q + sep.len()) =~= s.subrange(
        start + q,
        start + q + sep.len(),
    ));
}

proof fn lemma_window_begins_nowhere(s: Seq<char>, sep: Seq<char>, start: int, end: int, upto: int)
    requires
        0 <= start <= end <= s.len(),
        forall|q: int| start <= q < start + upto ==> !matches_at(s, sep, q),
    ensures
        begins_nowhere(s.subrange(start, end), sep, upto),
{
    assert forall|q: int| 0 <= q < upto implies !#[trigger] matches_at(
        s.subrange(start, end),
        sep,
        q,
    ) by {
        if matches_at(s.subrange(start, end), sep, q) {
            lemma_match_in_window(s, sep, start, end, q);
        }
    }
}

proof fn lemma_piece_with_separator(s: Seq<char>, sep: Seq<char>, start: int, at: int)
    requires
        0 <= start <= at,
        matches_at(s, sep, at),
    ensures
        s.subrange(start, at) + sep == s.subrange(start, at + sep.len()),
{
    assert(s.subrange(start, at) + s.subrange(at, at + sep.len()) =~= s.subrange(
        start,
        at + sep.len(),
    ));
}

proof fn lemma_split_from_cut_early(s: Seq<char>, sep: Seq<char>, start: int, at: int)
    requires
        0 <= start <= at <= s.len(),
        sep.len() > 0,
        forall|q: int| start <= q < at ==> !matches_at(s, sep, q),
    ensures
        forall|i: int|
            0 <= i < split_from(s, sep, start, at).len() ==> cut_early(
                #[trigger] split_from(s, sep, start, at)[i],
                sep,
                i == split_from(s, sep, start, at).len() - 1,
            ),
    decreases s.len() - at,
{
    let pieces = split_from(s, sep, start, at);
    if at + sep.len() > s.len() {
        let piece = s.subrange(start, s.len() as int);
        assert(pieces =~= seq![piece]);
        assert forall|q: int| start <= q < start + piece.len() implies !matches_at(s, sep, q) by {}
        lemma_window_begins_nowhere(s, sep, start, s.len() as int, piece.len() as int);
        assert(cut_early(piece, sep, true));
        assert(pieces.len() == 1 && pieces[0] == piece);
    } else if matches_at(s, sep, at) {
        let next = at + sep.len();
        let piece = s.subrange(start, at);
        let rest = split_from(s, sep, next, next);
        lemma_split_from_cut_early(s, sep, next, next);
        lemma_split_nonempty(s, sep, next, next);
        lemma_piece_with_separator(s, sep, start, at);
        lemma_window_begins_nowhere(s, sep, start, next, piece.len() as int);
        assert(cut_early(piece, sep, false));
        assert(pieces =~= seq![piece] + rest);
        assert forall|i: int| 0 <= i < pieces.len() implies cut_early(
            #[trigger] pieces[i],
            sep,
            i == pieces.len() - 1,
        ) by {
            if i > 0 {
                assert(pieces[i] == rest[i - 1]);
                assert(cut_early(rest[i - 1], sep, i - 1 == rest.len() - 1));
            } else {
                assert(pieces[0] == piece);
            }
        }
    } else {
        lemma_split_from_cut_early(s, sep, start, at + 1);
        assert(pieces == split_from(s, sep, start, at + 1));
    }
}

/// Each piece of a split is cut at the first separator after its start.
/// With `lemma_join_split` this says what a split is: the one way to cut
/// the text at separators, taken from left to right.
pub proof fn lemma_split_cut_early(s: Seq<char>, sep: Seq<char>)
    requires
        sep.len() > 0,
    ensures
        forall|i: int|
            0 <= i < split(s, sep).len() ==> cut_early(
                #[trigger] split(s, sep)[i],
                sep,
                i == split(s, sep).len() - 1,
            ),
{
    lemma_split_from_cut_early(s, sep, 0, 0);
}

} // verus!
