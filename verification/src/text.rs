//! Text as sequences of characters: searching, trimming, splitting, and decimal numbers.
//!
//! The specifications speak of `Seq<char>`; the executable functions work on slices of
//! characters, so that a piece of a text is a sub-slice and nothing is copied until a
//! result is built. Positions count characters, not bytes.

use vstd::prelude::*;
use vstd::slice::slice_subrange;

verus! {

/// `String::push` of the standard library: the string afterwards holds what it held
/// before, and then the character `c`.
pub assume_specification[ String::push ](s: &mut String, c: char)
    ensures
        final(s)@ == old(s)@.push(c),
;

/// The models of a sequence of values, element by element.
pub open spec fn models<T: View>(v: Seq<T>) -> Seq<T::V> {
    Seq::new(v.len(), |i: int| v[i]@)
}

/// The characters of `s`, in order.
pub fn to_chars(s: &str) -> (v: Vec<char>)
    ensures
        v@ == s@,
{
    let mut v: Vec<char> = Vec::new();
    for c in it: s.chars()
        invariant
            v@ == it.seq().take(it.index() as int),
            it.seq() == s@,
    {
        v.push(c);
    }
    v
}

/// A string that holds the characters of `s`.
pub fn to_string(s: &[char]) -> (r: String)
    ensures
        r@ == s@,
{
    let mut r = String::new();
    let mut i: usize = 0;
    while i < s.len()
        invariant
            i <= s.len(),
            r@ == s@.take(i as int),
        decreases s.len() - i,
    {
        r.push(s[i]);
        i += 1;
    }
    r
}

/// Whether `pat` stands in `s` at position `i`.
pub open spec fn occurs_at(s: Seq<char>, pat: Seq<char>, i: int) -> bool {
    0 <= i && i + pat.len() <= s.len() && s.subrange(i, i + pat.len()) == pat
}

/// The first position at or after `from` at which `pat` stands in `s`, or `s.len()` if
/// there is none.
pub open spec fn index_from(s: Seq<char>, pat: Seq<char>, from: int) -> int
    decreases s.len() - from,
{
    if from >= s.len() {
        s.len() as int
    } else if occurs_at(s, pat, from) {
        from
    } else {
        index_from(s, pat, from + 1)
    }
}

/// Whether `s` begins with `pat`.
pub open spec fn starts_with(s: Seq<char>, pat: Seq<char>) -> bool {
    occurs_at(s, pat, 0)
}

/// Whether `pat` stands somewhere in `s`.
pub open spec fn contains(s: Seq<char>, pat: Seq<char>) -> bool {
    exists|i: int| occurs_at(s, pat, i)
}

/// Where a search ends: not before its start and not after the end of the text; at a
/// place where the pattern stands, unless it ends at the end of the text; and after all
/// places from its start on where the pattern does not stand.
pub proof fn lemma_index_from_bounds(s: Seq<char>, pat: Seq<char>, from: int)
    requires
        0 <= from <= s.len(),
    ensures
        from <= index_from(s, pat, from) <= s.len(),
        index_from(s, pat, from) < s.len() ==> occurs_at(s, pat, index_from(s, pat, from)),
        forall|j: int| from <= j < index_from(s, pat, from) ==> !occurs_at(s, pat, j),
    decreases s.len() - from,
{
    if from < s.len() && !occurs_at(s, pat, from) {
        lemma_index_from_bounds(s, pat, from + 1);
    }
}

/// Whether `pat` stands in `s` at position `i`.
pub fn matches_at(s: &[char], pat: &[char], i: usize) -> (b: bool)
    ensures
        b == occurs_at(s@, pat@, i as int),
{
    if i > s.len() || pat.len() > s.len() - i {
        return false;
    }
    let mut k: usize = 0;
    while k < pat.len()
        invariant
            k <= pat.len(),
            i + pat.len() <= s.len(),
            s@.subrange(i as int, i + k) == pat@.take(k as int),
        decreases pat.len() - k,
    {
        if s[i + k] != pat[k] {
            assert(s@.subrange(i as int, i + pat.len())[k as int] != pat@[k as int]);
            return false;
        }
        assert(s@.subrange(i as int, i + k + 1) =~= s@.subrange(i as int, i + k).push(s@[i + k]));
        assert(pat@.take(k + 1) =~= pat@.take(k as int).push(pat@[k as int]));
        k += 1;
    }
    assert(pat@.take(pat.len() as int) =~= pat@);
    true
}

/// The first position at or after `from` at which `pat` stands in `s`, or `s.len()`.
pub fn find(s: &[char], pat: &[char], from: usize) -> (i: usize)
    requires
        from <= s.len(),
    ensures
        i == index_from(s@, pat@, from as int),
        from <= i <= s.len(),
{
    let mut i: usize = from;
    while i < s.len()
        invariant
            from <= i <= s.len(),
            index_from(s@, pat@, from as int) == index_from(s@, pat@, i as int),
        decreases s.len() - i,
    {
        if matches_at(s, pat, i) {
            return i;
        }
        i += 1;
    }
    i
}

/// Whether `s` and `t` hold the same characters.
pub fn same(s: &[char], t: &[char]) -> (b: bool)
    ensures
        b == (s@ == t@),
{
    if s.len() != t.len() {
        return false;
    }
    let b = matches_at(s, t, 0);
    assert(s@.subrange(0, s.len() as int) =~= s@);
    b
}

/// Whether `pat` stands somewhere in `s`.
pub fn has(s: &[char], pat: &[char]) -> (b: bool)
    requires
        pat@.len() > 0,
    ensures
        b == contains(s@, pat@),
{
    let i = find(s, pat, 0);
    proof {
        lemma_index_from_bounds(s@, pat@, 0);
    }
    i < s.len()
}

/// The part of `s` from position `from` up to `to`.
pub fn part<'a>(s: &'a [char], from: usize, to: usize) -> (r: &'a [char])
    requires
        from <= to <= s.len(),
    ensures
        r@ == s@.subrange(from as int, to as int),
{
    slice_subrange(s, from, to)
}

/// A pattern of one character.
pub fn one(c: char) -> (p: Vec<char>)
    ensures
        p@ == seq![c],
{
    let mut p: Vec<char> = Vec::new();
    p.push(c);
    assert(p@ =~= seq![c]);
    p
}

/// The classes of characters that a scan can pass over.
#[derive(Clone, Copy, Debug, PartialEq, Eq, Structural)]
pub enum CharClass {
    /// White space as Unicode lists it.
    White,
    /// Everything that is not white space.
    NonWhite,
    /// The signs `+` and `-`.
    Sign,
}

/// White space, as the Unicode property `White_Space` lists it.
pub open spec fn is_white_space(c: char) -> bool {
    let n = c as u32;
    (0x09 <= n <= 0x0d) || n == 0x20 || n == 0x85 || n == 0xa0 || n == 0x1680 || (0x2000 <= n
        <= 0x200a) || n == 0x2028 || n == 0x2029 || n == 0x202f || n == 0x205f || n == 0x3000
}

/// Whether `c` belongs to `class`.
pub open spec fn in_class(class: CharClass, c: char) -> bool {
    match class {
        CharClass::White => is_white_space(c),
        CharClass::NonWhite => !is_white_space(c),
        CharClass::Sign => c == '+' || c == '-',
    }
}

/// Whether `c` belongs to `class`.
pub fn belongs(class: CharClass, c: char) -> (b: bool)
    ensures
        b == in_class(class, c),
{
    let n: u32 = c as u32;
    let white = (0x09 <= n && n <= 0x0d) || n == 0x20 || n == 0x85 || n == 0xa0 || n == 0x1680
        || (0x2000 <= n && n <= 0x200a) || n == 0x2028 || n == 0x2029 || n == 0x202f || n
        == 0x205f || n == 0x3000;
    match class {
        CharClass::White => white,
        CharClass::NonWhite => !white,
        CharClass::Sign => c == '+' || c == '-',
    }
}

/// The first position at or after `from` whose character is not of `class`, or `s.len()`.
pub open spec fn skip_class(s: Seq<char>, class: CharClass, from: int) -> int
    decreases s.len() - from,
{
    if from < 0 || from >= s.len() {
        s.len() as int
    } else if !in_class(class, s[from]) {
        from
    } else {
        skip_class(s, class, from + 1)
    }
}

/// The end of the last character before `to` and not before `from` that is not of
/// `class`; `from` if there is none.
pub open spec fn back_class(s: Seq<char>, class: CharClass, from: int, to: int) -> int
    decreases to - from,
{
    if to <= from || to > s.len() || from < 0 {
        from
    } else if !in_class(class, s[to - 1]) {
        to
    } else {
        back_class(s, class, from, to - 1)
    }
}

/// Where a scan over a class ends: not before its start and not after the end of the
/// text; after characters of the class only; and at a character that is not of the
/// class, unless it ends at the end of the text.
pub proof fn lemma_skip_class_bounds(s: Seq<char>, class: CharClass, from: int)
    requires
        0 <= from <= s.len(),
    ensures
        from <= skip_class(s, class, from) <= s.len(),
        forall|j: int| from <= j < skip_class(s, class, from) ==> in_class(class, s[j]),
        skip_class(s, class, from) < s.len() ==> !in_class(
            class,
            s[skip_class(s, class, from)],
        ),
    decreases s.len() - from,
{
    if from < s.len() && in_class(class, s[from]) {
        lemma_skip_class_bounds(s, class, from + 1);
    }
}

/// The first position at or after `from` whose character is not of `class`, or `s.len()`.
pub fn skip(s: &[char], class: CharClass, from: usize) -> (i: usize)
    requires
        from <= s.len(),
    ensures
        i == skip_class(s@, class, from as int),
        from <= i <= s.len(),
{
    let mut i: usize = from;
    while i < s.len() && belongs(class, s[i])
        invariant
            from <= i <= s.len(),
            skip_class(s@, class, from as int) == skip_class(s@, class, i as int),
        decreases s.len() - i,
    {
        i += 1;
    }
    i
}

/// The end of the last character in `from..to` that is not of `class`, or `from`.
pub fn back(s: &[char], class: CharClass, from: usize, to: usize) -> (i: usize)
    requires
        from <= to <= s.len(),
    ensures
        i == back_class(s@, class, from as int, to as int),
        from <= i <= to,
{
    let mut i: usize = to;
    while i > from && belongs(class, s[i - 1])
        invariant
            from <= i <= to <= s.len(),
            back_class(s@, class, from as int, to as int) == back_class(
                s@,
                class,
                from as int,
                i as int,
            ),
        decreases i - from,
    {
        i -= 1;
    }
    i
}

/// `s` without the white space at its start and at its end.
pub open spec fn trim(s: Seq<char>) -> Seq<char> {
    let a = skip_class(s, CharClass::White, 0);
    s.subrange(a, back_class(s, CharClass::White, a, s.len() as int))
}

/// `s` without the characters of `class` at its start.
pub open spec fn trim_start_class(s: Seq<char>, class: CharClass) -> Seq<char> {
    s.subrange(skip_class(s, class, 0), s.len() as int)
}

/// `s` without the white space at its start and at its end.
pub fn trimmed<'a>(s: &'a [char]) -> (r: &'a [char])
    ensures
        r@ == trim(s@),
{
    let a = skip(s, CharClass::White, 0);
    let b = back(s, CharClass::White, a, s.len());
    part(s, a, b)
}

/// The position after the copies of `pat` that stand one behind the other from `from` on.
pub open spec fn skip_repeats(s: Seq<char>, pat: Seq<char>, from: int) -> int
    decreases s.len() - from,
{
    if pat.len() > 0 && occurs_at(s, pat, from) {
        skip_repeats(s, pat, from + pat.len())
    } else {
        from
    }
}

/// The position after the copies of `pat` that stand one behind the other from `from` on.
pub fn skip_pattern(s: &[char], pat: &[char], from: usize) -> (i: usize)
    requires
        from <= s.len(),
    ensures
        i == skip_repeats(s@, pat@, from as int),
        from <= i <= s.len(),
{
    let mut i: usize = from;
    if pat.len() == 0 {
        return i;
    }
    while matches_at(s, pat, i)
        invariant
            from <= i <= s.len(),
            pat@.len() > 0,
            skip_repeats(s@, pat@, from as int) == skip_repeats(s@, pat@, i as int),
        decreases s.len() - i,
    {
        i += pat.len();
    }
    i
}

/// `l` without a carriage return at its end.
pub open spec fn without_cr(l: Seq<char>) -> Seq<char> {
    if l.len() > 0 && l.last() == '\r' {
        l.drop_last()
    } else {
        l
    }
}

/// The lines of `s` from position `from` on. A line ends at a line feed; the line feed,
/// and a carriage return just before it, do not belong to the line. What follows the
/// last line feed is a line if it is not empty.
pub open spec fn lines_from(s: Seq<char>, from: int) -> Seq<Seq<char>>
    decreases s.len() - from,
{
    if from < 0 || from >= s.len() {
        Seq::empty()
    } else {
        let i = index_from(s, seq!['\n'], from);
        proof {
            lemma_index_from_bounds(s, seq!['\n'], from);
        }
        if i >= s.len() {
            seq![s.subrange(from, s.len() as int)]
        } else {
            seq![without_cr(s.subrange(from, i))] + lines_from(s, i + 1)
        }
    }
}

/// The lines of `s`.
pub open spec fn lines(s: Seq<char>) -> Seq<Seq<char>> {
    lines_from(s, 0)
}

/// The lines of `s`.
pub fn split_lines<'a>(s: &'a [char]) -> (out: Vec<&'a [char]>)
    ensures
        models(out@) == lines(s@),
{
    let mut out: Vec<&'a [char]> = Vec::new();
    let feed = one('\n');
    let mut from: usize = 0;
    assert(models(out@) =~= Seq::<Seq<char>>::empty());
    while from < s.len()
        invariant
            from <= s.len(),
            feed@ == seq!['\n'],
            models(out@) + lines_from(s@, from as int) == lines_from(s@, 0),
        decreases s.len() - from,
    {
        let i = find(s, feed.as_slice(), from);
        let ghost before = models(out@);
        if i >= s.len() {
            out.push(part(s, from, s.len()));
            assert(models(out@) =~= before.push(s@.subrange(from as int, s.len() as int)));
            from = s.len();
        } else {
            let mut end = i;
            if end > from && s[end - 1] == '\r' {
                end -= 1;
            }
            let line = part(s, from, end);
            proof {
                let raw = s@.subrange(from as int, i as int);
                if raw.len() > 0 && raw.last() == '\r' {
                    assert(line@ =~= raw.drop_last());
                } else {
                    assert(line@ =~= raw);
                }
            }
            out.push(line);
            assert(models(out@) =~= before.push(line@));
            assert(before.push(line@) + lines_from(s@, i + 1) =~= before + (seq![line@]
                + lines_from(s@, i + 1)));
            from = i + 1;
        }
    }
    out
}

/// The pieces of `s` from position `from` on that lie between the places where `pat`
/// stands, at most `limit` of them where there is a limit; the last piece then runs to
/// the end of `s`.
pub open spec fn split_from(s: Seq<char>, pat: Seq<char>, from: int, limit: Option<nat>) -> Seq<
    Seq<char>,
>
    decreases s.len() - from,
{
    if limit == Some(0nat) || from < 0 || from > s.len() || pat.len() == 0 {
        Seq::empty()
    } else {
        let i = index_from(s, pat, from);
        proof {
            lemma_index_from_bounds(s, pat, from);
        }
        if limit == Some(1nat) || i >= s.len() {
            seq![s.subrange(from, s.len() as int)]
        } else {
            seq![s.subrange(from, i)] + split_from(
                s,
                pat,
                i + pat.len(),
                match limit {
                    Some(n) => Some((n - 1) as nat),
                    None => None,
                },
            )
        }
    }
}

/// The pieces of `s` between the places where `pat` stands.
pub open spec fn split(s: Seq<char>, pat: Seq<char>) -> Seq<Seq<char>> {
    split_from(s, pat, 0, None)
}

/// The pieces of `s` between the places where `pat` stands, at most `n` of them.
pub open spec fn splitn(s: Seq<char>, n: nat, pat: Seq<char>) -> Seq<Seq<char>> {
    split_from(s, pat, 0, Some(n))
}

/// The limit of a split as a number of pieces.
pub open spec fn limit_view(limit: Option<usize>) -> Option<nat> {
    match limit {
        Some(n) => Some(n as nat),
        None => None,
    }
}

/// The pieces of `s` between the places where `pat` stands, at most `limit` of them.
pub fn split_pieces<'a>(s: &'a [char], pat: &[char], limit: Option<usize>) -> (out: Vec<
    &'a [char],
>)
    requires
        pat@.len() > 0,
    ensures
        models(out@) == split_from(s@, pat@, 0, limit_view(limit)),
{
    let mut out: Vec<&'a [char]> = Vec::new();
    let mut from: usize = 0;
    let mut left: Option<usize> = limit;
    let mut done: bool = false;
    assert(models(out@) =~= Seq::<Seq<char>>::empty());
    while !done
        invariant
            from <= s.len(),
            pat@.len() > 0,
            !done ==> models(out@) + split_from(s@, pat@, from as int, limit_view(left))
                == split_from(s@, pat@, 0, limit_view(limit)),
            done ==> models(out@) == split_from(s@, pat@, 0, limit_view(limit)),
        decreases s.len() - from + (if done { 0int } else { 1int }),
    {
        let ghost before = models(out@);
        let i = find(s, pat, from);
        let last = match left {
            Some(n) => n <= 1,
            None => false,
        };
        let none = match left {
            Some(n) => n == 0,
            None => false,
        };
        if none {
            assert(before + Seq::<Seq<char>>::empty() =~= before);
            done = true;
        } else if last || i >= s.len() {
            out.push(part(s, from, s.len()));
            assert(models(out@) =~= before.push(s@.subrange(from as int, s.len() as int)));
            assert(before.push(s@.subrange(from as int, s.len() as int)) =~= before
                + seq![s@.subrange(from as int, s.len() as int)]);
            done = true;
        } else {
            proof {
                lemma_index_from_bounds(s@, pat@, from as int);
            }
            let piece = part(s, from, i);
            out.push(piece);
            let ghost rest = split_from(
                s@,
                pat@,
                i + pat@.len(),
                match limit_view(left) {
                    Some(n) => Some((n - 1) as nat),
                    None => None,
                },
            );
            assert(models(out@) =~= before.push(piece@));
            assert(before.push(piece@) + rest =~= before + (seq![piece@] + rest));
            from = i + pat.len();
            left =
            match left {
                Some(n) => Some(n - 1),
                None => None,
            };
        }
    }
    out
}

/// The words of `s` from position `from` on: the longest runs of characters that are not
/// white space.
pub open spec fn tokens_from(s: Seq<char>, from: int) -> Seq<Seq<char>>
    decreases s.len() - from,
{
    if from < 0 || from > s.len() {
        Seq::empty()
    } else {
        let a = skip_class(s, CharClass::White, from);
        proof {
            lemma_skip_class_bounds(s, CharClass::White, from);
        }
        if a >= s.len() {
            Seq::empty()
        } else {
            let b = skip_class(s, CharClass::NonWhite, a);
            proof {
                lemma_skip_class_bounds(s, CharClass::NonWhite, a + 1);
            }
            seq![s.subrange(a, b)] + tokens_from(s, b)
        }
    }
}

/// The words of `s`.
pub open spec fn tokens(s: Seq<char>) -> Seq<Seq<char>> {
    tokens_from(s, 0)
}

/// The words of `s`.
pub fn split_tokens<'a>(s: &'a [char]) -> (out: Vec<&'a [char]>)
    ensures
        models(out@) == tokens(s@),
{
    let mut out: Vec<&'a [char]> = Vec::new();
    let mut from: usize = 0;
    let mut done: bool = false;
    assert(models(out@) =~= Seq::<Seq<char>>::empty());
    while !done
        invariant
            from <= s.len(),
            !done ==> models(out@) + tokens_from(s@, from as int) == tokens_from(s@, 0),
            done ==> models(out@) == tokens_from(s@, 0),
        decreases s.len() - from + (if done { 0int } else { 1int }),
    {
        let ghost before = models(out@);
        let a = skip(s, CharClass::White, from);
        if a >= s.len() {
            assert(before + Seq::<Seq<char>>::empty() =~= before);
            done = true;
        } else {
            let b = skip(s, CharClass::NonWhite, a);
            proof {
                lemma_skip_class_bounds(s@, CharClass::White, from as int);
                lemma_skip_class_bounds(s@, CharClass::NonWhite, a + 1);
            }
            let word = part(s, a, b);
            out.push(word);
            assert(models(out@) =~= before.push(word@));
            assert(before.push(word@) + tokens_from(s@, b as int) =~= before + (seq![word@]
                + tokens_from(s@, b as int)));
            from = b;
        }
    }
    out
}

/// Whether `c` is one of the digits `0` to `9`.
pub open spec fn is_digit(c: char) -> bool {
    '0' as u32 <= c as u32 <= '9' as u32
}

/// The digit `c` as a number.
pub open spec fn digit_value(c: char) -> nat {
    (c as u32 - '0' as u32) as nat
}

/// The number that the digits `s` write in base ten; 0 for no digit.
pub open spec fn decimal_value(s: Seq<char>) -> nat
    decreases s.len(),
{
    if s.len() == 0 {
        0
    } else {
        decimal_value(s.drop_last()) * 10 + digit_value(s.last())
    }
}

/// Whether `s` holds digits only.
pub open spec fn all_digits(s: Seq<char>) -> bool {
    forall|i: int| 0 <= i < s.len() ==> is_digit(#[trigger] s[i])
}

/// The digits of a number as written: `s` without one `+` at its start.
pub open spec fn unsigned_digits(s: Seq<char>) -> Seq<char> {
    if s.len() > 0 && s[0] == '+' {
        s.subrange(1, s.len() as int)
    } else {
        s
    }
}

/// The number that `s` writes, where `s` is one or more digits, with or without a `+`
/// before them, and the number fits in 32 bits.
pub open spec fn parse_u32(s: Seq<char>) -> Option<u32> {
    let d = unsigned_digits(s);
    if d.len() > 0 && all_digits(d) && decimal_value(d) <= u32::MAX {
        Some(decimal_value(d) as u32)
    } else {
        None
    }
}

/// A number written with more digits is no smaller.
pub proof fn lemma_decimal_value_prefix(s: Seq<char>, k: int)
    requires
        0 <= k <= s.len(),
    ensures
        decimal_value(s.take(k)) <= decimal_value(s),
    decreases s.len(),
{
    if k == s.len() {
        assert(s.take(k) =~= s);
    } else {
        assert(s.drop_last().take(k) =~= s.take(k));
        lemma_decimal_value_prefix(s.drop_last(), k);
    }
}

/// The number that `s` writes, if it writes one that fits in 32 bits.
pub fn read_u32(s: &[char]) -> (r: Option<u32>)
    ensures
        r == parse_u32(s@),
{
    let start: usize = if s.len() > 0 && s[0] == '+' {
        1
    } else {
        0
    };
    let d = part(s, start, s.len());
    assert(d@ == unsigned_digits(s@));
    if d.len() == 0 {
        return None;
    }
    let mut acc: u64 = 0;
    let mut k: usize = 0;
    assert(d@.take(0) =~= Seq::<char>::empty());
    while k < d.len()
        invariant
            k <= d.len(),
            acc == decimal_value(d@.take(k as int)),
            acc <= u32::MAX,
            all_digits(d@.take(k as int)),
            d@ == unsigned_digits(s@),
            d@.len() > 0,
        decreases d.len() - k,
    {
        let c = d[k];
        let n: u32 = c as u32;
        if n < 48 || n > 57 {
            assert(!is_digit(d@[k as int]));
            return None;
        }
        assert(d@.take(k + 1).drop_last() =~= d@.take(k as int));
        assert(d@.take(k + 1).last() == c);
        acc = acc * 10 + (n - 48) as u64;
        if acc > 0xffff_ffff {
            proof {
                lemma_decimal_value_prefix(d@, k + 1);
            }
            return None;
        }
        assert forall|i: int| 0 <= i < k + 1 implies is_digit(#[trigger] d@.take(k + 1)[i]) by {
            if i < k {
                assert(d@.take(k as int)[i] == d@.take(k + 1)[i]);
            }
        }
        k += 1;
    }
    assert(d@.take(d.len() as int) =~= d@);
    Some(acc as u32)
}

/// The digit that writes `d`, for `d` below ten.
pub open spec fn digit_char(d: nat) -> char {
    if d == 0 {
        '0'
    } else if d == 1 {
        '1'
    } else if d == 2 {
        '2'
    } else if d == 3 {
        '3'
    } else if d == 4 {
        '4'
    } else if d == 5 {
        '5'
    } else if d == 6 {
        '6'
    } else if d == 7 {
        '7'
    } else if d == 8 {
        '8'
    } else {
        '9'
    }
}

/// `n` written in base ten, without a sign and without zeros before it.
pub open spec fn decimal(n: nat) -> Seq<char>
    decreases n,
{
    if n < 10 {
        seq![digit_char(n)]
    } else {
        decimal(n / 10).push(digit_char(n % 10))
    }
}

/// What is written of a number reads back as that number: the digits of `n` in base ten
/// are digits, one at least, and their value is `n`; so a number of 32 bits that is
/// written is read as itself.
pub proof fn lemma_decimal_reads_back(n: nat)
    ensures
        decimal(n).len() > 0,
        all_digits(decimal(n)),
        decimal_value(decimal(n)) == n,
        n <= u32::MAX ==> parse_u32(decimal(n)) == Some(n as u32),
    decreases n,
{
    if n < 10 {
        let d = decimal(n);
        assert(d.len() == 1 && d.last() == digit_char(n));
        assert(d.drop_last() =~= Seq::<char>::empty());
        assert(decimal_value(d.drop_last()) == 0);
        assert(decimal_value(d) == digit_value(digit_char(n)));
    } else {
        lemma_decimal_reads_back(n / 10);
        let d = decimal(n);
        assert(d.drop_last() =~= decimal(n / 10));
        assert(d.last() == digit_char(n % 10));
        assert forall|i: int| 0 <= i < d.len() implies is_digit(#[trigger] d[i]) by {
            if i < d.len() - 1 {
                assert(d[i] == decimal(n / 10)[i]);
            }
        }
    }
    assert(decimal(n)[0] != '+');
    assert(unsigned_digits(decimal(n)) == decimal(n));
}

/// The digit that writes `d`.
pub fn digit(d: u8) -> (c: char)
    requires
        d < 10,
    ensures
        c == digit_char(d as nat),
{
    if d == 0 {
        '0'
    } else if d == 1 {
        '1'
    } else if d == 2 {
        '2'
    } else if d == 3 {
        '3'
    } else if d == 4 {
        '4'
    } else if d == 5 {
        '5'
    } else if d == 6 {
        '6'
    } else if d == 7 {
        '7'
    } else if d == 8 {
        '8'
    } else {
        '9'
    }
}

/// Appends `n`, written in base ten, to `r`.
pub fn push_decimal(r: &mut String, n: u64)
    ensures
        final(r)@ == old(r)@ + decimal(n as nat),
    decreases n,
{
    if n >= 10 {
        push_decimal(r, n / 10);
    }
    let ghost before = r@;
    r.push(digit((n % 10) as u8));
    proof {
        if n >= 10 {
            assert(before.push(digit_char((n % 10) as nat)) =~= old(r)@ + decimal(
                (n / 10) as nat,
            ).push(digit_char((n % 10) as nat)));
        } else {
            assert(before.push(digit_char(n as nat)) =~= old(r)@ + seq![digit_char(n as nat)]);
        }
    }
}

/// The text `prefix` followed by `rest`.
pub fn join(prefix: &str, rest: &str) -> (r: String)
    ensures
        r@ == prefix@ + rest@,
{
    let mut r = String::from_str(prefix);
    r.append(rest);
    r
}

} // verus!
