//! The lexical layer of the parser: classes of characters, runs of one
//! class at either end of a text, decimal numbers, and windows into a
//! buffer of characters.
//!
//! The grammar is stated over `Seq<char>`: a parser takes the text that is
//! left and gives back a value and the text that is left after it. The
//! executable parsers walk one buffer of characters and keep the text that
//! is left as a [`Span`] of it.

use crate::assembler::ParseError;
use vstd::prelude::*;
use vstd::string::StrSliceExecFns;

verus! {

/// A class of characters that the grammar speaks of.
#[derive(Copy, Clone, Debug, PartialEq, Eq, Structural)]
pub enum CharClass {
    /// A blank or a tab.
    Space,
    /// A blank, a tab, a carriage return or a line feed.
    MultiSpace,
    /// An ASCII letter.
    Alpha,
    /// An ASCII decimal digit.
    Digit,
    /// A character with the Unicode property `White_Space`.
    White,
}

/// A window into a buffer of characters: the characters from index `lo` up
/// to, not including, index `hi`.
#[derive(Copy, Clone, Debug, PartialEq, Eq, Structural)]
pub struct Span {
    pub lo: usize,
    pub hi: usize,
}

/// The characters with the Unicode property `White_Space`.
pub open spec fn is_white(c: char) -> bool {
    ||| '\u{9}' <= c <= '\u{d}'
    ||| c == ' '
    ||| c == '\u{85}'
    ||| c == '\u{a0}'
    ||| c == '\u{1680}'
    ||| '\u{2000}' <= c <= '\u{200a}'
    ||| c == '\u{2028}'
    ||| c == '\u{2029}'
    ||| c == '\u{202f}'
    ||| c == '\u{205f}'
    ||| c == '\u{3000}'
}

/// Membership of a character in a class.
pub open spec fn in_class(c: char, k: CharClass) -> bool {
    match k {
        CharClass::Space => c == ' ' || c == '\t',
        CharClass::MultiSpace => c == ' ' || c == '\t' || c == '\r' || c == '\n',
        CharClass::Alpha => ('a' <= c <= 'z') || ('A' <= c <= 'Z'),
        CharClass::Digit => '0' <= c <= '9',
        CharClass::White => is_white(c),
    }
}

/// Number of characters at the start of `s`, up to the first that is not in
/// the class `k`.
pub open spec fn lead(s: Seq<char>, k: CharClass) -> nat
    decreases s.len(),
{
    if s.len() > 0 && in_class(s[0], k) {
        1 + lead(s.drop_first(), k)
    } else {
        0
    }
}

/// Number of characters at the end of `s`, back to the last that is not in
/// the class `k`.
pub open spec fn trail(s: Seq<char>, k: CharClass) -> nat
    decreases s.len(),
{
    if s.len() > 0 && in_class(s.last(), k) {
        1 + trail(s.drop_last(), k)
    } else {
        0
    }
}

/// Number of characters at the start of `s`, up to the first `c`.
pub open spec fn lead_until(s: Seq<char>, c: char) -> nat
    decreases s.len(),
{
    if s.len() > 0 && s[0] != c {
        1 + lead_until(s.drop_first(), c)
    } else {
        0
    }
}

/// `s` without the characters of class `k` at its start.
pub open spec fn skip_class(s: Seq<char>, k: CharClass) -> Seq<char> {
    s.skip(lead(s, k) as int)
}

/// `s` without the white space at its start and at its end.
pub open spec fn trim(s: Seq<char>) -> Seq<char> {
    let t = skip_class(s, CharClass::White);
    t.take(t.len() - trail(t, CharClass::White))
}

/// A run of one or more characters of class `k` at the start of `s`: the
/// run and the text after it.
pub open spec fn word(s: Seq<char>, k: CharClass) -> Option<(Seq<char>, Seq<char>)> {
    if lead(s, k) >= 1 {
        Some((s.take(lead(s, k) as int), s.skip(lead(s, k) as int)))
    } else {
        None
    }
}

/// The character `c` at the start of `s`: the text after it.
pub open spec fn tagged(s: Seq<char>, c: char) -> Option<Seq<char>> {
    if s.len() > 0 && s[0] == c {
        Some(s.skip(1))
    } else {
        None
    }
}

/// The text before the first `c` in `s`, and the text from that `c` on;
/// nothing where `s` holds no `c`.
pub open spec fn until(s: Seq<char>, c: char) -> Option<(Seq<char>, Seq<char>)> {
    if lead_until(s, c) < s.len() {
        Some((s.take(lead_until(s, c) as int), s.skip(lead_until(s, c) as int)))
    } else {
        None
    }
}

/// The number that a decimal digit stands for.
pub open spec fn digit_value(c: char) -> nat {
    (c as u32 - '0' as u32) as nat
}

/// The number that a string of decimal digits spells.
pub open spec fn decimal(digits: Seq<char>) -> nat
    decreases digits.len(),
{
    if digits.len() == 0 {
        0
    } else {
        decimal(digits.drop_last()) * 10 + digit_value(digits.last())
    }
}

impl Span {
    /// The window lies inside a buffer that holds `text`.
    pub open spec fn wf(self, text: Seq<char>) -> bool {
        self.lo <= self.hi <= text.len()
    }

    /// The characters of the window.
    pub open spec fn of(self, text: Seq<char>) -> Seq<char> {
        text.subrange(self.lo as int, self.hi as int)
    }

    /// The window lies inside the window `outer`.
    pub open spec fn within(self, outer: Span) -> bool {
        outer.lo <= self.lo <= self.hi <= outer.hi
    }
}

/// Every character of a run that `lead` counts is in the class.
pub proof fn lemma_lead_in_class(s: Seq<char>, k: CharClass, i: int)
    requires
        0 <= i < lead(s, k),
    ensures
        lead(s, k) <= s.len(),
        in_class(s[i], k),
    decreases s.len(),
{
    if i > 0 {
        lemma_lead_in_class(s.drop_first(), k, i - 1);
    } else if lead(s, k) > 1 {
        lemma_lead_in_class(s.drop_first(), k, 0);
    }
}

/// `lead_until` counts no more characters than the text has.
pub proof fn lemma_lead_until_bound(s: Seq<char>, c: char)
    ensures
        lead_until(s, c) <= s.len(),
    decreases s.len(),
{
    if s.len() > 0 && s[0] != c {
        lemma_lead_until_bound(s.drop_first(), c);
    }
}

/// A number does not shrink when digits are written behind it.
pub proof fn lemma_decimal_prefix(digits: Seq<char>, n: int)
    requires
        0 <= n <= digits.len(),
    ensures
        decimal(digits.take(n)) <= decimal(digits),
    decreases digits.len() - n,
{
    if n == digits.len() {
        assert(digits.take(n) =~= digits);
    } else {
        lemma_decimal_prefix(digits.drop_last(), n);
        assert(digits.drop_last().take(n) =~= digits.take(n));
    }
}

/// Membership of a character in a class.
pub fn is_in(c: char, k: CharClass) -> (b: bool)
    ensures
        b == in_class(c, k),
{
    match k {
        CharClass::Space => c == ' ' || c == '\t',
        CharClass::MultiSpace => c == ' ' || c == '\t' || c == '\r' || c == '\n',
        CharClass::Alpha => ('a' <= c && c <= 'z') || ('A' <= c && c <= 'Z'),
        CharClass::Digit => '0' <= c && c <= '9',
        CharClass::White => {
            ('\u{9}' <= c && c <= '\u{d}') || c == ' ' || c == '\u{85}' || c == '\u{a0}' || c
                == '\u{1680}' || ('\u{2000}' <= c && c <= '\u{200a}') || c == '\u{2028}' || c
                == '\u{2029}' || c == '\u{202f}' || c == '\u{205f}' || c == '\u{3000}'
        },
    }
}

/// The window without the characters of class `k` at its start.
pub fn skip(text: &[char], w: Span, k: CharClass) -> (r: Span)
    requires
        w.wf(text@),
    ensures
        r.wf(text@),
        r.hi == w.hi,
        r.lo == w.lo + lead(w.of(text@), k),
        r.of(text@) == skip_class(w.of(text@), k),
{
    let mut i: usize = w.lo;
    while i < w.hi && is_in(text[i], k)
        invariant
            w.wf(text@),
            w.lo <= i <= w.hi,
            lead(w.of(text@), k) == (i - w.lo) + lead(text@.subrange(i as int, w.hi as int), k),
        decreases w.hi - i,
    {
        assert(text@.subrange(i as int, w.hi as int).drop_first() =~= text@.subrange(
            i + 1,
            w.hi as int,
        ));
        i += 1;
    }
    assert(w.of(text@).skip(i - w.lo) =~= text@.subrange(i as int, w.hi as int));
    Span { lo: i, hi: w.hi }
}

/// The window without the white space at its start and at its end.
pub fn trim_span(text: &[char], w: Span) -> (r: Span)
    requires
        w.wf(text@),
    ensures
        r.wf(text@),
        r.within(w),
        r.of(text@) == trim(w.of(text@)),
{
    let front = skip(text, w, CharClass::White);
    let mut j: usize = front.hi;
    while j > front.lo && is_in(text[j - 1], CharClass::White)
        invariant
            front.wf(text@),
            front.lo <= j <= front.hi,
            trail(front.of(text@), CharClass::White) == (front.hi - j) + trail(
                text@.subrange(front.lo as int, j as int),
                CharClass::White,
            ),
        decreases j - front.lo,
    {
        assert(text@.subrange(front.lo as int, j as int).drop_last() =~= text@.subrange(
            front.lo as int,
            j - 1,
        ));
        j -= 1;
    }
    assert(front.of(text@).take(j - front.lo) =~= text@.subrange(front.lo as int, j as int));
    Span { lo: front.lo, hi: j }
}

/// A run of one or more characters of class `k` at the start of the window:
/// the run and the window after it.
pub fn word_in(text: &[char], w: Span, k: CharClass) -> (r: Option<(Span, Span)>)
    requires
        w.wf(text@),
    ensures
        match word(w.of(text@), k) {
            Some((run, rest)) => r is Some && r.unwrap().0.of(text@) == run && r.unwrap().1.of(
                text@,
            ) == rest && r.unwrap().0.lo == w.lo && r.unwrap().0.hi == r.unwrap().1.lo
                && r.unwrap().1.lo > w.lo && r.unwrap().1.hi == w.hi && r.unwrap().1.wf(text@),
            None => r is None,
        },
        r matches Some(p) ==> forall|i: int|
            p.0.lo <= i < p.0.hi ==> in_class(#[trigger] text@[i], k),
{
    let rest = skip(text, w, k);
    if rest.lo > w.lo {
        let run = Span { lo: w.lo, hi: rest.lo };
        assert(run.of(text@) =~= w.of(text@).take(lead(w.of(text@), k) as int));
        assert forall|i: int| run.lo <= i < run.hi implies in_class(#[trigger] text@[i], k) by {
            lemma_lead_in_class(w.of(text@), k, i - run.lo);
        }
        Some((run, rest))
    } else {
        None
    }
}

/// The character `c` at the start of the window: the window after it.
pub fn tag_in(text: &[char], w: Span, c: char) -> (r: Option<Span>)
    requires
        w.wf(text@),
    ensures
        match tagged(w.of(text@), c) {
            Some(rest) => r is Some && r.unwrap().of(text@) == rest && r.unwrap().lo == w.lo + 1
                && r.unwrap().hi == w.hi && r.unwrap().wf(text@),
            None => r is None,
        },
{
    if w.lo < w.hi && text[w.lo] == c {
        let rest = Span { lo: w.lo + 1, hi: w.hi };
        assert(rest.of(text@) =~= w.of(text@).skip(1));
        Some(rest)
    } else {
        None
    }
}

/// The window before the first `c`, and the window from that `c` on.
pub fn until_in(text: &[char], w: Span, c: char) -> (r: Option<(Span, Span)>)
    requires
        w.wf(text@),
    ensures
        match until(w.of(text@), c) {
            Some((before, rest)) => r is Some && r.unwrap().0.of(text@) == before
                && r.unwrap().1.of(text@) == rest && r.unwrap().0.lo == w.lo && r.unwrap().0.hi
                == r.unwrap().1.lo && r.unwrap().1.lo < w.hi && r.unwrap().1.hi == w.hi
                && r.unwrap().0.wf(text@) && r.unwrap().1.wf(text@),
            None => r is None,
        },
{
    let mut i: usize = w.lo;
    while i < w.hi && text[i] != c
        invariant
            w.wf(text@),
            w.lo <= i <= w.hi,
            lead_until(w.of(text@), c) == (i - w.lo) + lead_until(
                text@.subrange(i as int, w.hi as int),
                c,
            ),
        decreases w.hi - i,
    {
        assert(text@.subrange(i as int, w.hi as int).drop_first() =~= text@.subrange(
            i + 1,
            w.hi as int,
        ));
        i += 1;
    }
    if i < w.hi {
        let before = Span { lo: w.lo, hi: i };
        let rest = Span { lo: i, hi: w.hi };
        assert(before.of(text@) =~= w.of(text@).take(i - w.lo));
        assert(rest.of(text@) =~= w.of(text@).skip(i - w.lo));
        Some((before, rest))
    } else {
        None
    }
}

/// The number that the digits of the window spell, where it is no more
/// than `max`.
pub fn number_in(text: &[char], run: Span, max: u32) -> (r: Option<u32>)
    requires
        run.wf(text@),
        forall|i: int| run.lo <= i < run.hi ==> in_class(#[trigger] text@[i], CharClass::Digit),
    ensures
        r == (if decimal(run.of(text@)) <= max {
            Some(decimal(run.of(text@)) as u32)
        } else {
            None
        }),
{
    let mut acc: u64 = 0;
    let mut i: usize = run.lo;
    assert(text@.subrange(run.lo as int, run.lo as int) =~= Seq::<char>::empty());
    while i < run.hi
        invariant
            run.wf(text@),
            run.lo <= i <= run.hi,
            forall|i: int| run.lo <= i < run.hi ==> in_class(#[trigger] text@[i], CharClass::Digit),
            acc == decimal(text@.subrange(run.lo as int, i as int)),
            acc <= max,
        decreases run.hi - i,
    {
        let c = text[i];
        assert(in_class(text@[i as int], CharClass::Digit));
        let d: u64 = (c as u32 - '0' as u32) as u64;
        let next: u64 = acc * 10 + d;
        proof {
            let longer = text@.subrange(run.lo as int, i + 1);
            assert(longer.drop_last() =~= text@.subrange(run.lo as int, i as int));
            assert(longer.last() == c);
            assert(next == decimal(longer));
            assert(longer =~= run.of(text@).take(i + 1 - run.lo));
            lemma_decimal_prefix(run.of(text@), i + 1 - run.lo);
        }
        if next > max as u64 {
            return None;
        }
        acc = next;
        i += 1;
    }
    assert(text@.subrange(run.lo as int, i as int) =~= run.of(text@));
    Some(acc as u32)
}

/// The characters of the window as an owned text.
pub fn text_in(text: &[char], run: Span) -> (s: String)
    requires
        run.wf(text@),
    ensures
        s@ == run.of(text@),
{
    let mut s = String::new();
    let mut i: usize = run.lo;
    while i < run.hi
        invariant
            run.wf(text@),
            run.lo <= i <= run.hi,
            s@ == text@.subrange(run.lo as int, i as int),
        decreases run.hi - i,
    {
        s.push(text[i]);
        assert(text@.subrange(run.lo as int, i + 1) =~= text@.subrange(
            run.lo as int,
            i as int,
        ).push(text@[i as int]));
        i += 1;
    }
    s
}

/// The result `r` of a parser on the window `w` is what the grammar gives
/// for the text of that window: the value and the window that is left,
/// which lies inside `w` and is shorter than it, or nothing.
pub open spec fn found<T: View>(
    r: Option<(T, Span)>,
    expected: Option<(T::V, Seq<char>)>,
    text: Seq<char>,
    w: Span,
) -> bool {
    match expected {
        Some((model, rest)) => r matches Some(p) && p.0@ == model && p.1.of(text) == rest
            && p.1.within(w) && p.1.hi - p.1.lo < w.hi - w.lo,
        None => r is None,
    }
}

/// The result `r` of a parser on an input is what the grammar gives for it:
/// the text that is left and the value, or the error `error`.
pub open spec fn produced<T: View>(
    r: Result<(&str, T), ParseError>,
    expected: Option<(T::V, Seq<char>)>,
    error: ParseError,
) -> bool {
    match expected {
        Some((model, rest)) => r matches Ok(p) && p.0@ == rest && p.1@ == model,
        None => r matches Err(e) && e == error,
    }
}

/// The window that holds a whole buffer.
pub fn whole(text: &Vec<char>) -> (w: Span)
    ensures
        w.wf(text@),
        w.of(text@) == text@,
        w.lo == 0,
        w.hi == text@.len(),
{
    let w = Span { lo: 0, hi: text.len() };
    assert(w.of(text@) =~= text@);
    w
}

/// Turns what a parser found in the buffer of the characters of `input`
/// into what it returns to its caller: the window that is left becomes the
/// text of `input` that is left.
pub fn finish<'a, T>(input: &'a str, r: Option<(T, Span)>, error: ParseError) -> (res: Result<
    (&'a str, T),
    ParseError,
>)
    requires
        r matches Some(p) ==> p.1.wf(input@),
    ensures
        match r {
            Some(p) => res matches Ok(q) && q.1 == p.0 && q.0@ == p.1.of(input@),
            None => res matches Err(e) && e == error,
        },
{
    match r {
        Some((value, rest)) => Ok((input.substring_char(rest.lo, rest.hi), value)),
        None => Err(error),
    }
}

} // verus!
