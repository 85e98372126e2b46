//! Scanning text by runs of characters of one class.

use vstd::prelude::*;

verus! {

/// The classes of characters that the scanner runs over.
#[derive(Clone, Copy)]
pub enum CharClass {
    Blank,
    NameChar,
    NotQuote,
    NotNewline,
    /// What may stand between `{{` and a tag's sigil: blanks, newlines and
    /// the whitespace-control mark `~`.
    TagSpace,
    /// `TagSpace`, or the `#` of a block tag.
    PartialLead,
}

pub open spec fn in_class(c: char, k: CharClass) -> bool {
    match k {
        CharClass::Blank => c == ' ' || c == '\t' || c == '\r',
        CharClass::NameChar => ('a' <= c && c <= 'z') || ('A' <= c && c <= 'Z') || ('0' <= c
            && c <= '9') || c == '-' || c == '_',
        CharClass::NotQuote => c != '"' && c != '\n',
        CharClass::NotNewline => c != '\n',
        CharClass::TagSpace => c == ' ' || c == '\t' || c == '\n' || c == '\r' || c == '~',
        CharClass::PartialLead => c == ' ' || c == '\t' || c == '\n' || c == '\r' || c == '~'
            || c == '#',
    }
}

/// The length of the run of class `k` that `s` starts with.
pub open spec fn run_len(s: Seq<char>, k: CharClass) -> nat
    decreases s.len(),
{
    if s.len() > 0 && in_class(s[0], k) {
        1 + run_len(s.drop_first(), k)
    } else {
        0
    }
}

/// The first position at or after `i` that ends the run of class `k`.
pub open spec fn scan(s: Seq<char>, i: int, k: CharClass) -> int {
    i + run_len(s.subrange(i, s.len() as int), k)
}

/// Every character of `s` is of class `k`.
pub open spec fn all_in(s: Seq<char>, k: CharClass) -> bool {
    forall|i: int| 0 <= i < s.len() ==> in_class(#[trigger] s[i], k)
}

/// The run that `scan` finds is of class `k` throughout, and stops at the end
/// or at a character of another class.
pub proof fn lemma_scan_run(s: Seq<char>, i: int, k: CharClass)
    requires
        0 <= i <= s.len(),
    ensures
        i <= scan(s, i, k) <= s.len(),
        forall|j: int| i <= j < scan(s, i, k) ==> in_class(#[trigger] s[j], k),
        scan(s, i, k) < s.len() ==> !in_class(s[scan(s, i, k)], k),
    decreases s.len() - i,
{
    let t = s.subrange(i, s.len() as int);
    if i < s.len() && in_class(s[i], k) {
        assert(t.drop_first() =~= s.subrange(i + 1, s.len() as int));
        lemma_scan_run(s, i + 1, k);
        assert(scan(s, i, k) == scan(s, i + 1, k));
    }
}

/// A run of class `k` from `i` to `p` that stops at `p` is the one `scan`
/// finds.
pub proof fn lemma_scan_is(s: Seq<char>, i: int, k: CharClass, p: int)
    requires
        0 <= i <= p <= s.len(),
        forall|j: int| i <= j < p ==> in_class(#[trigger] s[j], k),
        p < s.len() ==> !in_class(s[p], k),
    ensures
        scan(s, i, k) == p,
{
    lemma_scan_run(s, i, k);
    let q = scan(s, i, k);
    if q < p {
        assert(in_class(s[q], k));
    }
    if q > p {
        assert(in_class(s[p], k));
    }
}

pub(crate) fn char_in_class(c: char, k: CharClass) -> (r: bool)
    ensures
        r == in_class(c, k),
{
    match k {
        CharClass::Blank => c == ' ' || c == '\t' || c == '\r',
        CharClass::NameChar => ('a' <= c && c <= 'z') || ('A' <= c && c <= 'Z') || ('0' <= c
            && c <= '9') || c == '-' || c == '_',
        CharClass::NotQuote => c != '"' && c != '\n',
        CharClass::NotNewline => c != '\n',
        CharClass::TagSpace => c == ' ' || c == '\t' || c == '\n' || c == '\r' || c == '~',
        CharClass::PartialLead => c == ' ' || c == '\t' || c == '\n' || c == '\r' || c == '~'
            || c == '#',
    }
}

/// The end of the run of class `k` that starts at `i`, looking no further than
/// `end`.
pub(crate) fn scan_run(s: &Vec<char>, i: usize, end: usize, k: CharClass) -> (r: usize)
    requires
        i <= end <= s.len(),
    ensures
        r == i + run_len(s@.subrange(i as int, end as int), k),
        i <= r <= end,
{
    let mut j = i;
    while j < end && char_in_class(s[j], k)
        invariant
            i <= j <= end <= s.len(),
            i + run_len(s@.subrange(i as int, end as int), k) == j + run_len(
                s@.subrange(j as int, end as int),
                k,
            ),
        decreases end - j,
    {
        assert(s@.subrange(j as int, end as int).drop_first() =~= s@.subrange(
            j + 1,
            end as int,
        ));
        j = j + 1;
    }
    j
}

/// The characters of `text`, one by one.
pub(crate) fn chars_of(text: &str) -> (r: Vec<char>)
    ensures
        r@ == text@,
{
    let mut v: Vec<char> = Vec::new();
    for c in it: text.chars()
        invariant
            v@ == it.seq().take(it.index()),
    {
        v.push(c);
    }
    assert(v@ =~= text@);
    v
}


} // verus!
