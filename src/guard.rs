//! Which templates the render backend is given.
//!
//! Handlebars parses and renders nested constructs recursively, with no bound
//! of its own: blocks (`{{#if}} ... {{/if}}`), and inside a tag,
//! subexpressions, array literals and object literals. It also looks partials
//! up with no bound on how often one includes itself. So the engine is given
//! no partials, no raw blocks, and a bounded depth of nesting. A lexical scan
//! follows the template as handlebars reads it: text, tags, strings inside
//! tags, and comments. It counts the open blocks, adding one for every block
//! tag wherever it stands and taking one away only for a closing tag in
//! template text. It also counts every `(`, `[` and `{` of the current tag.
//! Both counts are at least the depth they stand for.

use vstd::prelude::*;
use crate::scan::{chars_of, scan, scan_run, CharClass};

verus! {

/// The most open blocks, and the most nesting characters within one tag, that
/// a template given to the engine may have.
pub const MAX_NESTING: usize = 128;

/// `{{`, then only characters of `lead`, then `sigil`, starting at `i`.
pub open spec fn tag_at(s: Seq<char>, i: int, lead: CharClass, sigil: char) -> bool {
    &&& 0 <= i && i + 1 < s.len()
    &&& s[i] == '{' && s[i + 1] == '{'
    &&& scan(s, i + 2, lead) < s.len()
    &&& s[scan(s, i + 2, lead)] == sigil
}

/// A partial (`{{> p}}`) or a partial block (`{{#> p}}`) opens at `i`.
pub open spec fn opens_partial(s: Seq<char>, i: int) -> bool {
    tag_at(s, i, CharClass::PartialLead, '>')
}

/// A raw block (`{{{{raw}}}}`) opens at `i`.
pub open spec fn opens_raw_block(s: Seq<char>, i: int) -> bool {
    &&& 0 <= i && i + 3 < s.len()
    &&& s[i] == '{' && s[i + 1] == '{' && s[i + 2] == '{' && s[i + 3] == '{'
}

/// A block tag (`{{#name ...}}`) opens at `i`.
pub open spec fn opens_block(s: Seq<char>, i: int) -> bool {
    tag_at(s, i, CharClass::TagSpace, '#')
}

/// A closing tag (`{{/name}}`) starts at `i`.
pub open spec fn closes_block(s: Seq<char>, i: int) -> bool {
    tag_at(s, i, CharClass::TagSpace, '/')
}

/// `{{` at `i`.
pub open spec fn two_braces(s: Seq<char>, i: int) -> bool {
    0 <= i && i + 1 < s.len() && s[i] == '{' && s[i + 1] == '{'
}

/// The `{{` at `i` is escaped text: one backslash stands before it.
pub open spec fn escaped(s: Seq<char>, i: int) -> bool {
    i >= 1 && s[i - 1] == '\\' && !(i >= 2 && s[i - 2] == '\\')
}

/// `p` stands in `s` at `k`.
pub open spec fn pattern_at(s: Seq<char>, k: int, p: Seq<char>) -> bool {
    0 <= k && k + p.len() <= s.len() && s.subrange(k, k + p.len()) == p
}

/// The first position at or after `k` where `p` stands.
pub open spec fn find_from(s: Seq<char>, k: int, p: Seq<char>) -> Option<int>
    decreases s.len() - k,
{
    if p.len() == 0 || k < 0 || k + p.len() > s.len() {
        None
    } else if pattern_at(s, k, p) {
        Some(k)
    } else {
        find_from(s, k + 1, p)
    }
}

/// `--}}`, which ends a long comment.
pub open spec fn long_comment_close() -> Seq<char> {
    seq!['-', '-', '}', '}']
}

/// `}}`, which ends a short comment.
pub open spec fn short_comment_close() -> Seq<char> {
    seq!['}', '}']
}

/// Where the comment that opens at `i` ends: a `{{!--` comment at the first
/// `--}}` after its opening, else at the first `}}` after `{{!`.
pub open spec fn comment_end(s: Seq<char>, i: int) -> int {
    let long = i + 4 < s.len() && s[i + 3] == '-' && s[i + 4] == '-';
    let long_end = if long {
        find_from(s, i + 5, long_comment_close())
    } else {
        None
    };
    match long_end {
        Some(j) => j + 4,
        None => match find_from(s, i + 3, short_comment_close()) {
            Some(j) => j + 2,
            None => s.len() as int,
        },
    }
}

/// Where the scan stands: template text, a tag, a string in a tag (or the
/// character after a backslash in one), or a comment that ends at the
/// position given.
pub enum LexMode {
    Text,
    Tag,
    Str(char),
    StrEscape(char),
    Comment(int),
}

/// The scan's state: where it stands, the open blocks, the nesting
/// characters of the current tag, and the open brackets and braces of the
/// current tag, which decide where the tag ends.
pub struct Lex {
    pub mode: LexMode,
    pub blocks: nat,
    pub marks: nat,
    pub brackets: nat,
    pub braces: nat,
}

pub open spec fn mark_char(c: char) -> bool {
    c == '(' || c == '[' || c == '{'
}

/// One step of the scan at `i`: the next position, and the new state.
pub open spec fn lex_step(s: Seq<char>, i: int, st: Lex) -> (int, Lex) {
    let c = s[i];
    let blocks = if opens_block(s, i) {
        st.blocks + 1
    } else {
        st.blocks
    };
    let marks = if mark_char(c) && !(st.mode is Text) && !(st.mode is Comment) {
        st.marks + 1
    } else {
        st.marks
    };
    let keep = Lex { mode: st.mode, blocks, marks, brackets: st.brackets, braces: st.braces };
    match st.mode {
        LexMode::Text => if two_braces(s, i) {
            if escaped(s, i) {
                (i + 2, keep)
            } else if i + 2 < s.len() && s[i + 2] == '!' {
                (i + 1, Lex { mode: LexMode::Comment(comment_end(s, i)), ..keep })
            } else {
                let open = if closes_block(s, i) && blocks > 0 {
                    (blocks - 1) as nat
                } else {
                    blocks
                };
                (i + 2, Lex { mode: LexMode::Tag, blocks: open, marks: 0, brackets: 0, braces: 0 })
            }
        } else {
            (i + 1, keep)
        },
        LexMode::Tag => if c == '"' || c == '\'' {
            (i + 1, Lex { mode: LexMode::Str(c), ..keep })
        } else if c == '[' {
            (i + 1, Lex { brackets: st.brackets + 1, ..keep })
        } else if c == '{' {
            (i + 1, Lex { braces: st.braces + 1, ..keep })
        } else if c == ']' {
            (i + 1, Lex { brackets: if st.brackets > 0 { (st.brackets - 1) as nat } else { 0 }, ..keep })
        } else if c == '}' {
            if st.braces > 0 {
                (i + 1, Lex { braces: (st.braces - 1) as nat, ..keep })
            } else if st.brackets == 0 && i + 1 < s.len() && s[i + 1] == '}' {
                (i + 2, Lex { mode: LexMode::Text, ..keep })
            } else {
                (i + 1, keep)
            }
        } else {
            (i + 1, keep)
        },
        LexMode::Str(q) => if c == '\\' {
            (i + 1, Lex { mode: LexMode::StrEscape(q), ..keep })
        } else if c == q {
            (i + 1, Lex { mode: LexMode::Tag, ..keep })
        } else {
            (i + 1, keep)
        },
        LexMode::StrEscape(q) => (i + 1, Lex { mode: LexMode::Str(q), ..keep }),
        LexMode::Comment(e) => if i + 1 >= e {
            (i + 1, Lex { mode: LexMode::Text, ..keep })
        } else {
            (i + 1, keep)
        },
    }
}

/// The scan from `i` on keeps both counts within `MAX_NESTING`.
pub open spec fn lex_within_bounds(s: Seq<char>, i: int, st: Lex) -> bool
    decreases s.len() - i,
{
    if i < 0 || i >= s.len() {
        true
    } else {
        let (j, next) = lex_step(s, i, st);
        if next.blocks > MAX_NESTING || next.marks > MAX_NESTING {
            false
        } else if j <= i {
            true
        } else {
            lex_within_bounds(s, j, next)
        }
    }
}

/// The state the scan starts in.
pub open spec fn lex_start() -> Lex {
    Lex { mode: LexMode::Text, blocks: 0, marks: 0, brackets: 0, braces: 0 }
}

/// The templates that the engine is given: no partials, no raw blocks, and
/// nesting within `MAX_NESTING`.
pub open spec fn backend_accepts(t: Seq<char>) -> bool {
    &&& forall|i: int| 0 <= i < t.len() ==> !opens_partial(t, i)
    &&& forall|i: int| 0 <= i < t.len() ==> !opens_raw_block(t, i)
    &&& lex_within_bounds(t, 0, lex_start())
}

#[derive(Clone, Copy)]
enum Mode {
    Text,
    Tag,
    Str(char),
    StrEscape(char),
    Comment(usize),
}

#[derive(Clone, Copy)]
struct Scan {
    mode: Mode,
    blocks: usize,
    marks: usize,
    brackets: usize,
    braces: usize,
}

impl View for Scan {
    type V = Lex;

    closed spec fn view(&self) -> Lex {
        Lex {
            mode: match self.mode {
                Mode::Text => LexMode::Text,
                Mode::Tag => LexMode::Tag,
                Mode::Str(q) => LexMode::Str(q),
                Mode::StrEscape(q) => LexMode::StrEscape(q),
                Mode::Comment(e) => LexMode::Comment(e as int),
            },
            blocks: self.blocks as nat,
            marks: self.marks as nat,
            brackets: self.brackets as nat,
            braces: self.braces as nat,
        }
    }
}

impl Scan {
    /// Counts that fit, and a comment end within the text.
    closed spec fn fits(&self, i: int, n: int) -> bool {
        &&& self.blocks <= MAX_NESTING + 1
        &&& self.marks <= MAX_NESTING + 1
        &&& self.brackets <= i
        &&& self.braces <= i
        &&& self.mode matches Mode::Comment(e) ==> e <= n
    }
}

fn tag_at_exec(s: &Vec<char>, i: usize, lead: CharClass, sigil: char) -> (r: bool)
    requires
        i < s.len(),
    ensures
        r == tag_at(s@, i as int, lead, sigil),
{
    let n = s.len();
    if i + 1 < n && s[i] == '{' && s[i + 1] == '{' {
        let j = scan_run(s, i + 2, n, lead);
        j < n && s[j] == sigil
    } else {
        false
    }
}

/// Whether `p` stands in `s` at `k`.
fn pattern_at_exec(s: &Vec<char>, k: usize, p: &Vec<char>) -> (r: bool)
    requires
        k + p.len() <= s.len(),
    ensures
        r == pattern_at(s@, k as int, p@),
{
    let m = p.len();
    for t in 0..m
        invariant
            m == p@.len(),
            k + m <= s.len(),
            forall|u: int| 0 <= u < t ==> s@[k + u] == p@[u],
    {
        if s[k + t] != p[t] {
            assert(s@.subrange(k as int, k + m)[t as int] != p@[t as int]);
            return false;
        }
    }
    assert(s@.subrange(k as int, k + m) =~= p@);
    true
}

/// The first position at or after `k` where `p` stands.
fn find_pattern(s: &Vec<char>, k: usize, p: &Vec<char>) -> (r: Option<usize>)
    requires
        p.len() > 0,
        k <= s.len(),
    ensures
        match r {
            Some(j) => find_from(s@, k as int, p@) == Some(j as int) && j + p.len() <= s.len(),
            None => find_from(s@, k as int, p@) is None,
        },
{
    let n = s.len();
    let m = p.len();
    let mut j = k;
    while m <= n - j
        invariant
            m == p@.len() > 0,
            n == s@.len(),
            k <= j <= n,
            find_from(s@, k as int, p@) == find_from(s@, j as int, p@),
        decreases n - j,
    {
        if pattern_at_exec(s, j, p) {
            return Some(j);
        }
        j = j + 1;
    }
    None
}

/// Where the comment that opens at `i` ends.
fn comment_end_exec(s: &Vec<char>, i: usize) -> (r: usize)
    requires
        i + 2 < s.len(),
    ensures
        r == comment_end(s@, i as int),
        r <= s.len(),
{
    let n = s.len();
    let long_close: Vec<char> = vec!['-', '-', '}', '}'];
    let short_close: Vec<char> = vec!['}', '}'];
    assert(long_close@ =~= long_comment_close());
    assert(short_close@ =~= short_comment_close());
    if n - i > 4 && s[i + 3] == '-' && s[i + 4] == '-' {
        match find_pattern(s, i + 5, &long_close) {
            Some(j) => {
                return j + 4;
            },
            None => {},
        }
    }
    match find_pattern(s, i + 3, &short_close) {
        Some(j) => j + 2,
        None => n,
    }
}

/// One step of the scan, as `lex_step` says.
fn lex_step_exec(s: &Vec<char>, i: usize, st: Scan) -> (r: (usize, Scan))
    requires
        i < s.len(),
        st.fits(i as int, s.len() as int),
        st.blocks <= MAX_NESTING,
        st.marks <= MAX_NESTING,
    ensures
        r.0 as int == lex_step(s@, i as int, st@).0,
        r.1@ == lex_step(s@, i as int, st@).1,
        i < r.0 <= s.len(),
        r.1.fits(r.0 as int, s.len() as int),
{
    let n = s.len();
    let c = s[i];
    let blocks = if tag_at_exec(s, i, CharClass::TagSpace, '#') {
        st.blocks + 1
    } else {
        st.blocks
    };
    let counted = match st.mode {
        Mode::Text => false,
        Mode::Comment(_) => false,
        _ => c == '(' || c == '[' || c == '{',
    };
    let marks = if counted {
        st.marks + 1
    } else {
        st.marks
    };
    let keep = Scan { mode: st.mode, blocks, marks, brackets: st.brackets, braces: st.braces };
    match st.mode {
        Mode::Text => {
            if i + 1 < n && c == '{' && s[i + 1] == '{' {
                if i >= 1 && s[i - 1] == '\\' && !(i >= 2 && s[i - 2] == '\\') {
                    (i + 2, keep)
                } else if i + 2 < n && s[i + 2] == '!' {
                    let e = comment_end_exec(s, i);
                    (i + 1, Scan { mode: Mode::Comment(e), ..keep })
                } else {
                    let open = if tag_at_exec(s, i, CharClass::TagSpace, '/') && blocks > 0 {
                        blocks - 1
                    } else {
                        blocks
                    };
                    (i + 2, Scan { mode: Mode::Tag, blocks: open, marks: 0, brackets: 0, braces: 0 })
                }
            } else {
                (i + 1, keep)
            }
        },
        Mode::Tag => {
            if c == '"' || c == '\'' {
                (i + 1, Scan { mode: Mode::Str(c), ..keep })
            } else if c == '[' {
                (i + 1, Scan { brackets: st.brackets + 1, ..keep })
            } else if c == '{' {
                (i + 1, Scan { braces: st.braces + 1, ..keep })
            } else if c == ']' {
                let b = if st.brackets > 0 {
                    st.brackets - 1
                } else {
                    0
                };
                (i + 1, Scan { brackets: b, ..keep })
            } else if c == '}' {
                if st.braces > 0 {
                    (i + 1, Scan { braces: st.braces - 1, ..keep })
                } else if st.brackets == 0 && i + 1 < n && s[i + 1] == '}' {
                    (i + 2, Scan { mode: Mode::Text, ..keep })
                } else {
                    (i + 1, keep)
                }
            } else {
                (i + 1, keep)
            }
        },
        Mode::Str(q) => {
            if c == '\\' {
                (i + 1, Scan { mode: Mode::StrEscape(q), ..keep })
            } else if c == q {
                (i + 1, Scan { mode: Mode::Tag, ..keep })
            } else {
                (i + 1, keep)
            }
        },
        Mode::StrEscape(q) => (i + 1, Scan { mode: Mode::Str(q), ..keep }),
        Mode::Comment(e) => {
            if i + 1 >= e {
                (i + 1, Scan { mode: Mode::Text, ..keep })
            } else {
                (i + 1, keep)
            }
        },
    }
}

/// Whether the engine may be given `template`.
pub fn backend_accepts_template(template: &str) -> (r: bool)
    ensures
        r == backend_accepts(template@),
{
    let s = chars_of(template);
    let n = s.len();
    for i in 0..n
        invariant
            s@ == template@,
            n == s@.len(),
            forall|j: int| 0 <= j < i ==> !opens_partial(s@, j),
            forall|j: int| 0 <= j < i ==> !opens_raw_block(s@, j),
    {
        if tag_at_exec(&s, i, CharClass::PartialLead, '>') {
            assert(opens_partial(template@, i as int));
            return false;
        }
        if n - i > 3 && s[i] == '{' && s[i + 1] == '{' && s[i + 2] == '{' && s[i + 3] == '{' {
            assert(opens_raw_block(template@, i as int));
            return false;
        }
    }
    let mut st = Scan { mode: Mode::Text, blocks: 0, marks: 0, brackets: 0, braces: 0 };
    let mut i: usize = 0;
    assert(st@ == lex_start());
    while i < n
        invariant
            s@ == template@,
            n == s@.len(),
            i <= n,
            st.fits(i as int, n as int),
            st.blocks <= MAX_NESTING,
            st.marks <= MAX_NESTING,
            lex_within_bounds(s@, 0, lex_start()) == lex_within_bounds(s@, i as int, st@),
        decreases n - i,
    {
        let (j, next) = lex_step_exec(&s, i, st);
        if next.blocks > MAX_NESTING || next.marks > MAX_NESTING {
            return false;
        }
        i = j;
        st = next;
    }
    true
}

} // verus!
