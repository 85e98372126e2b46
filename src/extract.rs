//! Extension requirement extraction.
//!
//! A template may open with a declaration block that ends at the first line
//! made of `+++` (trailing blanks allowed). Each line of the block is blank,
//! or declares one extension: its name alone (`kubernetes`), or its name and a
//! version constraint (`kubernetes = "v1"`), with blanks allowed around the
//! parts. A name is made of ASCII letters, digits, `-` and `_`. What follows
//! the delimiter line is the template body. A template without a delimiter
//! line declares nothing, and all of it is the body.

use vstd::prelude::*;
use crate::requirement::{requirements_view, ExtensionRequirement, RequirementView};
use crate::scan::{all_in, chars_of, in_class, lemma_scan_is, lemma_scan_run, scan, scan_run, CharClass};

verus! {

/// Where the line that starts at `i` ends (its newline, or the end of `s`).
pub open spec fn line_end(s: Seq<char>, i: int) -> int {
    scan(s, i, CharClass::NotNewline)
}

/// The delimiter line: `+++`, then blanks only.
pub open spec fn is_delimiter(l: Seq<char>) -> bool {
    &&& l.len() >= 3
    &&& l[0] == '+' && l[1] == '+' && l[2] == '+'
    &&& scan(l, 3, CharClass::Blank) == l.len()
}

/// Where the first delimiter line at or after the line start `i` starts.
pub open spec fn find_delimiter(s: Seq<char>, i: int) -> Option<int>
    decreases s.len() - i,
{
    if i < 0 || i > s.len() {
        None
    } else {
        let e = line_end(s, i);
        if is_delimiter(s.subrange(i, e)) {
            Some(i)
        } else if e >= s.len() {
            None
        } else {
            find_delimiter(s, e + 1)
        }
    }
}

/// What one line of the declaration block says.
pub enum LineMeaning {
    Blank,
    Declares(RequirementView),
    Malformed,
}

/// The text of a declaration: blanks, the name, blanks, and where there is a
/// version constraint, `=`, blanks, the constraint in double quotes, blanks.
pub open spec fn declaration_text(
    r: RequirementView,
    b1: Seq<char>,
    b2: Seq<char>,
    b3: Seq<char>,
    b4: Seq<char>,
) -> Seq<char> {
    match r.version {
        None => b1 + r.name + b2,
        Some(v) => b1 + r.name + b2 + seq!['='] + b3 + seq!['"'] + v + seq!['"'] + b4,
    }
}

/// A name of name characters, and a constraint without quotes or newlines.
pub open spec fn well_formed(r: RequirementView) -> bool {
    &&& r.name.len() > 0
    &&& all_in(r.name, CharClass::NameChar)
    &&& r.version matches Some(v) ==> all_in(v, CharClass::NotQuote)
}

/// `l` is a declaration of `r`.
pub open spec fn declares(l: Seq<char>, r: RequirementView) -> bool {
    &&& well_formed(r)
    &&& exists|b1: Seq<char>, b2: Seq<char>, b3: Seq<char>, b4: Seq<char>|
        {
            &&& all_in(b1, CharClass::Blank)
            &&& all_in(b2, CharClass::Blank)
            &&& all_in(b3, CharClass::Blank)
            &&& all_in(b4, CharClass::Blank)
            &&& l == declaration_text(r, b1, b2, b3, b4)
        }
}

/// The meaning of one line of the declaration block: blank, a declaration,
/// or neither.
pub open spec fn parse_declaration(l: Seq<char>) -> LineMeaning {
    if all_in(l, CharClass::Blank) {
        LineMeaning::Blank
    } else if exists|r: RequirementView| declares(l, r) {
        LineMeaning::Declares(choose|r: RequirementView| declares(l, r))
    } else {
        LineMeaning::Malformed
    }
}

/// What the scanner reads of one line: the runs of blanks, name characters
/// and constraint characters, from left to right.
pub open spec fn scanned_declaration(l: Seq<char>) -> LineMeaning {
    let a = scan(l, 0, CharClass::Blank);
    let b = scan(l, a, CharClass::NameChar);
    let c = scan(l, b, CharClass::Blank);
    let d = scan(l, c + 1, CharClass::Blank);
    let e = scan(l, d + 1, CharClass::NotQuote);
    let name = l.subrange(a, b);
    if a == l.len() {
        LineMeaning::Blank
    } else if b == a {
        LineMeaning::Malformed
    } else if c == l.len() {
        LineMeaning::Declares(RequirementView { name, version: None })
    } else if l[c] != '=' || d == l.len() || l[d] != '"' || e == l.len() || l[e] != '"' || scan(
        l,
        e + 1,
        CharClass::Blank,
    ) != l.len() {
        LineMeaning::Malformed
    } else {
        LineMeaning::Declares(RequirementView { name, version: Some(l.subrange(d + 1, e)) })
    }
}

/// A declaration reads, scanned, as the requirement it declares.
proof fn lemma_declares_scanned(l: Seq<char>, r: RequirementView)
    requires
        declares(l, r),
    ensures
        scanned_declaration(l) == LineMeaning::Declares(r),
{
    let (b1, b2, b3, b4) = choose|b1: Seq<char>, b2: Seq<char>, b3: Seq<char>, b4: Seq<char>|
        {
            &&& all_in(b1, CharClass::Blank)
            &&& all_in(b2, CharClass::Blank)
            &&& all_in(b3, CharClass::Blank)
            &&& all_in(b4, CharClass::Blank)
            &&& l == declaration_text(r, b1, b2, b3, b4)
        };
    let name = r.name;
    let a = b1.len() as int;
    let b = a + name.len();
    let c = b + b2.len();
    assert(forall|j: int| 0 <= j < a ==> l[j] == b1[j]);
    assert(forall|j: int| a <= j < b ==> l[j] == name[j - a]);
    assert(forall|j: int| b <= j < c ==> l[j] == b2[j - b]);
    assert(l[a] == name[0]);
    lemma_scan_is(l, 0, CharClass::Blank, a);
    if c < l.len() {
        assert(l[c] == '=');
    }
    if b < c {
        assert(l[b] == b2[0]);
    }
    lemma_scan_is(l, a, CharClass::NameChar, b);
    lemma_scan_is(l, b, CharClass::Blank, c);
    assert(l.subrange(a, b) =~= name);
    match r.version {
        None => {},
        Some(v) => {
            let d = c + 1 + b3.len();
            let e = d + 1 + v.len();
            assert(forall|j: int| c + 1 <= j < d ==> l[j] == b3[j - c - 1]);
            assert(forall|j: int| d + 1 <= j < e ==> l[j] == v[j - d - 1]);
            assert(forall|j: int| e + 1 <= j < l.len() ==> l[j] == b4[j - e - 1]);
            assert(l[c] == '=');
            assert(l[d] == '"');
            assert(l[e] == '"');
            lemma_scan_is(l, c + 1, CharClass::Blank, d);
            lemma_scan_is(l, d + 1, CharClass::NotQuote, e);
            lemma_scan_is(l, e + 1, CharClass::Blank, l.len() as int);
            assert(l.subrange(d + 1, e) =~= v);
        },
    }
}

/// What the scanner reads as a declaration is one.
proof fn lemma_scanned_declares(l: Seq<char>, r: RequirementView)
    requires
        scanned_declaration(l) == LineMeaning::Declares(r),
    ensures
        declares(l, r),
{
    let a = scan(l, 0, CharClass::Blank);
    lemma_scan_run(l, 0, CharClass::Blank);
    let b = scan(l, a, CharClass::NameChar);
    lemma_scan_run(l, a, CharClass::NameChar);
    let c = scan(l, b, CharClass::Blank);
    lemma_scan_run(l, b, CharClass::Blank);
    let b1 = l.subrange(0, a);
    let b2 = l.subrange(b, c);
    assert(all_in(b1, CharClass::Blank));
    assert(all_in(b2, CharClass::Blank));
    assert(all_in(r.name, CharClass::NameChar));
    if c == l.len() {
        let e: Seq<char> = Seq::empty();
        assert(l =~= declaration_text(r, b1, b2, e, e));
    } else {
        let d = scan(l, c + 1, CharClass::Blank);
        lemma_scan_run(l, c + 1, CharClass::Blank);
        let e = scan(l, d + 1, CharClass::NotQuote);
        lemma_scan_run(l, d + 1, CharClass::NotQuote);
        lemma_scan_run(l, e + 1, CharClass::Blank);
        let b3 = l.subrange(c + 1, d);
        let b4 = l.subrange(e + 1, l.len() as int);
        assert(all_in(b3, CharClass::Blank));
        assert(all_in(b4, CharClass::Blank));
        assert(all_in(l.subrange(d + 1, e), CharClass::NotQuote));
        let v = l.subrange(d + 1, e);
        assert(r.version == Some(v));
        assert(r.name == l.subrange(a, b));
        assert(l[c] == '=' && l[d] == '"' && l[e] == '"');
        let t1 = b1 + r.name + b2;
        assert(t1 =~= l.subrange(0, c));
        let t2 = t1 + seq!['='] + b3;
        assert(t2 =~= l.subrange(0, d));
        let t3 = t2 + seq!['"'] + v;
        assert(t3 =~= l.subrange(0, e));
        let t4 = t3 + seq!['"'] + b4;
        assert(t4 =~= l);
        assert(declaration_text(r, b1, b2, b3, b4) == t4);
    }
}

/// The grammar of a declaration line and the scanner agree.
proof fn lemma_grammar_is_scanned(l: Seq<char>)
    ensures
        parse_declaration(l) == scanned_declaration(l),
{
    let a = scan(l, 0, CharClass::Blank);
    lemma_scan_run(l, 0, CharClass::Blank);
    if all_in(l, CharClass::Blank) {
        lemma_scan_is(l, 0, CharClass::Blank, l.len() as int);
    } else if exists|r: RequirementView| declares(l, r) {
        let r = choose|r: RequirementView| declares(l, r);
        lemma_declares_scanned(l, r);
    } else {
        assert(a < l.len()) by {
            if a == l.len() {
                assert(all_in(l, CharClass::Blank));
            }
        }
        if let LineMeaning::Declares(r) = scanned_declaration(l) {
            lemma_scanned_declares(l, r);
        }
    }
}

/// Adding a declaration keeps the names distinct.
proof fn lemma_add_keeps_unique(acc: Seq<RequirementView>, r: RequirementView)
    requires
        names_unique(acc),
    ensures
        add_requirement(acc, r) matches Ok(a) ==> names_unique(a),
{
}

/// The declarations parsed so far keep their names distinct.
proof fn lemma_declarations_unique(s: Seq<char>, i: int, d: int, acc: Seq<RequirementView>)
    requires
        names_unique(acc),
    ensures
        parse_declarations(s, i, d, acc) matches Ok(reqs) ==> names_unique(reqs),
    decreases d - i,
{
    if i < d {
        let e = line_end(s, i);
        match parse_declaration(s.subrange(i, e)) {
            LineMeaning::Declares(r) => {
                lemma_add_keeps_unique(acc, r);
                if let Ok(acc2) = add_requirement(acc, r) {
                    if e < d {
                        lemma_declarations_unique(s, e + 1, d, acc2);
                    }
                }
            },
            LineMeaning::Blank => {
                if e < d {
                    lemma_declarations_unique(s, e + 1, d, acc);
                }
            },
            LineMeaning::Malformed => {},
        }
    }
}

/// Why extraction failed, as plain values.
pub enum ExtractionFailure {
    Malformed(Seq<char>),
    ConflictingVersions(Seq<char>),
}

/// Adds one declaration to those seen so far: a repeat of one seen is dropped,
/// and a second version constraint for one name is refused.
pub open spec fn add_requirement(acc: Seq<RequirementView>, r: RequirementView) -> Result<
    Seq<RequirementView>,
    ExtractionFailure,
> {
    if exists|j: int| 0 <= j < acc.len() && acc[j].name == r.name {
        if exists|j: int| 0 <= j < acc.len() && acc[j] == r {
            Ok(acc)
        } else {
            Err(ExtractionFailure::ConflictingVersions(r.name))
        }
    } else {
        Ok(acc.push(r))
    }
}

/// The requirements declared by the lines of `s` from the line start `i` up to
/// position `d`, after those in `acc`.
pub open spec fn parse_declarations(s: Seq<char>, i: int, d: int, acc: Seq<RequirementView>) -> Result<
    Seq<RequirementView>,
    ExtractionFailure,
>
    decreases d - i,
{
    if i >= d {
        Ok(acc)
    } else {
        let e = line_end(s, i);
        let line = s.subrange(i, e);
        let next = match parse_declaration(line) {
            LineMeaning::Blank => Ok(acc),
            LineMeaning::Malformed => Err(ExtractionFailure::Malformed(line)),
            LineMeaning::Declares(r) => add_requirement(acc, r),
        };
        match next {
            Ok(acc2) => if e < d {
                parse_declarations(s, e + 1, d, acc2)
            } else {
                Ok(acc2)
            },
            Err(f) => Err(f),
        }
    }
}

/// Where the body starts, given where the delimiter line starts.
pub open spec fn body_start(s: Seq<char>, d: int) -> int {
    let e = line_end(s, d);
    if e < s.len() {
        e + 1
    } else {
        s.len() as int
    }
}

/// A template split into the requirements it declares and its body.
pub open spec fn parse_template_spec(s: Seq<char>) -> Result<
    (Seq<RequirementView>, Seq<char>),
    ExtractionFailure,
> {
    match find_delimiter(s, 0) {
        None => Ok((Seq::empty(), s)),
        Some(d) => match parse_declarations(s, 0, d, Seq::empty()) {
            Ok(reqs) => Ok((reqs, s.subrange(body_start(s, d), s.len() as int))),
            Err(f) => Err(f),
        },
    }
}

/// No two requirements name the same extension.
pub open spec fn names_unique(reqs: Seq<RequirementView>) -> bool {
    forall|i: int, j: int|
        0 <= i < reqs.len() && 0 <= j < reqs.len() && i != j ==> reqs[i].name != reqs[j].name
}

/// Why a template's declaration block could not be read.
#[derive(Debug)]
pub enum ExtractionError {
    /// A line of the block that is neither blank nor a declaration.
    MalformedDeclaration(String),
    /// Two declarations give one extension different version constraints.
    ConflictingVersions(String),
}

impl View for ExtractionError {
    type V = ExtractionFailure;

    open spec fn view(&self) -> ExtractionFailure {
        match self {
            ExtractionError::MalformedDeclaration(l) => ExtractionFailure::Malformed(l@),
            ExtractionError::ConflictingVersions(n) => ExtractionFailure::ConflictingVersions(n@),
        }
    }
}

/// A template split into the requirements it declares and its body.
#[derive(Debug)]
pub struct ParsedTemplate {
    pub requirements: Vec<ExtensionRequirement>,
    pub body: String,
}


/// What one line of the declaration block says, with the declared requirement
/// in hand.
enum LineOutcome {
    Blank,
    Declares(ExtensionRequirement),
    Malformed,
}

impl View for LineOutcome {
    type V = LineMeaning;

    closed spec fn view(&self) -> LineMeaning {
        match self {
            LineOutcome::Blank => LineMeaning::Blank,
            LineOutcome::Declares(r) => LineMeaning::Declares(r@),
            LineOutcome::Malformed => LineMeaning::Malformed,
        }
    }
}

/// The meaning of the line `s[ls..le]` of the declaration block.
#[verifier::rlimit(60)]
#[verifier::spinoff_prover]
fn parse_line(s: &Vec<char>, text: &str, ls: usize, le: usize) -> (r: LineOutcome)
    requires
        ls <= le <= s.len(),
        s@ == text@,
    ensures
        r@ == scanned_declaration(s@.subrange(ls as int, le as int)),
{
    let ghost l = s@.subrange(ls as int, le as int);
    let a = scan_run(s, ls, le, CharClass::Blank);
    assert(l.subrange(0, l.len() as int) =~= s@.subrange(ls as int, le as int));
    if a == le {
        return LineOutcome::Blank;
    }
    let b = scan_run(s, a, le, CharClass::NameChar);
    assert(l.subrange(a - ls, l.len() as int) =~= s@.subrange(a as int, le as int));
    if b == a {
        return LineOutcome::Malformed;
    }
    let c = scan_run(s, b, le, CharClass::Blank);
    assert(l.subrange(b - ls, l.len() as int) =~= s@.subrange(b as int, le as int));
    let name = String::from_str(text.substring_char(a, b));
    assert(name@ =~= l.subrange(a - ls, b - ls));
    if c == le {
        return LineOutcome::Declares(ExtensionRequirement::new(name, None));
    }
    if s[c] != '=' {
        return LineOutcome::Malformed;
    }
    let d = scan_run(s, c + 1, le, CharClass::Blank);
    assert(l.subrange(c + 1 - ls, l.len() as int) =~= s@.subrange(c + 1, le as int));
    if d == le || s[d] != '"' {
        return LineOutcome::Malformed;
    }
    let e = scan_run(s, d + 1, le, CharClass::NotQuote);
    assert(l.subrange(d + 1 - ls, l.len() as int) =~= s@.subrange(d + 1, le as int));
    if e == le || s[e] != '"' {
        return LineOutcome::Malformed;
    }
    let f = scan_run(s, e + 1, le, CharClass::Blank);
    assert(l.subrange(e + 1 - ls, l.len() as int) =~= s@.subrange(e + 1, le as int));
    if f != le {
        return LineOutcome::Malformed;
    }
    let version = String::from_str(text.substring_char(d + 1, e));
    assert(version@ =~= l.subrange(d + 1 - ls, e - ls));
    LineOutcome::Declares(ExtensionRequirement::new(name, Some(version)))
}

/// Whether `s[i..e]` is the delimiter line.
fn is_delimiter_line(s: &Vec<char>, i: usize, e: usize) -> (r: bool)
    requires
        i <= e <= s.len(),
    ensures
        r == is_delimiter(s@.subrange(i as int, e as int)),
{
    let ghost l = s@.subrange(i as int, e as int);
    if e - i < 3 {
        return false;
    }
    if s[i] != '+' || s[i + 1] != '+' || s[i + 2] != '+' {
        return false;
    }
    let f = scan_run(s, i + 3, e, CharClass::Blank);
    assert(l.subrange(3, l.len() as int) =~= s@.subrange(i + 3, e as int));
    f == e
}

/// Where the delimiter line starts, if the template has one.
fn locate_delimiter(s: &Vec<char>) -> (r: Option<usize>)
    ensures
        match r {
            Some(d) => find_delimiter(s@, 0) == Some(d as int) && d <= s.len(),
            None => find_delimiter(s@, 0) is None,
        },
{
    let mut i: usize = 0;
    loop
        invariant
            i <= s.len(),
            find_delimiter(s@, 0) == find_delimiter(s@, i as int),
        decreases s.len() - i,
    {
        let e = scan_run(s, i, s.len(), CharClass::NotNewline);
        if is_delimiter_line(s, i, e) {
            return Some(i);
        }
        if e >= s.len() {
            return None;
        }
        i = e + 1;
    }
}

/// Whether two version constraints are the same.
fn same_version(a: &Option<String>, b: &Option<String>) -> (r: bool)
    ensures
        r == (crate::requirement::version_view(*a) == crate::requirement::version_view(*b)),
{
    match a {
        Some(x) => match b {
            Some(y) => {
                let r = x.eq(y);
                proof {
                    if r {
                        assert(x@ == y@);
                    } else {
                        assert(x@ != y@);
                    }
                }
                r
            },
            None => false,
        },
        None => b.is_none(),
    }
}

/// Adds one declaration to `acc`, as `add_requirement` says.
fn add_declared(acc: &mut Vec<ExtensionRequirement>, r: ExtensionRequirement) -> (res: Result<
    (),
    ExtractionError,
>)
    requires
        names_unique(requirements_view(old(acc)@)),
    ensures
        names_unique(requirements_view(final(acc)@)),
        match add_requirement(requirements_view(old(acc)@), r@) {
            Ok(a) => res is Ok && requirements_view(final(acc)@) == a,
            Err(f) => res matches Err(e) && e@ == f,
        },
{
    let ghost old_view = requirements_view(acc@);
    let n = acc.len();
    for j in 0..n
        invariant
            n == acc@.len(),
            old_view == requirements_view(acc@),
            names_unique(old_view),
            forall|k: int| 0 <= k < j ==> old_view[k].name != r@.name,
    {
        if acc[j].name == r.name {
            assert(old_view[j as int].name == r@.name);
            if same_version(&acc[j].version, &r.version) {
                assert(old_view[j as int] == r@);
                return Ok(());
            } else {
                assert(!exists|k: int| 0 <= k < old_view.len() && old_view[k] == r@) by {
                    if exists|k: int| 0 <= k < old_view.len() && old_view[k] == r@ {
                        let k = choose|k: int| 0 <= k < old_view.len() && old_view[k] == r@;
                        assert(k == j);
                    }
                }
                return Err(ExtractionError::ConflictingVersions(r.name));
            }
        }
    }
    acc.push(r);
    assert(requirements_view(acc@) =~= old_view.push(r@));
    Ok(())
}

/// Splits a template into the requirements its declaration block names and
/// its body. The requirements come in the order of their first declaration,
/// each extension once.
pub fn parse_template(text: &str) -> (r: Result<ParsedTemplate, ExtractionError>)
    ensures
        match parse_template_spec(text@) {
            Ok((reqs, body)) => r matches Ok(p) && requirements_view(p.requirements@) == reqs
                && p.body@ == body,
            Err(f) => r matches Err(e) && e@ == f,
        },
        r matches Ok(p) ==> names_unique(requirements_view(p.requirements@)),
{
    let s = chars_of(text);
    let n = s.len();
    let d = match locate_delimiter(&s) {
        Some(d) => d,
        None => {
            let body = String::from_str(text);
            return Ok(ParsedTemplate { requirements: Vec::new(), body });
        },
    };
    let mut acc: Vec<ExtensionRequirement> = Vec::new();
    let mut i: usize = 0;
    assert(requirements_view(acc@) =~= Seq::<RequirementView>::empty());
    while i < d
        invariant
            s@ == text@,
            n == s@.len(),
            i <= d <= n,
            find_delimiter(s@, 0) == Some(d as int),
            names_unique(requirements_view(acc@)),
            parse_declarations(s@, 0, d as int, Seq::empty()) == parse_declarations(
                s@,
                i as int,
                d as int,
                requirements_view(acc@),
            ),
        decreases d - i,
    {
        let e = scan_run(&s, i, n, CharClass::NotNewline);
        proof {
            lemma_grammar_is_scanned(s@.subrange(i as int, e as int));
        }
        match parse_line(&s, text, i, e) {
            LineOutcome::Blank => {},
            LineOutcome::Malformed => {
                let line = String::from_str(text.substring_char(i, e));
                assert(parse_declarations(s@, i as int, d as int, requirements_view(acc@)) matches Err(
                    f,
                ) && f == ExtractionFailure::Malformed(line@));
                return Err(ExtractionError::MalformedDeclaration(line));
            },
            LineOutcome::Declares(r) => {
                match add_declared(&mut acc, r) {
                    Ok(()) => {},
                    Err(err) => {
                        return Err(err);
                    },
                }
            },
        }
        if e < d {
            i = e + 1;
        } else {
            i = d;
        }
    }
    let e = scan_run(&s, d, n, CharClass::NotNewline);
    let start = if e < n {
        e + 1
    } else {
        n
    };
    let body = String::from_str(text.substring_char(start, n));
    Ok(ParsedTemplate { requirements: acc, body })
}

/// `r` is what extraction gives for `text`.
pub open spec fn extracted_from(r: Result<Vec<ExtensionRequirement>, ExtractionError>, text: Seq<char>) -> bool {
    match parse_template_spec(text) {
        Ok((reqs, _)) => r matches Ok(v) && requirements_view(v@) == reqs,
        Err(f) => r matches Err(e) && e@ == f,
    }
}

/// Determinism: two extractions over one template text, whenever and wherever
/// they run, fail alike or yield the same requirements, in the same order,
/// naming distinct extensions.
pub proof fn lemma_extraction_deterministic(
    text: Seq<char>,
    first: Result<Vec<ExtensionRequirement>, ExtractionError>,
    second: Result<Vec<ExtensionRequirement>, ExtractionError>,
)
    requires
        extracted_from(first, text),
        extracted_from(second, text),
    ensures
        first is Ok <==> second is Ok,
        first matches Err(e1) ==> second matches Err(e2) && e1@ == e2@,
        first matches Ok(v1) ==> second matches Ok(v2) && requirements_view(v1@)
            == requirements_view(v2@) && names_unique(requirements_view(v1@)),
{
    if let Some(d) = find_delimiter(text, 0) {
        lemma_declarations_unique(text, 0, d, Seq::empty());
    }
}

/// The requirements that a template declares, as `parse_template` finds them.
pub fn extract_requirements(text: &str) -> (r: Result<Vec<ExtensionRequirement>, ExtractionError>)
    ensures
        extracted_from(r, text@),
{
    match parse_template(text) {
        Ok(p) => Ok(p.requirements),
        Err(e) => Err(e),
    }
}

} // verus!
