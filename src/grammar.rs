//! The text grammar of versions and ranges, stated over character positions,
//! and the parsers proved against it.
use vstd::prelude::*;
use crate::base36::{Base36, chars_of, is_alnum, to_lower};
use crate::range::{Op, Range, RangeView, any_view, clause_views, clauses_fit, range_of};
use crate::version::{Version, VersionView, opt_field, push_char};

verus! {

/// Why a text is not a version or not a range.
#[derive(Debug, Clone, Copy, PartialEq, Eq, Structural)]
pub enum ParseError {
    InvalidVersion,
    InvalidRange,
}

/// The classes of characters that the grammar reads in runs.
#[derive(Clone, Copy)]
pub enum CharClass {
    Space,
    Digit,
    Word,
    Separator,
}

pub open spec fn in_class(k: CharClass, c: char) -> bool {
    match k {
        CharClass::Space => c == ' ',
        CharClass::Digit => '0' <= c && c <= '9',
        CharClass::Word => is_alnum(c) || c == '_' || c == '.',
        CharClass::Separator => c == ' ' || c == ',' || c == ';',
    }
}

/// End of the longest run of class `k` that starts at `i`.
pub open spec fn run_end(s: Seq<char>, i: int, k: CharClass) -> int
    decreases s.len() - i,
{
    if 0 <= i < s.len() && in_class(k, s[i]) {
        run_end(s, i + 1, k)
    } else {
        i
    }
}

pub open spec fn digit_value(c: char) -> int {
    c as u32 - 48
}

/// The number that a string of decimal digits spells.
pub open spec fn digits_value(s: Seq<char>) -> int
    decreases s.len(),
{
    if s.len() == 0 {
        0
    } else {
        digits_value(s.drop_last()) * 10 + digit_value(s.last())
    }
}

/// A number at `i`: one or more digits whose value fits in a `u32`.
pub open spec fn num(s: Seq<char>, i: int) -> Option<(u32, int)> {
    let j = run_end(s, i, CharClass::Digit);
    if j == i || digits_value(s.subrange(i, j)) > u32::MAX {
        None
    } else {
        Some((digits_value(s.subrange(i, j)) as u32, j))
    }
}

pub open spec fn opt_num(s: Seq<char>, i: int) -> (Option<u32>, int) {
    match num(s, i) {
        Some((n, j)) => (Some(n), j),
        None => (None, i),
    }
}

/// A word at `i`: one or more of `[A-Za-z0-9_.]`, lower-cased.
pub open spec fn word(s: Seq<char>, i: int) -> Option<(Seq<char>, int)> {
    let j = run_end(s, i, CharClass::Word);
    if j == i {
        None
    } else {
        Some((s.subrange(i, j).map_values(|c: char| to_lower(c)), j))
    }
}

pub open spec fn opt_char(s: Seq<char>, i: int, c: char) -> int {
    if 0 <= i < s.len() && s[i] == c {
        i + 1
    } else {
        i
    }
}

/// An optional `c` followed by a word.
pub open spec fn tagged(s: Seq<char>, i: int, c: char) -> (Option<Seq<char>>, int) {
    if 0 <= i < s.len() && s[i] == c {
        match word(s, i + 1) {
            Some((w, j)) => (Some(w), j),
            None => (None, i),
        }
    } else {
        (None, i)
    }
}

/// One or more separators, or the end of the text.
pub open spec fn sep_or_end(s: Seq<char>, i: int) -> Option<int> {
    if 0 <= i < s.len() && in_class(CharClass::Separator, s[i]) {
        Some(run_end(s, i, CharClass::Separator))
    } else if i == s.len() {
        Some(i)
    } else {
        None
    }
}

/// What follows the numbers: `[-pre][+build]`, or `+build-pre`, then a
/// separator or the end. Gives pre-release, build and the end.
pub open spec fn after_v(s: Seq<char>, i: int) -> Option<(Option<Seq<char>>, Option<Seq<char>>, int)> {
    let (p, i1) = tagged(s, i, '-');
    let (b, i2) = tagged(s, i1, '+');
    match sep_or_end(s, i2) {
        Some(k) => Some((p, b, k)),
        None => {
            let (build2, j1) = tagged(s, i, '+');
            let (pre2, j2) = tagged(s, j1, '-');
            if build2 is Some && pre2 is Some {
                match sep_or_end(s, j2) {
                    Some(k) => Some((pre2, build2, k)),
                    None => None,
                }
            } else {
                None
            }
        },
    }
}

/// A version as written, before its payloads are read as numbers.
pub struct RawVersion {
    pub major: u32,
    pub minor: Option<u32>,
    pub patch: Option<u32>,
    pub extra: Option<Seq<char>>,
    pub pre: Option<Seq<char>>,
    pub build: Option<Seq<char>>,
}

/// A version literal at `i`: `[v|V][ ]major[.][minor][.][patch][.extra]`
/// and what `after_v` reads.
pub open spec fn version_at(s: Seq<char>, i: int) -> Option<(RawVersion, int)> {
    let i1 = if 0 <= i < s.len() && (s[i] == 'v' || s[i] == 'V') {
        i + 1
    } else {
        i
    };
    let i2 = opt_char(s, i1, ' ');
    match num(s, i2) {
        None => None,
        Some((major, j1)) => {
            let j2 = opt_char(s, j1, '.');
            let (minor, j3) = opt_num(s, j2);
            let j4 = opt_char(s, j3, '.');
            let (patch, j5) = opt_num(s, j4);
            let (extra, j6) = tagged(s, j5, '.');
            match after_v(s, j6) {
                None => None,
                Some((pre, build, k)) => Some(
                    (RawVersion { major, minor, patch, extra, pre, build }, k),
                ),
            }
        },
    }
}

pub open spec fn unwrap_or_zero(o: Option<u32>) -> u32 {
    match o {
        Some(n) => n,
        None => 0,
    }
}

/// The version that a literal stands for, if its payloads are base-36
/// numbers; missing minor and patch are zero.
pub open spec fn resolve(r: RawVersion) -> Option<VersionView> {
    match (opt_field(r.extra), opt_field(r.pre)) {
        (Ok(e), Ok(p)) => Some(
            VersionView {
                major: r.major,
                minor: unwrap_or_zero(r.minor),
                patch: unwrap_or_zero(r.patch),
                extra: e,
                pre: p,
                build: r.build,
            },
        ),
        _ => None,
    }
}

/// What `Version::parse` gives for a text: spaces, a version literal,
/// spaces, and the end.
pub open spec fn parse_version_spec(s: Seq<char>) -> Option<VersionView> {
    match version_at(s, run_end(s, 0, CharClass::Space)) {
        Some((raw, j)) => if run_end(s, j, CharClass::Space) == s.len() {
            resolve(raw)
        } else {
            None
        },
        None => None,
    }
}

/// The operator token at `i`; none written means `=`.
pub open spec fn op_at(s: Seq<char>, i: int) -> (Op, int) {
    let two = 0 <= i && i + 1 < s.len() && s[i + 1] == '=';
    let one = 0 <= i < s.len();
    if two && s[i] == '=' {
        (Op::Eq, i + 2)
    } else if two && s[i] == '!' {
        (Op::Ne, i + 2)
    } else if two && s[i] == '<' {
        (Op::Le, i + 2)
    } else if two && s[i] == '>' {
        (Op::Ge, i + 2)
    } else if one && s[i] == '=' {
        (Op::Eq, i + 1)
    } else if one && s[i] == '<' {
        (Op::Lt, i + 1)
    } else if one && s[i] == '>' {
        (Op::Gt, i + 1)
    } else if one && s[i] == '~' {
        (Op::Tilde, i + 1)
    } else if one && s[i] == '^' {
        (Op::Caret, i + 1)
    } else {
        (Op::Eq, i)
    }
}

/// A clause at `i`: an operator, spaces, a version literal, spaces.
pub open spec fn clause_at(s: Seq<char>, i: int) -> Option<((Op, RawVersion), int)> {
    let (op, j) = op_at(s, i);
    match version_at(s, run_end(s, j, CharClass::Space)) {
        Some((v, k)) => Some(((op, v), run_end(s, k, CharClass::Space))),
        None => None,
    }
}

/// The clauses that follow one another from `i`, and where they end.
pub open spec fn clauses_from(s: Seq<char>, i: int) -> (Seq<(Op, RawVersion)>, int)
    decreases s.len() - i,
{
    match clause_at(s, i) {
        Some((c, j)) => if i < j <= s.len() {
            let (rest, k) = clauses_from(s, j);
            (seq![c] + rest, k)
        } else {
            (Seq::empty(), i)
        },
        None => (Seq::empty(), i),
    }
}

/// The clauses with their versions resolved, if all of them resolve.
pub open spec fn resolve_all(cs: Seq<(Op, RawVersion)>) -> Option<Seq<(Op, VersionView)>>
    decreases cs.len(),
{
    if cs.len() == 0 {
        Some(Seq::empty())
    } else {
        match (resolve_all(cs.drop_last()), resolve(cs.last().1)) {
            (Some(rest), Some(v)) => Some(rest.push((cs.last().0, v))),
            _ => None,
        }
    }
}

/// What `Range::parse` gives for a text: `*` alone (within spaces) is any
/// version; else clauses up to the end, whose versions resolve and whose
/// shorthand bounds stay within `u32`.
pub open spec fn parse_range_spec(s: Seq<char>) -> Option<RangeView> {
    let i0 = run_end(s, 0, CharClass::Space);
    if i0 < s.len() && s[i0] == '*' && run_end(s, i0 + 1, CharClass::Space) == s.len() {
        Some(any_view())
    } else {
        let (cs, k) = clauses_from(s, i0);
        if run_end(s, k, CharClass::Space) == s.len() {
            match resolve_all(cs) {
                Some(rs) => if clauses_fit(rs) {
                    Some(range_of(rs))
                } else {
                    None
                },
                None => None,
            }
        } else {
            None
        }
    }
}

pub proof fn lemma_run_end(s: Seq<char>, i: int, k: CharClass)
    requires
        0 <= i <= s.len(),
    ensures
        i <= run_end(s, i, k) <= s.len(),
        forall|m: int| i <= m < run_end(s, i, k) ==> in_class(k, #[trigger] s[m]),
    decreases s.len() - i,
{
    if i < s.len() && in_class(k, s[i]) {
        lemma_run_end(s, i + 1, k);
    }
}

fn in_class_exec(k: CharClass, c: char) -> (r: bool)
    ensures
        r == in_class(k, c),
{
    match k {
        CharClass::Space => c == ' ',
        CharClass::Digit => '0' <= c && c <= '9',
        CharClass::Word => ('0' <= c && c <= '9') || ('a' <= c && c <= 'z') || ('A' <= c && c
            <= 'Z') || c == '_' || c == '.',
        CharClass::Separator => c == ' ' || c == ',' || c == ';',
    }
}

fn skip(s: &Vec<char>, i: usize, k: CharClass) -> (r: usize)
    requires
        i <= s.len(),
    ensures
        r == run_end(s@, i as int, k),
        i <= r <= s.len(),
{
    proof {
        lemma_run_end(s@, i as int, k);
    }
    let mut j = i;
    while j < s.len() && in_class_exec(k, s[j])
        invariant
            i <= j <= s.len(),
            run_end(s@, i as int, k) == run_end(s@, j as int, k),
        decreases s.len() - j,
    {
        j = j + 1;
    }
    j
}

fn num_at(s: &Vec<char>, i: usize) -> (r: Option<(u32, usize)>)
    requires
        i <= s.len(),
    ensures
        match r {
            Some((n, j)) => num(s@, i as int) == Some((n, j as int)) && j <= s.len(),
            None => num(s@, i as int) is None,
        },
{
    let j = skip(s, i, CharClass::Digit);
    proof {
        lemma_run_end(s@, i as int, CharClass::Digit);
    }
    if j == i {
        return None;
    }
    let mut acc: u64 = 0;
    let mut over = false;
    let mut k = i;
    assert(s@.subrange(i as int, i as int) =~= Seq::<char>::empty());
    while k < j
        invariant
            i <= k <= j,
            j <= s.len(),
            j == run_end(s@, i as int, CharClass::Digit),
            forall|m: int| i <= m < j ==> in_class(CharClass::Digit, #[trigger] s@[m]),
            over ==> digits_value(s@.subrange(i as int, k as int)) > u32::MAX,
            !over ==> acc == digits_value(s@.subrange(i as int, k as int)) && acc <= u32::MAX,
        decreases j - k,
    {
        let ghost prev = s@.subrange(i as int, k as int);
        assert(s@.subrange(i as int, k + 1).drop_last() =~= prev);
        assert(in_class(CharClass::Digit, s@[k as int]));
        let d: u64 = (s[k] as u32 - 48) as u64;
        if !over {
            acc = acc * 10 + d;
            if acc > u32::MAX as u64 {
                over = true;
            }
        }
        k = k + 1;
    }
    if over {
        None
    } else {
        Some((acc as u32, j))
    }
}

fn opt_num_at(s: &Vec<char>, i: usize) -> (r: (Option<u32>, usize))
    requires
        i <= s.len(),
    ensures
        (r.0, r.1 as int) == opt_num(s@, i as int),
        r.1 <= s.len(),
{
    match num_at(s, i) {
        Some((n, j)) => (Some(n), j),
        None => (None, i),
    }
}

fn opt_char_at(s: &Vec<char>, i: usize, c: char) -> (r: usize)
    requires
        i <= s.len(),
    ensures
        r == opt_char(s@, i as int, c),
        r <= s.len(),
{
    if i < s.len() && s[i] == c {
        i + 1
    } else {
        i
    }
}

fn word_at(s: &Vec<char>, i: usize) -> (r: Option<(String, usize)>)
    requires
        i <= s.len(),
    ensures
        match r {
            Some((w, j)) => word(s@, i as int) == Some((w@, j as int)) && j <= s.len(),
            None => word(s@, i as int) is None,
        },
{
    let j = skip(s, i, CharClass::Word);
    if j == i {
        return None;
    }
    let mut w = String::new();
    let mut k = i;
    while k < j
        invariant
            i <= k <= j,
            j <= s.len(),
            w@ == s@.subrange(i as int, k as int).map_values(|c: char| to_lower(c)),
        decreases j - k,
    {
        let c = s[k];
        let l = if 'A' <= c && c <= 'Z' {
            ((c as u8) + 32) as char
        } else {
            c
        };
        push_char(&mut w, l);
        assert(w@ =~= s@.subrange(i as int, k + 1).map_values(|c: char| to_lower(c)));
        k = k + 1;
    }
    Some((w, j))
}

fn tagged_at(s: &Vec<char>, i: usize, c: char) -> (r: (Option<String>, usize))
    requires
        i <= s.len(),
    ensures
        (crate::version::str_view(r.0), r.1 as int) == tagged(s@, i as int, c),
        r.1 <= s.len(),
{
    if i < s.len() && s[i] == c {
        match word_at(s, i + 1) {
            Some((w, j)) => (Some(w), j),
            None => (None, i),
        }
    } else {
        (None, i)
    }
}

fn sep_or_end_at(s: &Vec<char>, i: usize) -> (r: Option<usize>)
    requires
        i <= s.len(),
    ensures
        match r {
            Some(k) => sep_or_end(s@, i as int) == Some(k as int) && k <= s.len(),
            None => sep_or_end(s@, i as int) is None,
        },
{
    if i < s.len() && in_class_exec(CharClass::Separator, s[i]) {
        Some(skip(s, i, CharClass::Separator))
    } else if i == s.len() {
        Some(i)
    } else {
        None
    }
}

fn after_v_at(s: &Vec<char>, i: usize) -> (r: Option<(Option<String>, Option<String>, usize)>)
    requires
        i <= s.len(),
    ensures
        match r {
            Some((p, b, k)) => after_v(s@, i as int) == Some(
                (crate::version::str_view(p), crate::version::str_view(b), k as int),
            ) && k <= s.len(),
            None => after_v(s@, i as int) is None,
        },
{
    let (p, i1) = tagged_at(s, i, '-');
    let (b, i2) = tagged_at(s, i1, '+');
    match sep_or_end_at(s, i2) {
        Some(k) => Some((p, b, k)),
        None => {
            let (build2, j1) = tagged_at(s, i, '+');
            let (pre2, j2) = tagged_at(s, j1, '-');
            if build2.is_some() && pre2.is_some() {
                match sep_or_end_at(s, j2) {
                    Some(k) => Some((pre2, build2, k)),
                    None => None,
                }
            } else {
                None
            }
        },
    }
}

/// A version literal as read, before its payloads are read as numbers.
struct Raw {
    major: u32,
    minor: Option<u32>,
    patch: Option<u32>,
    extra: Option<String>,
    pre: Option<String>,
    build: Option<String>,
}

spec fn raw_view(r: Raw) -> RawVersion {
    RawVersion {
        major: r.major,
        minor: r.minor,
        patch: r.patch,
        extra: crate::version::str_view(r.extra),
        pre: crate::version::str_view(r.pre),
        build: crate::version::str_view(r.build),
    }
}

fn version_at_exec(s: &Vec<char>, i: usize) -> (r: Option<(Raw, usize)>)
    requires
        i <= s.len(),
    ensures
        match r {
            Some((v, k)) => version_at(s@, i as int) == Some((raw_view(v), k as int)) && k
                <= s.len(),
            None => version_at(s@, i as int) is None,
        },
{
    let i1 = if i < s.len() && (s[i] == 'v' || s[i] == 'V') {
        i + 1
    } else {
        i
    };
    let i2 = opt_char_at(s, i1, ' ');
    match num_at(s, i2) {
        None => None,
        Some((major, j1)) => {
            let j2 = opt_char_at(s, j1, '.');
            let (minor, j3) = opt_num_at(s, j2);
            let j4 = opt_char_at(s, j3, '.');
            let (patch, j5) = opt_num_at(s, j4);
            let (extra, j6) = tagged_at(s, j5, '.');
            match after_v_at(s, j6) {
                None => None,
                Some((pre, build, k)) => Some(
                    (Raw { major, minor, patch, extra, pre, build }, k),
                ),
            }
        },
    }
}

fn read_payload(o: &Option<String>) -> (r: Result<Option<Base36>, crate::base36::FieldError>)
    ensures
        match r {
            Ok(b) => opt_field(crate::version::str_view(*o)) == Ok::<
                Option<Seq<char>>,
                crate::base36::FieldError,
            >(crate::version::b36_view(b)),
            Err(e) => opt_field(crate::version::str_view(*o)) is Err,
        },
{
    match o {
        None => Ok(None),
        Some(t) => match Base36::parse(t.as_str()) {
            Ok(b) => Ok(Some(b)),
            Err(e) => Err(e),
        },
    }
}

fn resolve_exec(r: &Raw) -> (v: Option<Version>)
    ensures
        match v {
            Some(x) => resolve(raw_view(*r)) == Some(x@),
            None => resolve(raw_view(*r)) is None,
        },
{
    let extra = match read_payload(&r.extra) {
        Ok(e) => e,
        Err(_) => return None,
    };
    let pre = match read_payload(&r.pre) {
        Ok(p) => p,
        Err(_) => return None,
    };
    let minor = match r.minor {
        Some(n) => n,
        None => 0,
    };
    let patch = match r.patch {
        Some(n) => n,
        None => 0,
    };
    let build = match &r.build {
        Some(b) => Some(b.clone()),
        None => None,
    };
    Some(
        Version {
            major: r.major,
            minor,
            patch,
            extra_version: extra,
            pre_release: pre,
            build: build,
        },
    )
}

impl Version {
    /// Reads a version from text (see `parse_version_spec`).
    pub fn parse(version: &str) -> (r: Result<Version, ParseError>)
        ensures
            match parse_version_spec(version@) {
                Some(v) => r matches Ok(x) && x@ == v,
                None => r == Err::<Version, ParseError>(ParseError::InvalidVersion),
            },
    {
        let s = chars_of(version);
        let i0 = skip(&s, 0, CharClass::Space);
        match version_at_exec(&s, i0) {
            Some((raw, j)) => {
                if skip(&s, j, CharClass::Space) == s.len() {
                    match resolve_exec(&raw) {
                        Some(v) => Ok(v),
                        None => Err(ParseError::InvalidVersion),
                    }
                } else {
                    Err(ParseError::InvalidVersion)
                }
            },
            None => Err(ParseError::InvalidVersion),
        }
    }
}

fn op_at_exec(s: &Vec<char>, i: usize) -> (r: (Op, usize))
    requires
        i <= s.len(),
    ensures
        (r.0, r.1 as int) == op_at(s@, i as int),
        r.1 <= s.len(),
{
    let one = i < s.len();
    let two = one && i + 1 < s.len() && s[i + 1] == '=';
    if two && s[i] == '=' {
        (Op::Eq, i + 2)
    } else if two && s[i] == '!' {
        (Op::Ne, i + 2)
    } else if two && s[i] == '<' {
        (Op::Le, i + 2)
    } else if two && s[i] == '>' {
        (Op::Ge, i + 2)
    } else if one && s[i] == '=' {
        (Op::Eq, i + 1)
    } else if one && s[i] == '<' {
        (Op::Lt, i + 1)
    } else if one && s[i] == '>' {
        (Op::Gt, i + 1)
    } else if one && s[i] == '~' {
        (Op::Tilde, i + 1)
    } else if one && s[i] == '^' {
        (Op::Caret, i + 1)
    } else {
        (Op::Eq, i)
    }
}

spec fn raw_clauses(s: Seq<(Op, Raw)>) -> Seq<(Op, RawVersion)> {
    s.map_values(|c: (Op, Raw)| (c.0, raw_view(c.1)))
}

fn clause_at_exec(s: &Vec<char>, i: usize) -> (r: Option<((Op, Raw), usize)>)
    requires
        i <= s.len(),
    ensures
        match r {
            Some((c, k)) => clause_at(s@, i as int) == Some(((c.0, raw_view(c.1)), k as int)) && k
                <= s.len(),
            None => clause_at(s@, i as int) is None,
        },
{
    let (op, j) = op_at_exec(s, i);
    let j2 = skip(s, j, CharClass::Space);
    match version_at_exec(s, j2) {
        Some((v, k)) => {
            let k2 = skip(s, k, CharClass::Space);
            Some(((op, v), k2))
        },
        None => None,
    }
}

/// The clauses that follow one another from `i`, and where they end.
fn clauses_at(s: &Vec<char>, i: usize) -> (r: (Vec<(Op, Raw)>, usize))
    requires
        i <= s.len(),
    ensures
        (raw_clauses(r.0@), r.1 as int) == clauses_from(s@, i as int),
        r.1 <= s.len(),
{
    let mut out: Vec<(Op, Raw)> = Vec::new();
    let mut j = i;
    let mut done = false;
    assert(raw_clauses(out@) + clauses_from(s@, i as int).0 =~= clauses_from(s@, i as int).0);
    while !done
        invariant
            j <= s.len(),
            done ==> clauses_from(s@, j as int) == (Seq::<(Op, RawVersion)>::empty(), j as int),
            clauses_from(s@, i as int) == (
                raw_clauses(out@) + clauses_from(s@, j as int).0,
                clauses_from(s@, j as int).1,
            ),
        decreases s.len() - j + (if done { 0int } else { 1int }),
    {
        match clause_at_exec(s, j) {
            Some((c, k)) => {
                if j < k {
                    let ghost rest = clauses_from(s@, k as int);
                    let ghost cv = (c.0, raw_view(c.1));
                    let ghost before = raw_clauses(out@);
                    out.push(c);
                    assert(raw_clauses(out@) =~= before.push(cv));
                    assert(raw_clauses(out@) + rest.0 =~= before + (seq![cv] + rest.0));
                    j = k;
                } else {
                    done = true;
                }
            },
            None => {
                done = true;
            },
        }
    }
    assert(raw_clauses(out@) + Seq::<(Op, RawVersion)>::empty() =~= raw_clauses(out@));
    (out, j)
}

proof fn lemma_resolve_prefix_none(cs: Seq<(Op, RawVersion)>, n: int)
    requires
        0 <= n <= cs.len(),
        resolve_all(cs.subrange(0, n)) is None,
    ensures
        resolve_all(cs) is None,
    decreases cs.len() - n,
{
    if n == cs.len() {
        assert(cs.subrange(0, n) =~= cs);
    } else {
        assert(cs.subrange(0, n + 1).drop_last() =~= cs.subrange(0, n));
        lemma_resolve_prefix_none(cs, n + 1);
    }
}

fn resolve_clauses(raws: &Vec<(Op, Raw)>) -> (r: Option<Vec<(Op, Version)>>)
    ensures
        match r {
            Some(v) => resolve_all(raw_clauses(raws@)) == Some(clause_views(v@)),
            None => resolve_all(raw_clauses(raws@)) is None,
        },
{
    let ghost rc = raw_clauses(raws@);
    let mut out: Vec<(Op, Version)> = Vec::new();
    let mut i: usize = 0;
    assert(rc.subrange(0, 0) =~= Seq::<(Op, RawVersion)>::empty());
    assert(clause_views(out@) =~= Seq::<(Op, VersionView)>::empty());
    while i < raws.len()
        invariant
            rc == raw_clauses(raws@),
            i <= raws.len(),
            resolve_all(rc.subrange(0, i as int)) == Some(clause_views(out@)),
        decreases raws.len() - i,
    {
        let c = &raws[i];
        let ghost before = clause_views(out@);
        assert(rc.subrange(0, i + 1).drop_last() =~= rc.subrange(0, i as int));
        assert(rc.subrange(0, i + 1).last() == (c.0, raw_view(c.1)));
        match resolve_exec(&c.1) {
            Some(v) => {
                out.push((c.0, v));
                assert(clause_views(out@) =~= before.push((c.0, v@)));
            },
            None => {
                proof {
                    lemma_resolve_prefix_none(rc, i + 1);
                }
                return None;
            },
        }
        i = i + 1;
    }
    assert(rc.subrange(0, i as int) =~= rc);
    Some(out)
}

fn all_fit(cs: &Vec<(Op, Version)>) -> (r: bool)
    ensures
        r == clauses_fit(clause_views(cs@)),
{
    let mut i: usize = 0;
    while i < cs.len()
        invariant
            i <= cs.len(),
            forall|m: int|
                0 <= m < i ==> crate::range::clause_fits(
                    #[trigger] clause_views(cs@)[m].0,
                    clause_views(cs@)[m].1,
                ),
        decreases cs.len() - i,
    {
        let op = cs[i].0;
        let v = &cs[i].1;
        assert(clause_views(cs@)[i as int] == (op, v@));
        let fits = match op {
            Op::Tilde => v.minor < u32::MAX,
            Op::Caret => v.major < u32::MAX,
            Op::Le | Op::Gt => v.patch < u32::MAX,
            _ => true,
        };
        if !fits {
            assert(!crate::range::clause_fits(clause_views(cs@)[i as int].0, clause_views(cs@)[i as int].1));
            return false;
        }
        i = i + 1;
    }
    true
}

impl Range {
    /// Reads a range from text (see `parse_range_spec`).
    pub fn parse(range: &str) -> (r: Result<Range, ParseError>)
        ensures
            match parse_range_spec(range@) {
                Some(v) => r matches Ok(x) && x@ == v,
                None => r == Err::<Range, ParseError>(ParseError::InvalidRange),
            },
    {
        let s = chars_of(range);
        let i0 = skip(&s, 0, CharClass::Space);
        if i0 < s.len() && s[i0] == '*' && skip(&s, i0 + 1, CharClass::Space) == s.len() {
            return Ok(Range::any());
        }
        let (raws, k) = clauses_at(&s, i0);
        if skip(&s, k, CharClass::Space) != s.len() {
            return Err(ParseError::InvalidRange);
        }
        match resolve_clauses(&raws) {
            Some(cs) => {
                if all_fit(&cs) {
                    Ok(Range::from_ver_vec(cs))
                } else {
                    Err(ParseError::InvalidRange)
                }
            },
            None => Err(ParseError::InvalidRange),
        }
    }
}

impl core::str::FromStr for Version {
    type Err = ParseError;

    fn from_str(s: &str) -> Result<Version, ParseError> {
        Version::parse(s)
    }
}

impl core::str::FromStr for Range {
    type Err = ParseError;

    fn from_str(s: &str) -> Result<Range, ParseError> {
        Range::parse(s)
    }
}

} // verus!
