//! Ranges: operators, normalisation of a clause list, membership, validity
//! and canonical rendering.
use vstd::prelude::*;
use core::cmp::Ordering;
use crate::base36::chars_of;
use crate::version::{Version, VersionView, order_cmp, plain, push_char, version_text};

verus! {

/// A comparison operator of a range clause.
#[derive(Debug, Clone, Copy, PartialEq, Eq, Structural, Hash)]
pub enum Op {
    Eq,
    Ne,
    Gt,
    Lt,
    Ge,
    Le,
    Tilde,
    Caret,
}

/// The operator a token stands for: `==`, `=` and the empty token mean
/// equality.
pub open spec fn op_of(s: Seq<char>) -> Option<Op> {
    if s.len() == 0 {
        Some(Op::Eq)
    } else if s.len() == 1 {
        if s[0] == '=' {
            Some(Op::Eq)
        } else if s[0] == '>' {
            Some(Op::Gt)
        } else if s[0] == '<' {
            Some(Op::Lt)
        } else if s[0] == '~' {
            Some(Op::Tilde)
        } else if s[0] == '^' {
            Some(Op::Caret)
        } else {
            None
        }
    } else if s.len() == 2 && s[1] == '=' {
        if s[0] == '=' {
            Some(Op::Eq)
        } else if s[0] == '!' {
            Some(Op::Ne)
        } else if s[0] == '>' {
            Some(Op::Ge)
        } else if s[0] == '<' {
            Some(Op::Le)
        } else {
            None
        }
    } else {
        None
    }
}

impl Op {
    pub fn from_str(op: &str) -> (r: Option<Op>)
        ensures
            r == op_of(op@),
    {
        let c = chars_of(op);
        if c.len() == 0 {
            Some(Op::Eq)
        } else if c.len() == 1 {
            let a = c[0];
            if a == '=' {
                Some(Op::Eq)
            } else if a == '>' {
                Some(Op::Gt)
            } else if a == '<' {
                Some(Op::Lt)
            } else if a == '~' {
                Some(Op::Tilde)
            } else if a == '^' {
                Some(Op::Caret)
            } else {
                None
            }
        } else if c.len() == 2 && c[1] == '=' {
            let a = c[0];
            if a == '=' {
                Some(Op::Eq)
            } else if a == '!' {
                Some(Op::Ne)
            } else if a == '>' {
                Some(Op::Ge)
            } else if a == '<' {
                Some(Op::Le)
            } else {
                None
            }
        } else {
            None
        }
    }
}

/// What a range holds, with its versions as views.
pub struct RangeView {
    pub min: Option<VersionView>,
    pub max: Option<VersionView>,
    pub except: Seq<VersionView>,
    pub included: Seq<VersionView>,
}

/// A version range: an inclusive lower bound, an exclusive upper bound,
/// versions excluded exactly and versions included exactly.
#[derive(Debug)]
pub struct Range {
    pub min: Option<Version>,
    pub max: Option<Version>,
    pub except: Vec<Version>,
    pub included: Vec<Version>,
}

pub open spec fn opt_view(o: Option<Version>) -> Option<VersionView> {
    match o {
        Some(v) => Some(v@),
        None => None,
    }
}

pub open spec fn views(s: Seq<Version>) -> Seq<VersionView> {
    s.map_values(|v: Version| v@)
}

pub open spec fn clause_views(s: Seq<(Op, Version)>) -> Seq<(Op, VersionView)> {
    s.map_values(|c: (Op, Version)| (c.0, c.1@))
}

impl View for Range {
    type V = RangeView;

    open spec fn view(&self) -> RangeView {
        RangeView {
            min: opt_view(self.min),
            max: opt_view(self.max),
            except: views(self.except@),
            included: views(self.included@),
        }
    }
}

/// A clause that can be rewritten without a version field overflowing.
pub open spec fn clause_fits(op: Op, v: VersionView) -> bool {
    match op {
        Op::Tilde => v.minor < u32::MAX,
        Op::Caret => v.major < u32::MAX,
        Op::Le | Op::Gt => v.patch < u32::MAX,
        _ => true,
    }
}

pub open spec fn clauses_fit(s: Seq<(Op, VersionView)>) -> bool {
    forall|i: int| 0 <= i < s.len() ==> clause_fits(#[trigger] s[i].0, s[i].1)
}

/// A clause rewritten to `>=`, `<`, `=` and `!=` clauses. The bounds made
/// from `~`, `^`, `<=` and `>` keep only major, minor and patch.
pub open spec fn desugar(op: Op, v: VersionView) -> Seq<(Op, VersionView)> {
    match op {
        Op::Tilde => seq![(Op::Ge, v), (Op::Lt, plain(v.major, (v.minor + 1) as u32, 0))],
        Op::Caret => seq![(Op::Ge, v), (Op::Lt, plain((v.major + 1) as u32, 0, 0))],
        Op::Le => seq![(Op::Lt, plain(v.major, v.minor, (v.patch + 1) as u32))],
        Op::Gt => seq![(Op::Ge, plain(v.major, v.minor, (v.patch + 1) as u32))],
        _ => seq![(op, v)],
    }
}

pub open spec fn desugar_all(s: Seq<(Op, VersionView)>) -> Seq<(Op, VersionView)>
    decreases s.len(),
{
    if s.len() == 0 {
        Seq::empty()
    } else {
        desugar_all(s.drop_last()) + desugar(s.last().0, s.last().1)
    }
}

pub open spec fn clause_lt(a: (Op, VersionView), b: (Op, VersionView)) -> bool {
    order_cmp(a.1, b.1) == Ordering::Less
}

/// `x` put into `s` after every clause that is not greater than it.
pub open spec fn insert_sorted(s: Seq<(Op, VersionView)>, x: (Op, VersionView)) -> Seq<
    (Op, VersionView),
>
    decreases s.len(),
{
    if s.len() == 0 {
        seq![x]
    } else if clause_lt(x, s.last()) {
        insert_sorted(s.drop_last(), x).push(s.last())
    } else {
        s.push(x)
    }
}

/// Stable sort of clauses by the range order of their versions.
pub open spec fn sort_clauses(s: Seq<(Op, VersionView)>) -> Seq<(Op, VersionView)>
    decreases s.len(),
{
    if s.len() == 0 {
        Seq::empty()
    } else {
        insert_sorted(sort_clauses(s.drop_last()), s.last())
    }
}

/// The versions of the clauses with operator `op`, in order.
pub open spec fn bucket(s: Seq<(Op, VersionView)>, op: Op) -> Seq<VersionView>
    decreases s.len(),
{
    if s.len() == 0 {
        Seq::empty()
    } else if s.last().0 == op {
        bucket(s.drop_last(), op).push(s.last().1)
    } else {
        bucket(s.drop_last(), op)
    }
}

/// The range that a clause list stands for: desugared and sorted, the
/// smallest `>=` bound is the minimum, the largest `<` bound the maximum,
/// the `!=` versions the exceptions and the `=` versions the inclusions.
/// Of several `>=` (or `<`) bounds the loosest is kept.
pub open spec fn range_of(s: Seq<(Op, VersionView)>) -> RangeView {
    let sorted = sort_clauses(desugar_all(s));
    let ge = bucket(sorted, Op::Ge);
    let lt = bucket(sorted, Op::Lt);
    RangeView {
        min: if ge.len() > 0 { Some(ge[0]) } else { None },
        max: if lt.len() > 0 { Some(lt.last()) } else { None },
        except: bucket(sorted, Op::Ne),
        included: bucket(sorted, Op::Eq),
    }
}

pub open spec fn any_view() -> RangeView {
    RangeView { min: None, max: None, except: Seq::empty(), included: Seq::empty() }
}

pub open spec fn contains_view(r: RangeView, v: VersionView) -> bool {
    if r.except.contains(v) {
        false
    } else if r.included.contains(v) {
        true
    } else {
        &&& (r.min matches Some(m) ==> order_cmp(v, m) != Ordering::Less)
        &&& (r.max matches Some(m) ==> order_cmp(v, m) == Ordering::Less)
    }
}

pub open spec fn is_any_view(r: RangeView) -> bool {
    &&& (r.min is None || r.min == Some(plain(0, 0, 0)))
    &&& r.max is None
    &&& r.except.len() == 0
    &&& r.included.len() == 0
}

pub open spec fn is_valid_view(r: RangeView) -> bool {
    &&& !(r.min matches Some(a) && r.max matches Some(b) && order_cmp(a, b) == Ordering::Greater)
    &&& forall|i: int| 0 <= i < r.included.len() ==> !r.except.contains(#[trigger] r.included[i])
}

pub open spec fn min_is_max(r: RangeView) -> bool {
    r.min is Some && r.max is Some && r.min == r.max
}

pub open spec fn is_exact_view(r: RangeView) -> bool {
    if min_is_max(r) {
        r.included.len() == 0
    } else {
        r.included.len() == 1
    }
}

/// The bounds are those of `^min`.
pub open spec fn caret_shape(r: RangeView) -> bool {
    r.min matches Some(a) && r.max matches Some(b) && b.patch == 0 && b.minor == 0 && b.major
        == a.major + 1
}

/// The bounds are those of `~min`.
pub open spec fn tilde_shape(r: RangeView) -> bool {
    r.min matches Some(a) && r.max matches Some(b) && b.patch == 0 && b.minor == a.minor + 1
        && b.major == a.major
}

pub open spec fn prefixed(p: Seq<char>, v: VersionView) -> Seq<char> {
    p + version_text(v)
}

pub open spec fn bound_text(p: Seq<char>, o: Option<VersionView>) -> Seq<Seq<char>> {
    match o {
        Some(v) => seq![prefixed(p, v)],
        None => Seq::empty(),
    }
}

/// The clauses of a range as text: `>=min`, `<max`, `!=x` for each
/// exception, `=x` for each inclusion.
pub open spec fn clause_texts(r: RangeView) -> Seq<Seq<char>> {
    bound_text(seq!['>', '='], r.min) + bound_text(seq!['<'], r.max) + r.except.map_values(
        |v: VersionView| prefixed(seq!['!', '='], v),
    ) + r.included.map_values(|v: VersionView| prefixed(seq!['='], v))
}

/// The parts joined by commas.
pub open spec fn join(parts: Seq<Seq<char>>) -> Seq<char>
    decreases parts.len(),
{
    if parts.len() == 0 {
        Seq::empty()
    } else if parts.len() == 1 {
        parts[0]
    } else {
        join(parts.drop_last()) + seq![','] + parts.last()
    }
}

/// `*`, `^min`, `~min`, or the clauses joined by commas.
pub open spec fn range_text(r: RangeView) -> Seq<char> {
    if is_any_view(r) {
        seq!['*']
    } else if caret_shape(r) {
        prefixed(seq!['^'], r.min->Some_0)
    } else if tilde_shape(r) {
        prefixed(seq!['~'], r.min->Some_0)
    } else {
        join(clause_texts(r))
    }
}

proof fn lemma_insert_at(s: Seq<(Op, VersionView)>, x: (Op, VersionView), j: int)
    requires
        0 <= j <= s.len(),
        forall|k: int| j <= k < s.len() ==> clause_lt(x, #[trigger] s[k]),
        j == 0 || !clause_lt(x, s[j - 1]),
    ensures
        insert_sorted(s, x) == s.insert(j, x),
    decreases s.len(),
{
    if s.len() == 0 {
        assert(s.insert(j, x) =~= seq![x]);
    } else if j == s.len() {
        assert(s.insert(j, x) =~= s.push(x));
    } else {
        assert(clause_lt(x, s[s.len() - 1]));
        lemma_insert_at(s.drop_last(), x, j);
        assert(s.insert(j, x) =~= s.drop_last().insert(j, x).push(s.last()));
    }
}

fn clone_opt(o: &Option<Version>) -> (r: Option<Version>)
    ensures
        opt_view(r) == opt_view(*o),
{
    match o {
        Some(v) => Some(v.clone()),
        None => None,
    }
}

fn push_clause(out: &mut Vec<(Op, Version)>, op: Op, v: Version)
    ensures
        clause_views(final(out)@) == clause_views(old(out)@).push((op, v@)),
{
    out.push((op, v));
    assert(clause_views(final(out)@) =~= clause_views(old(out)@).push((op, v@)));
}

/// The clauses rewritten to `>=`, `<`, `=` and `!=` clauses.
fn desugar_vec(ranges: &Vec<(Op, Version)>) -> (r: Vec<(Op, Version)>)
    requires
        clauses_fit(clause_views(ranges@)),
    ensures
        clause_views(r@) == desugar_all(clause_views(ranges@)),
{
    let ghost cv = clause_views(ranges@);
    let mut out: Vec<(Op, Version)> = Vec::new();
    let mut i: usize = 0;
    assert(cv.subrange(0, 0) =~= Seq::<(Op, VersionView)>::empty());
    while i < ranges.len()
        invariant
            cv == clause_views(ranges@),
            clauses_fit(cv),
            i <= ranges.len(),
            clause_views(out@) == desugar_all(cv.subrange(0, i as int)),
        decreases ranges.len() - i,
    {
        let op = ranges[i].0;
        let v = &ranges[i].1;
        let ghost before = clause_views(out@);
        assert(cv[i as int] == (op, v@));
        assert(clause_fits(cv[i as int].0, cv[i as int].1));
        match op {
            Op::Tilde => {
                push_clause(&mut out, Op::Ge, v.clone());
                push_clause(&mut out, Op::Lt, Version::new(v.major, v.minor + 1, 0));
            },
            Op::Caret => {
                push_clause(&mut out, Op::Ge, v.clone());
                push_clause(&mut out, Op::Lt, Version::new(v.major + 1, 0, 0));
            },
            Op::Le => {
                push_clause(&mut out, Op::Lt, Version::new(v.major, v.minor, v.patch + 1));
            },
            Op::Gt => {
                push_clause(&mut out, Op::Ge, Version::new(v.major, v.minor, v.patch + 1));
            },
            _ => {
                push_clause(&mut out, op, v.clone());
            },
        }
        assert(cv.subrange(0, i + 1).drop_last() =~= cv.subrange(0, i as int));
        assert(clause_views(out@) =~= before + desugar(op, v@));
        i = i + 1;
    }
    assert(cv.subrange(0, i as int) =~= cv);
    out
}

/// Stable insertion sort of clauses by the range order of their versions.
fn sort_vec(ranges: &Vec<(Op, Version)>) -> (r: Vec<(Op, Version)>)
    ensures
        clause_views(r@) == sort_clauses(clause_views(ranges@)),
{
    let ghost cv = clause_views(ranges@);
    let mut sorted: Vec<(Op, Version)> = Vec::new();
    let mut i: usize = 0;
    assert(cv.subrange(0, 0) =~= Seq::<(Op, VersionView)>::empty());
    while i < ranges.len()
        invariant
            cv == clause_views(ranges@),
            i <= ranges.len(),
            clause_views(sorted@) == sort_clauses(cv.subrange(0, i as int)),
        decreases ranges.len() - i,
    {
        let op = ranges[i].0;
        let v = ranges[i].1.clone();
        let ghost x = (op, v@);
        let ghost sv = clause_views(sorted@);
        assert(cv[i as int] == x);
        let mut j: usize = sorted.len();
        while j > 0 && matches!(v.order_compare(&sorted[j - 1].1), Ordering::Less)
            invariant
                sv == clause_views(sorted@),
                x == (op, v@),
                j <= sorted.len(),
                forall|k: int| j <= k < sv.len() ==> clause_lt(x, #[trigger] sv[k]),
            decreases j,
        {
            j = j - 1;
        }
        proof {
            lemma_insert_at(sv, x, j as int);
        }
        sorted.insert(j, (op, v));
        assert(clause_views(sorted@) =~= sv.insert(j as int, x));
        assert(cv.subrange(0, i + 1).drop_last() =~= cv.subrange(0, i as int));
        i = i + 1;
    }
    assert(cv.subrange(0, i as int) =~= cv);
    sorted
}

/// The versions of the clauses with operator `op`, in order.
fn bucket_vec(s: &Vec<(Op, Version)>, op: Op) -> (r: Vec<Version>)
    ensures
        views(r@) == bucket(clause_views(s@), op),
{
    let ghost cv = clause_views(s@);
    let mut out: Vec<Version> = Vec::new();
    let mut i: usize = 0;
    assert(cv.subrange(0, 0) =~= Seq::<(Op, VersionView)>::empty());
    while i < s.len()
        invariant
            cv == clause_views(s@),
            i <= s.len(),
            views(out@) == bucket(cv.subrange(0, i as int), op),
        decreases s.len() - i,
    {
        let ghost before = views(out@);
        assert(cv[i as int] == (s@[i as int].0, s@[i as int].1@));
        if s[i].0 == op {
            out.push(s[i].1.clone());
            assert(views(out@) =~= before.push(s@[i as int].1@));
        }
        assert(cv.subrange(0, i + 1).drop_last() =~= cv.subrange(0, i as int));
        i = i + 1;
    }
    assert(cv.subrange(0, i as int) =~= cv);
    out
}

fn vec_contains(s: &Vec<Version>, v: &Version) -> (r: bool)
    ensures
        r == views(s@).contains(v@),
{
    let mut i: usize = 0;
    while i < s.len()
        invariant
            i <= s.len(),
            forall|k: int| 0 <= k < i ==> s@[k]@ != v@,
        decreases s.len() - i,
    {
        if s[i].is(v) {
            assert(views(s@)[i as int] == v@);
            return true;
        }
        i = i + 1;
    }
    proof {
        if views(s@).contains(v@) {
            let k = choose|k: int| 0 <= k < views(s@).len() && views(s@)[k] == v@;
            assert(s@[k]@ == v@);
        }
    }
    false
}

fn views_equal(a: &Vec<Version>, b: &Vec<Version>) -> (r: bool)
    ensures
        r == (views(a@) == views(b@)),
{
    if a.len() != b.len() {
        assert(views(a@).len() != views(b@).len());
        return false;
    }
    let mut i: usize = 0;
    while i < a.len()
        invariant
            a.len() == b.len(),
            i <= a.len(),
            forall|k: int| 0 <= k < i ==> a@[k]@ == b@[k]@,
        decreases a.len() - i,
    {
        if !a[i].is(&b[i]) {
            assert(views(a@)[i as int] != views(b@)[i as int]);
            return false;
        }
        i = i + 1;
    }
    assert(views(a@) =~= views(b@));
    true
}

fn opt_equal(a: &Option<Version>, b: &Option<Version>) -> (r: bool)
    ensures
        r == (opt_view(*a) == opt_view(*b)),
{
    match (a, b) {
        (None, None) => true,
        (Some(x), Some(y)) => x.is(y),
        _ => false,
    }
}

fn push_text(s: &mut String, v: &Version)
    ensures
        final(s)@ == old(s)@ + version_text(v@),
{
    let t = v.to_string();
    s.append(t.as_str());
}

/// Appends `,` (unless `first`) and then the clause `op` `v`; `op` is one or
/// two characters, the second one given by `op2`.
fn push_clause_text(s: &mut String, first: bool, op1: char, op2: Option<char>, v: &Version)
    requires
        first ==> old(s)@.len() == 0,
    ensures
        final(s)@ == (if first { Seq::empty() } else { old(s)@ + seq![','] }) + (match op2 {
            Some(c) => seq![op1, c],
            None => seq![op1],
        }) + version_text(v@),
{
    if !first {
        push_char(s, ',');
    }
    push_char(s, op1);
    match op2 {
        Some(c) => push_char(s, c),
        None => {},
    }
    push_text(s, v);
    proof {
        let p = match op2 {
            Some(c) => seq![op1, c],
            None => seq![op1],
        };
        assert(final(s)@ =~= (if first { Seq::empty() } else { old(s)@ + seq![','] }) + p
            + version_text(v@));
    }
}

proof fn lemma_join_push(parts: Seq<Seq<char>>, x: Seq<char>)
    ensures
        join(parts.push(x)) == if parts.len() == 0 {
            x
        } else {
            join(parts) + seq![','] + x
        },
{
    assert(parts.push(x).drop_last() =~= parts);
    if parts.len() == 0 {
        assert(parts.push(x)[0] == x);
    }
}

impl Clone for Range {
    fn clone(&self) -> (r: Self)
        ensures
            r@ == self@,
    {
        let mut except: Vec<Version> = Vec::new();
        let mut included: Vec<Version> = Vec::new();
        let mut i: usize = 0;
        while i < self.except.len()
            invariant
                i <= self.except.len(),
                views(except@) == views(self.except@).subrange(0, i as int),
            decreases self.except.len() - i,
        {
            let c = self.except[i].clone();
            let ghost prev = views(except@);
            except.push(c);
            assert(views(except@) =~= prev.push(c@));
            assert(views(self.except@)[i as int] == c@);
            assert(views(except@) =~= views(self.except@).subrange(0, i + 1));
            i = i + 1;
        }
        i = 0;
        while i < self.included.len()
            invariant
                i <= self.included.len(),
                views(included@) == views(self.included@).subrange(0, i as int),
                views(except@) == views(self.except@),
            decreases self.included.len() - i,
        {
            let c = self.included[i].clone();
            let ghost prev = views(included@);
            included.push(c);
            assert(views(included@) =~= prev.push(c@));
            assert(views(self.included@)[i as int] == c@);
            assert(views(included@) =~= views(self.included@).subrange(0, i + 1));
            i = i + 1;
        }
        assert(views(except@) =~= views(self.except@));
        assert(views(included@) =~= views(self.included@));
        Range { min: clone_opt(&self.min), max: clone_opt(&self.max), except, included }
    }
}

impl PartialEq for Range {
    fn eq(&self, other: &Self) -> (r: bool) {
        opt_equal(&self.min, &other.min) && opt_equal(&self.max, &other.max) && views_equal(
            &self.except,
            &other.except,
        ) && views_equal(&self.included, &other.included)
    }
}

impl vstd::std_specs::cmp::PartialEqSpecImpl for Range {
    open spec fn obeys_eq_spec() -> bool {
        true
    }

    open spec fn eq_spec(&self, other: &Self) -> bool {
        self@ == other@
    }
}

impl Eq for Range {
}

impl Default for Range {
    /// The range of every version.
    fn default() -> (r: Self)
        ensures
            r@ == any_view(),
    {
        Range::any()
    }
}

impl Range {
    /// The range of every version.
    pub fn any() -> (r: Range)
        ensures
            r@ == any_view(),
    {
        let r = Range { min: None, max: None, except: Vec::new(), included: Vec::new() };
        assert(r@.except =~= Seq::<VersionView>::empty());
        assert(r@.included =~= Seq::<VersionView>::empty());
        r
    }

    /// Whether `version` is in the range: an exception never is, an
    /// inclusion always is, and otherwise the bounds decide by the range order.
    pub fn contains(&self, version: Version) -> (r: bool)
        ensures
            r == contains_view(self@, version@),
    {
        if vec_contains(&self.except, &version) {
            return false;
        }
        if vec_contains(&self.included, &version) {
            return true;
        }
        let above = match &self.min {
            Some(m) => !matches!(version.order_compare(m), Ordering::Less),
            None => true,
        };
        let below = match &self.max {
            Some(m) => matches!(version.order_compare(m), Ordering::Less),
            None => true,
        };
        above && below
    }

    /// No bound but possibly `>=0.0.0`, no exception, no inclusion.
    pub fn is_any(&self) -> (r: bool)
        ensures
            r == is_any_view(self@),
    {
        let min_ok = match &self.min {
            None => true,
            Some(m) => m.is(&Version::new(0, 0, 0)),
        };
        min_ok && self.max.is_none() && self.except.len() == 0 && self.included.len() == 0
    }

    /// The minimum is not above the maximum, and no inclusion is also an
    /// exception.
    pub fn is_valid(&self) -> (r: bool)
        ensures
            r == is_valid_view(self@),
    {
        match (&self.min, &self.max) {
            (Some(a), Some(b)) => {
                if matches!(a.order_compare(b), Ordering::Greater) {
                    assert(self@.min == Some(a@) && self@.max == Some(b@));
                    return false;
                }
            },
            _ => {},
        }
        let mut i: usize = 0;
        while i < self.included.len()
            invariant
                i <= self.included.len(),
                forall|k: int|
                    0 <= k < i ==> !views(self.except@).contains(
                        #[trigger] views(self.included@)[k],
                    ),
            decreases self.included.len() - i,
        {
            assert(views(self.included@)[i as int] == self.included@[i as int]@);
            if vec_contains(&self.except, &self.included[i]) {
                assert(self@.except.contains(self@.included[i as int]));
                return false;
            }
            i = i + 1;
        }
        true
    }

    /// Exactly one version is admitted: the minimum equals the maximum, or
    /// there is one inclusion, not both.
    pub fn is_exact_match(&self) -> (r: bool)
        ensures
            r == is_exact_view(self@),
    {
        let min_is_max = match (&self.min, &self.max) {
            (Some(a), Some(b)) => a.is(b),
            _ => false,
        };
        if min_is_max {
            self.included.len() == 0
        } else {
            self.included.len() == 1
        }
    }

    fn to_caret(&self) -> (r: Option<String>)
        ensures
            caret_shape(self@) ==> (r matches Some(t) && t@ == prefixed(seq!['^'], self@.min->Some_0)),
            !caret_shape(self@) ==> r is None,
    {
        match (&self.min, &self.max) {
            (Some(a), Some(b)) => {
                if b.patch == 0 && b.minor == 0 && b.major as u64 == a.major as u64 + 1 {
                    let mut s = String::new();
                    push_char(&mut s, '^');
                    push_text(&mut s, a);
                    Some(s)
                } else {
                    None
                }
            },
            _ => None,
        }
    }

    fn to_tilde(&self) -> (r: Option<String>)
        ensures
            tilde_shape(self@) ==> (r matches Some(t) && t@ == prefixed(seq!['~'], self@.min->Some_0)),
            !tilde_shape(self@) ==> r is None,
    {
        match (&self.min, &self.max) {
            (Some(a), Some(b)) => {
                if b.patch == 0 && b.minor as u64 == a.minor as u64 + 1 && b.major == a.major {
                    let mut s = String::new();
                    push_char(&mut s, '~');
                    push_text(&mut s, a);
                    Some(s)
                } else {
                    None
                }
            },
            _ => None,
        }
    }

    /// The canonical text of the range: `*` for any version, `^min` or
    /// `~min` where the bounds have that shape, else the clauses joined by
    /// commas.
    pub fn to_string(&self) -> (r: String)
        ensures
            r@ == range_text(self@),
    {
        if self.is_any() {
            let mut s = String::new();
            push_char(&mut s, '*');
            return s;
        }
        match self.to_caret() {
            Some(t) => return t,
            None => {},
        }
        match self.to_tilde() {
            Some(t) => return t,
            None => {},
        }
        let ghost r = self@;
        let ghost all = clause_texts(r);
        let mut s = String::new();
        let ghost mut done: Seq<Seq<char>> = Seq::empty();
        match &self.min {
            Some(m) => {
                proof {
                    lemma_join_push(done, prefixed(seq!['>', '='], m@));
                }
                push_clause_text(&mut s, true, '>', Some('='), m);
                proof {
                    done = done.push(prefixed(seq!['>', '='], m@));
                }
            },
            None => {},
        }
        assert(done =~= bound_text(seq!['>', '='], r.min));
        match &self.max {
            Some(m) => {
                proof {
                    lemma_join_push(done, prefixed(seq!['<'], m@));
                }
                push_clause_text(&mut s, self.min.is_none(), '<', None, m);
                proof {
                    done = done.push(prefixed(seq!['<'], m@));
                }
            },
            None => {},
        }
        assert(done =~= bound_text(seq!['>', '='], r.min) + bound_text(seq!['<'], r.max));
        let ghost head = done;
        let mut first: bool = self.min.is_none() && self.max.is_none();
        let mut i: usize = 0;
        while i < self.except.len()
            invariant
                r == self@,
                i <= self.except.len(),
                done == head + r.except.subrange(0, i as int).map_values(
                    |v: VersionView| prefixed(seq!['!', '='], v),
                ),
                first == (done.len() == 0),
                s@ == join(done),
            decreases self.except.len() - i,
        {
            let ghost x = prefixed(seq!['!', '='], self.except@[i as int]@);
            proof {
                lemma_join_push(done, x);
            }
            push_clause_text(&mut s, first, '!', Some('='), &self.except[i]);
            proof {
                done = done.push(x);
            }
            assert(done =~= head + r.except.subrange(0, i + 1).map_values(
                |v: VersionView| prefixed(seq!['!', '='], v),
            ));
            first = false;
            i = i + 1;
        }
        assert(r.except.subrange(0, i as int) =~= r.except);
        let ghost head2 = done;
        i = 0;
        assert(done =~= head2 + r.included.subrange(0, 0).map_values(
            |v: VersionView| prefixed(seq!['='], v),
        ));
        while i < self.included.len()
            invariant
                r == self@,
                i <= self.included.len(),
                done == head2 + r.included.subrange(0, i as int).map_values(
                    |v: VersionView| prefixed(seq!['='], v),
                ),
                first == (done.len() == 0),
                s@ == join(done),
            decreases self.included.len() - i,
        {
            let ghost x = prefixed(seq!['='], self.included@[i as int]@);
            proof {
                lemma_join_push(done, x);
            }
            push_clause_text(&mut s, first, '=', None, &self.included[i]);
            proof {
                done = done.push(x);
            }
            assert(done =~= head2 + r.included.subrange(0, i + 1).map_values(
                |v: VersionView| prefixed(seq!['='], v),
            ));
            first = false;
            i = i + 1;
        }
        assert(r.included.subrange(0, i as int) =~= r.included);
        assert(done =~= all);
        s
    }

    /// The range that a list of clauses stands for (see `range_of`). The
    /// result may be invalid; `is_valid` tells.
    pub fn from_ver_vec(ranges: Vec<(Op, Version)>) -> (r: Range)
        requires
            clauses_fit(clause_views(ranges@)),
        ensures
            r@ == range_of(clause_views(ranges@)),
    {
        let plain_clauses = desugar_vec(&ranges);
        let sorted = sort_vec(&plain_clauses);
        let ge = bucket_vec(&sorted, Op::Ge);
        let lt = bucket_vec(&sorted, Op::Lt);
        let min = if ge.len() > 0 {
            Some(ge[0].clone())
        } else {
            None
        };
        let max = if lt.len() > 0 {
            Some(lt[lt.len() - 1].clone())
        } else {
            None
        };
        let except = bucket_vec(&sorted, Op::Ne);
        let included = bucket_vec(&sorted, Op::Eq);
        proof {
            if ge.len() > 0 {
                assert(views(ge@)[0] == ge@[0]@);
            }
            if lt.len() > 0 {
                assert(views(lt@).last() == lt@[lt.len() - 1]@);
            }
        }
        Range { min, max, except, included }
    }
}

} // verus!
