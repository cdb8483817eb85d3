//! General facts about parsing, ordering and rendering, proved over the
//! specifications that the executable functions meet.
use vstd::prelude::*;
use crate::grammar::{
    lemma_run_end, opt_char, sep_or_end, word,
    CharClass, clause_at, clauses_from, op_at, parse_range_spec, resolve, resolve_all, after_v, digit_value, digits_value, in_class, num, opt_num, parse_version_spec,
    run_end, tagged, unwrap_or_zero, version_at,
};
use crate::base36::base36_cmp;
use crate::range::{
    Op, RangeView, bucket, caret_shape, clause_lt, desugar, desugar_all, insert_sorted,
    is_any_view, prefixed, range_of, range_text, sort_clauses, tilde_shape,
};
use crate::version::{
    VersionView, decimal, digit_char, older, order_cmp, plain, version_text,
};
use core::cmp::Ordering;

verus! {

proof fn lemma_digit_char(d: nat)
    requires
        d < 10,
    ensures
        in_class(CharClass::Digit, digit_char(d)),
        digit_value(digit_char(d)) == d,
        digit_char(d) != ' ' && digit_char(d) != 'v' && digit_char(d) != 'V',
{
    assert((48 + d) as u8 == 48 + d);
}

/// The decimal spelling of `n` is one or more digits worth `n`.
proof fn lemma_decimal(n: nat)
    ensures
        decimal(n).len() >= 1,
        forall|k: int| 0 <= k < decimal(n).len() ==> in_class(CharClass::Digit, #[trigger] decimal(n)[k]),
        digits_value(decimal(n)) == n,
    decreases n,
{
    if n < 10 {
        lemma_digit_char(n);
        assert(seq![digit_char(n)].drop_last() =~= Seq::<char>::empty());
        assert(digits_value(Seq::<char>::empty()) == 0);
    } else {
        lemma_decimal(n / 10);
        lemma_digit_char(n % 10);
        assert(decimal(n).drop_last() =~= decimal(n / 10));
        assert(decimal(n).last() == digit_char(n % 10));
        assert(n == (n / 10) * 10 + n % 10);
    }
}

/// A run of class `k` from `i` to `j`, not followed by that class, ends at `j`.
proof fn lemma_run_to(s: Seq<char>, i: int, j: int, k: CharClass)
    requires
        0 <= i <= j <= s.len(),
        forall|m: int| i <= m < j ==> in_class(k, #[trigger] s[m]),
        j == s.len() || !in_class(k, s[j]),
    ensures
        run_end(s, i, k) == j,
    decreases j - i,
{
    if i < j {
        lemma_run_to(s, i + 1, j, k);
    }
}

/// The number `n` written in decimal at `i`, and not followed by a digit.
proof fn lemma_num_at(s: Seq<char>, i: int, n: u32)
    requires
        0 <= i,
        i + decimal(n as nat).len() <= s.len(),
        s.subrange(i, i + decimal(n as nat).len()) == decimal(n as nat),
        i + decimal(n as nat).len() == s.len() || !in_class(
            CharClass::Digit,
            s[i + decimal(n as nat).len()],
        ),
    ensures
        num(s, i) == Some((n, i + decimal(n as nat).len())),
{
    let d = decimal(n as nat);
    lemma_decimal(n as nat);
    assert forall|m: int| i <= m < i + d.len() implies in_class(CharClass::Digit, #[trigger] s[m]) by {
        assert(s[m] == s.subrange(i, i + d.len())[m - i]);
    }
    lemma_run_to(s, i, i + d.len(), CharClass::Digit);
}

pub open spec fn dotted(n: Option<u32>) -> Seq<char> {
    match n {
        Some(m) => seq!['.'] + decimal(m as nat),
        None => Seq::empty(),
    }
}

/// `prefix` then `major[.minor[.patch]]` in decimal.
pub open spec fn short_text(prefix: Seq<char>, major: u32, minor: Option<u32>, patch: Option<u32>) -> Seq<char> {
    prefix + decimal(major as nat) + dotted(minor) + dotted(patch)
}

proof fn lemma_not_space_digit(c: char)
    requires
        in_class(CharClass::Digit, c),
    ensures
        c != ' ' && c != '.' && c != 'v' && c != 'V',
{
}

/// `version_at` from the positions that its steps reach.
proof fn lemma_version_steps(
    s: Seq<char>,
    i: int,
    i2: int,
    major: u32,
    minor: Option<u32>,
    patch: Option<u32>,
    j1: int,
    j2: int,
    j3: int,
    j4: int,
)
    requires
        crate::grammar::opt_char(
            s,
            if 0 <= i < s.len() && (s[i] == 'v' || s[i] == 'V') {
                i + 1
            } else {
                i
            },
            ' ',
        ) == i2,
        num(s, i2) == Some((major, j1)),
        crate::grammar::opt_char(s, j1, '.') == j2,
        opt_num(s, j2) == (minor, j3),
        crate::grammar::opt_char(s, j3, '.') == j4,
        opt_num(s, j4) == (patch, s.len() as int),
    ensures
        version_at(s, i) == Some(
            (
                crate::grammar::RawVersion {
                    major,
                    minor,
                    patch,
                    extra: None,
                    pre: None,
                    build: None,
                },
                s.len() as int,
            ),
        ),
{
    let n = s.len() as int;
    assert(tagged(s, n, '.') == (None::<Seq<char>>, n));
    assert(tagged(s, n, '-') == (None::<Seq<char>>, n));
    assert(tagged(s, n, '+') == (None::<Seq<char>>, n));
    assert(crate::grammar::sep_or_end(s, n) == Some(n));
    assert(after_v(s, n) == Some((None::<Seq<char>>, None::<Seq<char>>, n)));
}

pub open spec fn short_raw(major: u32, minor: Option<u32>, patch: Option<u32>) -> crate::grammar::RawVersion {
    crate::grammar::RawVersion { major, minor, patch, extra: None, pre: None, build: None }
}

/// After any `lead`, the literal `[v|V]major[.minor[.patch]]` reads to the
/// end of the text.
#[verifier::rlimit(50)]
proof fn lemma_short_at(
    lead: Seq<char>,
    prefix: Seq<char>,
    major: u32,
    minor: Option<u32>,
    patch: Option<u32>,
)
    requires
        prefix == Seq::<char>::empty() || prefix == seq!['v'] || prefix == seq!['V'],
        patch is Some ==> minor is Some,
    ensures
        version_at(lead + short_text(prefix, major, minor, patch), lead.len() as int) == Some(
            (short_raw(major, minor, patch), (lead + short_text(prefix, major, minor, patch)).len() as int),
        ),
        (lead + short_text(prefix, major, minor, patch))[lead.len() as int] != ' ',
        (lead + short_text(prefix, major, minor, patch))[lead.len() as int] != '=',
{
    let s = lead + short_text(prefix, major, minor, patch);
    let l = lead.len() as int;
    let p = l + prefix.len() as int;
    let da = decimal(major as nat);
    let la = da.len() as int;
    let dm = dotted(minor);
    let dp = dotted(patch);
    lemma_decimal(major as nat);
    lemma_not_space_digit(da[0]);
    assert(s[p] == da[0]);
    assert(s.subrange(p, p + la) =~= da);
    if p == l + 1 {
        assert(s[l] == prefix[0]);
    } else {
        assert(s[l] == da[0]);
    }
    let e = p + la;
    match minor {
        Some(m) => {
            lemma_decimal(m as nat);
            assert(s[e] == '.');
        },
        None => {},
    }
    lemma_num_at(s, p, major);
    assert(num(s, p) == Some((major, e)));
    let rest = s.len() as int;
    match minor {
        None => {
            assert(dm.len() == 0 && dp.len() == 0);
            assert(e == rest);
            assert(opt_num(s, e) == (None::<u32>, e));
        },
        Some(m) => {
            let dmm = decimal(m as nat);
            let lm = dmm.len() as int;
            assert(s.subrange(e + 1, e + 1 + lm) =~= dmm);
            let f = e + 1 + lm;
            match patch {
                Some(q) => {
                    lemma_decimal(q as nat);
                    assert(s[f] == '.');
                    lemma_num_at(s, e + 1, m);
                    let dq = decimal(q as nat);
                    assert(s.subrange(f + 1, f + 1 + dq.len()) =~= dq);
                    assert(f + 1 + dq.len() == rest);
                    lemma_num_at(s, f + 1, q);
                },
                None => {
                    assert(f == rest);
                    lemma_num_at(s, e + 1, m);
                    assert(opt_num(s, f) == (None::<u32>, f));
                },
            }
        },
    }
    let i1: int = if 0 <= l < s.len() && (s[l] == 'v' || s[l] == 'V') { l + 1 } else { l };
    assert(i1 == p);
    assert(crate::grammar::opt_char(s, i1, ' ') == p);
    let j2 = crate::grammar::opt_char(s, e, '.');
    let (mn, j3) = opt_num(s, j2);
    let j4 = crate::grammar::opt_char(s, j3, '.');
    let (pt, j5) = opt_num(s, j4);
    assert(mn == minor && pt == patch && j5 == rest);
    lemma_version_steps(s, l, p, major, minor, patch, e, j2, j3, j4);
}

/// Reading `[v|V]major[.minor[.patch]]` gives that version, with zero for
/// what is left out.
proof fn lemma_parse_short(prefix: Seq<char>, major: u32, minor: Option<u32>, patch: Option<u32>)
    requires
        prefix == Seq::<char>::empty() || prefix == seq!['v'] || prefix == seq!['V'],
        patch is Some ==> minor is Some,
    ensures
        parse_version_spec(short_text(prefix, major, minor, patch)) == Some(
            plain(major, unwrap_or_zero(minor), unwrap_or_zero(patch)),
        ),
{
    let t = short_text(prefix, major, minor, patch);
    lemma_short_at(Seq::empty(), prefix, major, minor, patch);
    assert(Seq::<char>::empty() + t =~= t);
    assert(run_end(t, 0, CharClass::Space) == 0);
    assert(run_end(t, t.len() as int, CharClass::Space) == t.len());
}

/// Reading back the text of a plain version `major.minor.patch` gives that
/// version again.
pub proof fn law_plain_round_trip(major: u32, minor: u32, patch: u32)
    ensures
        parse_version_spec(version_text(plain(major, minor, patch))) == Some(
            plain(major, minor, patch),
        ),
{
    lemma_parse_short(Seq::empty(), major, Some(minor), Some(patch));
    assert(version_text(plain(major, minor, patch)) =~= short_text(
        Seq::empty(),
        major,
        Some(minor),
        Some(patch),
    ));
}

/// A left-out minor or patch number is zero, and a leading `v` or `V` is
/// ignored: `1`, `1.2`, `v1.2.3` and `V1.2` read as `1.0.0`, `1.2.0`,
/// `1.2.3` and `1.2.0`.
pub proof fn law_defaults(prefix: Seq<char>, major: u32, minor: Option<u32>, patch: Option<u32>)
    requires
        prefix == Seq::<char>::empty() || prefix == seq!['v'] || prefix == seq!['V'],
        patch is Some ==> minor is Some,
    ensures
        parse_version_spec(short_text(prefix, major, minor, patch)) == Some(
            plain(major, unwrap_or_zero(minor), unwrap_or_zero(patch)),
        ),
{
    lemma_parse_short(prefix, major, minor, patch);
}

/// The range order looks at major, minor, patch and extra only: versions
/// that agree there are equal in it whatever their pre-release and build,
/// while a different build tag still makes them structurally unequal.
pub proof fn law_build_irrelevant(a: VersionView, b: VersionView)
    requires
        a.major == b.major,
        a.minor == b.minor,
        a.patch == b.patch,
        a.extra == b.extra,
    ensures
        order_cmp(a, b) == Ordering::Equal,
        a.build != b.build ==> a != b,
{
    match a.extra {
        Some(x) => {
            crate::base36::lemma_base36_cmp_refl(x);
        },
        None => {},
    }
}

/// The extra component ranks below patch: with major, minor and patch equal,
/// a version with an extra component is above one without, and two extra
/// components decide by the payload order.
pub proof fn law_extra_significant(a: VersionView, b: VersionView)
    requires
        a.major == b.major,
        a.minor == b.minor,
        a.patch == b.patch,
    ensures
        a.extra is Some && b.extra is None ==> order_cmp(a, b) == Ordering::Greater,
        (a.extra matches Some(x) && b.extra matches Some(y) && base36_cmp(x, y)
            == Ordering::Greater) ==> order_cmp(a, b) == Ordering::Greater,
{
}

/// A pre-release equals its release in the range order, yet is older than
/// it, and the release is not older than the pre-release.
pub proof fn law_pre_release_epsilon(a: VersionView, b: VersionView)
    requires
        a.major == b.major,
        a.minor == b.minor,
        a.patch == b.patch,
        a.extra == b.extra,
        a.pre is Some,
        b.pre is None,
    ensures
        order_cmp(a, b) == Ordering::Equal,
        older(a, b),
        !older(b, a),
{
    law_build_irrelevant(a, b);
    match a.extra {
        Some(x) => {
            crate::base36::lemma_base36_cmp_refl(x);
        },
        None => {},
    }
}

/// A text of spaces alone, the empty text included, is no version.
pub proof fn law_blank_is_no_version(s: Seq<char>)
    requires
        forall|k: int| 0 <= k < s.len() ==> s[k] == ' ',
    ensures
        parse_version_spec(s) is None,
{
    lemma_run_to(s, 0, s.len() as int, CharClass::Space);
    assert(run_end(s, s.len() as int, CharClass::Digit) == s.len());
}

/// A text that starts with anything but a space, a digit, `v` or `V` (a
/// letter, `+`, `-`) is no version.
pub proof fn law_no_leading_number(s: Seq<char>)
    requires
        s.len() > 0,
        !in_class(CharClass::Digit, s[0]),
        s[0] != ' ',
        s[0] != 'v',
        s[0] != 'V',
    ensures
        parse_version_spec(s) is None,
{
    assert(run_end(s, 0, CharClass::Space) == 0);
    assert(run_end(s, 0, CharClass::Digit) == 0);
}

proof fn lemma_one(c: (Op, VersionView))
    ensures
        desugar_all(seq![c]) == desugar(c.0, c.1),
        sort_clauses(seq![c]) == seq![c],
{
    let e = Seq::<(Op, VersionView)>::empty();
    assert(seq![c].len() == 1);
    assert(seq![c].last() == c);
    assert(seq![c].drop_last() =~= e);
    assert(desugar_all(e) == e);
    assert(e + desugar(c.0, c.1) =~= desugar(c.0, c.1));
    assert(sort_clauses(e) == e);
    assert(insert_sorted(e, c) == seq![c]);
}

proof fn lemma_two(a: (Op, VersionView), b: (Op, VersionView))
    requires
        !clause_lt(b, a),
    ensures
        sort_clauses(seq![a, b]) == seq![a, b],
        bucket(seq![a, b], a.0) == (if a.0 == b.0 { seq![a.1, b.1] } else { seq![a.1] }),
{
    lemma_one(a);
    lemma_bucket_one(a, a.0);
    assert(seq![a, b].len() == 2);
    assert(seq![a, b].last() == b);
    assert(seq![a, b].drop_last() =~= seq![a]);
    assert(seq![a].last() == a);
    assert(seq![a].push(b) =~= seq![a, b]);
    assert(insert_sorted(seq![a], b) == seq![a].push(b));
    assert(seq![a.1].push(b.1) =~= seq![a.1, b.1]);
}

proof fn lemma_bucket_one(c: (Op, VersionView), op: Op)
    ensures
        bucket(seq![c], op) == (if c.0 == op { seq![c.1] } else { Seq::<VersionView>::empty() }),
{
    let e = Seq::<(Op, VersionView)>::empty();
    assert(seq![c].len() == 1);
    assert(seq![c].last() == c);
    assert(seq![c].drop_last() =~= e);
    assert(bucket(e, op) == Seq::<VersionView>::empty());
    assert(Seq::<VersionView>::empty().push(c.1) =~= seq![c.1]);
}

proof fn lemma_bucket_two_other(a: (Op, VersionView), b: (Op, VersionView), op: Op)
    requires
        op != a.0,
        op != b.0,
    ensures
        bucket(seq![a, b], op) == Seq::<VersionView>::empty(),
{
    assert(seq![a, b].len() == 2);
    assert(seq![a, b].last() == b);
    assert(seq![a, b].drop_last() =~= seq![a]);
    lemma_bucket_one(a, op);
}

proof fn lemma_bucket_two_second(a: (Op, VersionView), b: (Op, VersionView))
    requires
        a.0 != b.0,
    ensures
        bucket(seq![a, b], b.0) == seq![b.1],
{
    assert(seq![a, b].len() == 2);
    assert(seq![a, b].last() == b);
    assert(seq![a, b].drop_last() =~= seq![a]);
    lemma_bucket_one(a, b.0);
    assert(Seq::<VersionView>::empty().push(b.1) =~= seq![b.1]);
}

pub open spec fn bounds(min: Option<VersionView>, max: Option<VersionView>) -> RangeView {
    RangeView { min, max, except: Seq::empty(), included: Seq::empty() }
}

proof fn lemma_shorthand(v: VersionView, op: Op, top: VersionView)
    requires
        op == Op::Tilde || op == Op::Caret,
        desugar(op, v) == seq![(Op::Ge, v), (Op::Lt, top)],
        order_cmp(top, v) == Ordering::Greater,
    ensures
        range_of(seq![(op, v)]) == bounds(Some(v), Some(top)),
{
    let a = (Op::Ge, v);
    let b = (Op::Lt, top);
    lemma_one((op, v));
    lemma_two(a, b);
    lemma_bucket_two_second(a, b);
    lemma_bucket_two_other(a, b, Op::Ne);
    lemma_bucket_two_other(a, b, Op::Eq);
    assert(seq![v].last() == v);
    assert(seq![top].last() == top);
    assert(range_of(seq![(op, v)]).except =~= Seq::<VersionView>::empty());
    assert(range_of(seq![(op, v)]).included =~= Seq::<VersionView>::empty());
}

/// `~v` stands for `>=v` and `<major.(minor+1).0`.
pub proof fn law_tilde(v: VersionView)
    requires
        v.minor < u32::MAX,
    ensures
        range_of(seq![(Op::Tilde, v)]) == bounds(
            Some(v),
            Some(plain(v.major, (v.minor + 1) as u32, 0)),
        ),
{
    lemma_shorthand(v, Op::Tilde, plain(v.major, (v.minor + 1) as u32, 0));
}

/// `^v` stands for `>=v` and `<(major+1).0.0`.
pub proof fn law_caret(v: VersionView)
    requires
        v.major < u32::MAX,
    ensures
        range_of(seq![(Op::Caret, v)]) == bounds(Some(v), Some(plain((v.major + 1) as u32, 0, 0))),
{
    lemma_shorthand(v, Op::Caret, plain((v.major + 1) as u32, 0, 0));
}

/// `>v` stands for `>=major.minor.(patch+1)`.
pub proof fn law_greater(v: VersionView)
    requires
        v.patch < u32::MAX,
    ensures
        range_of(seq![(Op::Gt, v)]) == bounds(
            Some(plain(v.major, v.minor, (v.patch + 1) as u32)),
            None,
        ),
{
    let c = (Op::Ge, plain(v.major, v.minor, (v.patch + 1) as u32));
    lemma_one((Op::Gt, v));
    lemma_one(c);
    lemma_bucket_one(c, Op::Ge);
    lemma_bucket_one(c, Op::Lt);
    lemma_bucket_one(c, Op::Ne);
    lemma_bucket_one(c, Op::Eq);
    assert(range_of(seq![(Op::Gt, v)]).except =~= Seq::<VersionView>::empty());
    assert(range_of(seq![(Op::Gt, v)]).included =~= Seq::<VersionView>::empty());
}

/// `<=v` stands for `<major.minor.(patch+1)`.
pub proof fn law_at_most(v: VersionView)
    requires
        v.patch < u32::MAX,
    ensures
        range_of(seq![(Op::Le, v)]) == bounds(
            None,
            Some(plain(v.major, v.minor, (v.patch + 1) as u32)),
        ),
{
    let c = (Op::Lt, plain(v.major, v.minor, (v.patch + 1) as u32));
    lemma_one((Op::Le, v));
    lemma_one(c);
    lemma_bucket_one(c, Op::Ge);
    lemma_bucket_one(c, Op::Lt);
    lemma_bucket_one(c, Op::Ne);
    lemma_bucket_one(c, Op::Eq);
    assert(seq![c.1].last() == c.1);
    assert(range_of(seq![(Op::Le, v)]).except =~= Seq::<VersionView>::empty());
    assert(range_of(seq![(Op::Le, v)]).included =~= Seq::<VersionView>::empty());
}

/// The range of `~v` renders as `~v`.
pub proof fn law_tilde_renders(v: VersionView)
    requires
        v.minor < u32::MAX,
    ensures
        range_text(range_of(seq![(Op::Tilde, v)])) == seq!['~'] + version_text(v),
{
    law_tilde(v);
    let r = range_of(seq![(Op::Tilde, v)]);
    assert(!is_any_view(r));
    assert(!caret_shape(r));
    assert(tilde_shape(r));
}

/// The range of `^v` renders as `^v`.
pub proof fn law_caret_renders(v: VersionView)
    requires
        v.major < u32::MAX,
    ensures
        range_text(range_of(seq![(Op::Caret, v)])) == seq!['^'] + version_text(v),
{
    law_caret(v);
    let r = range_of(seq![(Op::Caret, v)]);
    assert(!is_any_view(r));
    assert(caret_shape(r));
}

/// `c v` for a plain `v`, with `c` the token of `op`, reads as the range of
/// that one clause.
#[verifier::rlimit(50)]
proof fn lemma_parse_shorthand(op: Op, c: char, major: u32, minor: u32, patch: u32)
    requires
        (op == Op::Caret && c == '^' && major < u32::MAX) || (op == Op::Tilde && c == '~'
            && minor < u32::MAX),
    ensures
        parse_range_spec(seq![c] + version_text(plain(major, minor, patch))) == Some(
            range_of(seq![(op, plain(major, minor, patch))]),
        ),
{
    let v = plain(major, minor, patch);
    let t = short_text(Seq::empty(), major, Some(minor), Some(patch));
    assert(version_text(v) =~= t);
    let s = seq![c] + t;
    let n = s.len() as int;
    let raw = short_raw(major, Some(minor), Some(patch));
    lemma_short_at(seq![c], Seq::empty(), major, Some(minor), Some(patch));
    assert(s[0] == c);
    assert(op_at(s, 0) == (op, 1int));
    assert(run_end(s, 1, CharClass::Space) == 1);
    assert(run_end(s, n, CharClass::Space) == n);
    assert(clause_at(s, 0) == Some(((op, raw), n)));
    assert(op_at(s, n) == (Op::Eq, n));
    assert(run_end(s, n, CharClass::Digit) == n);
    assert(num(s, n) is None);
    assert(version_at(s, n) is None);
    assert(clause_at(s, n) is None);
    assert(clauses_from(s, n) == (Seq::<(Op, crate::grammar::RawVersion)>::empty(), n));
    assert(seq![(op, raw)] + Seq::<(Op, crate::grammar::RawVersion)>::empty() =~= seq![(op, raw)]);
    assert(clauses_from(s, 0) == (seq![(op, raw)], n));
    assert(run_end(s, 0, CharClass::Space) == 0);
    let cs = seq![(op, raw)];
    assert(cs.drop_last() =~= Seq::<(Op, crate::grammar::RawVersion)>::empty());
    assert(resolve(raw) == Some(v));
    assert(cs.len() == 1 && cs.last() == (op, raw));
    assert(resolve_all(Seq::<(Op, crate::grammar::RawVersion)>::empty()) == Some(
        Seq::<(Op, VersionView)>::empty(),
    ));
    assert(resolve_all(cs) == Some(Seq::<(Op, VersionView)>::empty().push((op, v))));
    assert(Seq::<(Op, VersionView)>::empty().push((op, v)) =~= seq![(op, v)]);
    assert(crate::range::clauses_fit(seq![(op, v)]));
}

/// Reading `^v` for a plain `v` and rendering the range gives `^v` back.
pub proof fn law_caret_round_trip(major: u32, minor: u32, patch: u32)
    requires
        major < u32::MAX,
    ensures
        parse_range_spec(seq!['^'] + version_text(plain(major, minor, patch))) matches Some(r)
            && range_text(r) == seq!['^'] + version_text(plain(major, minor, patch)),
{
    lemma_parse_shorthand(Op::Caret, '^', major, minor, patch);
    law_caret_renders(plain(major, minor, patch));
}

/// Reading `~v` for a plain `v` and rendering the range gives `~v` back.
pub proof fn law_tilde_round_trip(major: u32, minor: u32, patch: u32)
    requires
        minor < u32::MAX,
    ensures
        parse_range_spec(seq!['~'] + version_text(plain(major, minor, patch))) matches Some(r)
            && range_text(r) == seq!['~'] + version_text(plain(major, minor, patch)),
{
    lemma_parse_shorthand(Op::Tilde, '~', major, minor, patch);
    law_tilde_renders(plain(major, minor, patch));
}

proof fn lemma_shift_run(pre: Seq<char>, s: Seq<char>, i: int, k: CharClass)
    requires
        0 <= i <= s.len(),
    ensures
        run_end(pre + s, i + pre.len(), k) == run_end(s, i, k) + pre.len(),
        i <= run_end(s, i, k) <= s.len(),
    decreases s.len() - i,
{
    lemma_run_end(s, i, k);
    if i < s.len() {
        assert((pre + s)[i + pre.len()] == s[i]);
        lemma_shift_run(pre, s, i + 1, k);
    }
}

proof fn lemma_shift_opt_char(pre: Seq<char>, s: Seq<char>, i: int, c: char)
    requires
        0 <= i <= s.len(),
    ensures
        opt_char(pre + s, i + pre.len(), c) == opt_char(s, i, c) + pre.len(),
        i <= opt_char(s, i, c) <= s.len(),
{
    if i < s.len() {
        assert((pre + s)[i + pre.len()] == s[i]);
    }
}

proof fn lemma_shift_num(pre: Seq<char>, s: Seq<char>, i: int)
    requires
        0 <= i <= s.len(),
    ensures
        num(pre + s, i + pre.len()) == match num(s, i) {
            Some((n, j)) => Some((n, j + pre.len())),
            None => None,
        },
        opt_num(pre + s, i + pre.len()) == (opt_num(s, i).0, opt_num(s, i).1 + pre.len()),
        i <= opt_num(s, i).1 <= s.len(),
{
    let l = pre.len() as int;
    lemma_shift_run(pre, s, i, CharClass::Digit);
    let j = run_end(s, i, CharClass::Digit);
    assert((pre + s).subrange(i + l, j + l) =~= s.subrange(i, j));
}

proof fn lemma_shift_word(pre: Seq<char>, s: Seq<char>, i: int)
    requires
        0 <= i <= s.len(),
    ensures
        word(pre + s, i + pre.len()) == match word(s, i) {
            Some((w, j)) => Some((w, j + pre.len())),
            None => None,
        },
        word(s, i) matches Some((w, j)) ==> i < j <= s.len(),
{
    let l = pre.len() as int;
    lemma_shift_run(pre, s, i, CharClass::Word);
    let j = run_end(s, i, CharClass::Word);
    assert((pre + s).subrange(i + l, j + l) =~= s.subrange(i, j));
}

proof fn lemma_shift_tagged(pre: Seq<char>, s: Seq<char>, i: int, c: char)
    requires
        0 <= i <= s.len(),
    ensures
        tagged(pre + s, i + pre.len(), c) == (tagged(s, i, c).0, tagged(s, i, c).1 + pre.len()),
        i <= tagged(s, i, c).1 <= s.len(),
{
    if i < s.len() {
        assert((pre + s)[i + pre.len()] == s[i]);
        if s[i] == c {
            lemma_shift_word(pre, s, i + 1);
        }
    }
}

proof fn lemma_shift_sep_or_end(pre: Seq<char>, s: Seq<char>, i: int)
    requires
        0 <= i <= s.len(),
    ensures
        sep_or_end(pre + s, i + pre.len()) == match sep_or_end(s, i) {
            Some(k) => Some(k + pre.len()),
            None => None,
        },
        sep_or_end(s, i) matches Some(k) ==> i <= k <= s.len(),
{
    if i < s.len() {
        assert((pre + s)[i + pre.len()] == s[i]);
    }
    lemma_shift_run(pre, s, i, CharClass::Separator);
}

proof fn lemma_shift_after_v(pre: Seq<char>, s: Seq<char>, i: int)
    requires
        0 <= i <= s.len(),
    ensures
        after_v(pre + s, i + pre.len()) == match after_v(s, i) {
            Some((p, b, k)) => Some((p, b, k + pre.len())),
            None => None,
        },
        after_v(s, i) matches Some((p, b, k)) ==> i <= k <= s.len(),
{
    let l = pre.len() as int;
    lemma_shift_tagged(pre, s, i, '-');
    let i1 = tagged(s, i, '-').1;
    lemma_shift_tagged(pre, s, i1, '+');
    let i2 = tagged(s, i1, '+').1;
    lemma_shift_sep_or_end(pre, s, i2);
    lemma_shift_tagged(pre, s, i, '+');
    let j1 = tagged(s, i, '+').1;
    lemma_shift_tagged(pre, s, j1, '-');
    let j2 = tagged(s, j1, '-').1;
    lemma_shift_sep_or_end(pre, s, j2);
}

/// A leading `v` or `V` before a version text that starts with a digit is
/// ignored: `v` + `s` and `V` + `s` read as `s` does.
#[verifier::rlimit(50)]
pub proof fn law_prefix_ignored(c: char, s: Seq<char>)
    requires
        c == 'v' || c == 'V',
        s.len() > 0,
        in_class(CharClass::Digit, s[0]),
    ensures
        parse_version_spec(seq![c] + s) == parse_version_spec(s),
{
    let pre = seq![c];
    let t = pre + s;
    assert(t[0] == c);
    assert(t[1] == s[0]);
    assert(run_end(t, 0, CharClass::Space) == 0);
    assert(run_end(s, 0, CharClass::Space) == 0);
    assert(opt_char(t, 1, ' ') == 1);
    assert(opt_char(s, 0, ' ') == 0);
    lemma_shift_num(pre, s, 0);
    match num(s, 0) {
        None => {},
        Some((major, j1)) => {
            lemma_shift_opt_char(pre, s, j1, '.');
            let j2 = opt_char(s, j1, '.');
            lemma_shift_num(pre, s, j2);
            let j3 = opt_num(s, j2).1;
            lemma_shift_opt_char(pre, s, j3, '.');
            let j4 = opt_char(s, j3, '.');
            lemma_shift_num(pre, s, j4);
            let j5 = opt_num(s, j4).1;
            lemma_shift_tagged(pre, s, j5, '.');
            let j6 = tagged(s, j5, '.').1;
            lemma_shift_after_v(pre, s, j6);
            match after_v(s, j6) {
                None => {},
                Some((p, b, k)) => {
                    lemma_shift_run(pre, s, k, CharClass::Space);
                },
            }
        },
    }
}

} // verus!
