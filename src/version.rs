//! Versions: construction, structural equality, the range order, temporal
//! precedence and text rendering.
use vstd::prelude::*;
use core::cmp::Ordering;
use crate::base36::{Base36, FieldError, base36_cmp, field_result, lex_cmp};

verus! {

/// What a version holds, with its strings as character sequences.
pub struct VersionView {
    pub major: u32,
    pub minor: u32,
    pub patch: u32,
    pub extra: Option<Seq<char>>,
    pub pre: Option<Seq<char>>,
    pub build: Option<Seq<char>>,
}

/// A version: `major.minor.patch`, an optional fourth (extra) component, an
/// optional pre-release and an optional build tag.
#[derive(Debug)]
pub struct Version {
    pub major: u32,
    pub minor: u32,
    pub patch: u32,
    pub extra_version: Option<Base36>,
    pub pre_release: Option<Base36>,
    pub build: Option<String>,
}

pub open spec fn b36_view(o: Option<Base36>) -> Option<Seq<char>> {
    match o {
        Some(b) => Some(b@),
        None => None,
    }
}

pub open spec fn str_view(o: Option<String>) -> Option<Seq<char>> {
    match o {
        Some(s) => Some(s@),
        None => None,
    }
}

impl View for Version {
    type V = VersionView;

    open spec fn view(&self) -> VersionView {
        VersionView {
            major: self.major,
            minor: self.minor,
            patch: self.patch,
            extra: b36_view(self.extra_version),
            pre: b36_view(self.pre_release),
            build: str_view(self.build),
        }
    }
}

/// The plain version `major.minor.patch`.
pub open spec fn plain(major: u32, minor: u32, patch: u32) -> VersionView {
    VersionView { major, minor, patch, extra: None, pre: None, build: None }
}

pub open spec fn u32_cmp(a: u32, b: u32) -> Ordering {
    if a < b {
        Ordering::Less
    } else if a > b {
        Ordering::Greater
    } else {
        Ordering::Equal
    }
}

/// Order of optional payloads: absent before present.
pub open spec fn opt_b36_cmp(a: Option<Seq<char>>, b: Option<Seq<char>>) -> Ordering {
    match (a, b) {
        (None, None) => Ordering::Equal,
        (None, Some(_)) => Ordering::Less,
        (Some(_), None) => Ordering::Greater,
        (Some(x), Some(y)) => base36_cmp(x, y),
    }
}

/// Order of optional build tags: absent before present, then by text.
pub open spec fn opt_str_cmp(a: Option<Seq<char>>, b: Option<Seq<char>>) -> Ordering {
    match (a, b) {
        (None, None) => Ordering::Equal,
        (None, Some(_)) => Ordering::Less,
        (Some(_), None) => Ordering::Greater,
        (Some(x), Some(y)) => lex_cmp(x, y),
    }
}

/// The range order: major, minor, patch, then extra. Pre-release and build
/// carry no weight in it.
pub open spec fn order_cmp(a: VersionView, b: VersionView) -> Ordering {
    if a.major != b.major {
        u32_cmp(a.major, b.major)
    } else if a.minor != b.minor {
        u32_cmp(a.minor, b.minor)
    } else if a.patch != b.patch {
        u32_cmp(a.patch, b.patch)
    } else {
        opt_b36_cmp(a.extra, b.extra)
    }
}

/// Pre-release precedence: a pre-release comes before the release (no
/// pre-release), and two pre-releases compare as payloads.
pub open spec fn pre_before(a: Option<Seq<char>>, b: Option<Seq<char>>) -> bool {
    match (a, b) {
        (Some(_), None) => true,
        (Some(x), Some(y)) => base36_cmp(x, y) == Ordering::Less,
        _ => false,
    }
}

/// Temporal precedence: any one field of `a`, taken alone, is smaller than
/// the same field of `b`.
pub open spec fn older(a: VersionView, b: VersionView) -> bool {
    ||| a.major < b.major
    ||| a.minor < b.minor
    ||| a.patch < b.patch
    ||| opt_b36_cmp(a.extra, b.extra) == Ordering::Less
    ||| pre_before(a.pre, b.pre)
}

/// Temporal precedence with the build tag as a last field.
pub open spec fn older_with_build(a: VersionView, b: VersionView) -> bool {
    older(a, b) || opt_str_cmp(a.build, b.build) == Ordering::Less
}

/// What reading an optional payload gives.
pub open spec fn opt_field(s: Option<Seq<char>>) -> Result<Option<Seq<char>>, FieldError> {
    match s {
        None => Ok(None),
        Some(t) => match field_result(t) {
            Ok(d) => Ok(Some(d)),
            Err(e) => Err(e),
        },
    }
}

pub open spec fn opt_str(s: Option<&str>) -> Option<Seq<char>> {
    match s {
        Some(t) => Some(t@),
        None => None,
    }
}

/// The character of a decimal digit.
pub open spec fn digit_char(d: nat) -> char {
    ((48 + d) as u8) as char
}

/// Decimal spelling of `n`, without leading zeros.
pub open spec fn decimal(n: nat) -> Seq<char>
    decreases n,
{
    if n < 10 {
        seq![digit_char(n)]
    } else {
        decimal(n / 10).push(digit_char(n % 10))
    }
}

pub open spec fn opt_part(prefix: char, o: Option<Seq<char>>) -> Seq<char> {
    match o {
        Some(s) => seq![prefix] + s,
        None => Seq::empty(),
    }
}

/// `major.minor.patch[.extra][-pre][+build]`.
pub open spec fn version_text(v: VersionView) -> Seq<char> {
    decimal(v.major as nat) + seq!['.'] + decimal(v.minor as nat) + seq!['.'] + decimal(
        v.patch as nat,
    ) + opt_part('.', v.extra) + opt_part('-', v.pre) + opt_part('+', v.build)
}

/// Relies on `String::push`: appends one character.
#[verifier::external_body]
pub(crate) fn push_char(s: &mut String, c: char)
    ensures
        final(s)@ == old(s)@.push(c),
{
    s.push(c);
}

fn push_decimal(s: &mut String, n: u32)
    ensures
        final(s)@ == old(s)@ + decimal(n as nat),
    decreases n,
{
    if n >= 10 {
        push_decimal(s, n / 10);
    }
    let d: u32 = n % 10;
    push_char(s, ((48 + d) as u8) as char);
    assert(final(s)@ =~= old(s)@ + decimal(n as nat));
}

fn push_part(s: &mut String, prefix: char, part: &str)
    ensures
        final(s)@ == old(s)@ + opt_part(prefix, Some(part@)),
{
    push_char(s, prefix);
    s.append(part);
    assert(final(s)@ =~= old(s)@ + opt_part(prefix, Some(part@)));
}

fn clone_b36(o: &Option<Base36>) -> (r: Option<Base36>)
    ensures
        b36_view(r) == b36_view(*o),
{
    match o {
        Some(b) => Some(b.clone()),
        None => None,
    }
}

fn clone_str(o: &Option<String>) -> (r: Option<String>)
    ensures
        str_view(r) == str_view(*o),
{
    match o {
        Some(b) => Some(b.clone()),
        None => None,
    }
}

fn to_owned_str(o: Option<&str>) -> (r: Option<String>)
    ensures
        str_view(r) == opt_str(o),
{
    match o {
        Some(b) => Some(b.to_owned()),
        None => None,
    }
}

fn read_field(o: Option<&str>) -> (r: Result<Option<Base36>, FieldError>)
    ensures
        match r {
            Ok(b) => opt_field(opt_str(o)) == Ok::<Option<Seq<char>>, FieldError>(b36_view(b)),
            Err(e) => opt_field(opt_str(o)) == Err::<Option<Seq<char>>, FieldError>(e),
        },
{
    match o {
        None => Ok(None),
        Some(s) => match Base36::parse(s) {
            Ok(b) => Ok(Some(b)),
            Err(e) => Err(e),
        },
    }
}

fn b36_compare(a: &Option<Base36>, b: &Option<Base36>) -> (r: Ordering)
    ensures
        r == opt_b36_cmp(b36_view(*a), b36_view(*b)),
{
    match (a, b) {
        (None, None) => Ordering::Equal,
        (None, Some(_)) => Ordering::Less,
        (Some(_), None) => Ordering::Greater,
        (Some(x), Some(y)) => x.compare(y),
    }
}

fn pre_is_before(a: &Option<Base36>, b: &Option<Base36>) -> (r: bool)
    ensures
        r == pre_before(b36_view(*a), b36_view(*b)),
{
    match (a, b) {
        (Some(_), None) => true,
        (Some(x), Some(y)) => matches!(x.compare(y), Ordering::Less),
        _ => false,
    }
}

fn b36_equal(a: &Option<Base36>, b: &Option<Base36>) -> (r: bool)
    ensures
        r == (b36_view(*a) == b36_view(*b)),
{
    match (a, b) {
        (None, None) => true,
        (Some(x), Some(y)) => x == y,
        _ => false,
    }
}

fn str_equal(a: &Option<String>, b: &Option<String>) -> (r: bool)
    ensures
        r == (str_view(*a) == str_view(*b)),
{
    match (a, b) {
        (None, None) => true,
        (Some(x), Some(y)) => x.eq(y),
        _ => false,
    }
}

fn str_compare(a: &Option<String>, b: &Option<String>) -> (r: Ordering)
    ensures
        r == opt_str_cmp(str_view(*a), str_view(*b)),
{
    match (a, b) {
        (None, None) => Ordering::Equal,
        (None, Some(_)) => Ordering::Less,
        (Some(_), None) => Ordering::Greater,
        (Some(x), Some(y)) => {
            let xs = crate::base36::chars_of(x.as_str());
            let ys = crate::base36::chars_of(y.as_str());
            crate::base36::lex_compare(&xs, &ys)
        },
    }
}

impl Clone for Version {
    fn clone(&self) -> (r: Self)
        ensures
            r@ == self@,
    {
        Version {
            major: self.major,
            minor: self.minor,
            patch: self.patch,
            extra_version: clone_b36(&self.extra_version),
            pre_release: clone_b36(&self.pre_release),
            build: clone_str(&self.build),
        }
    }
}

impl PartialEq for Version {
    fn eq(&self, other: &Self) -> (r: bool) {
        self.is(other)
    }
}

impl vstd::std_specs::cmp::PartialEqSpecImpl for Version {
    open spec fn obeys_eq_spec() -> bool {
        true
    }

    open spec fn eq_spec(&self, other: &Self) -> bool {
        self@ == other@
    }
}

impl Eq for Version {
}

impl Default for Version {
    /// Version `1.0.0`.
    fn default() -> (r: Self)
        ensures
            r@ == plain(1, 0, 0),
    {
        Version::new(1, 0, 0)
    }
}

impl Version {
    /// A version with all its fields given; the payloads must be base-36
    /// numbers.
    pub fn new_w_extra(
        major: u32,
        minor: u32,
        patch: u32,
        extra_version: Option<&str>,
        pre_release: Option<&str>,
        build: Option<&str>,
    ) -> (r: Result<Version, FieldError>)
        ensures
            match (opt_field(opt_str(extra_version)), opt_field(opt_str(pre_release))) {
                (Ok(e), Ok(p)) => r matches Ok(v) && v@ == (VersionView {
                    major,
                    minor,
                    patch,
                    extra: e,
                    pre: p,
                    build: opt_str(build),
                }),
                (Err(e), _) => r == Err::<Version, FieldError>(e),
                (Ok(_), Err(e)) => r == Err::<Version, FieldError>(e),
            },
    {
        let extra = match read_field(extra_version) {
            Ok(e) => e,
            Err(e) => return Err(e),
        };
        let pre = match read_field(pre_release) {
            Ok(p) => p,
            Err(e) => return Err(e),
        };
        Ok(Version {
            major,
            minor,
            patch,
            extra_version: extra,
            pre_release: pre,
            build: to_owned_str(build),
        })
    }

    /// The plain version `major.minor.patch`.
    pub fn new(major: u32, minor: u32, patch: u32) -> (r: Version)
        ensures
            r@ == plain(major, minor, patch),
    {
        Version { major, minor, patch, extra_version: None, pre_release: None, build: None }
    }

    pub fn with_major(&self, major: u32) -> (r: Version)
        ensures
            r@ == (VersionView { major, ..self@ }),
    {
        let mut r = self.clone();
        r.major = major;
        r
    }

    pub fn with_minor(&self, minor: u32) -> (r: Version)
        ensures
            r@ == (VersionView { minor, ..self@ }),
    {
        let mut r = self.clone();
        r.minor = minor;
        r
    }

    pub fn with_patch(&self, patch: u32) -> (r: Version)
        ensures
            r@ == (VersionView { patch, ..self@ }),
    {
        let mut r = self.clone();
        r.patch = patch;
        r
    }

    pub fn with_extra_version(&self, extra_version: Option<&str>) -> (r: Result<Version, FieldError>)
        ensures
            match opt_field(opt_str(extra_version)) {
                Ok(e) => r matches Ok(v) && v@ == (VersionView { extra: e, ..self@ }),
                Err(e) => r == Err::<Version, FieldError>(e),
            },
    {
        let extra = match read_field(extra_version) {
            Ok(e) => e,
            Err(e) => return Err(e),
        };
        let mut r = self.clone();
        r.extra_version = extra;
        Ok(r)
    }

    pub fn with_extra(&self, extra_version: Option<&str>) -> (r: Result<Version, FieldError>)
        ensures
            match opt_field(opt_str(extra_version)) {
                Ok(e) => r matches Ok(v) && v@ == (VersionView { extra: e, ..self@ }),
                Err(e) => r == Err::<Version, FieldError>(e),
            },
    {
        self.with_extra_version(extra_version)
    }

    pub fn with_pre_release(&self, pre_release: Option<&str>) -> (r: Result<Version, FieldError>)
        ensures
            match opt_field(opt_str(pre_release)) {
                Ok(p) => r matches Ok(v) && v@ == (VersionView { pre: p, ..self@ }),
                Err(e) => r == Err::<Version, FieldError>(e),
            },
    {
        let pre = match read_field(pre_release) {
            Ok(p) => p,
            Err(e) => return Err(e),
        };
        let mut r = self.clone();
        r.pre_release = pre;
        Ok(r)
    }

    pub fn with_pre(&self, pre_release: Option<&str>) -> (r: Result<Version, FieldError>)
        ensures
            match opt_field(opt_str(pre_release)) {
                Ok(p) => r matches Ok(v) && v@ == (VersionView { pre: p, ..self@ }),
                Err(e) => r == Err::<Version, FieldError>(e),
            },
    {
        self.with_pre_release(pre_release)
    }

    pub fn with_build(&self, build: Option<&str>) -> (r: Version)
        ensures
            r@ == (VersionView { build: opt_str(build), ..self@ }),
    {
        let mut r = self.clone();
        r.build = to_owned_str(build);
        r
    }

    /// Same as `new`.
    pub fn new_const(major: u32, minor: u32, patch: u32) -> (r: Version)
        ensures
            r@ == plain(major, minor, patch),
    {
        Version::new(major, minor, patch)
    }

    /// Sets the major number in place.
    pub fn major(&mut self, major: u32) -> (r: &mut Self)
        ensures
            (*r)@ == (VersionView { major, ..old(self)@ }),
            *final(self) == *final(r),
    {
        self.major = major;
        self
    }

    /// Sets the minor number in place.
    pub fn minor(&mut self, minor: u32) -> (r: &mut Self)
        ensures
            (*r)@ == (VersionView { minor, ..old(self)@ }),
            *final(self) == *final(r),
    {
        self.minor = minor;
        self
    }

    /// Sets the patch number in place.
    pub fn patch(&mut self, patch: u32) -> (r: &mut Self)
        ensures
            (*r)@ == (VersionView { patch, ..old(self)@ }),
            *final(self) == *final(r),
    {
        self.patch = patch;
        self
    }

    /// Sets the extra component in place; the text must be a base-36 number.
    pub fn extra_version(&mut self, extra_version: Option<&str>) -> (r: Result<&mut Self, FieldError>)
        ensures
            match opt_field(opt_str(extra_version)) {
                Ok(x) => r matches Ok(m) && m@ == (VersionView { extra: x, ..old(self)@ })
                    && *final(self) == *final(m),
                Err(e) => r matches Err(f) && f == e && *final(self) == *old(self),
            },
    {
        let v = match read_field(extra_version) {
            Ok(v) => v,
            Err(e) => return Err(e),
        };
        self.extra_version = v;
        Ok(self)
    }

    /// Sets the extra component in place; the text must be a base-36 number.
    pub fn extra(&mut self, extra_version: Option<&str>) -> (r: Result<&mut Self, FieldError>)
        ensures
            match opt_field(opt_str(extra_version)) {
                Ok(x) => r matches Ok(m) && m@ == (VersionView { extra: x, ..old(self)@ })
                    && *final(self) == *final(m),
                Err(e) => r matches Err(f) && f == e && *final(self) == *old(self),
            },
    {
        self.extra_version(extra_version)
    }

    /// Sets the pre-release in place; the text must be a base-36 number.
    pub fn pre_release(&mut self, pre_release: Option<&str>) -> (r: Result<&mut Self, FieldError>)
        ensures
            match opt_field(opt_str(pre_release)) {
                Ok(x) => r matches Ok(m) && m@ == (VersionView { pre: x, ..old(self)@ })
                    && *final(self) == *final(m),
                Err(e) => r matches Err(f) && f == e && *final(self) == *old(self),
            },
    {
        let v = match read_field(pre_release) {
            Ok(v) => v,
            Err(e) => return Err(e),
        };
        self.pre_release = v;
        Ok(self)
    }

    /// Sets the pre-release in place; the text must be a base-36 number.
    pub fn pre(&mut self, pre_release: Option<&str>) -> (r: Result<&mut Self, FieldError>)
        ensures
            match opt_field(opt_str(pre_release)) {
                Ok(x) => r matches Ok(m) && m@ == (VersionView { pre: x, ..old(self)@ })
                    && *final(self) == *final(m),
                Err(e) => r matches Err(f) && f == e && *final(self) == *old(self),
            },
    {
        self.pre_release(pre_release)
    }

    /// Sets the build tag in place.
    pub fn build(&mut self, build: Option<&str>) -> (r: &mut Self)
        ensures
            (*r)@ == (VersionView { build: opt_str(build), ..old(self)@ }),
            *final(self) == *final(r),
    {
        self.build = to_owned_str(build);
        self
    }

    /// Structural equality: all six fields, the build tag included.
    pub fn is(&self, other: &Version) -> (r: bool)
        ensures
            r == (self@ == other@),
    {
        self.major == other.major && self.minor == other.minor && self.patch == other.patch
            && b36_equal(&self.extra_version, &other.extra_version) && b36_equal(
            &self.pre_release,
            &other.pre_release,
        ) && str_equal(&self.build, &other.build)
    }

    /// Temporal precedence; unlike the range order it weighs the pre-release,
    /// so `1.0.0-alpha` is older than `1.0.0`. Each field is compared on its
    /// own and any smaller one makes `self` older, so `2.0.0` counts as older
    /// than `1.1.0`.
    pub fn is_older_than(&self, other: &Version) -> (r: bool)
        ensures
            r == older(self@, other@),
    {
        self.major < other.major || self.minor < other.minor || self.patch < other.patch
            || matches!(b36_compare(&self.extra_version, &other.extra_version), Ordering::Less)
            || pre_is_before(&self.pre_release, &other.pre_release)
    }

    pub fn is_older_than_with_build(&self, other: &Version) -> (r: bool)
        ensures
            r == older_with_build(self@, other@),
    {
        self.is_older_than(other) || matches!(str_compare(&self.build, &other.build), Ordering::Less)
    }

    /// The range order of `self` against `other`.
    pub fn order_compare(&self, other: &Version) -> (r: Ordering)
        ensures
            r == order_cmp(self@, other@),
    {
        if self.major != other.major {
            if self.major < other.major { Ordering::Less } else { Ordering::Greater }
        } else if self.minor != other.minor {
            if self.minor < other.minor { Ordering::Less } else { Ordering::Greater }
        } else if self.patch != other.patch {
            if self.patch < other.patch { Ordering::Less } else { Ordering::Greater }
        } else {
            b36_compare(&self.extra_version, &other.extra_version)
        }
    }

    /// `major.minor.patch[.extra][-pre][+build]`.
    pub fn to_string(&self) -> (r: String)
        ensures
            r@ == version_text(self@),
    {
        let mut s = String::new();
        push_decimal(&mut s, self.major);
        push_char(&mut s, '.');
        push_decimal(&mut s, self.minor);
        push_char(&mut s, '.');
        push_decimal(&mut s, self.patch);
        let ghost head = s@;
        match &self.extra_version {
            Some(e) => push_part(&mut s, '.', e.as_str()),
            None => {},
        }
        match &self.pre_release {
            Some(p) => push_part(&mut s, '-', p.as_str()),
            None => {},
        }
        match &self.build {
            Some(b) => push_part(&mut s, '+', b.as_str()),
            None => {},
        }
        assert(s@ =~= version_text(self@));
        s
    }
}

impl PartialOrd for Version {
    /// The range order; never `None`.
    fn partial_cmp(&self, other: &Self) -> (r: Option<Ordering>) {
        Some(self.order_compare(other))
    }
}

impl vstd::std_specs::cmp::PartialOrdSpecImpl for Version {
    open spec fn obeys_partial_cmp_spec() -> bool {
        true
    }

    open spec fn partial_cmp_spec(&self, other: &Self) -> Option<Ordering> {
        Some(order_cmp(self@, other@))
    }
}

} // verus!
