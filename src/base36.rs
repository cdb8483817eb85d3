//! Base-36 payloads (the extra and pre-release fields of a version): reading
//! them through radix into canonical digits, and their order.
use vstd::prelude::*;
use core::cmp::Ordering;

verus! {

pub open spec fn is_digit(c: char) -> bool {
    '0' <= c && c <= '9'
}

pub open spec fn is_lower(c: char) -> bool {
    'a' <= c && c <= 'z'
}

pub open spec fn is_upper(c: char) -> bool {
    'A' <= c && c <= 'Z'
}

pub open spec fn is_alnum(c: char) -> bool {
    is_digit(c) || is_lower(c) || is_upper(c)
}

pub open spec fn all_alnum(s: Seq<char>) -> bool {
    forall|i: int| 0 <= i < s.len() ==> is_alnum(#[trigger] s[i])
}

pub open spec fn all_digits(s: Seq<char>) -> bool {
    forall|i: int| 0 <= i < s.len() ==> is_digit(#[trigger] s[i])
}

pub open spec fn to_upper(c: char) -> char {
    if is_lower(c) {
        ((c as u8) - 32) as char
    } else {
        c
    }
}

pub open spec fn to_lower(c: char) -> char {
    if is_upper(c) {
        ((c as u8) + 32) as char
    } else {
        c
    }
}

/// Number of leading `'0'` characters of `s`.
pub open spec fn lead_zeros(s: Seq<char>) -> nat
    decreases s.len(),
{
    if s.len() > 0 && s[0] == '0' {
        1 + lead_zeros(s.drop_first())
    } else {
        0
    }
}

/// The canonical base-36 spelling of an alphanumeric string: upper case, no
/// leading zeros, and `"0"` for zero.
pub open spec fn canonical36(s: Seq<char>) -> Seq<char> {
    let k = lead_zeros(s);
    if k >= s.len() {
        seq!['0']
    } else {
        s.subrange(k as int, s.len() as int).map_values(|c: char| to_upper(c))
    }
}

/// Why a payload string is not a base-36 number.
#[derive(Debug, Clone, Copy, PartialEq, Eq, Structural)]
pub enum FieldError {
    Empty,
    InvalidDigit,
    TooLong,
}

/// The characters with the Unicode White_Space property, which `str::trim`
/// removes.
pub open spec fn is_white_space(c: char) -> bool {
    ||| ('\u{9}' <= c && c <= '\u{d}')
    ||| c == ' '
    ||| c == '\u{85}'
    ||| c == '\u{a0}'
    ||| c == '\u{1680}'
    ||| ('\u{2000}' <= c && c <= '\u{200a}')
    ||| c == '\u{2028}'
    ||| c == '\u{2029}'
    ||| c == '\u{202f}'
    ||| c == '\u{205f}'
    ||| c == '\u{3000}'
}

pub open spec fn trim_start(s: Seq<char>) -> Seq<char>
    decreases s.len(),
{
    if s.len() > 0 && is_white_space(s[0]) {
        trim_start(s.drop_first())
    } else {
        s
    }
}

pub open spec fn trim_end(s: Seq<char>) -> Seq<char>
    decreases s.len(),
{
    if s.len() > 0 && is_white_space(s.last()) {
        trim_end(s.drop_last())
    } else {
        s
    }
}

/// `s` without leading and trailing white space.
pub open spec fn trim_ws(s: Seq<char>) -> Seq<char> {
    trim_end(trim_start(s))
}

/// Relies on `str::trim`: the text without leading and trailing characters
/// of the Unicode White_Space property.
#[verifier::external_body]
fn trim<'a>(s: &'a str) -> (r: &'a str)
    ensures
        r@ == trim_ws(s@),
{
    s.trim()
}

/// The value of a base-36 digit (letters of either case stand for ten to
/// thirty-five).
pub open spec fn digit36(c: char) -> int {
    if is_digit(c) {
        c as u32 - 48
    } else if is_lower(c) {
        c as u32 - 87
    } else {
        c as u32 - 55
    }
}

/// The number that a string of base-36 digits spells.
pub open spec fn value36(s: Seq<char>) -> int
    decreases s.len(),
{
    if s.len() == 0 {
        0
    } else {
        value36(s.drop_last()) * 36 + digit36(s.last())
    }
}

/// Most digits that radix reads without overflowing `usize`: it raises 36 to
/// the power of each digit's position, so 13 digits on a 64-bit target and 7
/// on a 32-bit one.
pub open spec fn max_digits() -> int {
    if usize::MAX == u64::MAX {
        13
    } else {
        7
    }
}

/// The digits are few enough, and their value small enough, for radix to
/// compute it in a `usize`.
pub open spec fn fits_usize(s: Seq<char>) -> bool {
    s.len() <= max_digits() && value36(s) <= usize::MAX
}

/// What reading `s` as a payload gives: its canonical digits, or the error.
/// As radix does, surrounding white space is dropped first. Only ASCII
/// letters and digits are taken as digits; radix would also take a few other
/// letters that its Unicode upper-casing turns into ASCII ones (`ı`, `ſ`),
/// which a payload of this library does not hold.
pub open spec fn field_result(s: Seq<char>) -> Result<Seq<char>, FieldError> {
    let t = trim_ws(s);
    if t.len() == 0 {
        Err(FieldError::Empty)
    } else if !all_alnum(t) {
        Err(FieldError::InvalidDigit)
    } else if !fits_usize(t) {
        Err(FieldError::TooLong)
    } else {
        Ok(canonical36(t))
    }
}

#[verifier::external_type_specification]
#[verifier::external_body]
pub struct ExRadixErr(radix::RadixErr);

/// Relies on radix's `RadixNum::from_str(s, 36)` and `RadixNum::as_str`: an
/// ASCII alphanumeric string whose digits radix can sum in a `usize` converts
/// without error, and the number is spelled back in canonical upper-case
/// base-36 digits.
#[verifier::external_body]
fn radix_digits(s: &str) -> (r: Result<String, radix::RadixErr>)
    requires
        1 <= s@.len(),
        all_alnum(s@),
        fits_usize(s@),
    ensures
        r is Ok,
        r matches Ok(d) ==> d@ == canonical36(s@),
{
    match radix::RadixNum::from_str(s, 36) {
        Ok(n) => Ok(n.as_str().to_string()),
        Err(e) => Err(e),
    }
}

/// Whether radix can compute the value of these alphanumeric digits in a
/// `usize`.
fn digits_fit(cs: &Vec<char>) -> (r: bool)
    requires
        all_alnum(cs@),
    ensures
        r == fits_usize(cs@),
{
    let limit: usize = if usize::MAX as u128 == u64::MAX as u128 {
        13
    } else {
        7
    };
    if cs.len() > limit {
        return false;
    }
    let mut acc: u128 = 0;
    let mut over = false;
    let mut k: usize = 0;
    assert(cs@.subrange(0, 0) =~= Seq::<char>::empty());
    while k < cs.len()
        invariant
            k <= cs.len(),
            all_alnum(cs@),
            over ==> value36(cs@.subrange(0, k as int)) > usize::MAX,
            !over ==> acc == value36(cs@.subrange(0, k as int)) && acc <= usize::MAX,
        decreases cs.len() - k,
    {
        let ghost prev = cs@.subrange(0, k as int);
        assert(cs@.subrange(0, k + 1).drop_last() =~= prev);
        assert(is_alnum(cs@[k as int]));
        let c = cs[k];
        let d: u128 = if '0' <= c && c <= '9' {
            (c as u32 - 48) as u128
        } else if 'a' <= c && c <= 'z' {
            (c as u32 - 87) as u128
        } else {
            (c as u32 - 55) as u128
        };
        assert(d == digit36(cs@[k as int]));
        if !over {
            let next = acc * 36 + d;
            if next > usize::MAX as u128 {
                over = true;
            } else {
                acc = next;
            }
        }
        k = k + 1;
    }
    assert(cs@.subrange(0, k as int) =~= cs@);
    !over
}

/// A base-36 payload (the extra or pre-release field of a version), held as
/// its canonical digits.
#[derive(Debug)]
pub struct Base36 {
    digits: String,
}

impl View for Base36 {
    type V = Seq<char>;

    closed spec fn view(&self) -> Seq<char> {
        self.digits@
    }
}

impl Clone for Base36 {
    fn clone(&self) -> (r: Self)
        ensures
            r@ == self@,
    {
        Base36 { digits: self.digits.clone() }
    }
}

impl PartialEq for Base36 {
    fn eq(&self, other: &Self) -> (r: bool) {
        self.digits == other.digits
    }
}

impl vstd::std_specs::cmp::PartialEqSpecImpl for Base36 {
    open spec fn obeys_eq_spec() -> bool {
        true
    }

    open spec fn eq_spec(&self, other: &Self) -> bool {
        self@ == other@
    }
}

impl Eq for Base36 {
}

/// Lexicographic order of two character sequences, by code point.
pub open spec fn lex_cmp(a: Seq<char>, b: Seq<char>) -> Ordering
    decreases a.len(),
{
    if a.len() == 0 {
        if b.len() == 0 {
            Ordering::Equal
        } else {
            Ordering::Less
        }
    } else if b.len() == 0 {
        Ordering::Greater
    } else if a[0] < b[0] {
        Ordering::Less
    } else if a[0] > b[0] {
        Ordering::Greater
    } else {
        lex_cmp(a.drop_first(), b.drop_first())
    }
}

/// Order of payloads: digit-only payloads compare numerically and come
/// before those with letters, which compare lexically. On canonical digits
/// (no leading zeros) a longer digit string is a larger number.
pub open spec fn base36_cmp(a: Seq<char>, b: Seq<char>) -> Ordering {
    if all_digits(a) && all_digits(b) {
        if a.len() < b.len() {
            Ordering::Less
        } else if a.len() > b.len() {
            Ordering::Greater
        } else {
            lex_cmp(a, b)
        }
    } else if all_digits(a) {
        Ordering::Less
    } else if all_digits(b) {
        Ordering::Greater
    } else {
        lex_cmp(a, b)
    }
}

/// Every sequence is equal to itself in the lexicographic order.
pub proof fn lemma_lex_cmp_refl(a: Seq<char>)
    ensures
        lex_cmp(a, a) == Ordering::Equal,
    decreases a.len(),
{
    if a.len() > 0 {
        lemma_lex_cmp_refl(a.drop_first());
    }
}

/// Every payload is equal to itself in the payload order.
pub proof fn lemma_base36_cmp_refl(a: Seq<char>)
    ensures
        base36_cmp(a, a) == Ordering::Equal,
{
    lemma_lex_cmp_refl(a);
}

proof fn lemma_lex_cmp_skip(a: Seq<char>, b: Seq<char>, i: int)
    requires
        0 <= i < a.len(),
        i < b.len(),
        a[i] == b[i],
    ensures
        lex_cmp(a.skip(i), b.skip(i)) == lex_cmp(a.skip(i + 1), b.skip(i + 1)),
{
    assert(a.skip(i).drop_first() =~= a.skip(i + 1));
    assert(b.skip(i).drop_first() =~= b.skip(i + 1));
}

/// The characters of `s`, one per element.
pub fn chars_of(s: &str) -> (r: Vec<char>)
    ensures
        r@ == s@,
{
    let n = s.unicode_len();
    let mut r: Vec<char> = Vec::new();
    let mut i: usize = 0;
    while i < n
        invariant
            n == s@.len(),
            i <= n,
            r@ == s@.subrange(0, i as int),
        decreases n - i,
    {
        r.push(s.get_char(i));
        i = i + 1;
    }
    assert(r@ =~= s@);
    r
}

pub(crate) fn lex_compare(a: &Vec<char>, b: &Vec<char>) -> (r: Ordering)
    ensures
        r == lex_cmp(a@, b@),
{
    let mut i: usize = 0;
    assert(a@.skip(0) =~= a@);
    assert(b@.skip(0) =~= b@);
    while i < a.len() && i < b.len()
        invariant
            i <= a.len(),
            i <= b.len(),
            lex_cmp(a@, b@) == lex_cmp(a@.skip(i as int), b@.skip(i as int)),
        decreases a.len() - i,
    {
        if a[i] < b[i] {
            return Ordering::Less;
        }
        if a[i] > b[i] {
            return Ordering::Greater;
        }
        proof {
            lemma_lex_cmp_skip(a@, b@, i as int);
        }
        i = i + 1;
    }
    if i < a.len() {
        Ordering::Greater
    } else if i < b.len() {
        Ordering::Less
    } else {
        Ordering::Equal
    }
}

fn all_digit_chars(s: &Vec<char>) -> (r: bool)
    ensures
        r == all_digits(s@),
{
    let mut i: usize = 0;
    while i < s.len()
        invariant
            i <= s.len(),
            all_digits(s@.subrange(0, i as int)),
        decreases s.len() - i,
    {
        if !('0' <= s[i] && s[i] <= '9') {
            return false;
        }
        i = i + 1;
    }
    assert(s@.subrange(0, i as int) =~= s@);
    true
}

impl Base36 {
    /// Reads an alphanumeric string, within white space, as a base-36 number;
    /// letters of either case stand for the digits ten to thirty-five (see
    /// `field_result`).
    pub fn parse(s: &str) -> (r: Result<Base36, FieldError>)
        ensures
            match r {
                Ok(b) => field_result(s@) == Ok::<Seq<char>, FieldError>(b@),
                Err(e) => field_result(s@) == Err::<Seq<char>, FieldError>(e),
            },
    {
        let t = trim(s);
        let cs = chars_of(t);
        if cs.len() == 0 {
            return Err(FieldError::Empty);
        }
        let mut i: usize = 0;
        while i < cs.len()
            invariant
                cs@ == t@,
                t@ == trim_ws(s@),
                i <= cs.len(),
                all_alnum(cs@.subrange(0, i as int)),
            decreases cs.len() - i,
        {
            let c = cs[i];
            if !(('0' <= c && c <= '9') || ('a' <= c && c <= 'z') || ('A' <= c && c <= 'Z')) {
                assert(!is_alnum(t@[i as int]));
                assert(!all_alnum(t@));
                return Err(FieldError::InvalidDigit);
            }
            i = i + 1;
        }
        assert(cs@.subrange(0, i as int) =~= t@);
        if !digits_fit(&cs) {
            return Err(FieldError::TooLong);
        }
        match radix_digits(t) {
            Ok(d) => Ok(Base36 { digits: d }),
            Err(_) => Err(FieldError::InvalidDigit),
        }
    }

    /// The canonical digits.
    pub fn as_str(&self) -> (r: &str)
        ensures
            r@ == self@,
    {
        self.digits.as_str()
    }

    pub fn compare(&self, other: &Base36) -> (r: Ordering)
        ensures
            r == base36_cmp(self@, other@),
    {
        let a = chars_of(self.digits.as_str());
        let b = chars_of(other.digits.as_str());
        let da = all_digit_chars(&a);
        let db = all_digit_chars(&b);
        if da && db {
            if a.len() < b.len() {
                Ordering::Less
            } else if a.len() > b.len() {
                Ordering::Greater
            } else {
                lex_compare(&a, &b)
            }
        } else if da {
            Ordering::Less
        } else if db {
            Ordering::Greater
        } else {
            lex_compare(&a, &b)
        }
    }
}

} // verus!
