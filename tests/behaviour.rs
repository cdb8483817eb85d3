use std::cmp::Ordering;
use versions_range::{Dependency, FieldError, Op, ParseError, Range, Version};

fn ver(text: &str) -> Version {
    Version::parse(text).unwrap()
}

fn rng(text: &str) -> Range {
    Range::parse(text).unwrap()
}

#[test]
fn plain_version_text_round_trips() {
    for text in ["1.2.3", "0.0.0", "10.200.3000", "4294967295.0.4294967295"] {
        let parsed = ver(text);
        assert_eq!(parsed.to_string(), text);
        assert_eq!(ver(&parsed.to_string()), parsed);
    }
    let made = Version::new(7, 0, 12);
    assert_eq!(ver(&made.to_string()), made);
}

#[test]
fn version_text_with_payloads() {
    let full = ver("1.2.3.4a-rc1+Linux_64");
    assert_eq!(full.to_string(), "1.2.3.4A-RC1+linux_64");
    assert_eq!(ver(&full.to_string()), full);
}

#[test]
fn defaults_and_prefix() {
    assert_eq!(ver("1"), Version::new(1, 0, 0));
    assert_eq!(ver("1.2"), Version::new(1, 2, 0));
    assert_eq!(ver("v1.2.3"), Version::new(1, 2, 3));
    assert_eq!(ver("V 1.2.3"), Version::new(1, 2, 3));
    assert_eq!(ver("  1.2.3  "), Version::new(1, 2, 3));
    assert_eq!(ver("1..2"), Version::new(1, 0, 2));
    assert_eq!(ver("v1.2.3.4-rc1+b"), ver("1.2.3.4-rc1+b"));
    assert_eq!(ver("V7-x"), ver("7-x"));
    assert_eq!(Version::parse("v1.2.3."), Version::parse("1.2.3."));
    assert_eq!(Version::default(), Version::new(1, 0, 0));
}

#[test]
fn build_carries_no_order() {
    let a = ver("1.0.0+a");
    let b = ver("1.0.0+b");
    assert_eq!(a.order_compare(&b), Ordering::Equal);
    assert_eq!(a.partial_cmp(&b), Some(Ordering::Equal));
    assert!(!a.is(&b));
    assert_ne!(a, b);
    assert!(ver("1.0.0+Windows").is(&ver("1.0.0+windows")));
}

#[test]
fn extra_field_is_significant() {
    assert_eq!(ver("1.0.0.2").order_compare(&ver("1.0.0.0")), Ordering::Greater);
    assert_eq!(ver("1.0.0.2").order_compare(&ver("1.0.0")), Ordering::Greater);
    assert_eq!(ver("1.0.0.10").order_compare(&ver("1.0.0.9")), Ordering::Greater);
    assert_eq!(ver("1.0.0.9").order_compare(&ver("1.0.0.a")), Ordering::Less);
    assert_eq!(ver("1.0.0.b").order_compare(&ver("1.0.0.abc")), Ordering::Greater);
    assert_eq!(ver("1.0.0.007").order_compare(&ver("1.0.0.7")), Ordering::Equal);
    assert_eq!(ver("2.0.0").order_compare(&ver("1.9.9.9")), Ordering::Greater);
}

#[test]
fn pre_release_epsilon() {
    let alpha = ver("1.0.0-alpha");
    let release = ver("1.0.0");
    assert_eq!(alpha.order_compare(&release), Ordering::Equal);
    assert!(alpha.is_older_than(&release));
    assert!(!release.is_older_than(&alpha));
    assert!(ver("1.0.0-alpha").is_older_than(&ver("1.0.0-beta")));
    assert!(!ver("1.0.0-beta").is_older_than(&ver("1.0.0-alpha")));
}

#[test]
fn older_compares_fields_separately() {
    assert!(ver("2.0.0").is_older_than(&ver("1.1.0")));
    assert!(ver("1.1.0").is_older_than(&ver("2.0.0")));
    assert!(!ver("1.1.1").is_older_than(&ver("1.1.1")));
    assert!(ver("1.0.0+a").is_older_than_with_build(&ver("1.0.0+b")));
    assert!(!ver("1.0.0+a").is_older_than(&ver("1.0.0+b")));
    assert!(ver("1.0.0").is_older_than_with_build(&ver("1.0.0+a")));
}

#[test]
fn build_and_pre_in_either_order() {
    let first = ver("1.0.0+windows-62748");
    let second = ver("1.0.0+62748-windows");
    assert_eq!(first.build, Some("windows".to_string()));
    assert_eq!(first.pre_release.as_ref().unwrap().as_str(), "62748");
    assert_eq!(second.build, Some("62748".to_string()));
    assert_eq!(second.pre_release.as_ref().unwrap().as_str(), "WINDOWS");
    assert!(!first.is(&second));
    assert_eq!(first.order_compare(&second), Ordering::Equal);
}

#[test]
fn range_desugaring() {
    let tilde = rng("~1.2.3");
    assert_eq!(tilde.min, Some(Version::new(1, 2, 3)));
    assert_eq!(tilde.max, Some(Version::new(1, 3, 0)));
    let caret = rng("^1.2.3");
    assert_eq!(caret.min, Some(Version::new(1, 2, 3)));
    assert_eq!(caret.max, Some(Version::new(2, 0, 0)));
    assert_eq!(rng(">1.2.3").min, Some(Version::new(1, 2, 4)));
    assert_eq!(rng("<=1.2.3").max, Some(Version::new(1, 2, 4)));
    assert_eq!(rng(">1.2.3-rc1").min, Some(Version::new(1, 2, 4)));
    assert_eq!(rng("~1.2.3-rc1").min, Some(ver("1.2.3-rc1")));
}

#[test]
fn multi_clause_merge() {
    let merged = rng(">=1.2.3,<=1.2.5,!=1.2.7");
    assert_eq!(merged.min, Some(Version::new(1, 2, 3)));
    assert_eq!(merged.max, Some(Version::new(1, 2, 6)));
    assert_eq!(merged.except, vec![Version::new(1, 2, 7)]);
    assert!(merged.included.is_empty());
    assert_eq!(rng(">=2.0 >=1.0").min, Some(Version::new(1, 0, 0)));
    assert_eq!(rng("<1.0 <2.0").max, Some(Version::new(2, 0, 0)));
    assert_eq!(rng("1.5 1.2 1.3").included, vec![ver("1.2"), ver("1.3"), ver("1.5")]);
}

#[test]
fn from_clause_list() {
    let built = Range::from_ver_vec(vec![
        (Op::Lt, Version::new(3, 0, 0)),
        (Op::Ge, Version::new(2, 0, 0)),
        (Op::Ne, Version::new(2, 5, 0)),
    ]);
    assert_eq!(built, rng(">=2.0.0,<3.0.0,!=2.5.0"));
    assert_eq!(Range::from_ver_vec(vec![]), Range::any());
}

#[test]
fn any_range() {
    assert!(rng("*").is_any());
    assert!(rng(" * ").is_any());
    assert!(rng("").is_any());
    assert!(rng(">=0.0.0").is_any());
    assert!(!rng(">=0.0.1").is_any());
    assert_eq!(Range::parse("*,1.0"), Err(ParseError::InvalidRange));
    assert_eq!(Range::any().to_string(), "*");
}

#[test]
fn invalid_texts() {
    for text in ["", " ", "x", "a.1", "+1", "-1", "1+a+b", "1.2.3.", "1.2a", "4294967296", "1-", "v  1"] {
        assert_eq!(Version::parse(text), Err(ParseError::InvalidVersion), "{}", text);
    }
    for text in [">", "1.0 x", "=>1.0", "~1.4294967295", "^4294967295", "<=1.0.4294967295"] {
        assert_eq!(Range::parse(text), Err(ParseError::InvalidRange), "{}", text);
    }
}

#[test]
fn separators_after_versions() {
    assert_eq!(ver("1.2.3,; "), Version::new(1, 2, 3));
    assert_eq!(rng("1.0;2.0").included, vec![ver("1.0"), ver("2.0")]);
    assert!(Range::parse("1.0<2.0").is_err());
}

#[test]
fn canonical_rendering() {
    assert_eq!(rng("^1.2.3").to_string(), "^1.2.3");
    assert_eq!(rng("~1.2.3").to_string(), "~1.2.3");
    assert_eq!(rng(">=1.2.3,<=1.2.5,!=1.2.4,1.3.0").to_string(), ">=1.2.3,<1.2.6,!=1.2.4,=1.3.0");
    assert_eq!(rng("<2.0").to_string(), "<2.0.0");
    assert_eq!(rng("!=1.0 !=0.5").to_string(), "!=0.5.0,!=1.0.0");
    assert_eq!(rng("=1.0").to_string(), "=1.0.0");
}

#[test]
fn membership() {
    let range = rng(">=1.0,<2.0,!=1.5,3.0");
    assert!(range.contains(ver("1.0")));
    assert!(range.contains(ver("1.9.9")));
    assert!(!range.contains(ver("1.5")));
    assert!(range.contains(ver("1.5+build")));
    assert!(range.contains(ver("3.0")));
    assert!(!range.contains(ver("2.0")));
    assert!(!range.contains(ver("2.0.0-alpha")));
    assert!(range.contains(ver("1.0.0-alpha")));
    assert!(!range.contains(ver("0.9")));
    assert!(Range::any().contains(ver("123.4.5")));
}

#[test]
fn validity_and_exactness() {
    assert!(rng(">=1.0,<2.0").is_valid());
    assert!(!rng(">=2.0,<1.0").is_valid());
    assert!(!rng("1.0 !=1.0").is_valid());
    assert!(rng("1.0 !=1.0+b").is_valid());
    assert!(rng("=1.2.3").is_exact_match());
    assert!(!rng("1.2.3 1.2.4").is_exact_match());
    assert!(!rng(">=1.0,<2.0").is_exact_match());
    let pinned = Range { min: Some(Version::new(1, 0, 0)), max: Some(Version::new(1, 0, 0)), ..Default::default() };
    assert!(pinned.is_exact_match());
}

#[test]
fn payload_errors() {
    let base = Version::new(1, 0, 0);
    assert_eq!(base.with_pre(Some("")), Err(FieldError::Empty));
    assert_eq!(base.with_pre(Some("a_b")), Err(FieldError::InvalidDigit));
    assert_eq!(base.with_pre(Some("  ")), Err(FieldError::Empty));
    assert_eq!(base.with_pre(Some("a b")), Err(FieldError::InvalidDigit));
    assert!(base.with_extra(Some("1234567")).is_ok());
    if usize::BITS == 64 {
        assert!(base.with_extra(Some("1234567890abc")).is_ok());
        let largest = base.with_extra(Some("3w5e11264sgsf")).unwrap();
        assert_eq!(largest.extra_version.as_ref().unwrap().as_str(), "3W5E11264SGSF");
        assert_eq!(base.with_extra(Some("3W5E11264SGSG")), Err(FieldError::TooLong));
        assert_eq!(base.with_extra(Some("00000000000001")), Err(FieldError::TooLong));
    } else {
        assert_eq!(base.with_extra(Some("12345678")), Err(FieldError::TooLong));
    }
    assert_eq!(base.with_pre(None).unwrap(), base);
}

#[test]
fn payload_is_canonical() {
    let base = Version::new(1, 0, 0);
    let pre = base.with_pre(Some("00ab")).unwrap();
    assert_eq!(pre.pre_release.as_ref().unwrap().as_str(), "AB");
    let padded = base.with_pre(Some(" ab\t")).unwrap();
    assert_eq!(padded.pre_release.as_ref().unwrap().as_str(), "AB");
    let zero = base.with_extra(Some("000")).unwrap();
    assert_eq!(zero.extra_version.as_ref().unwrap().as_str(), "0");
    assert_eq!(ver("1.0.0-Alpha"), ver("1.0.0-alpha"));
}

#[test]
fn setters_change_one_field() {
    let mut version = Version::new(1, 2, 3);
    version.major(4).minor(5).patch(6);
    assert_eq!(version, Version::new(4, 5, 6));
    version.extra(Some("7")).unwrap();
    version.pre(Some("rc1")).unwrap();
    version.build(Some("x"));
    assert_eq!(version.to_string(), "4.5.6.7-RC1+x");
    assert_eq!(version.pre_release(Some("a.b")).err(), Some(FieldError::InvalidDigit));
    assert_eq!(version.to_string(), "4.5.6.7-RC1+x");
    assert_eq!(Version::new(1, 0, 0).with_major(3), Version::new(3, 0, 0));
}

#[test]
fn operator_tokens() {
    assert_eq!(Op::from_str(""), Some(Op::Eq));
    assert_eq!(Op::from_str("=="), Some(Op::Eq));
    assert_eq!(Op::from_str("!="), Some(Op::Ne));
    assert_eq!(Op::from_str(">="), Some(Op::Ge));
    assert_eq!(Op::from_str("<"), Some(Op::Lt));
    assert_eq!(Op::from_str("~"), Some(Op::Tilde));
    assert_eq!(Op::from_str("^"), Some(Op::Caret));
    assert_eq!(Op::from_str("=>"), None);
}

#[test]
fn dependencies_compare_by_name_and_range() {
    let a = Dependency { name: "core".to_string(), range: rng("^1.0") };
    let b = Dependency { name: "core".to_string(), range: rng(">=1.0.0,<2.0.0") };
    let c = Dependency { name: "other".to_string(), range: rng("^1.0") };
    assert_eq!(a, b);
    assert_ne!(a, c);
}
