use miho::error::Error;
use miho::version::{
    check_build_metadata, check_prerelease, order_of_parts, precedence_of_parts, Comparator, Op,
    Release, Version,
};
use std::cmp::Ordering;

fn v(text: &str) -> Version {
    Version::parse(text).unwrap()
}

#[test]
fn parse_reads_every_part() {
    let version = v("1.22.333-alpha.1+build.5");
    assert_eq!((version.major, version.minor, version.patch), (1, 22, 333));
    assert_eq!(version.pre, "alpha.1");
    assert_eq!(version.build, "build.5");
}

#[test]
fn parse_rejects_what_semver_rejects() {
    for text in ["1.0", "1.0.01", "a.b.c", "1.0.0-", ""] {
        match Version::parse(text) {
            Err(Error::Semver { input }) => assert_eq!(input, text),
            other => panic!("{text:?} gave {other:?}"),
        }
    }
}

#[test]
fn precedence_follows_the_semver_rules() {
    let ordered = [
        "1.0.0-alpha",
        "1.0.0-alpha.1",
        "1.0.0-alpha.beta",
        "1.0.0-beta",
        "1.0.0-beta.2",
        "1.0.0-beta.11",
        "1.0.0-rc.1",
        "1.0.0",
        "1.5.0",
        "1.19.0",
        "2.0.0",
    ];
    for pair in ordered.windows(2) {
        assert_eq!(v(pair[0]).cmp_precedence(&v(pair[1])), Ordering::Less, "{pair:?}");
        assert_eq!(v(pair[1]).cmp_precedence(&v(pair[0])), Ordering::Greater, "{pair:?}");
    }
}

#[test]
fn build_metadata_only_breaks_ties_in_the_total_order() {
    let a = v("1.20.0+bc17664");
    let b = v("1.20.0+c144a98");
    assert_eq!(a.cmp_precedence(&b), Ordering::Equal);
    assert_eq!(a.cmp(&b), Ordering::Less);
    assert_eq!(b.cmp(&a), Ordering::Greater);
    assert_eq!(v("1.20.0").cmp(&a), Ordering::Less);
}

#[test]
fn order_of_parts_reads_the_given_answers() {
    let a = v("1.2.3");
    let b = v("1.2.3");
    assert_eq!(precedence_of_parts(&a, &b, Some(-1)), -1);
    assert_eq!(precedence_of_parts(&a, &b, None), 0);
    assert_eq!(order_of_parts(&a, &b, Some(0), Some(1)), 1);
    assert_eq!(order_of_parts(&a, &b, None, None), 0);
    let c = v("1.3.0");
    assert_eq!(precedence_of_parts(&a, &c, Some(1)), -1);
    assert_eq!(order_of_parts(&c, &a, Some(-1), Some(-1)), 1);
}

#[test]
fn release_increments_one_part_and_resets_the_rest() {
    let version = v("1.2.3-beta.1+meta");
    let major = version.inc(Release::Major);
    assert_eq!((major.major, major.minor, major.patch), (2, 0, 0));
    assert!(major.pre.is_empty() && major.build.is_empty());
    let minor = version.inc(Release::Minor);
    assert_eq!((minor.major, minor.minor, minor.patch), (1, 3, 0));
    let patch = version.inc(Release::Patch);
    assert_eq!((patch.major, patch.minor, patch.patch), (1, 2, 4));
    assert!(patch.pre.is_empty() && patch.build.is_empty());
}

#[test]
fn release_with_pre_marks_the_new_version() {
    let next = v("0.9.9").inc_with_pre(Release::Minor, "rc.1");
    assert_eq!((next.major, next.minor, next.patch), (0, 10, 0));
    assert_eq!(next.pre, "rc.1");
    assert!(next.build.is_empty());
}

#[test]
fn bumped_version_has_greater_precedence() {
    for text in ["0.0.0", "1.2.3-alpha", "9.9.9+x"] {
        let version = v(text);
        for release in [Release::Major, Release::Minor, Release::Patch] {
            assert_eq!(version.cmp_precedence(&version.inc(release)), Ordering::Less);
        }
    }
}

#[test]
fn release_parse_knows_three_names() {
    assert_eq!(Release::parse("major").unwrap(), Release::Major);
    assert_eq!(Release::parse("minor").unwrap(), Release::Minor);
    assert_eq!(Release::parse("patch").unwrap(), Release::Patch);
    match Release::parse("Major") {
        Err(Error::InvalidRelease { input }) => assert_eq!(input, "Major"),
        other => panic!("{other:?}"),
    }
}

#[test]
fn identifiers_are_checked_by_semver() {
    assert!(check_prerelease("alpha.1").is_ok());
    assert!(check_prerelease("").is_ok());
    assert!(matches!(check_prerelease("alpha_1"), Err(Error::Semver { .. })));
    assert!(check_build_metadata("001.sha").is_ok());
    assert!(matches!(check_build_metadata("a+b"), Err(Error::Semver { .. })));
}

#[test]
fn comparator_parse_reads_every_part() {
    let c = Comparator::parse("^1.2").unwrap();
    assert_eq!(c.op, Op::Caret);
    assert_eq!((c.major, c.minor, c.patch), (1, Some(2), None));
    let d = Comparator::parse(">=0.4.1-rc.2").unwrap();
    assert_eq!(d.op, Op::GreaterEq);
    assert_eq!((d.major, d.minor, d.patch), (0, Some(4), Some(1)));
    assert_eq!(d.pre, "rc.2");
    assert_eq!(Comparator::parse("1.0").unwrap().op, Op::Caret);
    assert_eq!(Comparator::parse("~1").unwrap().op, Op::Tilde);
    assert_eq!(Comparator::parse("=1.0.0").unwrap().op, Op::Exact);
    assert!(matches!(Comparator::parse("workspace"), Err(Error::Semver { .. })));
    assert!(c.same_as(&Comparator::parse("^1.2").unwrap()));
    assert!(!c.same_as(&Comparator::parse("~1.2").unwrap()));
}
