use betterlink::attributes::{dependent_version, VersionTuple};
use betterlink::processor::{check_version, Handler};

#[test]
fn parse_version_forms() {
    assert_eq!(VersionTuple::parse_version("0.4.52"), VersionTuple(0, 4, 52));
    assert_eq!(VersionTuple::parse_version("0,0,1"), VersionTuple(0, 0, 1));
    assert_eq!(VersionTuple::parse_version("v1.2.3-beta"), VersionTuple(1, 2, 3));
    assert_eq!(VersionTuple::parse_version("1..2.3"), VersionTuple(1, 2, 3));
    assert_eq!(VersionTuple::parse_version("1.2.3.4"), VersionTuple(1, 2, 3));
    assert_eq!(VersionTuple::parse_version("1.2"), VersionTuple(0, 0, 0));
    assert_eq!(VersionTuple::parse_version(""), VersionTuple(0, 0, 0));
    assert_eq!(
        VersionTuple::parse_version("99999999999999999999999.1.2.3"),
        VersionTuple(1, 2, 3)
    );
}

#[test]
fn display_and_empty() {
    assert_eq!(VersionTuple(0, 4, 52).display(), "(0, 4, 52)");
    assert_eq!(VersionTuple::empty(), VersionTuple(0, 0, 0));
    assert!(VersionTuple(0, 4, 52) < VersionTuple(0, 5, 0));
}

#[test]
fn version_check() {
    assert!(check_version(&dependent_version()));
    assert!(check_version(&VersionTuple::parse_version("0.4.52")));
    assert!(!check_version(&VersionTuple(0, 4, 51)));
    assert_eq!(Handler::new().name(), "betterlink");
}

#[test]
fn version_conversions() {
    assert_eq!(VersionTuple::from([1, 2, 3]), VersionTuple(1, 2, 3));
    assert_eq!(<(usize, usize, usize)>::from(VersionTuple(4, 5, 6)), (4, 5, 6));
    assert_eq!(VersionTuple::from("mdbook v0.4.52"), VersionTuple(0, 4, 52));
}
