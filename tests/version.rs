use conta::error::ContaError;
use conta::version::{Bump, SemVer};

fn ver(major: u64, minor: u64, patch: u64, pre: &str, build: &str) -> SemVer {
    SemVer { major, minor, patch, pre: pre.to_string(), build: build.to_string() }
}

#[test]
fn patch_bump_raises_patch_only() {
    assert_eq!(Bump::Patch.run("1.2.3").unwrap(), ver(1, 2, 4, "", ""));
}

#[test]
fn minor_bump_keeps_patch() {
    assert_eq!(Bump::Minor.run("1.2.3").unwrap(), ver(1, 3, 3, "", ""));
}

#[test]
fn major_bump_keeps_minor_and_patch() {
    assert_eq!(Bump::Major.run("1.2.3").unwrap(), ver(2, 2, 3, "", ""));
}

#[test]
fn bump_keeps_pre_release_and_build() {
    assert_eq!(Bump::Patch.run("0.9.0-beta.2+abc").unwrap(), ver(0, 9, 1, "beta.2", "abc"));
}

#[test]
fn explicit_bump_ignores_current_version() {
    let target = ver(0, 1, 0, "", "");
    let b = Bump::Version(target.clone());
    assert_eq!(b.run("5.6.7").unwrap(), target);
    assert_eq!(b.run("0.0.1").unwrap(), target);
}

#[test]
fn bump_of_malformed_version_fails() {
    assert_eq!(Bump::Patch.run("1.2"), Err(ContaError::Parse("1.2".to_string())));
    assert_eq!(Bump::Version(ver(1, 0, 0, "", "")).run("x"), Err(ContaError::Parse("x".to_string())));
}

#[test]
fn bump_of_largest_number_overflows() {
    assert_eq!(Bump::Patch.run("1.2.18446744073709551615"), Err(ContaError::Overflow));
    assert_eq!(Bump::Minor.run("1.18446744073709551615.0"), Err(ContaError::Overflow));
    assert_eq!(Bump::Major.run("18446744073709551615.0.0"), Err(ContaError::Overflow));
}

#[test]
fn bump_from_keywords() {
    assert_eq!(Bump::from_str("patch"), Ok(Bump::Patch));
    assert_eq!(Bump::from_str("minor"), Ok(Bump::Minor));
    assert_eq!(Bump::from_str("major"), Ok(Bump::Major));
}

#[test]
fn bump_from_explicit_version() {
    assert_eq!(Bump::from_str("2.0.0-rc.1"), Ok(Bump::Version(ver(2, 0, 0, "rc.1", ""))));
    assert_eq!(Bump::from_str("Patch"), Err(ContaError::Parse("Patch".to_string())));
}

#[test]
fn version_text_has_all_parts() {
    assert_eq!(ver(1, 20, 300, "", "").to_text(), "1.20.300");
    assert_eq!(ver(2, 0, 0, "rc.1", "").to_text(), "2.0.0-rc.1");
    assert_eq!(ver(0, 0, 7, "", "build.5").to_text(), "0.0.7+build.5");
    assert_eq!(ver(3, 1, 4, "a", "b").to_text(), "3.1.4-a+b");
}

#[test]
fn parse_then_text_gives_the_version_back() {
    let v = SemVer::parse("10.0.12-alpha.1+001").unwrap();
    assert_eq!(v, ver(10, 0, 12, "alpha.1", "001"));
    assert_eq!(v.to_text(), "10.0.12-alpha.1+001");
}
