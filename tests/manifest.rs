use conta::command::Version;
use conta::error::ContaError;
use conta::manifest::{apply, current_version, manifest_to_string, parse_manifest, set_version};
use conta::version::Bump;

const MANIFEST: &str = "# the workspace\n[workspace]\nmembers = [\"foo\", \"bar\"]\n\n[workspace.package]\nversion = \"1.2.3\"\nedition = \"2021\"  # edition\n\n[workspace.dependencies]\nfoo = { version = \"1.2.3\" }\nbar = { path = \"bar\", version = \"1.2.3\" }\nserde = \"1\"\n";

fn packages(names: &[&str]) -> Vec<String> {
    names.iter().map(|s| s.to_string()).collect()
}

#[test]
fn version_patch_updates_root_and_dependency() {
    let mut doc = parse_manifest(MANIFEST).unwrap();
    let out = Version::new(Bump::Patch, false).run(&mut doc, &packages(&["foo"])).unwrap();
    let expected = MANIFEST
        .replace("version = \"1.2.3\"\nedition", "version = \"1.2.4\"\nedition")
        .replace("foo = { version = \"1.2.3\" }", "foo = { version = \"1.2.4\" }");
    assert_eq!(out, expected);
    assert_eq!(current_version(&doc).unwrap(), "1.2.4");
}

#[test]
fn version_explicit_is_written_verbatim() {
    let mut doc = parse_manifest(MANIFEST).unwrap();
    let bump = Bump::from_str("2.0.0-rc.1").unwrap();
    let out = Version::new(bump, false).run(&mut doc, &packages(&["foo", "bar"])).unwrap();
    assert_eq!(current_version(&doc).unwrap(), "2.0.0-rc.1");
    assert!(out.contains("foo = { version = \"2.0.0-rc.1\" }"));
    assert!(out.contains("bar = { path = \"bar\", version = \"2.0.0-rc.1\" }"));
}

#[test]
fn apply_without_packages_changes_only_version() {
    let mut doc = parse_manifest(MANIFEST).unwrap();
    apply(&mut doc, "9.9.9", &Vec::new()).unwrap();
    let expected = MANIFEST.replace("version = \"1.2.3\"\nedition", "version = \"9.9.9\"\nedition");
    assert_eq!(manifest_to_string(&doc), expected);
}

#[test]
fn dry_run_twice_gives_same_output() {
    let mut first = parse_manifest(MANIFEST).unwrap();
    let mut second = parse_manifest(MANIFEST).unwrap();
    let cmd = Version::new(Bump::Minor, true);
    let a = cmd.run(&mut first, &packages(&["foo"])).unwrap();
    let b = cmd.run(&mut second, &packages(&["foo"])).unwrap();
    assert_eq!(a, b);
    let expected = MANIFEST.replace("version = \"1.2.3\"\nedition", "version = \"1.3.3\"\nedition");
    assert_eq!(a, expected);
}

#[test]
fn unknown_package_is_rejected_and_document_kept() {
    let mut doc = parse_manifest(MANIFEST).unwrap();
    let r = apply(&mut doc, "1.2.4", &packages(&["foo", "missing", "bar"]));
    assert_eq!(r, Err(ContaError::UnknownPackage("missing".to_string())));
    assert_eq!(manifest_to_string(&doc), MANIFEST);
    let r = Version::new(Bump::Patch, false).run(&mut doc, &packages(&["missing"]));
    assert_eq!(r, Err(ContaError::UnknownPackage("missing".to_string())));
    assert_eq!(manifest_to_string(&doc), MANIFEST);
}

#[test]
fn dependency_without_table_is_rejected() {
    let mut doc = parse_manifest(MANIFEST).unwrap();
    let r = apply(&mut doc, "1.2.4", &packages(&["serde"]));
    assert_eq!(r, Err(ContaError::DependencyNotTable("serde".to_string())));
    assert_eq!(manifest_to_string(&doc), MANIFEST);
}

#[test]
fn unknown_package_is_reported_before_non_table_entry() {
    let mut doc = parse_manifest(MANIFEST).unwrap();
    let r = apply(&mut doc, "1.2.4", &packages(&["serde", "missing", "other"]));
    assert_eq!(r, Err(ContaError::UnknownPackage("missing".to_string())));
    assert_eq!(manifest_to_string(&doc), MANIFEST);
}

#[test]
fn missing_version_is_rejected() {
    let text = "[workspace]\nmembers = []\n";
    let mut doc = parse_manifest(text).unwrap();
    assert_eq!(current_version(&doc), Err(ContaError::VersionMissing));
    assert_eq!(set_version(&mut doc, "1.0.0"), Err(ContaError::VersionMissing));
    assert_eq!(apply(&mut doc, "1.0.0", &Vec::new()), Err(ContaError::VersionMissing));
    assert_eq!(manifest_to_string(&doc), text);
}

#[test]
fn missing_dependency_table_is_rejected() {
    let text = "[workspace.package]\nversion = \"0.1.0\"\n";
    let mut doc = parse_manifest(text).unwrap();
    assert_eq!(apply(&mut doc, "0.2.0", &Vec::new()), Err(ContaError::DependenciesMissing));
    assert_eq!(manifest_to_string(&doc), text);
    let out = Version::new(Bump::Patch, true).run(&mut doc, &Vec::new()).unwrap();
    assert_eq!(out, "[workspace.package]\nversion = \"0.1.1\"\n");
}

#[test]
fn malformed_manifest_and_version_are_rejected() {
    assert_eq!(parse_manifest("[workspace").err(), Some(ContaError::Parse("[workspace".to_string())));
    let text = "[workspace.package]\nversion = \"one\"\n";
    let mut doc = parse_manifest(text).unwrap();
    let r = Version::new(Bump::Major, true).run(&mut doc, &Vec::new());
    assert_eq!(r, Err(ContaError::Parse("one".to_string())));
    assert_eq!(manifest_to_string(&doc), text);
}

#[test]
fn dependency_gets_version_field_when_it_has_none() {
    let text = "[workspace.package]\nversion = \"1.0.0\"\n[workspace.dependencies]\nfoo = { path = \"foo\" }\n";
    let mut doc = parse_manifest(text).unwrap();
    apply(&mut doc, "1.0.1", &packages(&["foo"])).unwrap();
    assert_eq!(
        manifest_to_string(&doc),
        "[workspace.package]\nversion = \"1.0.1\"\n[workspace.dependencies]\nfoo = { path = \"foo\" , version = \"1.0.1\" }\n"
    );
}

#[test]
fn version_overflow_keeps_document() {
    let text = "[workspace.package]\nversion = \"0.18446744073709551615.0\"\n";
    let mut doc = parse_manifest(text).unwrap();
    let r = Version::new(Bump::Minor, false).run(&mut doc, &Vec::new());
    assert_eq!(r, Err(ContaError::Overflow));
    assert_eq!(manifest_to_string(&doc), text);
}
