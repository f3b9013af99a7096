//! The version command: bumps the shared version of a manifest.
use crate::error::ContaError;
use crate::manifest::{
    applied, apply, apply_outcome, current_version, manifest_strings, manifest_text,
    manifest_to_string, names_of, set_version, version_path,
};
use crate::version::{Bump, bumped, semver_fields, version_text, view_of_fields};
use toml_edit::DocumentMut;
use vstd::prelude::*;

verus! {

/// The result of a command that yields text, without the text.
pub open spec fn without_text(r: Result<String, ContaError>) -> Result<(), ContaError> {
    match r {
        Ok(_) => Ok(()),
        Err(e) => Err(e),
    }
}

/// What the version command owes on a manifest: the new version is the
/// current one under the bump; a dry run sets only the shared version, a real
/// run goes through [`apply`]; the text returned is the changed document's.
pub open spec fn version_outcome(
    bump: Bump,
    dry_run: bool,
    before: DocumentMut,
    after: DocumentMut,
    names: Seq<Seq<char>>,
    r: Result<String, ContaError>,
) -> bool {
    &&& r matches Ok(t) ==> t@ == manifest_text(after)
    &&& !manifest_strings(before).contains_key(version_path())
        ==> r == Err::<String, ContaError>(ContaError::VersionMissing) && after == before
    &&& manifest_strings(before).contains_key(version_path()) ==> {
        let current = manifest_strings(before)[version_path()];
        match semver_fields(current) {
            None => r matches Err(ContaError::Parse(s)) && s@ == current && after == before,
            Some(f) => match bumped(bump, view_of_fields(f)) {
                None => r == Err::<String, ContaError>(ContaError::Overflow) && after == before,
                Some(w) => if dry_run {
                    r is Ok && applied(before, after, Seq::empty(), version_text(w))
                } else {
                    apply_outcome(before, after, names, version_text(w), without_text(r))
                },
            },
        }
    }
}

/// The version command: a bump, and whether to leave the manifest's file as
/// it is and only show the result.
#[derive(Debug, Clone)]
pub struct Version {
    pub bump: Bump,
    pub dry_run: bool,
}

impl Version {
    pub fn new(bump: Bump, dry_run: bool) -> (r: Version)
        ensures
            r.bump == bump,
            r.dry_run == dry_run,
    {
        Version { bump, dry_run }
    }

    /// Bumps the manifest's shared version and returns the new text of the
    /// manifest, which the caller prints (dry run) or writes back.
    ///
    /// A dry run sets the shared version only; a real run also sets the
    /// version field of each listed package in `workspace.dependencies`. On
    /// an error the document is left as it was.
    pub fn run(&self, doc: &mut DocumentMut, packages: &Vec<String>) -> (r: Result<String, ContaError>)
        ensures
            version_outcome(self.bump, self.dry_run, *old(doc), *final(doc), names_of(packages@), r),
    {
        let current = match current_version(doc) {
            Ok(s) => s,
            Err(e) => return Err(e),
        };
        let next = match self.bump.run(current.as_str()) {
            Ok(v) => v,
            Err(e) => return Err(e),
        };
        let text = next.to_text();
        if self.dry_run {
            match set_version(doc, text.as_str()) {
                Ok(()) => {},
                Err(e) => return Err(e),
            }
        } else {
            match apply(doc, text.as_str(), packages) {
                Ok(()) => {},
                Err(e) => return Err(e),
            }
        }
        Ok(manifest_to_string(doc))
    }
}

} // verus!
