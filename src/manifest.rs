//! The workspace manifest: reading and setting the shared version and the
//! versions of the workspace's own dependencies, in a document that keeps its
//! formatting.
//!
//! The document is a `toml_edit::DocumentMut`. Its contents are seen through
//! key paths: the keys that lead from the root to an item, each step going
//! through a table or an inline table.
use crate::error::ContaError;
use toml_edit::DocumentMut;
use vstd::prelude::*;

verus! {

#[verifier::external_type_specification]
#[verifier::external_body]
pub struct ExDocumentMut(toml_edit::DocumentMut);

#[verifier::external_type_specification]
#[verifier::external_body]
pub struct ExTomlError(toml_edit::TomlError);

/// The string values of the document, by key path.
pub uninterp spec fn manifest_strings(d: DocumentMut) -> Map<Seq<Seq<char>>, Seq<char>>;

/// The key paths of all items of the document, whatever their kind.
pub uninterp spec fn manifest_keys(d: DocumentMut) -> Set<Seq<Seq<char>>>;

/// The key paths of the document's tables, those written with a header and
/// those made implicitly by a header or a dotted key.
pub uninterp spec fn manifest_tables(d: DocumentMut) -> Set<Seq<Seq<char>>>;

/// The key paths of the document's inline tables (`{ ... }`).
pub uninterp spec fn manifest_inline_tables(d: DocumentMut) -> Set<Seq<Seq<char>>>;

/// The text of the document, as its `Display` writes it.
pub uninterp spec fn manifest_text(d: DocumentMut) -> Seq<char>;

/// `workspace.package.version`: the version that the workspace's packages share.
pub open spec fn version_path() -> Seq<Seq<char>> {
    seq!["workspace"@, "package"@, "version"@]
}

/// `workspace.dependencies`: the table of the workspace's dependencies.
pub open spec fn dependencies_path() -> Seq<Seq<char>> {
    seq!["workspace"@, "dependencies"@]
}

/// The entry of a dependency in `workspace.dependencies`.
pub open spec fn dependency_path(name: Seq<char>) -> Seq<Seq<char>> {
    dependencies_path().push(name)
}

/// The version field of a dependency's entry.
pub open spec fn dependency_version_path(name: Seq<char>) -> Seq<Seq<char>> {
    dependency_path(name).push("version"@)
}

/// The key paths at `target` or below it.
pub open spec fn subtree(target: Seq<Seq<char>>) -> Set<Seq<Seq<char>>> {
    Set::new(|p: Seq<Seq<char>>| target.is_prefix_of(p))
}

/// The path is at or below the version field of one of the named
/// dependencies.
pub open spec fn under_any_dependency_version(names: Seq<Seq<char>>, p: Seq<Seq<char>>) -> bool {
    exists|i: int| 0 <= i < names.len() && #[trigger] dependency_version_path(names[i]).is_prefix_of(p)
}

/// The path is the version field of one of the named dependencies.
pub open spec fn is_listed_version_path(names: Seq<Seq<char>>, p: Seq<Seq<char>>) -> bool {
    exists|i: int| 0 <= i < names.len() && p == dependency_version_path(#[trigger] names[i])
}

/// The paths of `s` that are not at or below the version field of one of
/// the named dependencies.
pub open spec fn outside_dependency_versions(s: Set<Seq<Seq<char>>>, names: Seq<Seq<char>>) -> Set<Seq<Seq<char>>> {
    s.filter(|p: Seq<Seq<char>>| !under_any_dependency_version(names, p))
}

/// The string values of `m` once the version field of each named dependency
/// has been set to `v`, replacing whatever stood there.
pub open spec fn with_dependency_versions(
    m: Map<Seq<Seq<char>>, Seq<char>>,
    names: Seq<Seq<char>>,
    v: Seq<char>,
) -> Map<Seq<Seq<char>>, Seq<char>>
    decreases names.len(),
{
    if names.len() == 0 {
        m
    } else {
        let target = dependency_version_path(names.last());
        with_dependency_versions(m, names.drop_last(), v).remove_keys(subtree(target)).insert(target, v)
    }
}

/// The texts of the package names.
pub open spec fn names_of(packages: Seq<String>) -> Seq<Seq<char>> {
    packages.map_values(|s: String| s@)
}

/// The dependency is in the dependency table.
pub open spec fn has_dependency(d: DocumentMut, name: Seq<char>) -> bool {
    manifest_keys(d).contains(dependency_path(name))
}

/// The dependency's entry is a table or an inline table, where a version
/// field can be set.
pub open spec fn dependency_is_table(d: DocumentMut, name: Seq<char>) -> bool {
    manifest_tables(d).contains(dependency_path(name))
    || manifest_inline_tables(d).contains(dependency_path(name))
}

/// The dependency's version field can be set.
pub open spec fn dependency_settable(d: DocumentMut, name: Seq<char>) -> bool {
    has_dependency(d, name) && dependency_is_table(d, name)
}

/// `names[i]` is the first of the names that the dependency table lacks.
pub open spec fn first_absent(d: DocumentMut, names: Seq<Seq<char>>, i: int) -> bool {
    0 <= i < names.len() && !has_dependency(d, names[i])
    && forall|j: int| 0 <= j < i ==> has_dependency(d, #[trigger] names[j])
}

/// The dependency table has every one of the names, and `names[i]` is the
/// first whose entry is not a table.
pub open spec fn first_not_table(d: DocumentMut, names: Seq<Seq<char>>, i: int) -> bool {
    &&& forall|j: int| 0 <= j < names.len() ==> has_dependency(d, #[trigger] names[j])
    &&& 0 <= i < names.len() && !dependency_is_table(d, names[i])
    &&& forall|j: int| 0 <= j < i ==> dependency_is_table(d, #[trigger] names[j])
}

/// What [`apply`] does to a document whose checks passed: the shared version
/// and the version field of each named dependency become `v`, and nothing
/// else changes.
pub open spec fn applied(before: DocumentMut, after: DocumentMut, names: Seq<Seq<char>>, v: Seq<char>) -> bool {
    &&& manifest_strings(after) == with_dependency_versions(
        manifest_strings(before).insert(version_path(), v),
        names,
        v,
    )
    &&& manifest_keys(after) == outside_dependency_versions(manifest_keys(before), names)
        + Set::new(|p: Seq<Seq<char>>| is_listed_version_path(names, p))
    &&& manifest_tables(after) == outside_dependency_versions(manifest_tables(before), names)
    &&& manifest_inline_tables(after) == outside_dependency_versions(manifest_inline_tables(before), names)
}

/// Whether `toml_edit` reads the text as a TOML document.
pub uninterp spec fn toml_accepts(text: Seq<char>) -> bool;

/// Relies on `FromStr` of `toml_edit::DocumentMut`: parses a document and
/// keeps its formatting; whether it succeeds depends on the text alone.
#[verifier::external_body]
fn parse_document(text: &str) -> (r: Result<DocumentMut, toml_edit::TomlError>)
    ensures
        r is Ok <==> toml_accepts(text@),
{
    text.parse::<DocumentMut>()
}

/// Relies on `toml_edit`'s `get` and `Item::as_str`: the string at the key
/// path `k0.k1.k2`, if there is one.
#[verifier::external_body]
fn string_at(doc: &DocumentMut, k0: &str, k1: &str, k2: &str) -> (r: Option<String>)
    ensures
        r is Some <==> manifest_strings(*doc).contains_key(seq![k0@, k1@, k2@]),
        r matches Some(s) ==> s@ == manifest_strings(*doc)[seq![k0@, k1@, k2@]],
{
    Some(doc.get(k0)?.get(k1)?.get(k2)?.as_str()?.to_string())
}

/// Relies on `toml_edit`'s `IndexMut` and `toml_edit::value`: replaces the
/// string at `k0.k1.k2`. Each step of the path exists and is a table or an
/// inline table, so no index panics.
#[verifier::external_body]
fn set_string_at(doc: &mut DocumentMut, k0: &str, k1: &str, k2: &str, v: &str)
    requires
        manifest_strings(*old(doc)).contains_key(seq![k0@, k1@, k2@]),
    ensures
        manifest_strings(*final(doc)) == manifest_strings(*old(doc)).insert(seq![k0@, k1@, k2@], v@),
        manifest_keys(*final(doc)) == manifest_keys(*old(doc)),
        manifest_tables(*final(doc)) == manifest_tables(*old(doc)),
        manifest_inline_tables(*final(doc)) == manifest_inline_tables(*old(doc)),
{
    doc[k0][k1][k2] = toml_edit::value(v);
}

/// Relies on `toml_edit`'s `get` and `Item::is_table`: whether the item at
/// `k0.k1` is a table (an inline table is not).
#[verifier::external_body]
fn is_table_at(doc: &DocumentMut, k0: &str, k1: &str) -> (r: bool)
    ensures
        r == manifest_tables(*doc).contains(seq![k0@, k1@]),
{
    doc.get(k0).and_then(|w| w.get(k1)).map_or(false, |d| d.is_table())
}

/// Relies on `toml_edit::Table::contains_key`: whether the table at `k0.k1`
/// has an entry named `key`.
#[verifier::external_body]
fn table_has_key(doc: &DocumentMut, k0: &str, k1: &str, key: &str) -> (r: bool)
    requires
        manifest_tables(*doc).contains(seq![k0@, k1@]),
    ensures
        r == manifest_keys(*doc).contains(seq![k0@, k1@, key@]),
{
    doc.get(k0).and_then(|w| w.get(k1)).and_then(|d| d.as_table()).map_or(
        false,
        |t| t.contains_key(key),
    )
}

/// Relies on `toml_edit::Item::is_table_like`: whether the item at
/// `k0.k1.k2` is a table or an inline table.
#[verifier::external_body]
fn is_table_like_at(doc: &DocumentMut, k0: &str, k1: &str, k2: &str) -> (r: bool)
    ensures
        r == (manifest_tables(*doc).contains(seq![k0@, k1@, k2@])
            || manifest_inline_tables(*doc).contains(seq![k0@, k1@, k2@])),
{
    doc.get(k0).and_then(|w| w.get(k1)).and_then(|d| d.get(k2)).map_or(
        false,
        |e| e.is_table_like(),
    )
}

/// Relies on `toml_edit`'s `IndexMut` and `toml_edit::value`: sets the field
/// `k3` of the table-like item at `k0.k1.k2` to a string, adding the field if
/// it is missing and replacing whatever stood there. Each step of the path
/// exists and is a table or an inline table, so no index panics.
#[verifier::external_body]
fn set_field_string(doc: &mut DocumentMut, k0: &str, k1: &str, k2: &str, k3: &str, v: &str)
    requires
        manifest_tables(*old(doc)).contains(seq![k0@, k1@]),
        manifest_keys(*old(doc)).contains(seq![k0@, k1@, k2@]),
        manifest_tables(*old(doc)).contains(seq![k0@, k1@, k2@])
            || manifest_inline_tables(*old(doc)).contains(seq![k0@, k1@, k2@]),
    ensures
        manifest_strings(*final(doc)) == manifest_strings(*old(doc)).remove_keys(
            subtree(seq![k0@, k1@, k2@, k3@]),
        ).insert(seq![k0@, k1@, k2@, k3@], v@),
        manifest_keys(*final(doc)) == manifest_keys(*old(doc)).difference(
            subtree(seq![k0@, k1@, k2@, k3@]),
        ).insert(seq![k0@, k1@, k2@, k3@]),
        manifest_tables(*final(doc)) == manifest_tables(*old(doc)).difference(
            subtree(seq![k0@, k1@, k2@, k3@]),
        ),
        manifest_inline_tables(*final(doc)) == manifest_inline_tables(*old(doc)).difference(
            subtree(seq![k0@, k1@, k2@, k3@]),
        ),
{
    doc[k0][k1][k2][k3] = toml_edit::value(v);
}

/// The string at `workspace.package.version`.
fn version_string(doc: &DocumentMut) -> (r: Option<String>)
    ensures
        r is Some <==> manifest_strings(*doc).contains_key(version_path()),
        r matches Some(s) ==> s@ == manifest_strings(*doc)[version_path()],
{
    string_at(doc, "workspace", "package", "version")
}

/// Replaces the string at `workspace.package.version`.
fn set_version_string(doc: &mut DocumentMut, v: &str)
    requires
        manifest_strings(*old(doc)).contains_key(version_path()),
    ensures
        manifest_strings(*final(doc)) == manifest_strings(*old(doc)).insert(version_path(), v@),
        manifest_keys(*final(doc)) == manifest_keys(*old(doc)),
        manifest_tables(*final(doc)) == manifest_tables(*old(doc)),
        manifest_inline_tables(*final(doc)) == manifest_inline_tables(*old(doc)),
{
    set_string_at(doc, "workspace", "package", "version", v);
}

/// Whether `workspace.dependencies` is a table.
fn has_dependency_table(doc: &DocumentMut) -> (r: bool)
    ensures
        r == manifest_tables(*doc).contains(dependencies_path()),
{
    is_table_at(doc, "workspace", "dependencies")
}

/// Whether the dependency table has an entry of that name.
fn dependency_entry_present(doc: &DocumentMut, name: &str) -> (r: bool)
    requires
        manifest_tables(*doc).contains(dependencies_path()),
    ensures
        r == has_dependency(*doc, name@),
{
    proof {
        assert(dependency_path(name@) =~= seq!["workspace"@, "dependencies"@, name@]);
    }
    table_has_key(doc, "workspace", "dependencies", name)
}

/// Whether the dependency's entry is a table or an inline table.
fn dependency_entry_is_table(doc: &DocumentMut, name: &str) -> (r: bool)
    ensures
        r == dependency_is_table(*doc, name@),
{
    proof {
        assert(dependency_path(name@) =~= seq!["workspace"@, "dependencies"@, name@]);
    }
    is_table_like_at(doc, "workspace", "dependencies", name)
}

/// Sets the dependency's version field, replacing whatever stood there.
fn set_dependency_version_string(doc: &mut DocumentMut, name: &str, v: &str)
    requires
        manifest_tables(*old(doc)).contains(dependencies_path()),
        dependency_settable(*old(doc), name@),
    ensures
        manifest_strings(*final(doc)) == manifest_strings(*old(doc)).remove_keys(
            subtree(dependency_version_path(name@)),
        ).insert(dependency_version_path(name@), v@),
        manifest_keys(*final(doc)) == manifest_keys(*old(doc)).difference(
            subtree(dependency_version_path(name@)),
        ).insert(dependency_version_path(name@)),
        manifest_tables(*final(doc)) == manifest_tables(*old(doc)).difference(
            subtree(dependency_version_path(name@)),
        ),
        manifest_inline_tables(*final(doc)) == manifest_inline_tables(*old(doc)).difference(
            subtree(dependency_version_path(name@)),
        ),
{
    proof {
        assert(dependency_path(name@) =~= seq!["workspace"@, "dependencies"@, name@]);
        assert(dependency_version_path(name@) =~= seq!["workspace"@, "dependencies"@, name@, "version"@]);
    }
    set_field_string(doc, "workspace", "dependencies", name, "version", v);
}

/// Relies on `Display` of `toml_edit::DocumentMut`: the document's text.
#[verifier::external_body]
fn document_string(doc: &DocumentMut) -> (r: String)
    ensures
        r@ == manifest_text(*doc),
{
    doc.to_string()
}

/// Parses a manifest, keeping its formatting. A text that is not a TOML
/// document fails with [`ContaError::Parse`] holding the text.
pub fn parse_manifest(text: &str) -> (r: Result<DocumentMut, ContaError>)
    ensures
        r is Ok <==> toml_accepts(text@),
        r matches Err(e) ==> (e matches ContaError::Parse(s) && s@ == text@),
{
    match parse_document(text) {
        Ok(d) => Ok(d),
        Err(_) => Err(ContaError::Parse(String::from_str(text))),
    }
}

/// The text of a manifest.
pub fn manifest_to_string(doc: &DocumentMut) -> (r: String)
    ensures
        r@ == manifest_text(*doc),
{
    document_string(doc)
}

/// The manifest's shared version, if `workspace.package.version` is a string.
pub fn current_version(doc: &DocumentMut) -> (r: Result<String, ContaError>)
    ensures
        manifest_strings(*doc).contains_key(version_path()) <==> r is Ok,
        r matches Ok(s) ==> s@ == manifest_strings(*doc)[version_path()],
        r is Err ==> r == Err::<String, ContaError>(ContaError::VersionMissing),
{
    match version_string(doc) {
        Some(s) => Ok(s),
        None => Err(ContaError::VersionMissing),
    }
}

/// Sets the shared version, and nothing else.
pub fn set_version(doc: &mut DocumentMut, version: &str) -> (r: Result<(), ContaError>)
    ensures
        manifest_strings(*old(doc)).contains_key(version_path()) <==> r is Ok,
        r is Err ==> r == Err::<(), ContaError>(ContaError::VersionMissing) && *final(doc) == *old(doc),
        r is Ok ==> applied(*old(doc), *final(doc), Seq::empty(), version@),
{
    match version_string(doc) {
        Some(_) => {
            set_version_string(doc, version);
            proof {
                let ghost e: Seq<Seq<char>> = Seq::empty();
                assert(outside_dependency_versions(manifest_keys(*old(doc)), e) =~= manifest_keys(*old(doc)));
                assert(outside_dependency_versions(manifest_tables(*old(doc)), e) =~= manifest_tables(*old(doc)));
                assert(outside_dependency_versions(manifest_inline_tables(*old(doc)), e) =~= manifest_inline_tables(*old(doc)));
                assert(manifest_keys(*final(doc)) =~= outside_dependency_versions(manifest_keys(*old(doc)), e)
                    + Set::new(|p: Seq<Seq<char>>| is_listed_version_path(e, p)));
            }
            Ok(())
        },
        None => Err(ContaError::VersionMissing),
    }
}

/// The dependency's version path lies outside the subtree of another name's
/// version path, and outside that of the shared version.
proof fn lemma_dependency_paths_apart(a: Seq<char>, b: Seq<char>)
    ensures
        !dependency_version_path(a).is_prefix_of(dependency_path(b)),
        !dependency_version_path(a).is_prefix_of(dependencies_path()),
        !dependency_version_path(a).is_prefix_of(version_path()),
        a != b ==> !dependency_version_path(a).is_prefix_of(dependency_version_path(b)),
{
    reveal_strlit("workspace");
    reveal_strlit("package");
    reveal_strlit("version");
    reveal_strlit("dependencies");
    let t = dependency_version_path(a);
    assert(t.len() == 4);
    if a != b {
        if t.is_prefix_of(dependency_version_path(b)) {
            assert(t[2] == dependency_version_path(b)[2]);
        }
    }
    if t.is_prefix_of(version_path()) {
        assert(false);
    }
    assert(version_path()[1] != dependencies_path()[1]) by {
        assert("package"@[0] != "dependencies"@[0]);
    }
}

/// What [`apply`] owes: on an error the document is left as it was, and
/// which result comes is fixed by the checks taken in order.
pub open spec fn apply_outcome(
    before: DocumentMut,
    after: DocumentMut,
    names: Seq<Seq<char>>,
    v: Seq<char>,
    r: Result<(), ContaError>,
) -> bool {
    &&& r is Err ==> after == before
    &&& !manifest_strings(before).contains_key(version_path())
        ==> r == Err::<(), ContaError>(ContaError::VersionMissing)
    &&& manifest_strings(before).contains_key(version_path())
        && !manifest_tables(before).contains(dependencies_path())
        ==> r == Err::<(), ContaError>(ContaError::DependenciesMissing)
    &&& manifest_strings(before).contains_key(version_path())
        && manifest_tables(before).contains(dependencies_path()) ==> {
        &&& (forall|i: int| 0 <= i < names.len() ==> dependency_settable(before, #[trigger] names[i]))
            ==> r is Ok && applied(before, after, names, v)
        &&& forall|i: int| #[trigger] first_absent(before, names, i)
            ==> (r matches Err(ContaError::UnknownPackage(n)) && n@ == names[i])
        &&& forall|i: int| #[trigger] first_not_table(before, names, i)
            ==> (r matches Err(ContaError::DependencyNotTable(n)) && n@ == names[i])
    }
}

/// Only one index is the first absent name.
proof fn lemma_first_absent_unique(d: DocumentMut, names: Seq<Seq<char>>, i: int)
    requires
        first_absent(d, names, i),
    ensures
        forall|k: int| #[trigger] first_absent(d, names, k) ==> k == i,
{
    assert forall|k: int| #[trigger] first_absent(d, names, k) implies k == i by {
        if k > i {
            assert(has_dependency(d, names[i]));
        } else if k < i {
            assert(has_dependency(d, names[k]));
        }
    }
}

/// Only one index is the first name whose entry is not a table.
proof fn lemma_first_not_table_unique(d: DocumentMut, names: Seq<Seq<char>>, i: int)
    requires
        first_not_table(d, names, i),
    ensures
        forall|k: int| #[trigger] first_not_table(d, names, k) ==> k == i,
{
    assert forall|k: int| #[trigger] first_not_table(d, names, k) implies k == i by {
        if k > i {
            assert(dependency_is_table(d, names[i]));
        } else if k < i {
            assert(dependency_is_table(d, names[k]));
        }
    }
}

/// Sets the shared version and the version field of each listed dependency
/// to `version`.
///
/// All checks come before any change, so on an error the document is left as
/// it was: the shared version must be present
/// ([`ContaError::VersionMissing`]), `workspace.dependencies` must be a table
/// ([`ContaError::DependenciesMissing`]), and each listed package, taken in
/// order, must be an entry of it ([`ContaError::UnknownPackage`]) that is a
/// table ([`ContaError::DependencyNotTable`]).
pub fn apply(doc: &mut DocumentMut, version: &str, packages: &Vec<String>) -> (r: Result<(), ContaError>)
    ensures
        apply_outcome(*old(doc), *final(doc), names_of(packages@), version@, r),
{
    let ghost d0 = *doc;
    let ghost names = names_of(packages@);
    if version_string(doc).is_none() {
        return Err(ContaError::VersionMissing);
    }
    if !has_dependency_table(doc) {
        return Err(ContaError::DependenciesMissing);
    }
    let n = packages.len();
    let mut i: usize = 0;
    while i < n
        invariant
            n == packages@.len(),
            names == names_of(packages@),
            *doc == d0,
            i <= n,
            manifest_strings(d0).contains_key(version_path()),
            manifest_tables(d0).contains(dependencies_path()),
            forall|j: int| 0 <= j < i ==> has_dependency(d0, #[trigger] names[j]),
        decreases n - i,
    {
        if !dependency_entry_present(doc, packages[i].as_str()) {
            proof {
                assert(first_absent(d0, names, i as int));
                lemma_first_absent_unique(d0, names, i as int);
            }
            return Err(ContaError::UnknownPackage(packages[i].clone()));
        }
        i = i + 1;
    }
    assert forall|k: int| !first_absent(d0, names, k) by {}
    let mut i: usize = 0;
    while i < n
        invariant
            n == packages@.len(),
            names == names_of(packages@),
            *doc == d0,
            i <= n,
            manifest_strings(d0).contains_key(version_path()),
            manifest_tables(d0).contains(dependencies_path()),
            forall|j: int| 0 <= j < n ==> has_dependency(d0, #[trigger] names[j]),
            forall|j: int| 0 <= j < i ==> dependency_is_table(d0, #[trigger] names[j]),
            forall|k: int| !first_absent(d0, names, k),
        decreases n - i,
    {
        if !dependency_entry_is_table(doc, packages[i].as_str()) {
            proof {
                assert(first_not_table(d0, names, i as int));
                lemma_first_not_table_unique(d0, names, i as int);
            }
            return Err(ContaError::DependencyNotTable(packages[i].clone()));
        }
        i = i + 1;
    }
    assert forall|k: int| !first_not_table(d0, names, k) by {}
    assert forall|j: int| 0 <= j < n implies dependency_settable(d0, #[trigger] names[j]) by {
        assert(has_dependency(d0, names[j]));
        assert(dependency_is_table(d0, names[j]));
    }
    set_version_string(doc, version);
    let ghost d1 = *doc;
    let mut i: usize = 0;
    while i < n
        invariant
            n == packages@.len(),
            names == names_of(packages@),
            i <= n,
            manifest_tables(d0).contains(dependencies_path()),
            forall|j: int| 0 <= j < n ==> dependency_settable(d0, #[trigger] names[j]),
            manifest_strings(d1) == manifest_strings(d0).insert(version_path(), version@),
            manifest_keys(d1) == manifest_keys(d0),
            manifest_tables(d1) == manifest_tables(d0),
            manifest_inline_tables(d1) == manifest_inline_tables(d0),
            manifest_strings(*doc) == with_dependency_versions(manifest_strings(d1), names.take(i as int), version@),
            manifest_keys(*doc) == outside_dependency_versions(manifest_keys(d0), names.take(i as int))
                + Set::new(|p: Seq<Seq<char>>| is_listed_version_path(names.take(i as int), p)),
            manifest_tables(*doc) == outside_dependency_versions(manifest_tables(d0), names.take(i as int)),
            manifest_inline_tables(*doc) == outside_dependency_versions(manifest_inline_tables(d0), names.take(i as int)),
        decreases n - i,
    {
        let ghost before = *doc;
        let ghost name_i = names[i as int];
        proof {
            assert(name_i == packages@[i as int]@);
            assert forall|j: int| 0 <= j < i implies !dependency_version_path(#[trigger] names[j]).is_prefix_of(dependency_path(name_i))
                && !dependency_version_path(names[j]).is_prefix_of(dependencies_path()) by {
                lemma_dependency_paths_apart(names[j], name_i);
            }
            assert(!under_any_dependency_version(names.take(i as int), dependency_path(name_i)));
            assert(!under_any_dependency_version(names.take(i as int), dependencies_path()));
            assert(dependency_settable(d0, name_i));
            assert(manifest_tables(before).contains(dependencies_path()));
        }
        set_dependency_version_string(doc, packages[i].as_str(), version);
        proof {
            let t = dependency_version_path(name_i);
            let prev = names.take(i as int);
            let next = names.take(i + 1);
            assert(next.drop_last() =~= prev);
            assert(next.last() == name_i);
            assert forall|p: Seq<Seq<char>>| under_any_dependency_version(next, p)
                <==> (under_any_dependency_version(prev, p) || t.is_prefix_of(p)) by {
                if under_any_dependency_version(next, p) {
                    let j = choose|j: int| 0 <= j < next.len() && #[trigger] dependency_version_path(next[j]).is_prefix_of(p);
                    if j < i {
                        assert(prev[j] == next[j]);
                    }
                }
                if under_any_dependency_version(prev, p) {
                    let j = choose|j: int| 0 <= j < prev.len() && #[trigger] dependency_version_path(prev[j]).is_prefix_of(p);
                    assert(prev[j] == next[j]);
                }
                if t.is_prefix_of(p) {
                    assert(next[i as int] == name_i);
                }
            }
            assert(manifest_tables(*doc) =~= outside_dependency_versions(manifest_tables(d0), next));
            assert(manifest_inline_tables(*doc) =~= outside_dependency_versions(manifest_inline_tables(d0), next));
            assert forall|p: Seq<Seq<char>>| #[trigger] is_listed_version_path(next, p)
                <==> (is_listed_version_path(prev, p) || p == t) by {
                if is_listed_version_path(next, p) {
                    let j = choose|j: int| 0 <= j < next.len() && p == dependency_version_path(#[trigger] next[j]);
                    if j < i {
                        assert(prev[j] == next[j]);
                    }
                }
                if is_listed_version_path(prev, p) {
                    let j = choose|j: int| 0 <= j < prev.len() && p == dependency_version_path(#[trigger] prev[j]);
                    assert(prev[j] == next[j]);
                }
                if p == t {
                    assert(next[i as int] == name_i);
                }
            }
            assert forall|j: int| 0 <= j < i && #[trigger] prev[j] != name_i
                implies !t.is_prefix_of(dependency_version_path(prev[j])) by {
                lemma_dependency_paths_apart(name_i, prev[j]);
            }
            assert(manifest_keys(*doc) =~= outside_dependency_versions(manifest_keys(d0), next)
                + Set::new(|p: Seq<Seq<char>>| is_listed_version_path(next, p)));
        }
        i = i + 1;
    }
    proof {
        assert(names.take(n as int) =~= names);
    }
    Ok(())
}

/// Where the dependency table lacks a listed name, some listed name is the
/// first it lacks.
proof fn lemma_first_absent_exists(d: DocumentMut, names: Seq<Seq<char>>, i: int)
    requires
        0 <= i < names.len(),
        !has_dependency(d, names[i]),
    ensures
        exists|k: int| #[trigger] first_absent(d, names, k),
    decreases i,
{
    if forall|j: int| 0 <= j < i ==> has_dependency(d, #[trigger] names[j]) {
        assert(first_absent(d, names, i));
    } else {
        let j = choose|j: int| 0 <= j < i && !has_dependency(d, #[trigger] names[j]);
        lemma_first_absent_exists(d, names, j);
    }
}

/// With no packages listed, a successful [`apply`] changes the shared
/// version's value and nothing else: every other string, key and table of
/// the document stays as it was.
pub proof fn lemma_apply_without_packages_changes_only_version(
    before: DocumentMut,
    after: DocumentMut,
    v: Seq<char>,
    r: Result<(), ContaError>,
)
    requires
        apply_outcome(before, after, Seq::empty(), v, r),
        r is Ok,
    ensures
        manifest_strings(after) == manifest_strings(before).insert(version_path(), v),
        manifest_keys(after) == manifest_keys(before),
        manifest_tables(after) == manifest_tables(before),
        manifest_inline_tables(after) == manifest_inline_tables(before),
{
    let e: Seq<Seq<char>> = Seq::empty();
    assert(outside_dependency_versions(manifest_keys(before), e) =~= manifest_keys(before));
    assert(outside_dependency_versions(manifest_tables(before), e) =~= manifest_tables(before));
    assert(outside_dependency_versions(manifest_inline_tables(before), e) =~= manifest_inline_tables(before));
    assert(Set::new(|p: Seq<Seq<char>>| is_listed_version_path(e, p)) =~= Set::empty());
    assert(manifest_keys(before) + Set::empty() =~= manifest_keys(before));
}

/// Listing a package that the dependency table lacks makes [`apply`] fail
/// with [`ContaError::UnknownPackage`], naming the first such package, and
/// leave the document as it was, where the manifest has its shared version
/// and its dependency table.
pub proof fn lemma_apply_rejects_unknown_package(
    before: DocumentMut,
    after: DocumentMut,
    names: Seq<Seq<char>>,
    v: Seq<char>,
    r: Result<(), ContaError>,
    i: int,
)
    requires
        apply_outcome(before, after, names, v, r),
        manifest_strings(before).contains_key(version_path()),
        manifest_tables(before).contains(dependencies_path()),
        0 <= i < names.len(),
        !has_dependency(before, names[i]),
    ensures
        exists|k: int| first_absent(before, names, k)
            && (r matches Err(ContaError::UnknownPackage(n)) && n@ == names[k]),
        after == before,
{
    lemma_first_absent_exists(before, names, i);
    let k = choose|k: int| #[trigger] first_absent(before, names, k);
    assert(r matches Err(ContaError::UnknownPackage(n)) && n@ == names[k]);
}

} // verus!
