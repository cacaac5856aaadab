//! Rewriting the text of a manifest: a new version, or new requirements for its
//! dependencies.
//!
//! The documents are parsed and rendered by the `toml` and `serde_json` crates.
//! Between two edits a document is carried as the text that the crate renders
//! for it, so every edit starts from rendered text.

use super::{Kind, cargo_requirement, cargo_requirement_of, cargo_section, cargo_section_of, npm_section, npm_section_of};
use crate::dependency::DependencyKind;
use crate::error::Error;
use vstd::prelude::*;

verus! {

/// What an entry of a dependency table holds, as far as an update reads it.
#[derive(Copy, Clone, Debug, PartialEq, Eq, Structural)]
pub enum EntryShape {
    /// A string: `serde = "1.0"`.
    Text,
    /// A table with a `version` key: `serde = { version = "1.0" }`.
    Table,
    /// A table without a `version` key, such as `{ path = "../core" }`.
    TableWithoutVersion,
    /// Any other value.
    Other,
}

/// A dependency to move to a new requirement.
#[derive(Debug, Clone)]
pub struct Change {
    pub name: String,
    pub kind: DependencyKind,
    pub target: String,
}

/// What `toml::from_str` into a `toml::Value` and then `toml::to_string_pretty`
/// give for `text`: `None` where either fails.
pub uninterp spec fn toml_doc(text: Seq<char>) -> Option<Seq<char>>;

/// What the TOML document `doc` holds under `name` in its table `section`:
/// `None` where the text does not parse, the section is not a table, or it has
/// no such entry.
pub uninterp spec fn toml_entry(doc: Seq<char>, section: Seq<char>, name: Seq<char>) -> Option<EntryShape>;

/// The TOML document `doc`, rendered with `to_string_pretty` after the entry
/// `name` of its table `section` was given the requirement `req`: a string is
/// replaced by it, a table gets it under its `version` key. `None` where the text
/// does not parse, the entry is missing or neither string nor table, or rendering
/// fails.
pub uninterp spec fn toml_with(doc: Seq<char>, section: Seq<char>, name: Seq<char>, req: Seq<char>) -> Option<
    Seq<char>,
>;

/// The TOML document `doc`, rendered after the `version` key of its `package`
/// table was set to `version`: `None` where the text does not parse, the document
/// has no `package` entry with a `version` key, or rendering fails.
pub uninterp spec fn toml_with_version(doc: Seq<char>, version: Seq<char>) -> Option<Seq<char>>;

/// What `serde_json::from_str` into a `serde_json::Value` and then
/// `serde_json::to_string_pretty` give for `text`: `None` where either fails.
pub uninterp spec fn json_doc(text: Seq<char>) -> Option<Seq<char>>;

/// The JSON document `doc`, rendered with `to_string_pretty` after the object
/// `section` was given the string `req` under `name`, added or replaced: `None`
/// where the text does not parse, `section` is not an object, or rendering fails.
pub uninterp spec fn json_with(doc: Seq<char>, section: Seq<char>, name: Seq<char>, req: Seq<char>) -> Option<
    Seq<char>,
>;

/// The JSON document `doc`, rendered after its `version` key was set to the
/// string `version` (a `null` document becomes an object): `None` where the text
/// does not parse, the document is neither an object nor `null`, or rendering
/// fails.
pub uninterp spec fn json_with_version(doc: Seq<char>, version: Seq<char>) -> Option<Seq<char>>;

/// The characters of an optional string, as an optional sequence.
pub open spec fn text_of(r: Option<String>) -> Option<Seq<char>> {
    match r {
        Some(s) => Some(s@),
        None => None,
    }
}

/// Parses `text` as TOML with `toml::from_str` and renders it with
/// `toml::to_string_pretty`. Claims that the result is what `toml_doc` names.
#[verifier::external_body]
fn toml_document(text: &str) -> (r: Option<String>)
    ensures
        text_of(r) == toml_doc(text@),
{
    let doc: toml::Value = toml::from_str(text).ok()?;
    toml::to_string_pretty(&doc).ok()
}

/// Parses `doc` with `toml::from_str` and reads the entry `name` of the table
/// `section` with `Value::get` and `Value::as_table`, telling its variants apart.
/// Claims that the result is what `toml_entry` names.
#[verifier::external_body]
fn toml_entry_shape(doc: &str, section: &str, name: &str) -> (r: Option<EntryShape>)
    ensures
        r == toml_entry(doc@, section@, name@),
{
    let doc: toml::Value = toml::from_str(doc).ok()?;
    let entry = doc.get(section)?.as_table()?.get(name)?;
    Some(match entry {
        toml::Value::String(_) => EntryShape::Text,
        toml::Value::Table(t) => match t.get("version") {
            Some(_) => EntryShape::Table,
            None => EntryShape::TableWithoutVersion,
        },
        _ => EntryShape::Other,
    })
}

/// Parses `doc` with `toml::from_str`, finds the entry `name` of the table
/// `section` with `Value::get_mut` and `Value::as_table_mut`, sets `req` into a
/// string entry, or with `Table::insert` under `version` into a table entry, and
/// renders the document
/// with `toml::to_string_pretty`. Claims that the result is what `toml_with`
/// names.
#[verifier::external_body]
fn toml_set_requirement(doc: &str, section: &str, name: &str, req: &str) -> (r: Option<String>)
    ensures
        text_of(r) == toml_with(doc@, section@, name@, req@),
{
    let mut doc: toml::Value = toml::from_str(doc).ok()?;
    let entry = doc.get_mut(section)?.as_table_mut()?.get_mut(name)?;
    match entry {
        toml::Value::String(s) => *s = req.to_string(),
        toml::Value::Table(t) => {
            t.insert("version".to_string(), toml::Value::String(req.to_string()));
        },
        _ => return None,
    }
    toml::to_string_pretty(&doc).ok()
}

/// Parses `doc` with `toml::from_str`, finds `package.version` with
/// `Value::get_mut`, sets it to the string `version`, and renders the document
/// with `toml::to_string_pretty`. Claims that the result is what
/// `toml_with_version` names.
#[verifier::external_body]
fn toml_set_version(doc: &str, version: &str) -> (r: Option<String>)
    ensures
        text_of(r) == toml_with_version(doc@, version@),
{
    let mut doc: toml::Value = toml::from_str(doc).ok()?;
    let slot = doc.get_mut("package")?.get_mut("version")?;
    *slot = toml::Value::String(version.to_string());
    toml::to_string_pretty(&doc).ok()
}

/// Parses `text` as JSON with `serde_json::from_str` and renders it with
/// `serde_json::to_string_pretty`. Claims that the result is what `json_doc`
/// names.
#[verifier::external_body]
fn json_document(text: &str) -> (r: Option<String>)
    ensures
        text_of(r) == json_doc(text@),
{
    let doc: serde_json::Value = serde_json::from_str(text).ok()?;
    serde_json::to_string_pretty(&doc).ok()
}

/// Parses `doc` with `serde_json::from_str`, finds the object `section` with
/// `Value::get_mut` and `Value::as_object_mut`, inserts the string `req` under
/// `name` with `Map::insert`, and renders the document with
/// `serde_json::to_string_pretty`. Claims that the result is what `json_with`
/// names.
#[verifier::external_body]
fn json_set_requirement(doc: &str, section: &str, name: &str, req: &str) -> (r: Option<String>)
    ensures
        text_of(r) == json_with(doc@, section@, name@, req@),
{
    let mut doc: serde_json::Value = serde_json::from_str(doc).ok()?;
    let deps = doc.get_mut(section)?.as_object_mut()?;
    deps.insert(name.to_string(), serde_json::Value::String(req.to_string()));
    serde_json::to_string_pretty(&doc).ok()
}

/// Parses `doc` with `serde_json::from_str`, sets its `version` key with the
/// indexing of `serde_json::Value` where the document is an object or `null`, and
/// renders it with `serde_json::to_string_pretty`. Claims that the result is what
/// `json_with_version` names.
#[verifier::external_body]
fn json_set_version(doc: &str, version: &str) -> (r: Option<String>)
    ensures
        text_of(r) == json_with_version(doc@, version@),
{
    let mut doc: serde_json::Value = serde_json::from_str(doc).ok()?;
    match doc {
        serde_json::Value::Object(_) => {},
        serde_json::Value::Null => {},
        _ => return None,
    }
    doc["version"] = serde_json::Value::String(version.to_string());
    serde_json::to_string_pretty(&doc).ok()
}

/// One change applied to a rendered `Cargo.toml`: `None` where the entry is a
/// table without a `version` key, which cannot take a requirement. Kinds without
/// a table, missing entries and entries that are neither string nor table leave
/// the document as it is.
pub open spec fn cargo_step(doc: Seq<char>, c: Change) -> Option<Seq<char>> {
    match cargo_section(c.kind) {
        None => Some(doc),
        Some(section) => match toml_entry(doc, section, c.name@) {
            Some(EntryShape::TableWithoutVersion) => None,
            Some(EntryShape::Text) | Some(EntryShape::Table) => match toml_with(
                doc,
                section,
                c.name@,
                cargo_requirement(c.target@),
            ) {
                Some(d) => Some(d),
                None => Some(doc),
            },
            _ => Some(doc),
        },
    }
}

/// The changes applied to a rendered `Cargo.toml` in order: `None` where one of
/// them meets a table without a `version` key.
pub open spec fn cargo_fold(doc: Seq<char>, cs: Seq<Change>) -> Option<Seq<char>>
    decreases cs.len(),
{
    if cs.len() == 0 {
        Some(doc)
    } else {
        match cargo_fold(doc, cs.drop_last()) {
            None => None,
            Some(d) => cargo_step(d, cs.last()),
        }
    }
}

/// One change applied to a rendered `package.json`: the kind's object gets the
/// target under the dependency's name; kinds without an object, and documents
/// without that object, are left as they are.
pub open spec fn npm_step(doc: Seq<char>, c: Change) -> Seq<char> {
    match npm_section(c.kind) {
        None => doc,
        Some(section) => match json_with(doc, section, c.name@, c.target@) {
            Some(d) => d,
            None => doc,
        },
    }
}

/// The changes applied to a rendered `package.json` in order.
pub open spec fn npm_fold(doc: Seq<char>, cs: Seq<Change>) -> Seq<char>
    decreases cs.len(),
{
    if cs.len() == 0 {
        doc
    } else {
        npm_step(npm_fold(doc, cs.drop_last()), cs.last())
    }
}

fn fold_cargo(contents: &str, changes: &Vec<Change>) -> (r: Result<Option<String>, Error>)
    ensures
        match toml_doc(contents@) {
            None => r matches Err(Error::InvalidManifest),
            Some(doc) => match cargo_fold(doc, changes@) {
                None => r matches Ok(None),
                Some(s) => r matches Ok(Some(t)) && t@ == s,
            },
        },
{
    let start = match toml_document(contents) {
        Some(d) => d,
        None => return Err(Error::InvalidManifest),
    };
    let ghost first = start@;
    let mut doc = start;
    let mut i: usize = 0;
    while i < changes.len()
        invariant
            i <= changes.len(),
            toml_doc(contents@) == Some(first),
            cargo_fold(first, changes@.take(i as int)) == Some(doc@),
        decreases changes.len() - i,
    {
        assert(changes@.take(i + 1).drop_last() == changes@.take(i as int));
        assert(changes@.take(i + 1).last() == changes@[i as int]);
        let c = &changes[i];
        match cargo_section_of(c.kind) {
            None => {},
            Some(section) => match toml_entry_shape(doc.as_str(), section, c.name.as_str()) {
                Some(EntryShape::TableWithoutVersion) => {
                    proof {
                        lemma_cargo_fold_stuck(first, changes@, i as int + 1);
                    }
                    return Ok(None);
                },
                Some(EntryShape::Text) | Some(EntryShape::Table) => {
                    let req = cargo_requirement_of(c.target.as_str());
                    match toml_set_requirement(doc.as_str(), section, c.name.as_str(), req.as_str()) {
                        Some(d) => {
                            doc = d;
                        },
                        None => {},
                    }
                },
                _ => {},
            },
        }
        i = i + 1;
    }
    assert(changes@.take(changes.len() as int) == changes@);
    Ok(Some(doc))
}

/// Once a prefix of the changes gets stuck, so do all of them.
proof fn lemma_cargo_fold_stuck(doc: Seq<char>, cs: Seq<Change>, k: int)
    requires
        0 <= k <= cs.len(),
        cargo_fold(doc, cs.take(k)) is None,
    ensures
        cargo_fold(doc, cs) is None,
    decreases cs.len() - k,
{
    if k < cs.len() {
        assert(cs.take(k + 1).drop_last() == cs.take(k));
        lemma_cargo_fold_stuck(doc, cs, k + 1);
    } else {
        assert(cs.take(k) == cs);
    }
}

/// Whether the changes can all be applied to the `Cargo.toml` text `contents`:
/// none meets a table without a `version` key.
pub open spec fn cargo_changes_fit(contents: Seq<char>, cs: Seq<Change>) -> bool {
    toml_doc(contents) matches Some(doc) ==> cargo_fold(doc, cs) is Some
}

/// The text of a `Cargo.toml` after the changes, in order: for each dependency
/// with a table (not peer ones), its string, or the `version` key of its table,
/// becomes the target without a leading `^`; missing entries are skipped. Fails
/// with `InvalidManifest` where the text does not parse. A table without a
/// `version` key cannot take a requirement, and is left out.
pub fn update_cargo_manifest(contents: &str, changes: &Vec<Change>) -> (r: Result<String, Error>)
    requires
        cargo_changes_fit(contents@, changes@),
    ensures
        r is Ok <==> toml_doc(contents@) is Some,
        r matches Err(e) ==> e is InvalidManifest,
        r matches Ok(s) ==> (toml_doc(contents@) matches Some(doc) && cargo_fold(doc, changes@)
            == Some(s@)),
{
    match fold_cargo(contents, changes) {
        Ok(Some(s)) => Ok(s),
        Ok(None) => Err(Error::InvalidManifest),
        Err(e) => Err(e),
    }
}

/// The text of a `Cargo.toml` after the changes, in order, as
/// `update_cargo_manifest` makes it. Fails with `InvalidManifest` where the text
/// does not parse; gives `Ok(None)`, changing nothing, where a change meets a
/// table without a `version` key.
pub fn checked_update_cargo_manifest(contents: &str, changes: &Vec<Change>) -> (r: Result<Option<String>, Error>)
    ensures
        match toml_doc(contents@) {
            None => r matches Err(Error::InvalidManifest),
            Some(doc) => match cargo_fold(doc, changes@) {
                None => r matches Ok(None),
                Some(s) => r matches Ok(Some(t)) && t@ == s,
            },
        },
{
    match fold_cargo(contents, changes) {
        Ok(Some(_)) => match update_cargo_manifest(contents, changes) {
            Ok(s) => Ok(Some(s)),
            Err(e) => Err(e),
        },
        Ok(None) => Ok(None),
        Err(e) => Err(e),
    }
}

/// The text of a `package.json` after the changes, in order: for each dependency
/// with an object (not build ones), the object gets the target under its name.
/// Fails with `InvalidManifest` where the text does not parse.
pub fn update_package_json(contents: &str, changes: &Vec<Change>) -> (r: Result<String, Error>)
    ensures
        match json_doc(contents@) {
            None => r matches Err(Error::InvalidManifest),
            Some(doc) => r matches Ok(s) && s@ == npm_fold(doc, changes@),
        },
{
    let start = match json_document(contents) {
        Some(d) => d,
        None => return Err(Error::InvalidManifest),
    };
    let ghost first = start@;
    let mut doc = start;
    let mut i: usize = 0;
    while i < changes.len()
        invariant
            i <= changes.len(),
            json_doc(contents@) == Some(first),
            npm_fold(first, changes@.take(i as int)) == doc@,
        decreases changes.len() - i,
    {
        assert(changes@.take(i + 1).drop_last() == changes@.take(i as int));
        assert(changes@.take(i + 1).last() == changes@[i as int]);
        let c = &changes[i];
        match npm_section_of(c.kind) {
            None => {},
            Some(section) => match json_set_requirement(
                doc.as_str(),
                section,
                c.name.as_str(),
                c.target.as_str(),
            ) {
                Some(d) => {
                    doc = d;
                },
                None => {},
            },
        }
        i = i + 1;
    }
    assert(changes@.take(changes.len() as int) == changes@);
    Ok(doc)
}

/// The text of a manifest after the changes: a `Cargo.toml` or a `package.json`
/// as `checked_update_cargo_manifest` and `update_package_json` make it. Tauri
/// manages no dependency and fails with `NotPackageManager`.
pub fn checked_update_manifest(kind: Kind, contents: &str, changes: &Vec<Change>) -> (r: Result<
    Option<String>,
    Error,
>)
    ensures
        kind == Kind::CargoToml ==> match toml_doc(contents@) {
            None => r matches Err(Error::InvalidManifest),
            Some(doc) => match cargo_fold(doc, changes@) {
                None => r matches Ok(None),
                Some(s) => r matches Ok(Some(t)) && t@ == s,
            },
        },
        kind == Kind::PackageJson ==> match json_doc(contents@) {
            None => r matches Err(Error::InvalidManifest),
            Some(doc) => r matches Ok(Some(s)) && s@ == npm_fold(doc, changes@),
        },
        kind == Kind::TauriConfJson ==> r matches Err(Error::NotPackageManager),
{
    match kind {
        Kind::CargoToml => checked_update_cargo_manifest(contents, changes),
        Kind::PackageJson => match update_package_json(contents, changes) {
            Ok(s) => Ok(Some(s)),
            Err(e) => Err(e),
        },
        Kind::TauriConfJson => Err(Error::NotPackageManager),
    }
}

/// The rendered manifest of `kind` whose text is `doc`, with `version` as its
/// version: under `package` in a `Cargo.toml`, at the top of a JSON manifest.
pub open spec fn version_doc(kind: Kind, doc: Seq<char>, version: Seq<char>) -> Option<Seq<char>> {
    match kind {
        Kind::CargoToml => toml_with_version(doc, version),
        _ => json_with_version(doc, version),
    }
}

/// The rendering of a manifest's text by its kind's crate.
pub open spec fn rendered(kind: Kind, text: Seq<char>) -> Option<Seq<char>> {
    match kind {
        Kind::CargoToml => toml_doc(text),
        _ => json_doc(text),
    }
}

fn place_version(contents: &str, kind: Kind, version: &str) -> (r: Result<Option<String>, Error>)
    ensures
        match rendered(kind, contents@) {
            None => r matches Err(Error::InvalidManifest),
            Some(doc) => match version_doc(kind, doc, version@) {
                None => r matches Ok(None),
                Some(s) => r matches Ok(Some(t)) && t@ == s,
            },
        },
{
    let doc = match kind {
        Kind::CargoToml => toml_document(contents),
        _ => json_document(contents),
    };
    let doc = match doc {
        Some(d) => d,
        None => return Err(Error::InvalidManifest),
    };
    let written = match kind {
        Kind::CargoToml => toml_set_version(doc.as_str(), version),
        _ => json_set_version(doc.as_str(), version),
    };
    Ok(written)
}

/// Whether the manifest text has a place for the version.
pub open spec fn version_fits(contents: Seq<char>, kind: Kind, version: Seq<char>) -> bool {
    rendered(kind, contents) matches Some(doc) ==> version_doc(kind, doc, version) is Some
}

/// The text of a manifest of `kind` with `version` as its version: the `version`
/// key of the `package` table of a `Cargo.toml`, the top-level `version` key of a
/// `package.json` or `tauri.conf.json`. Fails with `InvalidManifest` where the
/// text does not parse.
pub fn with_version(contents: &str, kind: Kind, version: &str) -> (r: Result<String, Error>)
    requires
        version_fits(contents@, kind, version@),
    ensures
        r is Ok <==> rendered(kind, contents@) is Some,
        r matches Err(e) ==> e is InvalidManifest,
        r matches Ok(s) ==> (rendered(kind, contents@) matches Some(doc) && version_doc(
            kind,
            doc,
            version@,
        ) == Some(s@)),
{
    match place_version(contents, kind, version) {
        Ok(Some(s)) => Ok(s),
        Ok(None) => Err(Error::InvalidManifest),
        Err(e) => Err(e),
    }
}

/// The text of a manifest of `kind` with `version` as its version, as
/// `with_version` makes it. Fails with `InvalidManifest` where the text does not
/// parse; gives `Ok(None)` where the document has no place for the version (a
/// `Cargo.toml` without `package.version`, a JSON manifest that is no object).
pub fn checked_with_version(contents: &str, kind: Kind, version: &str) -> (r: Result<Option<String>, Error>)
    ensures
        match rendered(kind, contents@) {
            None => r matches Err(Error::InvalidManifest),
            Some(doc) => match version_doc(kind, doc, version@) {
                None => r matches Ok(None),
                Some(s) => r matches Ok(Some(t)) && t@ == s,
            },
        },
{
    match place_version(contents, kind, version) {
        Ok(Some(_)) => match with_version(contents, kind, version) {
            Ok(s) => Ok(Some(s)),
            Err(e) => Err(e),
        },
        Ok(None) => Ok(None),
        Err(e) => Err(e),
    }
}

} // verus!
