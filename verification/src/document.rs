//! The document: the whole edit, as data.
//!
//! The stack is the document; nothing here is destructive to the source.
//! The schema version is present from the first save so that a migration path
//! exists before it is needed, and a document from a newer build is refused
//! rather than misread.

use vstd::prelude::*;
use crate::geometry::Resize;
use crate::space::{by_name, lookup, Pipeline, SpaceId};
use crate::stack::Stack;

verus! {

/// Bumped whenever the on-disk shape changes incompatibly.
pub const SCHEMA_VERSION: u32 = 1;

/// Where the pixels come from.
#[derive(Clone, Debug, PartialEq)]
pub enum Source {
    /// A path relative to the document, or absolute.
    Path { path: String },
    /// The photograph's own bytes, base64'd into the document.
    Embedded { format: String, data: String },
}

/// The colour-management settings, stored by name so a document does not
/// bake in numbers a later derivation would contradict.
#[derive(Clone, Debug, PartialEq)]
pub struct ColorSettings {
    /// What the source file is. `"sRGB"` for most JPEGs.
    pub input: String,
    /// What is rendered for display and export.
    pub output: String,
}

impl Default for ColorSettings {
    fn default() -> (r: ColorSettings)
        ensures
            r.input@ == "sRGB"@,
            r.output@ == "sRGB"@,
    {
        ColorSettings { input: "sRGB".to_owned(), output: "sRGB".to_owned() }
    }
}

/// The space a stored name resolves to, falling back on sRGB.
pub open spec fn resolve_or_srgb(name: Seq<char>) -> SpaceId {
    match lookup(name) {
        Some(s) => s,
        None => SpaceId::Srgb,
    }
}

impl ColorSettings {
    /// Resolve the names into colour spaces. Unknown names fall back to sRGB
    /// rather than erroring, so a document naming a space this build has not
    /// learned still opens.
    pub fn pipeline(&self) -> (r: Pipeline)
        ensures
            r.input == resolve_or_srgb(self.input@),
            r.output == resolve_or_srgb(self.output@),
    {
        let input = match by_name(self.input.as_str()) {
            Some(s) => s,
            None => SpaceId::Srgb,
        };
        let output = match by_name(self.output.as_str()) {
            Some(s) => s,
            None => SpaceId::Srgb,
        };
        Pipeline::new(input, output)
    }
}

/// Title, note and tags.
#[derive(Clone, Debug, PartialEq)]
pub struct Metadata {
    pub title: Option<String>,
    pub note: Option<String>,
    /// Free-form tags.
    pub tags: Vec<String>,
}

impl Default for Metadata {
    fn default() -> (r: Metadata)
        ensures
            r.title is None,
            r.note is None,
            r.tags@.len() == 0,
    {
        Metadata { title: None, note: None, tags: Vec::new() }
    }
}

/// The edit. Each row's `L` carries its parameters, opacity and key; `X`
/// carries what the document holds and nothing here reads: the crop and
/// straightening geometry, and top-level fields written by a newer build,
/// kept so that they survive a save.
#[derive(Clone, Debug, PartialEq)]
pub struct Document<L, X> {
    pub schema_version: u32,
    pub source: Source,
    pub color: ColorSettings,
    /// How big the exported file should be. The last thing applied.
    pub resize: Resize,
    pub stack: Stack<L>,
    pub metadata: Metadata,
    pub extra: X,
}

impl<L, X: Default> Document<L, X> {
    /// A fresh document at the current schema, with an empty stack.
    pub fn new(source: Source) -> (d: Self)
        ensures
            d.schema_version == SCHEMA_VERSION,
            d.source == source,
            d.color.input@ == "sRGB"@,
            d.color.output@ == "sRGB"@,
            d.resize == Resize::Native,
            d.stack.rows@.len() == 0,
            d.metadata.title is None,
            d.metadata.note is None,
            d.metadata.tags@.len() == 0,
    {
        Document {
            schema_version: SCHEMA_VERSION,
            source,
            color: ColorSettings::default(),
            resize: Resize::Native,
            stack: Stack::new(),
            metadata: Metadata::default(),
            extra: X::default(),
        }
    }

    /// A fresh document reading its pixels from `path`.
    pub fn from_path(path: &str) -> (d: Self)
        ensures
            d.schema_version == SCHEMA_VERSION,
            d.source matches Source::Path { path: p } && p@ == path@,
            d.color.input@ == "sRGB"@,
            d.color.output@ == "sRGB"@,
            d.resize == Resize::Native,
            d.stack.rows@.len() == 0,
    {
        Self::new(Source::Path { path: path.to_owned() })
    }
}

#[verifier::external_type_specification]
#[verifier::external_body]
pub struct ExJsonError(serde_json::Error);

/// Why a document could not be read.
#[derive(Debug)]
pub enum DocumentError {
    /// Not valid JSON.
    Json(serde_json::Error),
    /// The document has no `schema_version` field.
    MissingSchemaVersion,
    /// The document's schema is newer than this build supports.
    FromTheFuture { found: u32, supported: u32 },
    /// The document's schema is one this build cannot migrate.
    UnsupportedVersion(u32),
}

/// Whether `serde_json` accepts `text` as a JSON value.
pub uninterp spec fn json_accepts(text: Seq<char>) -> bool;

/// The number serde_json finds under `key` in `text`: what `Value::as_u64`
/// gives for the member `Value::get` finds under `key` in the value that
/// `serde_json::from_str` parses from `text`; `None` where there is no such
/// member or it is not a non-negative integer that fits.
pub uninterp spec fn json_u64_member(text: Seq<char>, key: Seq<char>) -> Option<u64>;

/// `serde_json::from_str::<serde_json::Value>`, then `Value::get` with `key`
/// and `Value::as_u64` on what it finds. The parse succeeds exactly on the
/// texts [`json_accepts`] names, and then gives [`json_u64_member`]; both
/// depend on the text and the key alone.
#[verifier::external_body]
fn json_u64_field(text: &str, key: &str) -> (r: Result<Option<u64>, serde_json::Error>)
    ensures
        r is Ok <==> json_accepts(text@),
        r matches Ok(f) ==> f == json_u64_member(text@, key@),
{
    match serde_json::from_str::<serde_json::Value>(text) {
        Ok(v) => Ok(v.get(key).and_then(serde_json::Value::as_u64)),
        Err(e) => Err(e),
    }
}

/// What a document's `schema_version` field decides: missing is an error, a
/// version from the future is refused, and anything else must be one this
/// build can migrate. The field is read as a `u64` and narrowed to `u32`.
pub open spec fn schema_outcome(found: Option<u64>) -> Result<u32, DocumentError> {
    match found {
        None => Err(DocumentError::MissingSchemaVersion),
        Some(v) => {
            let version = v as u32;
            if version > SCHEMA_VERSION {
                Err(DocumentError::FromTheFuture { found: version, supported: SCHEMA_VERSION })
            } else if version == 1 {
                Ok(version)
            } else {
                Err(DocumentError::UnsupportedVersion(version))
            }
        },
    }
}

/// Bring an older document up to [`SCHEMA_VERSION`]. Version 1 is current;
/// no older version is supported.
pub fn migrate(from: u32) -> (r: Result<(), DocumentError>)
    ensures
        match r {
            Ok(()) => from == 1,
            Err(e) => from != 1 && e == DocumentError::UnsupportedVersion(from),
        },
{
    if from == 1 {
        Ok(())
    } else {
        Err(DocumentError::UnsupportedVersion(from))
    }
}

/// Decide what a `schema_version` field, if present, means for loading.
pub fn check_schema_version(found: Option<u64>) -> (r: Result<u32, DocumentError>)
    ensures
        r == schema_outcome(found),
{
    let v = match found {
        Some(v) => v,
        None => return Err(DocumentError::MissingSchemaVersion),
    };
    let version: u32 = v as u32;
    if version > SCHEMA_VERSION {
        return Err(DocumentError::FromTheFuture { found: version, supported: SCHEMA_VERSION });
    }
    match migrate(version) {
        Ok(()) => Ok(version),
        Err(e) => Err(e),
    }
}

/// Read a stored document's schema version and check that this build can
/// load it: the first half of loading, before the fields are read.
///
/// Text that is not JSON is refused as such; otherwise the outcome is what
/// [`check_schema_version`] decides for the `schema_version` member.
pub fn document_version(json: &str) -> (r: Result<u32, DocumentError>)
    ensures
        r matches Err(DocumentError::Json(_)) <==> !json_accepts(json@),
        json_accepts(json@) ==> r == schema_outcome(json_u64_member(json@, "schema_version"@)),
{
    match json_u64_field(json, "schema_version") {
        Ok(found) => check_schema_version(found),
        Err(e) => Err(DocumentError::Json(e)),
    }
}

} // verus!
