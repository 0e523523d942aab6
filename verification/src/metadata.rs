//! Project metadata: the JSON shape that a proposal's metadata must decode
//! against, and the catalogue of its fields that clients can ask for.

use vstd::prelude::*;
use vstd::string::*;
use near_sdk::serde_json::Value;

verus! {

/// A parsed JSON document of `serde_json`; nothing of its inside is visible here.
#[verifier::external_type_specification]
#[verifier::external_body]
pub struct ExValue(Value);

/// The document that `serde_json::from_str` reads from a text, if it reads one.
pub uninterp spec fn json_document(text: Seq<char>) -> Option<Value>;

/// Whether a document is a JSON object, as `Value::is_object` says.
pub uninterp spec fn is_json_object(doc: Value) -> bool;

/// The member that `Value::get` finds in a document under a key.
pub uninterp spec fn json_member(doc: Value, key: Seq<char>) -> Option<Value>;

/// Whether a document is the JSON `null`, as `Value::is_null` says.
pub uninterp spec fn is_json_null(doc: Value) -> bool;

/// The text of a document that is a JSON string, as `Value::as_str` gives it.
pub uninterp spec fn json_text(doc: Value) -> Option<Seq<char>>;

/// Calls `serde_json::from_str` for a `Value` and drops the error's details.
/// The contract only names the outcome: parsing depends on the text alone.
#[verifier::external_body]
fn json_parse(text: &str) -> (r: Option<Value>)
    ensures
        r == json_document(text@),
{
    near_sdk::serde_json::from_str::<Value>(text).ok()
}

/// Calls `Value::is_object`; the contract names the answer.
#[verifier::external_body]
fn json_is_object(doc: &Value) -> (r: bool)
    ensures
        r == is_json_object(*doc),
{
    doc.is_object()
}

/// Calls `Value::get` with a string key; the contract names the member found.
#[verifier::external_body]
fn json_get<'a>(doc: &'a Value, key: &str) -> (r: Option<&'a Value>)
    ensures
        match r {
            Some(m) => json_member(*doc, key@) == Some(*m),
            None => json_member(*doc, key@).is_none(),
        },
{
    doc.get(key)
}

/// Calls `Value::is_null`; the contract names the answer.
#[verifier::external_body]
fn json_is_null(doc: &Value) -> (r: bool)
    ensures
        r == is_json_null(*doc),
{
    doc.is_null()
}

/// Calls `Value::as_str` and copies the text; the contract names it.
#[verifier::external_body]
fn json_as_text(doc: &Value) -> (r: Option<String>)
    ensures
        match r {
            Some(t) => json_text(*doc) == Some(t@),
            None => json_text(*doc).is_none(),
        },
{
    match doc.as_str() {
        Some(t) => Some(t.to_owned()),
        None => None,
    }
}

/// The five optional text fields of a project's metadata.
#[derive(Debug)]
pub struct ProjectMetadata {
    pub twitter_url: Option<String>,
    pub audit_report_url: Option<String>,
    pub telegram_username: Option<String>,
    pub description: Option<String>,
    pub website_url: Option<String>,
}

/// A project's metadata as plain texts.
pub ghost struct ProjectMetadataView {
    pub twitter_url: Option<Seq<char>>,
    pub audit_report_url: Option<Seq<char>>,
    pub telegram_username: Option<Seq<char>>,
    pub description: Option<Seq<char>>,
    pub website_url: Option<Seq<char>>,
}

/// The text of an optional string.
pub open spec fn optional_text(s: Option<String>) -> Option<Seq<char>> {
    match s {
        Some(t) => Some(t@),
        None => None,
    }
}

impl View for ProjectMetadata {
    type V = ProjectMetadataView;

    open spec fn view(&self) -> ProjectMetadataView {
        ProjectMetadataView {
            twitter_url: optional_text(self.twitter_url),
            audit_report_url: optional_text(self.audit_report_url),
            telegram_username: optional_text(self.telegram_username),
            description: optional_text(self.description),
            website_url: optional_text(self.website_url),
        }
    }
}

/// What an optional text field reads from a document: nothing where the
/// member is missing or `null`, the text where it is a string, and a failure
/// (the outer `None`) where it is anything else.
pub open spec fn field_of(doc: Value, key: Seq<char>) -> Option<Option<Seq<char>>> {
    match json_member(doc, key) {
        None => Some(None),
        Some(m) => match json_text(m) {
            Some(t) => Some(Some(t)),
            None => if is_json_null(m) {
                Some(None)
            } else {
                None
            },
        },
    }
}

/// The metadata that a document decodes to: it must be an object, and each of
/// the five fields a text, `null` or missing. Other members are not looked at.
pub open spec fn decoded(doc: Value) -> Option<ProjectMetadataView> {
    if !is_json_object(doc) {
        None
    } else {
        match (
            field_of(doc, "twitter_url"@),
            field_of(doc, "audit_report_url"@),
            field_of(doc, "telegram_username"@),
            field_of(doc, "description"@),
            field_of(doc, "website_url"@),
        ) {
            (Some(a), Some(b), Some(c), Some(d), Some(e)) => Some(
                ProjectMetadataView {
                    twitter_url: a,
                    audit_report_url: b,
                    telegram_username: c,
                    description: d,
                    website_url: e,
                },
            ),
            _ => None,
        }
    }
}

/// The metadata that a text decodes to, if it does.
pub open spec fn metadata_of(text: Seq<char>) -> Option<ProjectMetadataView> {
    match json_document(text) {
        Some(doc) => decoded(doc),
        None => None,
    }
}

/// Whether a text is acceptable as a proposal's metadata.
pub open spec fn metadata_decodes(text: Seq<char>) -> bool {
    metadata_of(text).is_some()
}

fn read_field(doc: &Value, key: &str) -> (r: Option<Option<String>>)
    ensures
        match r {
            Some(f) => field_of(*doc, key@) == Some(optional_text(f)),
            None => field_of(*doc, key@).is_none(),
        },
{
    match json_get(doc, key) {
        None => Some(None),
        Some(m) => match json_as_text(m) {
            Some(t) => Some(Some(t)),
            None => if json_is_null(m) {
                Some(None)
            } else {
                None
            },
        },
    }
}

/// Decodes a parsed document as project metadata.
pub fn metadata_from_document(doc: &Value) -> (r: Option<ProjectMetadata>)
    ensures
        match r {
            Some(m) => decoded(*doc) == Some(m@),
            None => decoded(*doc).is_none(),
        },
{
    if !json_is_object(doc) {
        return None;
    }
    let twitter_url = read_field(doc, "twitter_url");
    let audit_report_url = read_field(doc, "audit_report_url");
    let telegram_username = read_field(doc, "telegram_username");
    let description = read_field(doc, "description");
    let website_url = read_field(doc, "website_url");
    match (twitter_url, audit_report_url, telegram_username, description, website_url) {
        (Some(a), Some(b), Some(c), Some(d), Some(e)) => Some(
            ProjectMetadata {
                twitter_url: a,
                audit_report_url: b,
                telegram_username: c,
                description: d,
                website_url: e,
            },
        ),
        _ => None,
    }
}

/// Decodes a text as project metadata; `None` where it does not decode.
pub fn decode_metadata(text: &str) -> (r: Option<ProjectMetadata>)
    ensures
        match r {
            Some(m) => metadata_of(text@) == Some(m@),
            None => metadata_of(text@).is_none(),
        },
{
    match json_parse(text) {
        Some(doc) => metadata_from_document(&doc),
        None => None,
    }
}

/// The kind of value that a metadata field holds.
#[allow(non_camel_case_types)]
#[derive(Clone, Copy, Debug, PartialEq, Eq, Structural)]
pub enum EValueType {
    STRING,
    ARRAY,
}

/// One entry of the catalogue of metadata fields.
#[derive(Debug)]
pub struct MetadataStructure {
    pub key: String,
    pub value_type: EValueType,
    pub is_required: bool,
    pub label: String,
}

/// A catalogue entry as plain values.
pub ghost struct MetadataStructureView {
    pub key: Seq<char>,
    pub value_type: EValueType,
    pub is_required: bool,
    pub label: Seq<char>,
}

impl View for MetadataStructure {
    type V = MetadataStructureView;

    open spec fn view(&self) -> MetadataStructureView {
        MetadataStructureView {
            key: self.key@,
            value_type: self.value_type,
            is_required: self.is_required,
            label: self.label@,
        }
    }
}

/// An optional free-text field with its label.
pub open spec fn text_field(key: Seq<char>, label: Seq<char>) -> MetadataStructureView {
    MetadataStructureView { key, value_type: EValueType::STRING, is_required: false, label }
}

/// The catalogue of metadata fields, in its fixed order.
pub open spec fn metadata_catalogue() -> Seq<MetadataStructureView> {
    seq![
        text_field("description"@, "Description"@),
        text_field("telegram_username"@, "Telegram Username"@),
        text_field("twitter_url"@, "Twitter URL"@),
        text_field("website_url"@, "Website URL"@),
        text_field("audit_report_url"@, "Audit Report URL"@),
    ]
}

/// The views of a sequence of catalogue entries.
pub open spec fn entry_views(entries: Seq<MetadataStructure>) -> Seq<MetadataStructureView> {
    Seq::new(entries.len(), |i: int| entries[i]@)
}

fn text_entry(key: &str, label: &str) -> (r: MetadataStructure)
    ensures
        r@ == text_field(key@, label@),
{
    MetadataStructure {
        key: String::from_str(key),
        value_type: EValueType::STRING,
        is_required: false,
        label: String::from_str(label),
    }
}

/// Builds the catalogue of metadata fields.
pub fn field_catalogue() -> (r: Vec<MetadataStructure>)
    ensures
        entry_views(r@) == metadata_catalogue(),
{
    let mut r: Vec<MetadataStructure> = Vec::new();
    r.push(text_entry("description", "Description"));
    r.push(text_entry("telegram_username", "Telegram Username"));
    r.push(text_entry("twitter_url", "Twitter URL"));
    r.push(text_entry("website_url", "Website URL"));
    r.push(text_entry("audit_report_url", "Audit Report URL"));
    assert(entry_views(r@) =~= metadata_catalogue());
    r
}

} // verus!
