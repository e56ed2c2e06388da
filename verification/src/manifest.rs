use vstd::prelude::*;

use crate::error::Error;
use vstd::string::StringExecFns;

verus! {

#[verifier::external_type_specification]
#[verifier::external_body]
pub struct ExDocument(toml_edit::Document);

#[verifier::external_type_specification]
#[verifier::external_body]
pub struct ExTomlError(toml_edit::TomlError);

/// Does this text parse as a well-formed document?
pub uninterp spec fn toml_parses(s: Seq<char>) -> bool;

/// The rendering of the document parsed from this text. Parsing preserves
/// each item's formatting, so this is a function of the text alone.
pub uninterp spec fn parsed_render(s: Seq<char>) -> Seq<char>;

/// The rendering of a document value, as its display form returns it.
pub uninterp spec fn doc_text(d: toml_edit::Document) -> Seq<char>;

/// The rendering after the named top-level key, with its table, is removed.
/// Removal only deletes that item, so the result is a function of the
/// document's rendering and the key.
pub uninterp spec fn root_key_removed(s: Seq<char>, key: Seq<char>) -> Seq<char>;

/// The entries of the named top-level table, in document order, each with
/// whether its value is itself table-like.
pub uninterp spec fn sub_entries_of(s: Seq<char>, top: Seq<char>) -> Seq<(Seq<char>, bool)>;

/// The rendering after the named key is removed from one table-like entry of
/// the named top-level table.
pub uninterp spec fn sub_key_removed(
    s: Seq<char>,
    top: Seq<char>,
    entry: Seq<char>,
    key: Seq<char>,
) -> Seq<char>;

/// Relies on `toml_edit`'s `FromStr` for `Document`: parsing succeeds exactly
/// on well-formed text, and the parsed document preserves the input's
/// formatting, so its rendering is a function of the text.
#[verifier::external_body]
fn parse_document(s: &str) -> (r: Result<toml_edit::Document, toml_edit::TomlError>)
    ensures
        r is Ok <==> toml_parses(s@),
        r matches Ok(d) ==> doc_text(d) == parsed_render(s@),
{
    s.parse::<toml_edit::Document>()
}

/// Relies on `toml_edit`'s `Display` for `Document`: the rendering of the
/// document value.
#[verifier::external_body]
fn render_document(d: &toml_edit::Document) -> (r: String)
    ensures
        r@ == doc_text(*d),
{
    d.to_string()
}

/// Relies on `toml_edit`'s `Display` for `TomlError`.
#[verifier::external_body]
fn toml_error_text(e: &toml_edit::TomlError) -> String {
    e.to_string()
}

/// Relies on `Clone` for `Document`: the copy renders identically.
#[verifier::external_body]
fn clone_document(d: &toml_edit::Document) -> (r: toml_edit::Document)
    ensures
        doc_text(r) == doc_text(*d),
{
    d.clone()
}

/// Relies on `Table::remove`: deleting one top-level key changes the
/// rendering as a function of the old rendering and the key, and leaves
/// everything else formatted as it was.
#[verifier::external_body]
fn doc_remove_key(d: &mut toml_edit::Document, key: &str)
    ensures
        doc_text(*final(d)) == root_key_removed(doc_text(*old(d)), key@),
{
    d.as_table_mut().remove(key);
}

/// Relies on `Table::get`, `Item::as_table_like` and `TableLike::iter`: the
/// entries of the named top-level table, each converted to its key and
/// whether its value is table-like; empty when the table is absent or not
/// table-like.
#[verifier::external_body]
fn table_like_sub_entries(d: &toml_edit::Document, top: &str) -> (r: Vec<(String, bool)>)
    ensures
        r@.map_values(|p: (String, bool)| (p.0@, p.1)) == sub_entries_of(doc_text(*d), top@),
{
    match d.as_table().get(top).and_then(toml_edit::Item::as_table_like) {
        None => Vec::new(),
        Some(t) => t.iter().map(|(k, v)| (k.to_string(), v.as_table_like().is_some())).collect(),
    }
}

/// Relies on `Table::get_mut`, `Item::as_table_like_mut` and
/// `TableLike::remove`: deleting the named key from one table-like entry of
/// the named top-level table changes the rendering as a function of the old
/// rendering and the three names.
#[verifier::external_body]
fn doc_remove_sub_key(d: &mut toml_edit::Document, top: &str, entry: &str, key: &str)
    ensures
        doc_text(*final(d)) == sub_key_removed(doc_text(*old(d)), top@, entry@, key@),
{
    if let Some(t) = d.as_table_mut().get_mut(top).and_then(toml_edit::Item::as_table_like_mut) {
        if let Some(v) = t.get_mut(entry).and_then(toml_edit::Item::as_table_like_mut) {
            v.remove(key);
        }
    }
}

/// The developer-dependency table's key.
pub open spec fn dev_key() -> Seq<char> {
    "dev-dependencies"@
}

/// The platform-conditional section's key.
pub open spec fn target_key() -> Seq<char> {
    "target"@
}

/// The views of the converted sub-entries.
pub open spec fn entry_views(v: Seq<(String, bool)>) -> Seq<(Seq<char>, bool)> {
    v.map_values(|p: (String, bool)| (p.0@, p.1))
}

/// The rendering after the developer-dependency key is removed from each
/// table-like entry in the list, in order.
pub open spec fn remove_in_entries(s: Seq<char>, entries: Seq<(Seq<char>, bool)>) -> Seq<char>
    decreases entries.len(),
{
    if entries.len() == 0 {
        s
    } else {
        let prev = remove_in_entries(s, entries.drop_last());
        let e = entries.last();
        if e.1 {
            sub_key_removed(prev, target_key(), e.0, dev_key())
        } else {
            prev
        }
    }
}

/// The rendering of a manifest after all developer-dependency tables are
/// removed: the top-level one, then the one under each table-like entry of
/// the platform-conditional section.
pub open spec fn dev_deps_removed(s: Seq<char>) -> Seq<char> {
    let s1 = root_key_removed(s, dev_key());
    remove_in_entries(s1, sub_entries_of(s1, target_key()))
}

/// Remove every developer-dependency table from the document: the top-level
/// table, and the sub-table of each table-like entry of the
/// platform-conditional section. All other structure and formatting is left
/// as the editor keeps it.
pub fn remove_dev_deps(doc: &mut toml_edit::Document)
    ensures
        doc_text(*final(doc)) == dev_deps_removed(doc_text(*old(doc))),
{
    doc_remove_key(doc, "dev-dependencies");
    let ghost s1 = doc_text(*doc);
    let entries = table_like_sub_entries(doc, "target");
    let ghost es = entry_views(entries@);
    let mut i: usize = 0;
    while i < entries.len()
        invariant
            i <= es.len(),
            es == entry_views(entries@),
            es == sub_entries_of(s1, target_key()),
            doc_text(*doc) == remove_in_entries(s1, es.take(i as int)),
        decreases es.len() - i,
    {
        proof {
            es.lemma_take_succ_push(i as int);
            assert(es.take(i + 1).drop_last() =~= es.take(i as int));
            assert(es[i as int] == (entries@[i as int].0@, entries@[i as int].1));
        }
        if entries[i].1 {
            doc_remove_sub_key(doc, "target", entries[i].0.as_str(), "dev-dependencies");
        }
        proof {
            assert(doc_text(*doc) == remove_in_entries(s1, es.take(i + 1)));
        }
        i += 1;
    }
    proof {
        assert(es.take(es.len() as int) == es);
    }
}

/// What the manifest's package table says about publishing: absent,
/// a boolean, a registry list of the given length, or something else.
pub enum PublishField {
    Absent,
    Flag(bool),
    List(usize),
    Other,
}

/// What the manifest's package table says about the minimum tool version.
pub enum RustVersionField {
    Absent,
    Text(String),
    Other,
}

/// The spec-level reading of the minimum-tool-version entry.
pub enum RustVersionValue {
    Absent,
    Text(Seq<char>),
    Other,
}

/// The view of a read minimum-tool-version field.
pub open spec fn rust_version_view(f: RustVersionField) -> RustVersionValue {
    match f {
        RustVersionField::Absent => RustVersionValue::Absent,
        RustVersionField::Text(s) => RustVersionValue::Text(s@),
        RustVersionField::Other => RustVersionValue::Other,
    }
}

/// Does the document hold a top-level package table? A function of the
/// document's rendering.
pub uninterp spec fn has_package_of(s: Seq<char>) -> bool;

/// The package table's publish entry, summarized; a function of the
/// document's rendering.
pub uninterp spec fn publish_field_of(s: Seq<char>) -> PublishField;

/// The package table's rust-version entry, summarized; a function of the
/// document's rendering.
pub uninterp spec fn rust_version_field_of(s: Seq<char>) -> RustVersionValue;

/// Relies on `Document::as_table` and `Table::get`: is there a top-level
/// package table?
#[verifier::external_body]
fn has_package_table(d: &toml_edit::Document) -> (r: bool)
    ensures
        r == has_package_of(doc_text(*d)),
{
    d.as_table().get("package").and_then(toml_edit::Item::as_table).is_some()
}

/// Relies on `Table::get` and the `Value` variants: the package table's
/// publish entry, each variant converted to a plain summary.
#[verifier::external_body]
fn get_publish_field(d: &toml_edit::Document) -> (r: PublishField)
    ensures
        r == publish_field_of(doc_text(*d)),
{
    let package = match d.as_table().get("package").and_then(toml_edit::Item::as_table) {
        Some(t) => t,
        None => return PublishField::Other,
    };
    match package.get("publish") {
        None => PublishField::Absent,
        Some(toml_edit::Item::Value(toml_edit::Value::Boolean(b))) => PublishField::Flag(*b.value()),
        Some(toml_edit::Item::Value(toml_edit::Value::Array(a))) => PublishField::List(a.len()),
        Some(_) => PublishField::Other,
    }
}

/// Relies on `Table::get` and `Item::as_str`: the package table's
/// rust-version entry, converted to a plain summary.
#[verifier::external_body]
fn get_rust_version_field(d: &toml_edit::Document) -> (r: RustVersionField)
    ensures
        rust_version_view(r) == rust_version_field_of(doc_text(*d)),
{
    let package = match d.as_table().get("package").and_then(toml_edit::Item::as_table) {
        Some(t) => t,
        None => return RustVersionField::Other,
    };
    match package.get("rust-version").map(toml_edit::Item::as_str) {
        None => RustVersionField::Absent,
        Some(Some(v)) => RustVersionField::Text(v.to_owned()),
        Some(None) => RustVersionField::Other,
    }
}

/// Are the package fields the planner reads well-formed in this document?
pub open spec fn package_fields_wf(s: Seq<char>) -> bool {
    has_package_of(s) && !(publish_field_of(s) is Other) && !(rust_version_field_of(s) is Other)
}

/// The publish permission a well-formed publish field denotes.
pub open spec fn publish_value(f: PublishField) -> bool {
    match f {
        PublishField::Absent => true,
        PublishField::Flag(b) => b,
        PublishField::List(n) => n > 0,
        PublishField::Other => false,
    }
}

/// Does the stored version agree with a well-formed field's reading?
pub open spec fn rust_version_matches(o: Option<String>, v: RustVersionValue) -> bool {
    match v {
        RustVersionValue::Absent => o is None,
        RustVersionValue::Text(t) => o matches Some(s) && s@ == t,
        RustVersionValue::Other => false,
    }
}

/// The field named by the error when reading the package table fails.
pub open spec fn from_table_error(s: Seq<char>) -> Seq<char> {
    if !has_package_of(s) {
        "package"@
    } else if publish_field_of(s) is Other {
        "publish"@
    } else {
        "rust-version"@
    }
}

/// Publishing is unrestricted when the field is absent or `true`, and
/// forbidden when it is `false` or an empty registry list; any other shape
/// is a manifest fault.
pub fn publish_of(f: &PublishField) -> (r: Result<bool, &'static str>)
    ensures
        !(f is Other) ==> r == Result::<bool, &'static str>::Ok(publish_value(*f)),
        f is Other ==> (r matches Err(e) && e@ == "publish"@),
{
    match f {
        PublishField::Absent => Ok(true),
        PublishField::Flag(b) => Ok(*b),
        PublishField::List(n) => Ok(*n > 0),
        PublishField::Other => Err("publish"),
    }
}

/// The minimum tool version must be a string when given; any other shape is
/// a manifest fault.
pub fn rust_version_of(f: RustVersionField) -> (r: Result<Option<String>, &'static str>)
    ensures
        !(f is Other) ==> (r matches Ok(o) && rust_version_matches(o, rust_version_view(f))),
        f is Other ==> (r matches Err(e) && e@ == "rust-version"@),
{
    match f {
        RustVersionField::Absent => Ok(None),
        RustVersionField::Text(v) => Ok(Some(v)),
        RustVersionField::Other => Err("rust-version"),
    }
}

/// What the planner reads from a manifest's package table.
pub struct Package {
    /// Is publishing allowed? Absent means yes; an empty registry list means
    /// no.
    pub publish: bool,
    /// The declared minimum supported tool version, when one is given.
    pub rust_version: Option<String>,
}

impl Package {
    /// Read the package table's fields: succeeds exactly when the document
    /// holds a package table with well-formed publish and rust-version
    /// entries, and then fixes both readings; otherwise the error names the
    /// first field at fault.
    pub fn from_table(doc: &toml_edit::Document) -> (r: Result<Package, &'static str>)
        ensures
            r is Ok <==> package_fields_wf(doc_text(*doc)),
            r matches Ok(p) ==> p.publish == publish_value(publish_field_of(doc_text(*doc)))
                && rust_version_matches(p.rust_version, rust_version_field_of(doc_text(*doc))),
            r matches Err(e) ==> e@ == from_table_error(doc_text(*doc)),
    {
        if !has_package_table(doc) {
            return Err("package");
        }
        let publish = match publish_of(&get_publish_field(doc)) {
            Ok(b) => b,
            Err(e) => {
                return Err(e);
            },
        };
        let rust_version = match rust_version_of(get_rust_version_field(doc)) {
            Ok(v) => v,
            Err(e) => {
                return Err(e);
            },
        };
        Ok(Package { publish, rust_version })
    }
}

/// One package's manifest: the original bytes as read from disk, the parsed
/// document, and the package fields the planner reads. Restoration always
/// uses the raw bytes, never a re-rendering.
pub struct Manifest {
    pub path: String,
    pub raw: String,
    pub doc: toml_edit::Document,
    pub package: Package,
}

impl Manifest {
    /// Parse a manifest read from `path`: succeeds exactly when the text
    /// parses and its package table's fields are well-formed, keeping the
    /// raw bytes unchanged and fixing the package fields; anything else is a
    /// manifest error.
    pub fn new(path: String, raw: String) -> (r: Result<Manifest, Error>)
        ensures
            r is Ok <==> toml_parses(raw@) && package_fields_wf(parsed_render(raw@)),
            r matches Ok(m) ==> m.raw@ == raw@ && m.path@ == path@ && doc_text(m.doc)
                == parsed_render(raw@) && m.package.publish == publish_value(
                publish_field_of(parsed_render(raw@)),
            ) && rust_version_matches(
                m.package.rust_version,
                rust_version_field_of(parsed_render(raw@)),
            ),
            r matches Err(e) ==> e matches Error::Manifest { .. },
    {
        let doc = match parse_document(raw.as_str()) {
            Ok(d) => d,
            Err(err) => {
                let mut message = String::from_str("failed to parse manifest `");
                message.append(path.as_str());
                message.append("` as toml: ");
                let detail = toml_error_text(&err);
                message.append(detail.as_str());
                return Err(Error::Manifest { message });
            },
        };
        let package = match Package::from_table(&doc) {
            Ok(p) => p,
            Err(field) => {
                let mut message = String::from_str("failed to parse `");
                message.append(field);
                message.append("` field from manifest `");
                message.append(path.as_str());
                message.append("`");
                return Err(Error::Manifest { message });
            },
        };
        Ok(Manifest { path, raw, doc, package })
    }

    /// The manifest's text with every developer-dependency table removed,
    /// rendered from a copy of the document; the stored raw bytes are left
    /// untouched for restoration.
    pub fn remove_dev_deps(&self) -> (r: String)
        ensures
            r@ == dev_deps_removed(doc_text(self.doc)),
    {
        let mut doc = clone_document(&self.doc);
        remove_dev_deps(&mut doc);
        render_document(&doc)
    }
}

} // verus!
