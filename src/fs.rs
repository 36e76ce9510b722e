use vstd::prelude::*;
use crate::error::{DataError, SourceError};
use crate::json::{json_of, parse_json, JsonValue};
use crate::key::{LocaleSelector, Request, ResourceCategory, ResourceKey};
use crate::locale::display_spec;
use crate::payload::{DataPayload, DataTypeId, ErasedPayload, Response};
use crate::provider::{payload_type_of, payload_type_spec};
use crate::structs::{DateFormatsV1, HelloWorldV1, PluralRuleStringsV1};

verus! {

/// How an exported tree stores entries that hold the same data.
#[derive(PartialEq, Eq, Structural, Clone, Copy, Debug)]
pub enum AliasOption {
    /// Every entry is a file of its own.
    NoAliases,
    /// Entries with the same data are links to one file.
    Symlink,
}

/// What an export does with a tree that is already there.
#[derive(PartialEq, Eq, Structural, Clone, Copy, Debug)]
pub enum OverwriteOption {
    /// Fail unless the directory is empty.
    CheckEmpty,
    /// Remove the directory and everything in it first.
    RemoveAndReplace,
}

/// The format of the data files of a tree.
#[derive(PartialEq, Eq, Structural, Clone, Copy, Debug)]
pub enum SyntaxOption {
    Json,
}

/// The manifest at the root of an exported tree.
#[derive(PartialEq, Eq, Structural, Clone, Copy, Debug)]
pub struct Manifest {
    pub aliasing: AliasOption,
    pub syntax: SyntaxOption,
}

impl SyntaxOption {
    /// The extension of the data files.
    pub fn get_file_extension(&self) -> (r: &'static str)
        ensures
            r@ == "json"@,
    {
        "json"
    }
}

/// The manifest that the document `d` describes.
pub open spec fn manifest_spec(d: JsonValue) -> Result<Manifest, DataError> {
    let aliasing = match d.member_spec("aliasing"@) {
        None => Err(DataError::ResourceError(SourceError::Schema("aliasing"))),
        Some(JsonValue::String(s)) => if s@ == "NoAliases"@ {
            Ok(AliasOption::NoAliases)
        } else if s@ == "Symlink"@ {
            Ok(AliasOption::Symlink)
        } else {
            Err(DataError::ResourceError(SourceError::Schema("an aliasing option")))
        },
        Some(_) => Err(DataError::ResourceError(SourceError::Schema("an aliasing option"))),
    };
    let syntax = match d.member_spec("syntax"@) {
        None => Ok(SyntaxOption::Json),
        Some(JsonValue::String(s)) => if s@ == "Json"@ {
            Ok(SyntaxOption::Json)
        } else {
            Err(DataError::ResourceError(SourceError::Schema("a syntax option")))
        },
        Some(_) => Err(DataError::ResourceError(SourceError::Schema("a syntax option"))),
    };
    match (aliasing, syntax) {
        (Err(e), _) => Err(e),
        (_, Err(e)) => Err(e),
        (Ok(aliasing), Ok(syntax)) => Ok(Manifest { aliasing, syntax }),
    }
}

impl Manifest {
    /// Reads a manifest from its JSON text, such as
    /// `{"aliasing": "NoAliases", "syntax": "Json"}`; a missing `syntax` means JSON.
    pub fn from_json(text: &str) -> (r: Result<Manifest, DataError>)
        ensures
            match json_of(text@) {
                None => r matches Err(DataError::ResourceError(SourceError::Json(_))),
                Some(d) => r == manifest_spec(d),
            },
    {
        let doc = match parse_json(text) {
            Ok(d) => d,
            Err(e) => {
                return Err(DataError::ResourceError(SourceError::Json(e)));
            },
        };
        let aliasing = match doc.member("aliasing") {
            Some(v) => match v.text() {
                Some(s) => {
                    if *s == String::from_str("NoAliases") {
                        AliasOption::NoAliases
                    } else if *s == String::from_str("Symlink") {
                        AliasOption::Symlink
                    } else {
                        return Err(DataError::ResourceError(SourceError::Schema("an aliasing option")));
                    }
                },
                None => {
                    return Err(DataError::ResourceError(SourceError::Schema("an aliasing option")));
                },
            },
            None => {
                return Err(DataError::ResourceError(SourceError::Schema("aliasing")));
            },
        };
        let syntax = match doc.member("syntax") {
            None => SyntaxOption::Json,
            Some(v) => match v.text() {
                Some(s) => {
                    if *s == String::from_str("Json") {
                        SyntaxOption::Json
                    } else {
                        return Err(DataError::ResourceError(SourceError::Schema("a syntax option")));
                    }
                },
                None => {
                    return Err(DataError::ResourceError(SourceError::Schema("a syntax option")));
                },
            },
        };
        Ok(Manifest { aliasing, syntax })
    }
}

/// The directory name of a category.
pub open spec fn category_text(c: ResourceCategory) -> Seq<char> {
    match c {
        ResourceCategory::Icu4x => "icu4x"@,
        ResourceCategory::Plurals => "plurals"@,
        ResourceCategory::Dates => "dates"@,
        ResourceCategory::Decimal => "decimal"@,
        ResourceCategory::PrivateUse => "x"@,
    }
}

/// The decimal digits of `n`.
pub open spec fn decimal_spec(n: nat) -> Seq<u8>
    decreases n,
{
    if n < 10 {
        seq![(0x30 + n) as u8]
    } else {
        decimal_spec(n / 10).push((0x30 + n % 10) as u8)
    }
}

/// The path of a key's directory: `plurals/cardinal@1`.
pub open spec fn key_path_spec(key: ResourceKey) -> Seq<u8> {
    vstd::utf8::encode_utf8(category_text(key.category)) + seq![0x2fu8] + vstd::utf8::encode_utf8(
        key.sub_category@,
    ) + seq![0x40u8] + decimal_spec(key.version as nat)
}

/// The path of an entry below its key's directory: `en-US`, or `variant/en-US`.
pub open spec fn entry_path_spec(sel: LocaleSelector) -> Seq<u8> {
    match sel.variant {
        Some(v) => vstd::utf8::encode_utf8(v@) + seq![0x2fu8] + display_spec(sel.langid),
        None => display_spec(sel.langid),
    }
}

/// The path of the data file of `req`, relative to the root of the tree.
pub open spec fn path_for_spec(req: Request, extension: Seq<char>) -> Seq<u8> {
    key_path_spec(req.key) + seq![0x2fu8] + entry_path_spec(req.locale) + seq![0x2eu8]
        + vstd::utf8::encode_utf8(extension)
}

/// Appends `bytes`.
pub(crate) fn push_all(out: &mut Vec<u8>, bytes: &[u8])
    ensures
        final(out)@ == old(out)@ + bytes@,
{
    let ghost start = out@;
    let mut i: usize = 0;
    while i < bytes.len()
        invariant
            i <= bytes@.len(),
            out@ == start + bytes@.subrange(0, i as int),
        decreases bytes@.len() - i,
    {
        out.push(bytes[i]);
        proof {
            assert(bytes@.subrange(0, i + 1) =~= bytes@.subrange(0, i as int).push(bytes@[i as int]));
        }
        i = i + 1;
    }
    proof {
        assert(bytes@.subrange(0, bytes@.len() as int) == bytes@);
    }
}

/// Appends the decimal digits of `n`.
fn push_decimal(out: &mut Vec<u8>, n: u16)
    ensures
        final(out)@ == old(out)@ + decimal_spec(n as nat),
    decreases n,
{
    if n < 10 {
        out.push(0x30 + n as u8);
        proof {
            assert(decimal_spec(n as nat) == seq![(0x30 + n) as u8]);
        }
    } else {
        push_decimal(out, n / 10);
        out.push(0x30 + (n % 10) as u8);
    }
}

/// The directory path of `key`, such as `plurals/cardinal@1`.
pub fn key_path(key: &ResourceKey) -> (r: Vec<u8>)
    ensures
        r@ == key_path_spec(*key),
{
    let mut out: Vec<u8> = Vec::new();
    let name = match key.category {
        ResourceCategory::Icu4x => "icu4x",
        ResourceCategory::Plurals => "plurals",
        ResourceCategory::Dates => "dates",
        ResourceCategory::Decimal => "decimal",
        ResourceCategory::PrivateUse => "x",
    };
    push_all(&mut out, name.as_bytes());
    out.push(0x2f);
    push_all(&mut out, key.sub_category.as_str().as_bytes());
    out.push(0x40);
    push_decimal(&mut out, key.version);
    proof {
        assert(out@ =~= key_path_spec(*key));
    }
    out
}

/// The path of the data file of `req` relative to the tree's root, such as
/// `plurals/cardinal@1/en-US.json`.
pub fn path_for(req: &Request, manifest: &Manifest) -> (r: Vec<u8>)
    ensures
        r@ == path_for_spec(*req, "json"@),
{
    let mut out = key_path(&req.key);
    out.push(0x2f);
    match &req.locale.variant {
        Some(v) => {
            push_all(&mut out, v.as_str().as_bytes());
            out.push(0x2f);
        },
        None => {},
    }
    let locale = req.locale.langid.to_bytes();
    push_all(&mut out, locale.as_slice());
    out.push(0x2e);
    push_all(&mut out, manifest.syntax.get_file_extension().as_bytes());
    proof {
        assert(out@ =~= path_for_spec(*req, "json"@));
    }
    out
}

/// What a look at the tree found for a request: whether the category's and
/// the key's directories exist, and the text of the data file, if there is one.
pub struct FsProbe {
    pub category_exists: bool,
    pub key_exists: bool,
    pub file_text: Option<String>,
}

/// Reads exported trees: a manifest and one file per (key, locale).
pub struct FsDataProvider {
    pub manifest: Manifest,
}

/// An optional string member of `v`, where `null` counts as absent.
pub open spec fn optional_text_spec(v: JsonValue, name: Seq<char>) -> Result<Option<String>, DataError> {
    match v.member_spec(name) {
        None => Ok(None),
        Some(JsonValue::Null) => Ok(None),
        Some(JsonValue::String(s)) => Ok(Some(s)),
        Some(_) => Err(DataError::ResourceError(SourceError::Schema("a string or null"))),
    }
}

/// A string member of `v` that must be there.
pub open spec fn required_text_spec(v: JsonValue, name: Seq<char>) -> Result<String, DataError> {
    match optional_text_spec(v, name) {
        Ok(Some(s)) => Ok(s),
        Ok(None) => Err(DataError::ResourceError(SourceError::Schema("a string"))),
        Err(e) => Err(e),
    }
}

/// The payload that the document `d` holds for `key`, of the key's payload type.
pub open spec fn decode_spec(key: ResourceKey, d: JsonValue) -> Result<ErasedPayload<'static>, DataError> {
    match payload_type_spec(key) {
        None => Err(DataError::UnsupportedDataKey(key)),
        Some(DataTypeId::PluralRuleStringsV1) => {
            let zero = optional_text_spec(d, "zero"@);
            let one = optional_text_spec(d, "one"@);
            let two = optional_text_spec(d, "two"@);
            let few = optional_text_spec(d, "few"@);
            let many = optional_text_spec(d, "many"@);
            if zero is Ok && one is Ok && two is Ok && few is Ok && many is Ok {
                Ok(
                    ErasedPayload::PluralRuleStringsV1(
                        DataPayload::Owned(
                            PluralRuleStringsV1 {
                                zero: zero.unwrap(),
                                one: one.unwrap(),
                                two: two.unwrap(),
                                few: few.unwrap(),
                                many: many.unwrap(),
                            },
                        ),
                    ),
                )
            } else {
                Err(DataError::ResourceError(SourceError::Schema("a string or null")))
            }
        },
        Some(DataTypeId::HelloWorldV1) => match required_text_spec(d, "message"@) {
            Ok(message) => Ok(ErasedPayload::HelloWorldV1(DataPayload::Owned(HelloWorldV1 { message }))),
            Err(e) => Err(e),
        },
        Some(DataTypeId::DateFormatsV1) => match (
            required_text_spec(d, "full"@),
            required_text_spec(d, "long"@),
            required_text_spec(d, "medium"@),
            required_text_spec(d, "short"@),
        ) {
            (Err(e), _, _, _) => Err(e),
            (_, Err(e), _, _) => Err(e),
            (_, _, Err(e), _) => Err(e),
            (_, _, _, Err(e)) => Err(e),
            (Ok(full), Ok(long), Ok(medium), Ok(short)) => Ok(
                ErasedPayload::DateFormatsV1(
                    DataPayload::Owned(DateFormatsV1 { full, long, medium, short }),
                ),
            ),
        },
    }
}

/// What decoding the JSON text `text` for `key` gives.
pub open spec fn decode_post(key: ResourceKey, text: Seq<char>, r: Result<ErasedPayload<'static>, DataError>) -> bool {
    if payload_type_spec(key) is None {
        r == Err::<ErasedPayload<'static>, DataError>(DataError::UnsupportedDataKey(key))
    } else {
        match json_of(text) {
            None => r matches Err(DataError::ResourceError(SourceError::Json(_))),
            Some(d) => r == decode_spec(key, d),
        }
    }
}

/// An optional string member of `v`, where `null` counts as absent.
fn optional_text(v: &JsonValue, name: &str) -> (r: Result<Option<String>, DataError>)
    ensures
        r == optional_text_spec(*v, name@),
{
    match v.member(name) {
        None => Ok(None),
        Some(x) => {
            if x.is_null() {
                Ok(None)
            } else {
                match x.text() {
                    Some(s) => Ok(Some(s.clone())),
                    None => Err(DataError::ResourceError(SourceError::Schema("a string or null"))),
                }
            }
        },
    }
}

/// A string member of `v` that must be there.
fn required_text(v: &JsonValue, name: &str) -> (r: Result<String, DataError>)
    ensures
        r == required_text_spec(*v, name@),
{
    match optional_text(v, name)? {
        Some(s) => Ok(s),
        None => Err(DataError::ResourceError(SourceError::Schema("a string"))),
    }
}

/// Decodes the JSON text of a data file as the payload type that `key` names.
pub fn payload_from_json(key: &ResourceKey, text: &str) -> (r: Result<ErasedPayload<'static>, DataError>)
    ensures
        decode_post(*key, text@, r),
{
    let type_id = match payload_type_of(key) {
        Some(t) => t,
        None => {
            return Err(DataError::UnsupportedDataKey(key.duplicate()));
        },
    };
    let doc = match parse_json(text) {
        Ok(d) => d,
        Err(e) => {
            return Err(DataError::ResourceError(SourceError::Json(e)));
        },
    };
    match type_id {
        DataTypeId::PluralRuleStringsV1 => {
            let v = PluralRuleStringsV1 {
                zero: optional_text(&doc, "zero")?,
                one: optional_text(&doc, "one")?,
                two: optional_text(&doc, "two")?,
                few: optional_text(&doc, "few")?,
                many: optional_text(&doc, "many")?,
            };
            Ok(DataPayload::from_owned(v).into_erased())
        },
        DataTypeId::HelloWorldV1 => {
            let v = HelloWorldV1 { message: required_text(&doc, "message")? };
            Ok(DataPayload::from_owned(v).into_erased())
        },
        DataTypeId::DateFormatsV1 => {
            let v = DateFormatsV1 {
                full: required_text(&doc, "full")?,
                long: required_text(&doc, "long")?,
                medium: required_text(&doc, "medium")?,
                short: required_text(&doc, "short")?,
            };
            Ok(DataPayload::from_owned(v).into_erased())
        },
    }
}

impl FsDataProvider {
    /// The provider of a tree with `manifest`.
    pub fn new(manifest: Manifest) -> (r: FsDataProvider)
        ensures
            r.manifest == manifest,
    {
        FsDataProvider { manifest }
    }

    /// Answers `req` from what a look at the tree found: no key directory
    /// means an unsupported category or key, no file means no data for the
    /// locale; otherwise the file is decoded. No fallback is made to a more
    /// general locale.
    pub fn load_probed(&self, req: &Request, probe: FsProbe) -> (r: Result<Response<'static>, DataError>)
        ensures
            !probe.key_exists && !probe.category_exists ==> r == Err::<Response<'static>, DataError>(
                DataError::UnsupportedCategory(req.key.category),
            ),
            !probe.key_exists && probe.category_exists ==> r == Err::<Response<'static>, DataError>(
                DataError::UnsupportedDataKey(req.key),
            ),
            probe.key_exists && probe.file_text is None ==> r == Err::<Response<'static>, DataError>(
                DataError::UnavailableEntry(*req),
            ),
            probe.key_exists ==> match probe.file_text {
                None => true,
                Some(t) => match r {
                    Ok(resp) => resp.metadata.data_langid == Some(req.locale.langid) && match resp.payload {
                        Some(p) => decode_post(req.key, t@, Ok(p)),
                        None => false,
                    },
                    Err(e) => decode_post(req.key, t@, Err(e)),
                },
            },
    {
        if !probe.key_exists {
            if !probe.category_exists {
                return Err(DataError::UnsupportedCategory(req.key.category));
            } else {
                return Err(DataError::UnsupportedDataKey(req.key.duplicate()));
            }
        }
        match probe.file_text {
            None => Err(DataError::UnavailableEntry(req.duplicate())),
            Some(text) => {
                let payload = payload_from_json(&req.key, text.as_str())?;
                Ok(
                    Response {
                        metadata: crate::payload::ResponseMetadata {
                            data_langid: Some(req.locale.langid),
                        },
                        payload: Some(payload),
                    },
                )
            },
        }
    }
}

} // verus!
