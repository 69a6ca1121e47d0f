//! The decode/encode pipeline over whole documents, and the output-format
//! selection vocabulary. Each stage fails fast: no stage retries and no
//! partial result is produced.

use vstd::prelude::*;
use crate::codec::{decode_exchange_string, encode_exchange_string};
use crate::error::BpError;
use crate::json::Json;
use crate::codec::{b64_of, strip_newlines, zlib_deflate_of, zlib_inflate_of};
use crate::json::{obj_get, JsonV};
use crate::jsonio::{json_from_text, json_text_of, json_to_text, json_tree_of};
use crate::schema::Document;

verus! {

/// Parse raw JSON text into a typed document. Malformed JSON is a schema
/// error; JSON whose root is not an object, or lacks both the `blueprint`
/// and the `blueprint_book` key, is a data error; and text whose tree is
/// the rendered shape of a well-formed document parses to a document with
/// that shape.
pub fn parse_document(text: &str) -> (r: Result<Document, BpError>)
    ensures
        r matches Ok(doc) ==> doc.wf(),
        r matches Err(e) ==> e is SchemaError || e is DataError,
        json_tree_of(text@) is None ==> (r matches Err(e) && e is SchemaError),
        (json_tree_of(text@) matches Some(v) && !(v is Obj)) ==> (r matches Err(e)
            && e is DataError),
        (json_tree_of(text@) matches Some(v) && v matches JsonV::Obj(fs) && obj_get(
            fs,
            "blueprint"@,
        ) is None && obj_get(fs, "blueprint_book"@) is None) ==> (r matches Err(e)
            && e is DataError),
        forall|d: Document|
            (json_tree_of(text@) == Some((#[trigger] d.wire_jv())) && d.wf()) ==> (r matches Ok(d2)
                && d2.wire_jv() == d.wire_jv() && d2.wf()),
{
    let tree = match json_from_text(text) {
        Ok(t) => t,
        Err(_) => {
            return Err(BpError::SchemaError(String::from_str("malformed JSON text")));
        },
    };
    Document::from_json(&tree)
}

/// Render a typed document as raw JSON text, applying every wire mapping
/// rule in reverse: the result is the JSON text of the document's rendered
/// wire shape. Fails only where a number token carried by the document is
/// not a valid JSON number.
pub fn render_document(doc: &Document) -> (r: Result<String, BpError>)
    ensures
        r matches Err(e) ==> e is FormatError,
        r matches Ok(s) ==> json_text_of(doc.wire_jv()) == Some(s@),
        r is Err ==> json_text_of(doc.wire_jv()) is None,
{
    let tree: Json = doc.to_json();
    match json_to_text(&tree) {
        Ok(t) => Ok(t),
        Err(_) => Err(BpError::FormatError(String::from_str("invalid number token"))),
    }
}

/// Decode an exchange string all the way to a typed document: whenever the
/// stripped input is a marker followed by the base64 of bytes that inflate
/// to the JSON text of a well-formed document's wire shape, that document
/// comes back.
pub fn decode_document(input: &str) -> (r: Result<Document, BpError>)
    ensures
        r matches Ok(doc) ==> doc.wf(),
        r matches Err(e) ==> e is FormatError || e is SchemaError || e is DataError,
        forall|b: Seq<u8>, d: Document|
            #![trigger b64_of(b), d.wire_jv()]
            (strip_newlines(input@).len() >= 1 && strip_newlines(input@).skip(1) == b64_of(b)
                && zlib_inflate_of(b) is Some && json_tree_of(zlib_inflate_of(b).unwrap())
                == Some(d.wire_jv()) && d.wf()) ==> (r matches Ok(d2) && d2.wire_jv()
                == d.wire_jv()),
{
    let text = match decode_exchange_string(input) {
        Ok(t) => t,
        Err(e) => {
            return Err(e);
        },
    };
    let doc = match parse_document(text.as_str()) {
        Ok(d) => d,
        Err(e) => {
            return Err(e);
        },
    };
    Ok(doc)
}

/// Encode a typed document as an exchange string: render it as JSON text,
/// deflate, base64, and prepend the version marker. Succeeds exactly where
/// rendering does, and the result is a decodable envelope of the rendered
/// text.
pub fn encode_document(doc: &Document) -> (r: Result<String, BpError>)
    ensures
        r matches Err(e) ==> e is FormatError,
        r is Err ==> json_text_of(doc.wire_jv()) is None,
        r matches Ok(s) ==> (json_text_of(doc.wire_jv()) matches Some(t) && s@.len() >= 1 && s@[0]
            == '0' && s@.skip(1) == b64_of(zlib_deflate_of(t)) && zlib_inflate_of(
            zlib_deflate_of(t),
        ) == Some(t) && (forall|i: int| 0 <= i < s@.len() ==> s@[i] != '\n' && s@[i] != '\r')),
{
    let text = match render_document(doc) {
        Ok(t) => t,
        Err(e) => {
            return Err(e);
        },
    };
    Ok(encode_exchange_string(text.as_str()))
}

/// A format that a decoded blueprint can be written out in.
#[derive(Debug, Clone, Copy, PartialEq, Eq, Structural)]
pub enum BpFormat {
    /// The raw JSON text carried by the exchange string.
    JSON,
    /// The typed document, rendered as debug text.
    Rust,
}

impl BpFormat {
    /// Parse a format name: `json` or `rust`.
    pub fn from_name(s: &str) -> (r: Result<BpFormat, BpError>)
        ensures
            s@ == "json"@ ==> r == Ok::<BpFormat, BpError>(BpFormat::JSON),
            s@ == "rust"@ ==> r == Ok::<BpFormat, BpError>(BpFormat::Rust),
            (s@ != "json"@ && s@ != "rust"@) ==> (r matches Err(e) && e is DataError),
            r matches Err(e) ==> e is DataError && s@ != "json"@ && s@ != "rust"@,
    {
        proof {
            reveal_strlit("json");
            reveal_strlit("rust");
            assert("json"@.len() == 4 && "json"@[0] == 'j');
            assert("rust"@.len() == 4 && "rust"@[0] == 'r');
        }
        if crate::json::str_eq(s, "json") {
            Ok(BpFormat::JSON)
        } else if crate::json::str_eq(s, "rust") {
            Ok(BpFormat::Rust)
        } else {
            Err(BpError::DataError(String::from_str("unexpected blueprint format")))
        }
    }
}

impl core::str::FromStr for BpFormat {
    type Err = BpError;

    /// Parse a format name through the standard trait.
    fn from_str(s: &str) -> Result<BpFormat, BpError> {
        BpFormat::from_name(s)
    }
}

} // verus!
