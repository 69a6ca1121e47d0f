//! The envelope codec. An exchange string is a one-character version marker
//! followed by standard-alphabet, padded base64 of a zlib-compressed UTF-8
//! JSON document; line breaks may be interspersed anywhere and are ignored.

use vstd::prelude::*;
use std::io::Read;
use std::io::Write;
use base64::Engine;
use crate::error::BpError;

verus! {

/// `s` with every line-break character removed.
pub open spec fn strip_newlines(s: Seq<char>) -> Seq<char>
    decreases s.len(),
{
    if s.len() == 0 {
        Seq::empty()
    } else if s[0] == '\n' || s[0] == '\r' {
        strip_newlines(s.drop_first())
    } else {
        seq![s[0]] + strip_newlines(s.drop_first())
    }
}

/// The zlib stream that deflating the UTF-8 bytes of `s` at the default
/// compression level produces.
pub uninterp spec fn zlib_deflate_of(s: Seq<char>) -> Seq<u8>;

/// The standard-alphabet, padded base64 text of `bytes`.
pub uninterp spec fn b64_of(bytes: Seq<u8>) -> Seq<char>;

/// What inflating `bytes` as a zlib stream of UTF-8 text yields: the text,
/// or nothing where the bytes are not a valid zlib stream of valid UTF-8.
pub uninterp spec fn zlib_inflate_of(bytes: Seq<u8>) -> Option<Seq<char>>;

/// Relies on flate2's `write::ZlibEncoder` at the default level: the output
/// is a function of the input text alone. Writing into a `Vec` sink cannot
/// fail.
#[verifier::external_body]
fn zlib_deflate(text: &str) -> (r: Vec<u8>)
    ensures
        r@ == zlib_deflate_of(text@),
        zlib_inflate_of(r@) == Some(text@),
{
    let mut enc = flate2::write::ZlibEncoder::new(Vec::new(), flate2::Compression::default());
    match enc.write_all(text.as_bytes()) {
        Ok(()) => enc.finish().unwrap_or_default(),
        Err(_) => Vec::new(),
    }
}

/// Relies on flate2's `read::ZlibDecoder` with `read_to_string`: inflation
/// succeeds exactly on valid zlib streams of valid UTF-8 and is a function
/// of the bytes alone; inflating a deflate image gives back exactly the
/// text it was deflated from.
#[verifier::external_body]
fn zlib_inflate(data: &[u8]) -> (r: Result<String, ()>)
    ensures
        r is Err ==> zlib_inflate_of(data@) is None,
        r matches Ok(t) ==> zlib_inflate_of(data@) == Some(t@),
        r is Err ==> (forall|s: Seq<char>| data@ != zlib_deflate_of(s)),
        r matches Ok(t) ==> (forall|s: Seq<char>| data@ == zlib_deflate_of(s) ==> t@ == s),
{
    let mut dec = flate2::read::ZlibDecoder::new(data);
    let mut out = String::new();
    match dec.read_to_string(&mut out) {
        Ok(_) => Ok(out),
        Err(_) => Err(()),
    }
}

/// Relies on base64's `STANDARD` engine `encode`: standard alphabet with
/// padding, no line wrapping, a function of the input bytes alone.
#[verifier::external_body]
fn b64_encode(data: &[u8]) -> (r: String)
    ensures
        r@ == b64_of(data@),
        forall|i: int| 0 <= i < r@.len() ==> r@[i] != '\n' && r@[i] != '\r',
{
    base64::engine::general_purpose::STANDARD.encode(data)
}

/// Relies on base64's `STANDARD` engine `decode`: with canonical padding
/// required and trailing bits refused, it accepts exactly the encode
/// images, and returns the bytes the text encodes.
#[verifier::external_body]
fn b64_decode(text: &str) -> (r: Result<Vec<u8>, ()>)
    ensures
        r is Err ==> (forall|b: Seq<u8>| text@ != b64_of(b)),
        r matches Ok(v) ==> text@ == b64_of(v@),
        r matches Ok(v) ==> (forall|b: Seq<u8>| text@ == b64_of(b) ==> v@ == b),
{
    match base64::engine::general_purpose::STANDARD.decode(text) {
        Ok(v) => Ok(v),
        Err(_) => Err(()),
    }
}

/// Relies on `String`'s `FromIterator<char>`: collecting chars in order.
#[verifier::external_body]
fn chars_to_string(v: &Vec<char>) -> (r: String)
    ensures
        r@ == v@,
{
    v.iter().collect()
}

proof fn lemma_strip_newlines_step(s: Seq<char>, i: int)
    requires
        0 <= i < s.len(),
    ensures
        strip_newlines(s.skip(i)) == if s[i] == '\n' || s[i] == '\r' {
            strip_newlines(s.skip(i + 1))
        } else {
            seq![s[i]] + strip_newlines(s.skip(i + 1))
        },
{
    assert(s.skip(i).len() > 0);
    assert(s.skip(i)[0] == s[i]);
    assert(s.skip(i).drop_first() =~= s.skip(i + 1));
}

/// Law: a text with no line-break characters is unchanged by stripping them.
pub proof fn lemma_strip_no_newlines(s: Seq<char>)
    requires
        forall|i: int| 0 <= i < s.len() ==> s[i] != '\n' && s[i] != '\r',
    ensures
        strip_newlines(s) == s,
    decreases s.len(),
{
    if s.len() == 0 {
        assert(strip_newlines(s) =~= s);
    } else {
        lemma_strip_no_newlines(s.drop_first());
        assert(seq![s[0]] + s.drop_first() =~= s);
    }
}

/// Strip every line-break character from `input`.
fn strip_breaks(input: &str) -> (r: Vec<char>)
    ensures
        r@ == strip_newlines(input@),
{
    let n = input.unicode_len();
    let mut out: Vec<char> = Vec::new();
    proof {
        assert(input@.skip(0) =~= input@);
        assert(out@ + strip_newlines(input@) =~= strip_newlines(input@));
    }
    for i in 0..n
        invariant
            n == input@.len(),
            strip_newlines(input@) == out@ + strip_newlines(input@.skip(i as int)),
    {
        let c = input.get_char(i);
        proof {
            lemma_strip_newlines_step(input@, i as int);
        }
        if c != '\n' && c != '\r' {
            out.push(c);
            proof {
                assert(out@ + strip_newlines(input@.skip(i as int + 1)) =~= strip_newlines(
                    input@,
                ));
            }
        }
    }
    proof {
        assert(input@.skip(n as int) =~= Seq::<char>::empty());
        assert(out@ + strip_newlines(input@.skip(n as int)) =~= out@);
    }
    out
}

/// Decode an exchange string into the raw JSON text it carries.
///
/// After line breaks are stripped, the first character (the version marker)
/// is removed, the rest is base64-decoded and the bytes are inflated as a
/// zlib stream of UTF-8 text. Every failure is a `FormatError`, and failure
/// is forced exactly where the envelope is malformed: an empty input, a body
/// that is not a base64 encode image, or bytes that do not inflate to text.
/// Whenever the body is the base64 of bytes that inflate, the inflated text
/// is returned; in particular decoding an encoded text gives the text back.
pub fn decode_exchange_string(input: &str) -> (r: Result<String, BpError>)
    ensures
        forall|j: Seq<char>|
            (strip_newlines(input@).len() >= 1 && strip_newlines(input@).skip(1) == b64_of(
                zlib_deflate_of(j),
            )) ==> (r matches Ok(t) && t@ == j),
        strip_newlines(input@).len() == 0 ==> (r matches Err(e) && e is FormatError),
        r matches Err(e) ==> e is FormatError,
        (strip_newlines(input@).len() >= 1 && (forall|b: Seq<u8>|
            strip_newlines(input@).skip(1) != b64_of(b))) ==> (r matches Err(e)
            && e is FormatError),
        forall|b: Seq<u8>|
            (strip_newlines(input@).len() >= 1 && strip_newlines(input@).skip(1) == b64_of(b)
                && zlib_inflate_of(b) is None) ==> (r matches Err(e) && e is FormatError),
        forall|b: Seq<u8>|
            (strip_newlines(input@).len() >= 1 && strip_newlines(input@).skip(1) == b64_of(b)
                && zlib_inflate_of(b) is Some) ==> (r matches Ok(t) && t@ == zlib_inflate_of(
                b,
            ).unwrap()),
{
    let stripped = strip_breaks(input);
    if stripped.len() == 0 {
        return Err(BpError::FormatError(String::from_str("empty exchange string")));
    }
    let mut body: Vec<char> = Vec::new();
    let n = stripped.len();
    for i in 1..n
        invariant
            n == stripped.len(),
            1 <= i <= n,
            body@ == stripped@.subrange(1, i as int),
    {
        body.push(stripped[i]);
    }
    proof {
        assert(body@ =~= stripped@.skip(1));
    }
    let body_text = chars_to_string(&body);
    let bytes = match b64_decode(body_text.as_str()) {
        Ok(b) => b,
        Err(_) => {
            return Err(BpError::FormatError(String::from_str("invalid base64 content")));
        },
    };
    match zlib_inflate(bytes.as_slice()) {
        Ok(t) => Ok(t),
        Err(_) => Err(
            BpError::FormatError(String::from_str("invalid compressed stream or text encoding")),
        ),
    }
}

/// Encode raw JSON text as an exchange string: deflate, base64, and prepend
/// the version marker character `0`.
pub fn encode_exchange_string(json_text: &str) -> (r: String)
    ensures
        r@.len() >= 1,
        r@[0] == '0',
        r@.skip(1) == b64_of(zlib_deflate_of(json_text@)),
        forall|i: int| 0 <= i < r@.len() ==> r@[i] != '\n' && r@[i] != '\r',
        zlib_inflate_of(zlib_deflate_of(json_text@)) == Some(json_text@),
{
    let compressed = zlib_deflate(json_text);
    let encoded = b64_encode(compressed.as_slice());
    let mut out = String::from_str("0");
    proof {
        reveal_strlit("0");
    }
    out.append(encoded.as_str());
    proof {
        assert(out@.skip(1) =~= b64_of(zlib_deflate_of(json_text@)));
        assert(out@[0] == '0');
    }
    out
}

/// Law: the output of [`encode_exchange_string`] meets the success premise
/// of [`decode_exchange_string`], so decoding an encoded text gives the text
/// back unchanged.
pub proof fn lemma_envelope_round_trip(enc: Seq<char>, j: Seq<char>)
    requires
        enc.len() >= 1,
        enc.skip(1) == b64_of(zlib_deflate_of(j)),
        forall|i: int| 0 <= i < enc.len() ==> enc[i] != '\n' && enc[i] != '\r',
    ensures
        strip_newlines(enc).len() >= 1,
        strip_newlines(enc).skip(1) == b64_of(zlib_deflate_of(j)),
{
    lemma_strip_no_newlines(enc);
}

} // verus!
