//! Cover images as `data:` URIs.
use vstd::prelude::*;
use vstd::string::StringExecFns;
use base64::Engine;

verus! {

/// The standard base64 encoding, with padding, of `b`.
pub uninterp spec fn base64_of(b: Seq<u8>) -> Seq<char>;

/// Relies on `base64::engine::general_purpose::STANDARD.encode`: the standard
/// alphabet with padding, a function of the bytes alone. It panics only when
/// the encoded length overflows `usize`, which the bound on the input excludes.
#[verifier::external_body]
fn encode_base64(b: &Vec<u8>) -> (r: String)
    requires
        b@.len() <= usize::MAX / 2,
    ensures
        r@ == base64_of(b@),
{
    base64::engine::general_purpose::STANDARD.encode(b)
}

pub open spec fn starts_with_bytes(b: Seq<u8>, p: Seq<u8>) -> bool {
    p.len() <= b.len() && b.take(p.len() as int) == p
}

/// The image type that the first bytes show: PNG, JPEG or WEBP, and JPEG
/// when none of them matches.
pub open spec fn image_mime(b: Seq<u8>) -> Seq<char> {
    if starts_with_bytes(b, seq![0x89u8, 0x50u8, 0x4Eu8, 0x47u8]) {
        "image/png"@
    } else if starts_with_bytes(b, seq![0xFFu8, 0xD8u8]) {
        "image/jpeg"@
    } else if starts_with_bytes(b, seq![0x57u8, 0x45u8, 0x42u8, 0x50u8]) {
        "image/webp"@
    } else {
        "image/jpeg"@
    }
}

pub open spec fn data_uri_of(mime: Seq<char>, encoded: Seq<char>) -> Seq<char> {
    "data:"@ + mime + ";base64,"@ + encoded
}

fn starts_with_exec(b: &Vec<u8>, p: &Vec<u8>) -> (r: bool)
    ensures
        r == starts_with_bytes(b@, p@),
{
    if p.len() > b.len() {
        return false;
    }
    let mut k: usize = 0;
    while k < p.len()
        invariant
            p.len() <= b.len(),
            k <= p.len(),
            forall|j: int| 0 <= j < k ==> b@[j] == p@[j],
        decreases p.len() - k,
    {
        if b[k] != p[k] {
            assert(b@.take(p.len() as int)[k as int] != p@[k as int]);
            return false;
        }
        k = k + 1;
    }
    assert(b@.take(p.len() as int) =~= p@);
    true
}

/// The MIME type of an image, from its first bytes.
pub fn image_mime_type(data: &Vec<u8>) -> (r: String)
    ensures
        r@ == image_mime(data@),
{
    let png = vec![0x89u8, 0x50u8, 0x4Eu8, 0x47u8];
    let jpeg = vec![0xFFu8, 0xD8u8];
    let webp = vec![0x57u8, 0x45u8, 0x42u8, 0x50u8];
    assert(png@ =~= seq![0x89u8, 0x50u8, 0x4Eu8, 0x47u8]);
    assert(jpeg@ =~= seq![0xFFu8, 0xD8u8]);
    assert(webp@ =~= seq![0x57u8, 0x45u8, 0x42u8, 0x50u8]);
    if starts_with_exec(data, &png) {
        String::from_str("image/png")
    } else if starts_with_exec(data, &jpeg) {
        String::from_str("image/jpeg")
    } else if starts_with_exec(data, &webp) {
        String::from_str("image/webp")
    } else {
        String::from_str("image/jpeg")
    }
}

/// `data:<mime>;base64,<encoded>`, with the MIME type sniffed from `data`.
pub fn data_uri(data: &Vec<u8>, encoded: &str) -> (r: String)
    ensures
        r@ == data_uri_of(image_mime(data@), encoded@),
{
    let mut r = String::from_str("data:");
    let mime = image_mime_type(data);
    r.append(mime.as_str());
    r.append(";base64,");
    r.append(encoded);
    r
}

/// The cover image as a `data:` URI carrying its base64 encoding.
pub fn cover_data_uri(data: &Vec<u8>) -> (r: String)
    requires
        data@.len() <= usize::MAX / 2,
    ensures
        r@ == data_uri_of(image_mime(data@), base64_of(data@)),
{
    let encoded = encode_base64(data);
    data_uri(data, encoded.as_str())
}

} // verus!
