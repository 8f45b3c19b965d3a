//! Encodings handed to the user interface: base64 `data:` URLs for media and
//! avatars, and the `tg://login` URL rendered as a QR code.

use vstd::prelude::*;

verus! {

/// The base64 digit of a 6-bit value, in the standard alphabet
/// (`+`, `/`) or the URL-safe one (`-`, `_`).
pub open spec fn b64_digit(n: int, url_safe: bool) -> char {
    if n < 26 {
        (65 + n) as char
    } else if n < 52 {
        (97 + n - 26) as char
    } else if n < 62 {
        (48 + n - 52) as char
    } else if n == 62 {
        if url_safe {
            '-'
        } else {
            '+'
        }
    } else if url_safe {
        '_'
    } else {
        '/'
    }
}

/// RFC 4648 base64 of `bytes`: every 3 bytes become 4 digits; a final group
/// of 1 or 2 bytes becomes 2 or 3 digits, followed by `=` padding when
/// `padded`.
pub open spec fn base64(bytes: Seq<u8>, url_safe: bool, padded: bool) -> Seq<char>
    decreases bytes.len(),
{
    if bytes.len() == 0 {
        Seq::empty()
    } else if bytes.len() == 1 {
        let b0 = bytes[0] as int;
        seq![b64_digit(b0 / 4, url_safe), b64_digit((b0 % 4) * 16, url_safe)] + (if padded {
            seq!['=', '=']
        } else {
            Seq::empty()
        })
    } else if bytes.len() == 2 {
        let b0 = bytes[0] as int;
        let b1 = bytes[1] as int;
        seq![
            b64_digit(b0 / 4, url_safe),
            b64_digit((b0 % 4) * 16 + b1 / 16, url_safe),
            b64_digit((b1 % 16) * 4, url_safe),
        ] + (if padded {
            seq!['=']
        } else {
            Seq::empty()
        })
    } else {
        let b0 = bytes[0] as int;
        let b1 = bytes[1] as int;
        let b2 = bytes[2] as int;
        seq![
            b64_digit(b0 / 4, url_safe),
            b64_digit((b0 % 4) * 16 + b1 / 16, url_safe),
            b64_digit((b1 % 16) * 4 + b2 / 64, url_safe),
            b64_digit(b2 % 64, url_safe),
        ] + base64(bytes.skip(3), url_safe, padded)
    }
}

/// `base64`'s `STANDARD` engine: padded base64 in the standard alphabet.
#[verifier::external_body]
fn base64_standard(bytes: &[u8]) -> (r: String)
    ensures
        r@ == base64(bytes@, false, true),
{
    base64::Engine::encode(&base64::engine::general_purpose::STANDARD, bytes)
}

/// `base64`'s `URL_SAFE_NO_PAD` engine: unpadded base64 in the URL-safe alphabet.
#[verifier::external_body]
fn base64_url_safe_no_pad(bytes: &[u8]) -> (r: String)
    ensures
        r@ == base64(bytes@, true, false),
{
    base64::Engine::encode(&base64::engine::general_purpose::URL_SAFE_NO_PAD, bytes)
}

/// MIME type assumed for media of unknown type.
pub const DEFAULT_MIME_TYPE: &'static str = "application/octet-stream";

/// MIME type of profile photos.
pub const AVATAR_MIME_TYPE: &'static str = "image/jpeg";

/// A `data:` URL carrying `bytes` base64-encoded, for direct use in the
/// webview; an unknown MIME type defaults to `application/octet-stream`.
pub fn data_url(mime_type: Option<&str>, bytes: &[u8]) -> (r: String)
    ensures
        r@ == "data:"@ + (match mime_type {
            Some(m) => m@,
            None => DEFAULT_MIME_TYPE@,
        }) + ";base64,"@ + base64(bytes@, false, true),
{
    let mut url = String::from_str("data:");
    match mime_type {
        Some(m) => url.append(m),
        None => url.append(DEFAULT_MIME_TYPE),
    }
    url.append(";base64,");
    let encoded = base64_standard(bytes);
    url.append(encoded.as_str());
    url
}

/// A profile photo as a `data:` URL.
pub fn avatar_data_url(bytes: &[u8]) -> (r: String)
    ensures
        r@ == "data:"@ + AVATAR_MIME_TYPE@ + ";base64,"@ + base64(bytes@, false, true),
{
    data_url(Some(AVATAR_MIME_TYPE), bytes)
}

/// The URL a QR login shows: `tg://login?token=` followed by the token in
/// unpadded URL-safe base64.
pub fn qr_login_url(token: &[u8]) -> (r: String)
    ensures
        r@ == "tg://login?token="@ + base64(token@, true, false),
{
    let mut url = String::from_str("tg://login?token=");
    let encoded = base64_url_safe_no_pad(token);
    url.append(encoded.as_str());
    url
}

} // verus!
