use vstd::prelude::*;

use base64::Engine;

verus! {

/// The character of a six-bit value in the standard base64 alphabet.
pub open spec fn base64_char(v: int) -> char {
    "ABCDEFGHIJKLMNOPQRSTUVWXYZabcdefghijklmnopqrstuvwxyz0123456789+/"@[v]
}

/// The standard base64 text of some bytes, padded with '=': each group of
/// three bytes gives four characters of six bits each.
pub open spec fn base64_text(d: Seq<u8>) -> Seq<char>
    decreases d.len(),
{
    if d.len() == 0 {
        seq![]
    } else if d.len() == 1 {
        seq![base64_char((d[0] as int) / 4), base64_char(((d[0] as int) % 4) * 16), '=', '=']
    } else if d.len() == 2 {
        seq![
            base64_char((d[0] as int) / 4),
            base64_char(((d[0] as int) % 4) * 16 + (d[1] as int) / 16),
            base64_char(((d[1] as int) % 16) * 4),
            '=',
        ]
    } else {
        seq![
            base64_char((d[0] as int) / 4),
            base64_char(((d[0] as int) % 4) * 16 + (d[1] as int) / 16),
            base64_char(((d[1] as int) % 16) * 4 + (d[2] as int) / 64),
            base64_char((d[2] as int) % 64),
        ] + base64_text(d.subrange(3, d.len() as int))
    }
}

/// Relies on base64's `general_purpose::STANDARD` engine (`Engine::encode`):
/// the standard alphabet with padding. It panics when the encoded length
/// does not fit in `usize`, which the bound on the input rules out.
#[verifier::external_body]
fn base64_standard(data: &Vec<u8>) -> (r: String)
    requires
        data.len() <= 3 * (usize::MAX / 4),
    ensures
        r@ == base64_text(data@),
{
    base64::engine::general_purpose::STANDARD.encode(data)
}

/// The MIME type that `mime_guess` gives a file extension.
pub uninterp spec fn mime_for_ext(ext: Seq<char>) -> Seq<char>;

/// Relies on `mime_guess::from_ext(..).first_or_octet_stream()`: the first
/// MIME type known for the extension, looked up by the extension alone; an
/// empty extension has none and gives "application/octet-stream".
#[verifier::external_body]
fn guess_mime(ext: &str) -> (r: String)
    ensures
        r@ == mime_for_ext(ext@),
        ext@.len() == 0 ==> r@ == "application/octet-stream"@,
{
    mime_guess::from_ext(ext).first_or_octet_stream().to_string()
}

/// The text of a base64 data URI.
pub open spec fn data_uri_text(mime: Seq<char>, encoded: Seq<char>) -> Seq<char> {
    "data:"@ + mime + ";base64,"@ + encoded
}

/// A data URI from a MIME type and base64 text.
pub fn data_uri(mime: &str, encoded: &str) -> (r: String)
    ensures
        r@ == data_uri_text(mime@, encoded@),
{
    String::from_str("data:").concat(mime).concat(";base64,").concat(encoded)
}

/// The data URI of an icon file's bytes, typed by the MIME type guessed
/// from the file's extension (empty where the file has none).
pub fn icon_data_uri(extension: &str, data: &Vec<u8>) -> (r: String)
    requires
        data.len() <= 3 * (usize::MAX / 4),
    ensures
        r@ == data_uri_text(mime_for_ext(extension@), base64_text(data@)),
        extension@.len() == 0 ==> r@ == data_uri_text("application/octet-stream"@, base64_text(data@)),
{
    let mime = guess_mime(extension);
    let encoded = base64_standard(data);
    data_uri(mime.as_str(), encoded.as_str())
}

/// The web search page for a query; the query goes in as it is.
pub fn web_search_url(query: &str) -> (r: String)
    ensures
        r@ == "https://www.google.com/search?q="@ + query@,
{
    String::from_str("https://www.google.com/search?q=").concat(query)
}

} // verus!
