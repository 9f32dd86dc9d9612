use vstd::prelude::*;

verus! {

/// The `charset` parameter that `mime` reads from a content type, if it parses and has one.
pub uninterp spec fn charset_param(content_type: Seq<char>) -> Option<Seq<char>>;

/// Whether `encoding_rs::Encoding::for_label` knows an encoding label.
pub uninterp spec fn known_encoding(label: Seq<char>) -> bool;

/// What `encoding_rs::Encoding::decode` makes of bytes in the encoding a label names.
pub uninterp spec fn decoded(label: Seq<char>, body: Seq<u8>) -> Seq<char>;

/// Relies on `str::parse::<mime::Mime>` and `Mime::get_param(mime::CHARSET)`: the charset
/// parameter of a content type, where it parses and has one.
#[verifier::external_body]
fn charset_of(content_type: &str) -> (r: Option<String>)
    ensures
        r matches Some(c) ==> charset_param(content_type@) == Some(c@),
        r is None ==> charset_param(content_type@) is None,
{
    match content_type.parse::<mime::Mime>() {
        Ok(m) => m.get_param(mime::CHARSET).map(|c| c.as_str().to_string()),
        Err(_) => None,
    }
}

/// Relies on `encoding_rs::Encoding::for_label` and `Encoding::decode`: the text of `body`
/// in the encoding that `label` names, where the label names one.
#[verifier::external_body]
fn decode_labelled(label: &str, body: &[u8]) -> (r: Option<String>)
    ensures
        r is Some <==> known_encoding(label@),
        r matches Some(t) ==> t@ == decoded(label@, body@),
{
    match encoding_rs::Encoding::for_label(label.as_bytes()) {
        Some(e) => Some(e.decode(body).0.into_owned()),
        None => None,
    }
}

/// Relies on `encoding_rs::UTF_8.decode`, which is the encoding that `for_label` gives for
/// the label `utf-8`: the text of `body` read as UTF-8.
#[verifier::external_body]
fn decode_utf8(body: &[u8]) -> (r: String)
    ensures
        r@ == decoded("utf-8"@, body@),
{
    encoding_rs::UTF_8.decode(body).0.into_owned()
}

/// The encoding a content type names, where it names one that is known.
pub open spec fn named_encoding(content_type: Option<Seq<char>>) -> Option<Seq<char>> {
    match content_type {
        Some(ct) => match charset_param(ct) {
            Some(label) => if known_encoding(label) {
                Some(label)
            } else {
                None
            },
            None => None,
        },
        None => None,
    }
}

/// The text of a fetched page: decoded in the encoding that the HTTP content type names;
/// else in the one that the page's meta content type names; else as UTF-8.
pub open spec fn page_text(body: Seq<u8>, header: Option<Seq<char>>, meta: Option<Seq<char>>) -> Seq<char> {
    match named_encoding(header) {
        Some(label) => decoded(label, body),
        None => match named_encoding(meta) {
            Some(label) => decoded(label, body),
            None => decoded("utf-8"@, body),
        },
    }
}

/// The view of an optional text.
pub open spec fn opt_view(s: Option<String>) -> Option<Seq<char>> {
    match s {
        Some(t) => Some(t@),
        None => None,
    }
}

/// The page read as UTF-8, which is what a meta content type is looked for in.
pub fn utf8_text(body: &[u8]) -> (r: String)
    ensures
        r@ == decoded("utf-8"@, body@),
{
    decode_utf8(body)
}

/// Decodes `body` in the encoding that `content_type` names, where it names a known one.
fn decode_as(content_type: &Option<String>, body: &[u8]) -> (r: Option<String>)
    ensures
        match named_encoding(opt_view(*content_type)) {
            Some(label) => r matches Some(t) && t@ == decoded(label, body@),
            None => r is None,
        },
{
    match content_type {
        Some(ct) => match charset_of(ct.as_str()) {
            Some(label) => decode_labelled(label.as_str(), body),
            None => None,
        },
        None => None,
    }
}

/// The text of a fetched page, from the HTTP content type header and the content type
/// that the page's meta `http-equiv` tag gives.
pub fn decode_text(body: &[u8], header: &Option<String>, meta: &Option<String>) -> (r: String)
    ensures
        r@ == page_text(body@, opt_view(*header), opt_view(*meta)),
{
    match decode_as(header, body) {
        Some(t) => t,
        None => match decode_as(meta, body) {
            Some(t) => t,
            None => decode_utf8(body),
        },
    }
}

} // verus!
