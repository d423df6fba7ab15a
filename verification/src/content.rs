//! Choosing how to answer a request from its `Accept` header.
use vstd::prelude::*;
use crate::text::str_eq;

verus! {

/// A value answered as XML.
pub struct Xml<T>(pub T);

/// How a response is written, or why it cannot be.
#[derive(PartialEq, Eq, Structural, Clone, Copy, Debug)]
pub enum ResponseFormat {
    /// As XML.
    Xml,
    /// As JSON.
    Json,
    /// The request names no media type that can be read.
    UnknownEncoding,
    /// The media type names neither XML nor JSON.
    Unsupported,
}

/// The subtype of the media type that `accept.parse::<mime::Mime>()` reads, as
/// `Mime::subtype` gives it; `None` when it does not parse.
pub uninterp spec fn mime_subtype(accept: Seq<char>) -> Option<Seq<char>>;

/// Parses `accept` with `mime::Mime`'s `FromStr` and gives the subtype's text. The
/// contract only ties the result to `mime_subtype`; the media type grammar is not
/// stated here.
#[verifier::external_body]
fn parse_mime_subtype(accept: &str) -> (r: Option<String>)
    ensures
        r matches Some(s) ==> mime_subtype(accept@) == Some(s@),
        r is None ==> mime_subtype(accept@) is None,
{
    accept.parse::<mime::Mime>().ok().map(|m| m.subtype().as_str().to_string())
}

/// The format for a media type's subtype (`None` when there is no readable media type).
pub open spec fn format_of(subtype: Option<Seq<char>>) -> ResponseFormat {
    match subtype {
        None => ResponseFormat::UnknownEncoding,
        Some(s) => if s == "xml"@ {
            ResponseFormat::Xml
        } else if s == "json"@ {
            ResponseFormat::Json
        } else {
            ResponseFormat::Unsupported
        },
    }
}

/// The format for a media type's subtype.
pub fn format_for_subtype(subtype: Option<&str>) -> (r: ResponseFormat)
    ensures
        r == format_of(
            match subtype {
                Some(s) => Some(s@),
                None => None,
            },
        ),
{
    match subtype {
        None => ResponseFormat::UnknownEncoding,
        Some(s) => if str_eq(s, "xml") {
            ResponseFormat::Xml
        } else if str_eq(s, "json") {
            ResponseFormat::Json
        } else {
            ResponseFormat::Unsupported
        },
    }
}

/// The format for a request with the `Accept` header `accept` (`None` when the header
/// is missing or is no text).
pub fn response_format(accept: Option<&str>) -> (r: ResponseFormat)
    ensures
        r == (match accept {
            None => ResponseFormat::UnknownEncoding,
            Some(a) => format_of(mime_subtype(a@)),
        }),
{
    match accept {
        None => ResponseFormat::UnknownEncoding,
        Some(a) => match parse_mime_subtype(a) {
            Some(s) => format_for_subtype(Some(s.as_str())),
            None => format_for_subtype(None),
        },
    }
}

} // verus!
