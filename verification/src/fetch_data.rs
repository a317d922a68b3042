//! Where the bytes of an image come from.

use vstd::prelude::*;

verus! {

/// Whether `url::Url::parse` accepts `uri` as an absolute URL.
pub uninterp spec fn spec_url_parses(uri: Seq<char>) -> bool;

/// Calls `url::Url::parse` on `uri` and tells whether it succeeded. Trusted:
/// the answer is the parser's, named [`spec_url_parses`]; what the parser
/// accepts (the WHATWG URL standard) is not restated here.
#[verifier::external_body]
fn url_parses(uri: &str) -> (res: bool)
    ensures
        res == spec_url_parses(uri@),
{
    url::Url::parse(uri).is_ok()
}

/// Where the bytes of an image are read from.
#[derive(PartialEq, Eq, Debug)]
pub enum ImageDataSource {
    /// Fetched over the network from this URL.
    Fetch(String),
    /// Read from the file at this path.
    File(String),
}

/// Where the bytes of the image at `uri` come from. With fetching built in
/// (`fetch_enabled`), a `uri` that parses as a URL is fetched; every other
/// `uri`, and every `uri` at all without fetching, is read from the file it
/// names. Without fetching the URL parser is not consulted.
pub fn get_image_data(uri: &str, fetch_enabled: bool) -> (res: ImageDataSource)
    ensures
        fetch_enabled && spec_url_parses(uri@) ==> (res matches ImageDataSource::Fetch(u) && u@
            == uri@),
        !(fetch_enabled && spec_url_parses(uri@)) ==> (res matches ImageDataSource::File(p) && p@
            == uri@),
{
    if fetch_enabled && url_parses(uri) {
        ImageDataSource::Fetch(String::from_str(uri))
    } else {
        ImageDataSource::File(String::from_str(uri))
    }
}

} // verus!
