//! Images embedded in the markdown as `data:` URLs.

use crate::matches::byte_len;
use vstd::prelude::*;

verus! {

/// Whether `data_url::DataUrl::process` accepts `uri` as a data URL.
pub uninterp spec fn spec_data_url_parses(uri: Seq<char>) -> bool;

/// Calls `data_url::DataUrl::process` on `uri` and tells whether it
/// succeeded. Trusted: the answer is the crate's, named
/// [`spec_data_url_parses`]; the data URL grammar it follows is not
/// restated here.
#[verifier::external_body]
fn data_url_parses(uri: &str) -> (res: bool)
    ensures
        res == spec_data_url_parses(uri@),
{
    data_url::DataUrl::process(uri).is_ok()
}

/// What decoding the data URL `uri` gives: its body's bytes and its MIME
/// type as written out, or the message of the error.
pub uninterp spec fn spec_data_url_decoded(uri: Seq<char>) -> Result<(Seq<u8>, Seq<char>), Seq<char>>;

/// Processes `uri` with `data_url::DataUrl::process` and decodes its body
/// with `decode_to_vec`, giving the bytes and the MIME type (by its
/// `Display`), or the message of the first error. Trusted: the result is
/// the crate's, named [`spec_data_url_decoded`]; how the body and the MIME
/// type are decoded is not restated here.
#[verifier::external_body]
fn decode_data_url_raw(uri: &str) -> (res: Result<(Vec<u8>, String), String>)
    ensures
        match res {
            Ok(p) => spec_data_url_decoded(uri@) == Ok::<(Seq<u8>, Seq<char>), Seq<char>>(
                (p.0@, p.1@),
            ),
            Err(e) => spec_data_url_decoded(uri@) == Err::<(Seq<u8>, Seq<char>), Seq<char>>(e@),
        },
{
    let url = data_url::DataUrl::process(uri).map_err(|e| e.to_string())?;
    let (bytes, _) = url.decode_to_vec().map_err(|e| e.to_string())?;
    Ok((bytes, url.mime_type().to_string()))
}

/// The decoded body of a data URL and its MIME type, if it names one.
#[derive(PartialEq, Eq, Debug)]
pub struct DataUrlData {
    pub bytes: Vec<u8>,
    pub mime: Option<String>,
}

/// Whether the image loader for data URLs takes `uri`.
pub fn is_data_url(uri: &str) -> (res: bool)
    ensures
        res == spec_data_url_parses(uri@),
{
    data_url_parses(uri)
}

/// Decodes the data URL `uri`: its bytes, and its MIME type unless that
/// is empty; or the error's message.
pub fn decode_data_url(uri: &str) -> (res: Result<DataUrlData, String>)
    ensures
        match spec_data_url_decoded(uri@) {
            Ok((bytes, mime)) => res matches Ok(d) && d.bytes@ == bytes && (if mime.len() == 0 {
                d.mime is None
            } else {
                d.mime matches Some(m) && m@ == mime
            }),
            Err(e) => res matches Err(m) && m@ == e,
        },
{
    match decode_data_url_raw(uri) {
        Ok((bytes, mime)) => {
            let mime = if mime.as_str().unicode_len() == 0 {
                None
            } else {
                Some(mime)
            };
            Ok(DataUrlData { bytes, mime })
        },
        Err(e) => Err(e),
    }
}

/// The state of a data URL in the loader's cache.
#[derive(PartialEq, Eq, Debug)]
pub enum LoadEntry {
    /// Being decoded.
    Pending,
    /// Decoded, or failed with a message.
    Ready(Result<DataUrlData, String>),
}

/// How many bytes an entry of the loader's cache holds.
pub open spec fn spec_entry_byte_size(entry: &LoadEntry) -> nat {
    match entry {
        LoadEntry::Ready(Ok(d)) => d.bytes@.len() + match d.mime {
            Some(m) => byte_len(m@),
            None => 0,
        },
        LoadEntry::Ready(Err(e)) => byte_len(e@),
        LoadEntry::Pending => 0,
    }
}

/// How many bytes an entry of the loader's cache holds: the decoded bytes
/// and the MIME type's, or the error message's.
pub fn entry_byte_size(entry: &LoadEntry) -> (res: usize)
    requires
        spec_entry_byte_size(entry) <= usize::MAX,
    ensures
        res == spec_entry_byte_size(entry),
{
    match entry {
        LoadEntry::Ready(Ok(d)) => {
            let m = match &d.mime {
                Some(m) => m.as_str().len(),
                None => 0,
            };
            d.bytes.len() + m
        },
        LoadEntry::Ready(Err(e)) => e.as_str().len(),
        LoadEntry::Pending => 0,
    }
}

} // verus!
