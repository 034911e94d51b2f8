//! Web addresses: the `url` crate.

use vstd::prelude::*;

use crate::text;

verus! {

/// Why `url::Url::parse` refuses the text, as its error displays it; none
/// when it accepts the text.
pub uninterp spec fn url_fault(address: Seq<char>) -> Option<Seq<char>>;

/// The host of the address; none when the text is no address or has none.
pub uninterp spec fn url_host(address: Seq<char>) -> Option<Seq<char>>;

/// The segments of the address's path; none when the text is no address or
/// its path is not divided.
pub uninterp spec fn url_segments(address: Seq<char>) -> Option<Seq<Seq<char>>>;

/// The texts of an optional list.
pub open spec fn texts_opt(o: Option<Vec<String>>) -> Option<Seq<Seq<char>>> {
    match o {
        Some(v) => Some(text::texts(v@)),
        None => None,
    }
}

/// `url::Url::parse`: the text of its error, or nothing when the text is an
/// address. Both depend on the text alone.
#[verifier::external_body]
pub(crate) fn fault_of(address: &str) -> (r: Option<String>)
    ensures
        text::text_opt(r) == url_fault(address@),
{
    url::Url::parse(address).err().map(|e| e.to_string())
}

/// `url::Url::host_str` of the parsed text. A text that is no address has
/// no host.
#[verifier::external_body]
pub(crate) fn host_of(address: &str) -> (r: Option<String>)
    ensures
        text::text_opt(r) == url_host(address@),
        url_fault(address@) is Some ==> r is None,
{
    url::Url::parse(address).ok().and_then(|u| u.host_str().map(str::to_owned))
}

/// `url::Url::path_segments` of the parsed text. A text that is no address
/// has no segments.
#[verifier::external_body]
pub(crate) fn segments_of(address: &str) -> (r: Option<Vec<String>>)
    ensures
        texts_opt(r) == url_segments(address@),
        url_fault(address@) is Some ==> r is None,
{
    url::Url::parse(address)
        .ok()
        .and_then(|u| u.path_segments().map(|parts| parts.map(str::to_owned).collect()))
}

} // verus!
