//! The calls into the `url` crate that task credentials make.
//!
//! A URL travels through the library as its serialization, the string
//! `Url::as_str` returns. Each wrapper below parses that serialization with
//! `Url::parse` (which reproduces the same `Url`, since the serialization of a
//! parsed URL parses back to itself), applies one `Url` operation, and hands
//! back the new serialization. What the operation makes of its arguments is
//! WHATWG URL processing (host parsing with IDNA, percent-encoding, default
//! ports), so each result is given a name rather than written out.

use vstd::prelude::*;

verus! {

/// The serializations of an optional `String`.
pub open spec fn view_opt(o: Option<String>) -> Option<Seq<char>> {
    match o {
        Some(s) => Some(s@),
        None => None,
    }
}

/// What `Url::set_host(Some(host))` makes of the URL serialized as `url`;
/// `None` when the call fails (or `url` does not parse).
pub uninterp spec fn url_set_host(url: Seq<char>, host: Seq<char>) -> Option<Seq<char>>;

/// What `Url::set_port(Some(port))` makes of the URL serialized as `url`;
/// `None` when the call fails (or `url` does not parse).
pub uninterp spec fn url_set_port(url: Seq<char>, port: u16) -> Option<Seq<char>>;

/// What `Url::set_path(path)` makes of the URL serialized as `url`; `None`
/// when `url` does not parse.
pub uninterp spec fn url_set_path(url: Seq<char>, path: Seq<char>) -> Option<Seq<char>>;

/// What `Url::set_username(username)` makes of the URL serialized as `url`;
/// `None` when the call fails (or `url` does not parse).
pub uninterp spec fn url_set_username(url: Seq<char>, username: Seq<char>) -> Option<Seq<char>>;

/// What `Url::set_password(Some(password))` makes of the URL serialized as
/// `url`; `None` when the call fails (or `url` does not parse).
pub uninterp spec fn url_set_password(url: Seq<char>, password: Seq<char>) -> Option<Seq<char>>;

/// What pushing `segment` onto the path segments of the URL serialized as
/// `url` makes of it (`Url::path_segments_mut` then `PathSegmentsMut::push`,
/// which percent-encodes the segment); `None` when the URL cannot be a base
/// (or `url` does not parse).
pub uninterp spec fn url_push_segment(url: Seq<char>, segment: Seq<char>) -> Option<Seq<char>>;

/// What `Url::port` returns for the URL serialized as `url` (`None` also when
/// `url` does not parse).
pub uninterp spec fn url_port(url: Seq<char>) -> Option<u16>;

/// What `Url::host_str` returns for the URL serialized as `url` (`None` also
/// when `url` does not parse).
pub uninterp spec fn url_host_str(url: Seq<char>) -> Option<Seq<char>>;

/// Calls `url::Url::set_host` on the URL serialized as `url`. The contract
/// claims only that the result is the named outcome of that call.
#[verifier::external_body]
pub(crate) fn url_with_host(url: &str, host: &str) -> (r: Option<String>)
    ensures
        view_opt(r) == url_set_host(url@, host@),
{
    let mut parsed = url::Url::parse(url).ok()?;
    parsed.set_host(Some(host)).ok()?;
    Some(parsed.into())
}

/// Calls `url::Url::set_port` on the URL serialized as `url`. The contract
/// claims only that the result is the named outcome of that call.
#[verifier::external_body]
pub(crate) fn url_with_port(url: &str, port: u16) -> (r: Option<String>)
    ensures
        view_opt(r) == url_set_port(url@, port),
{
    let mut parsed = url::Url::parse(url).ok()?;
    parsed.set_port(Some(port)).ok()?;
    Some(parsed.into())
}

/// Calls `url::Url::set_path` on the URL serialized as `url`. The contract
/// claims only that the result is the named outcome of that call.
#[verifier::external_body]
pub(crate) fn url_with_path(url: &str, path: &str) -> (r: Option<String>)
    ensures
        view_opt(r) == url_set_path(url@, path@),
{
    let mut parsed = url::Url::parse(url).ok()?;
    parsed.set_path(path);
    Some(parsed.into())
}

/// Calls `url::Url::set_username` on the URL serialized as `url`. The
/// contract claims only that the result is the named outcome of that call.
#[verifier::external_body]
pub(crate) fn url_with_username(url: &str, username: &str) -> (r: Option<String>)
    ensures
        view_opt(r) == url_set_username(url@, username@),
{
    let mut parsed = url::Url::parse(url).ok()?;
    parsed.set_username(username).ok()?;
    Some(parsed.into())
}

/// Calls `url::Url::set_password` on the URL serialized as `url`. The
/// contract claims only that the result is the named outcome of that call.
#[verifier::external_body]
pub(crate) fn url_with_password(url: &str, password: &str) -> (r: Option<String>)
    ensures
        view_opt(r) == url_set_password(url@, password@),
{
    let mut parsed = url::Url::parse(url).ok()?;
    parsed.set_password(Some(password)).ok()?;
    Some(parsed.into())
}

/// Calls `url::Url::path_segments_mut` and pushes `segment` on the URL
/// serialized as `url`. The contract claims only that the result is the
/// named outcome of that call.
#[verifier::external_body]
pub(crate) fn url_with_segment(url: &str, segment: &str) -> (r: Option<String>)
    ensures
        view_opt(r) == url_push_segment(url@, segment@),
{
    let mut parsed = url::Url::parse(url).ok()?;
    parsed.path_segments_mut().ok()?.push(segment);
    Some(parsed.into())
}

/// Calls `url::Url::port` on the URL serialized as `url`. The contract claims
/// only that the result is the named outcome of that call.
#[verifier::external_body]
pub(crate) fn url_port_of(url: &str) -> (r: Option<u16>)
    ensures
        r == url_port(url@),
{
    url::Url::parse(url).ok()?.port()
}

/// Calls `url::Url::host_str` on the URL serialized as `url`. The contract
/// claims only that the result is the named outcome of that call.
#[verifier::external_body]
pub(crate) fn url_host_of(url: &str) -> (r: Option<String>)
    ensures
        view_opt(r) == url_host_str(url@),
{
    url::Url::parse(url).ok()?.host_str().map(str::to_string)
}

} // verus!
