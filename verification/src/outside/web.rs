//! Addresses, HTTP and digests.
use sha2::Digest;
use sha2::Sha256;
use vstd::prelude::*;

verus! {

/// The scheme, the host and the port of an address, as far as it has them; `None`
/// where `http` does not take the text for a URI.
pub uninterp spec fn uri_parts(text: Seq<char>) -> Option<
    (Option<Seq<char>>, Option<Seq<char>>, Option<u16>),
>;

/// Parses the text as an `http::Uri` and reads `scheme_str`, `host` and `port_u16`.
#[verifier::external_body]
pub(crate) fn parse_uri(text: &str) -> (r: Option<(Option<String>, Option<String>, Option<u16>)>)
    ensures
        match r {
            Some((s, h, p)) => uri_parts(text@) == Some((s.deep_view(), h.deep_view(), p)),
            None => uri_parts(text@) is None,
        },
{
    let uri = text.parse::<http::Uri>().ok()?;
    Some((uri.scheme_str().map(str::to_owned), uri.host().map(str::to_owned), uri.port_u16()))
}

/// Whether `reqwest` takes the text for the address of a proxy.
pub uninterp spec fn proxy_url_accepted(url: Seq<char>) -> bool;

/// Calls `reqwest::Proxy::all` and tells whether it accepts the address.
#[verifier::external_body]
pub(crate) fn accepts_proxy_url(url: &str) -> (r: bool)
    ensures
        r == proxy_url_accepted(url@),
{
    reqwest::Proxy::all(url).is_ok()
}

/// Of an address that `rama_net` takes for that of a proxy: whether its scheme, if
/// it has one, is that of HTTP, and its host and port; `None` for any other text.
pub uninterp spec fn proxy_address_parts(text: Seq<char>) -> Option<(Option<bool>, Seq<char>)>;

/// Converts the text to a `rama_net::address::ProxyAddress` with its `TryFrom`,
/// calls `is_http` on the `protocol`, where there is one, and `to_string` on the
/// `address`.
#[verifier::external_body]
pub(crate) fn parse_proxy_address(text: &str) -> (r: Option<(Option<bool>, String)>)
    ensures
        match r {
            Some((is_http, address)) => proxy_address_parts(text@) == Some((is_http, address@)),
            None => proxy_address_parts(text@) is None,
        },
{
    let proxy = rama_net::address::ProxyAddress::try_from(text).ok()?;
    Some((proxy.protocol.as_ref().map(rama_net::Protocol::is_http), proxy.address.to_string()))
}

/// An HTTP status code with its reason, as `http` writes it.
pub uninterp spec fn status_display(status: u16) -> Seq<char>;

/// Makes an `http::StatusCode` and calls `to_string` on it. The condition is the
/// range of numbers that `StatusCode::from_u16` accepts.
#[verifier::external_body]
pub(crate) fn status_text(status: u16) -> (r: String)
    requires
        100 <= status <= 999,
    ensures
        r@ == status_display(status),
{
    http::StatusCode::from_u16(status).map(|code| code.to_string()).unwrap_or_default()
}

/// Whether a character is a digit of a lower-case hexadecimal number.
pub open spec fn lower_hex_digit(c: char) -> bool {
    '0' <= c <= '9' || 'a' <= c <= 'f'
}

/// The SHA-256 digest of the bytes in lower-case hexadecimal.
pub uninterp spec fn sha256_hex_text(bytes: Seq<u8>) -> Seq<char>;

/// Calls `sha2::Sha256::digest` and writes the digest, which has 32 bytes, in
/// lower-case hexadecimal.
#[verifier::external_body]
pub(crate) fn sha256_hex(bytes: &[u8]) -> (r: String)
    ensures
        r@ == sha256_hex_text(bytes@),
        r@.len() == 64,
        forall|i: int| 0 <= i < r@.len() ==> lower_hex_digit(#[trigger] r@[i]),
{
    format!("{:x}", Sha256::digest(bytes))
}

} // verus!
