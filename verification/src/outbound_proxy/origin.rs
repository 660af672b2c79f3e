//! Where a request goes to.
use vstd::prelude::*;
use crate::outside::web::parse_uri;
use crate::outside::web::uri_parts;
use crate::text::chars::chars_of;
use crate::text::chars::lowered;
use crate::text::chars::same_text;
use crate::text::chars::string_of;
use crate::text::chars::to_lowered;
use crate::text::chars::trim_of;
use crate::text::chars::trimmed;
use crate::text::chars::TrimClass;

verus! {

/// The scheme, the host and the port of a request, with small letters.
#[derive(Debug, Clone, PartialEq, Eq)]
pub struct RequestOrigin {
    /// The scheme.
    pub scheme: String,
    /// The host, without brackets.
    pub host: String,
    /// The port.
    pub port: u16,
}

/// An origin as mathematical values.
#[verifier::ext_equal]
pub struct OriginModel {
    /// The scheme.
    pub scheme: Seq<char>,
    /// The host.
    pub host: Seq<char>,
    /// The port.
    pub port: u16,
}

impl View for RequestOrigin {
    type V = OriginModel;

    open spec fn view(&self) -> OriginModel {
        OriginModel { scheme: self.scheme@, host: self.host@, port: self.port }
    }
}

/// The port that a scheme implies.
pub open spec fn default_port(scheme: Seq<char>) -> Option<u16> {
    if scheme == "http"@ {
        Some(80)
    } else if scheme == "https"@ {
        Some(443)
    } else {
        None
    }
}

/// The origin that an address with these parts has.
pub open spec fn origin_of_parts(
    scheme: Option<Seq<char>>,
    host: Option<Seq<char>>,
    port: Option<u16>,
) -> Option<OriginModel> {
    match (scheme, host) {
        (Some(scheme), Some(host)) => {
            let scheme = lowered(scheme);
            let host = lowered(trimmed(TrimClass::Bracket, host));
            let port = match port {
                Some(port) => Some(port),
                None => default_port(scheme),
            };
            match port {
                Some(port) => Some(OriginModel { scheme, host, port }),
                None => None,
            }
        },
        _ => None,
    }
}

/// The origin of an address.
pub open spec fn origin_of(request_url: Seq<char>) -> Option<OriginModel> {
    match uri_parts(request_url) {
        Some((scheme, host, port)) => origin_of_parts(scheme, host, port),
        None => None,
    }
}

impl RequestOrigin {
    /// The origin of an address.
    pub fn parse(request_url: &str) -> (r: Option<Self>)
        ensures
            match r {
                Some(origin) => origin_of(request_url@) == Some(origin@),
                None => origin_of(request_url@) is None,
            },
    {
        match parse_uri(request_url) {
            Some((scheme, host, port)) => Self::from_parts(scheme, host, port),
            None => None,
        }
    }

    /// The origin that an address with these parts has.
    pub fn from_parts(scheme: Option<String>, host: Option<String>, port: Option<u16>) -> (r: Option<
        Self,
    >)
        ensures
            match r {
                Some(origin) => origin_of_parts(scheme.deep_view(), host.deep_view(), port) == Some(
                    origin@,
                ),
                None => origin_of_parts(scheme.deep_view(), host.deep_view(), port) is None,
            },
    {
        let (scheme, host) = match (scheme, host) {
            (Some(scheme), Some(host)) => (scheme, host),
            _ => {
                return None;
            },
        };
        let scheme_chars = to_lowered(&chars_of(scheme.as_str()));
        let host_chars = chars_of(host.as_str());
        let host_low = to_lowered(trim_of(TrimClass::Bracket, &host_chars));
        let scheme_low = string_of(&scheme_chars);
        let port = match port {
            Some(port) => port,
            None => match default_port_for_scheme(scheme_low.as_str()) {
                Some(port) => port,
                None => {
                    return None;
                },
            },
        };
        Some(RequestOrigin { scheme: scheme_low, host: string_of(&host_low), port })
    }
}

/// The port that a scheme implies.
pub fn default_port_for_scheme(scheme: &str) -> (r: Option<u16>)
    ensures
        r == default_port(scheme@),
{
    if same_text(scheme, "http") {
        Some(80)
    } else if same_text(scheme, "https") {
        Some(443)
    } else {
        None
    }
}

/// An address has an origin exactly where it has a scheme and a host, and a port of
/// its own or a scheme that implies one. Its own port comes before that of its
/// scheme; the case of scheme and host, and brackets around the host, do not matter.
pub proof fn law_origin_needs_scheme_host_and_port(
    scheme: Seq<char>,
    host: Seq<char>,
    port: Option<u16>,
)
    ensures
        origin_of_parts(None, Some(host), port) is None,
        origin_of_parts(Some(scheme), None, port) is None,
        port matches Some(p) ==> origin_of_parts(Some(scheme), Some(host), port) == Some(
            OriginModel {
                scheme: lowered(scheme),
                host: lowered(trimmed(TrimClass::Bracket, host)),
                port: p,
            },
        ),
        lowered(scheme) == "http"@ ==> origin_of_parts(Some(scheme), Some(host), None)
            == origin_of_parts(Some(scheme), Some(host), Some(80)),
        lowered(scheme) == "https"@ ==> origin_of_parts(Some(scheme), Some(host), None)
            == origin_of_parts(Some(scheme), Some(host), Some(443)),
        lowered(scheme) != "http"@ && lowered(scheme) != "https"@ ==> origin_of_parts(
            Some(scheme),
            Some(host),
            None,
        ) is None,
        origin_of_parts(Some(lowered(scheme)), Some(host), port) == origin_of_parts(
            Some(scheme),
            Some(host),
            port,
        ),
{
    reveal_strlit("http");
    reveal_strlit("https");
    assert("http"@.len() != "https"@.len());
    assert(lowered(lowered(scheme)) =~= lowered(scheme));
}

/// An address that can be read has the origin of its parts: scheme and host without
/// capitals, and the port that is given or that the scheme implies. One that cannot
/// be read, or that lacks its scheme or its host, has none.
pub proof fn law_origin_is_read_from_the_address(
    url: Seq<char>,
    scheme: Seq<char>,
    host: Seq<char>,
    port: Option<u16>,
)
    ensures
        uri_parts(url) is None ==> origin_of(url) is None,
        uri_parts(url) == Some((None::<Seq<char>>, Some(host), port)) ==> origin_of(url) is None,
        uri_parts(url) == Some((Some(scheme), None::<Seq<char>>, port)) ==> origin_of(url) is None,
        uri_parts(url) == Some((Some(scheme), Some(host), port)) && (port is Some || lowered(scheme)
            == "http"@ || lowered(scheme) == "https"@) ==> {
            &&& origin_of(url) is Some
            &&& (origin_of(url)->0).scheme == lowered(scheme)
            &&& (origin_of(url)->0).host == lowered(trimmed(TrimClass::Bracket, host))
            &&& port is Some ==> (origin_of(url)->0).port == port->0
            &&& port is None && lowered(scheme) == "http"@ ==> (origin_of(url)->0).port == 80
            &&& port is None && lowered(scheme) == "https"@ ==> (origin_of(url)->0).port == 443
        },
{
    reveal_strlit("http");
    reveal_strlit("https");
    assert("http"@.len() != "https"@.len());
}

} // verus!
