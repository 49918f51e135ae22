//! How backends are connected to.

use vstd::prelude::*;

use crate::connect::{transport_config, BackendUrl, TransportConfig};

verus! {

/// Whether a byte may stand in a header: a tab, or no control character.
pub open spec fn is_printable(byte: u8) -> bool {
    byte == 9 || (byte > 31 && byte != 127)
}

/// Whether a host header says `text`; there is none where the text has bytes
/// that may not stand in a header.
pub open spec fn header_says(header: Option<Vec<u8>>, text: Seq<char>) -> bool {
    let bytes = vstd::utf8::encode_utf8(text);
    match header {
        Some(value) => value@ == bytes && forall|i: int|
            0 <= i < bytes.len() ==> is_printable(#[trigger] bytes[i]),
        None => exists|i: int| 0 <= i < bytes.len() && !is_printable(#[trigger] bytes[i]),
    }
}

/// Whether a way to connect is the one for a URL: it goes to the URL's text. For
/// an `https` URL with a host it has a host header, which says the host, and
/// behind a colon the port, where the URL has one; for others it has none.
pub open spec fn goes_to(config: TransportConfig, url: BackendUrl) -> bool {
    &&& config.uri@ == url.text@
    &&& match (url.host, url.port) {
        (Some(host), Some(port)) if url.scheme@ == "https"@ => exists|digits: Seq<char>|
            #![trigger host@ + seq![':'] + digits]
            crate::laws::texts::writes(digits, port as int) && header_says(
                config.host_header,
                host@ + seq![':'] + digits,
            ),
        (Some(host), None) if url.scheme@ == "https"@ => header_says(config.host_header, host@),
        _ => config.host_header is None,
    }
}

pub(crate) proof fn lemma_fitting_config_goes_to(config: TransportConfig, url: BackendUrl)
    requires
        config.fits(url),
    ensures
        goes_to(config, url),
{
    if let (Some(host), Some(port)) = (url.host, url.port) {
        let digits = crate::connect::decimal(port as nat);
        crate::laws::texts::lemma_decimal_writes(port as nat);
        if url.scheme@ == "https"@ {
            assert(header_says(config.host_header, host@ + seq![':'] + digits));
        }
    }
}

/// A backend is connected to by its URL. Where that is an `https` URL with a
/// host, the host header says the host, and behind a colon the port that the
/// URL names, unless a byte of this may not stand in a header; otherwise there
/// is no host header.
pub proof fn law_backends_are_reached_by_their_urls(url: BackendUrl, config: TransportConfig)
    requires
        call_ensures(transport_config, (&url,), config),
    ensures
        config.uri@ == url.text@,
        url.host is None || url.scheme@ != "https"@ ==> config.host_header is None,
        url.host is Some && url.scheme@ == "https"@ ==> exists|text: Seq<char>|
            {
                let bytes = #[trigger] vstd::utf8::encode_utf8(text);
                &&& match url.port {
                    Some(port) => exists|digits: Seq<char>|
                        text == #[trigger] (url.host->0@ + seq![':'] + digits)
                            && crate::laws::texts::writes(digits, port as int),
                    None => text == url.host->0@,
                }
                &&& match config.host_header {
                    Some(value) => value@ == bytes && forall|i: int|
                        0 <= i < bytes.len() ==> #[trigger] bytes[i] == 9 || (bytes[i] > 31
                            && bytes[i] != 127),
                    None => exists|i: int|
                        0 <= i < bytes.len() && #[trigger] bytes[i] != 9 && (bytes[i] <= 31
                            || bytes[i] == 127),
                }
            },
{
    if let Some(host) = url.host {
        let text = match url.port {
            Some(port) => host@ + seq![':'] + crate::connect::decimal(port as nat),
            None => host@,
        };
        if let Some(port) = url.port {
            crate::laws::texts::lemma_decimal_writes(port as nat);
        }
        assert(vstd::utf8::encode_utf8(text) == vstd::utf8::encode_utf8(text));
    }
}

/// The parts of a URL that was read are those that the text was parsed into,
/// each in its place; a text is read exactly where it can be parsed.
pub proof fn law_urls_keep_their_parts(text: &str, url: Option<BackendUrl>)
    requires
        call_ensures(BackendUrl::parse, (text,), url),
    ensures
        match crate::connect::parsed_url(text@) {
            Some((scheme, host, port, whole)) => {
                &&& url matches Some(parts)
                &&& parts.scheme@ == scheme
                &&& parts.port == port
                &&& parts.text@ == whole
                &&& match host {
                    Some(name) => parts.host matches Some(own) && own@ == name,
                    None => parts.host is None,
                }
            },
            None => url is None,
        },
{
}

} // verus!
