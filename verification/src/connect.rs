//! How the gateway connects to a backend, from the backend's URL.

use vstd::prelude::*;
use vstd::string::*;

use crate::order::same_text;

verus! {

/// A URL taken apart.
#[derive(Debug, PartialEq, Eq)]
pub struct BackendUrl {
    pub scheme: String,
    pub host: Option<String>,
    /// The port, unless it is the scheme's own.
    pub port: Option<u16>,
    /// The whole URL in its normal form.
    pub text: String,
}

/// The text of an optional string.
pub open spec fn opt_text(text: Option<String>) -> Option<Seq<char>> {
    match text {
        Some(t) => Some(t@),
        None => None,
    }
}

/// What `url::Url::parse` makes of a text: the scheme, the host, the port and
/// the serialization of the URL, or nothing where the text is no URL.
pub uninterp spec fn parsed_url(text: Seq<char>) -> Option<
    (Seq<char>, Option<Seq<char>>, Option<u16>, Seq<char>),
>;

/// Calls `url::Url::parse` and reads `scheme`, `host_str`, `port` and `as_str`
/// off the URL. What is believed of it: the outcome depends on the text alone.
#[verifier::external_body]
fn parse_url(text: &str) -> (url: Option<BackendUrl>)
    ensures
        match url {
            Some(u) => parsed_url(text@) == Some(u.parts()),
            None => parsed_url(text@) is None,
        },
{
    match url::Url::parse(text) {
        Ok(u) => Some(
            BackendUrl {
                scheme: u.scheme().to_owned(),
                host: u.host_str().map(str::to_owned),
                port: u.port(),
                text: u.as_str().to_owned(),
            },
        ),
        Err(_) => None,
    }
}

impl BackendUrl {
    /// Takes a URL apart; nothing where the text is no URL.
    pub fn parse(text: &str) -> (url: Option<BackendUrl>)
        ensures
            match url {
                Some(u) => parsed_url(text@) == Some(u.parts()),
                None => parsed_url(text@) is None,
            },
    {
        parse_url(text)
    }

    /// The scheme, the host, the port and the serialization of the URL.
    pub open spec fn parts(self) -> (Seq<char>, Option<Seq<char>>, Option<u16>, Seq<char>) {
        (self.scheme@, opt_text(self.host), self.port, self.text@)
    }
}

/// Whether a byte may stand in the value of a header.
pub open spec fn is_header_byte(b: u8) -> bool {
    b == 9 || (b >= 32 && b != 127)
}

/// Whether a text can be the value of a header.
pub open spec fn is_header_text(text: Seq<char>) -> bool {
    forall|i: int|
        0 <= i < vstd::utf8::encode_utf8(text).len() ==> is_header_byte(
            #[trigger] vstd::utf8::encode_utf8(text)[i],
        )
}

/// Calls `http::HeaderValue::from_str`. What is believed of it: a text is
/// refused exactly where one of its bytes is a control character other than
/// the tab, and the value holds the bytes of the text.
#[verifier::external_body]
fn header_value(text: &str) -> (value: Option<Vec<u8>>)
    ensures
        value is Some <==> is_header_text(text@),
        value matches Some(bytes) ==> bytes@ == vstd::utf8::encode_utf8(text@),
{
    match http::HeaderValue::from_str(text) {
        Ok(value) => Some(value.as_bytes().to_vec()),
        Err(_) => None,
    }
}

/// The character of a decimal digit.
pub open spec fn digit(d: nat) -> char {
    ('0' as nat + d) as char
}

/// A number in decimal notation.
pub open spec fn decimal(n: nat) -> Seq<char>
    decreases n,
{
    if n < 10 {
        seq![digit(n)]
    } else {
        decimal(n / 10).push(digit(n % 10))
    }
}

fn digit_text(d: u16) -> (text: &'static str)
    requires
        d < 10,
    ensures
        text@ == seq![digit(d as nat)],
{
    proof {
        reveal_strlit("0");
        reveal_strlit("1");
        reveal_strlit("2");
        reveal_strlit("3");
        reveal_strlit("4");
        reveal_strlit("5");
        reveal_strlit("6");
        reveal_strlit("7");
        reveal_strlit("8");
        reveal_strlit("9");
    }
    match d {
        0 => "0",
        1 => "1",
        2 => "2",
        3 => "3",
        4 => "4",
        5 => "5",
        6 => "6",
        7 => "7",
        8 => "8",
        _ => "9",
    }
}

/// Appends a number in decimal notation.
fn append_decimal(text: &mut String, n: u16)
    ensures
        final(text)@ == old(text)@ + decimal(n as nat),
    decreases n,
{
    if n >= 10 {
        append_decimal(text, n / 10);
    }
    text.append(digit_text(n % 10));
    assert(text@ =~= old(text)@ + decimal(n as nat));
}

/// What the host header of a connection says: the host of an `https` URL, with
/// the port where the URL names one; nothing for other URLs.
pub open spec fn host_text(
    scheme: Seq<char>,
    host: Option<Seq<char>>,
    port: Option<u16>,
) -> Option<Seq<char>> {
    match host {
        Some(h) => if scheme == "https"@ {
            match port {
                Some(p) => Some(h + seq![':'] + decimal(p as nat)),
                None => Some(h),
            }
        } else {
            None
        },
        None => None,
    }
}

/// How to connect to a backend.
#[derive(Debug, PartialEq, Eq)]
pub struct TransportConfig {
    /// The address of the backend.
    pub uri: String,
    /// The value of the host header, where one is set.
    pub host_header: Option<Vec<u8>>,
}

impl TransportConfig {
    /// Whether this is how to connect to a URL: by its serialization, with the
    /// host header that it calls for, unless the text of that header cannot be
    /// the value of one.
    pub open spec fn fits(self, url: BackendUrl) -> bool {
        let (scheme, host, port, text) = url.parts();
        &&& self.uri@ == text
        &&& match (host_text(scheme, host, port), self.host_header) {
            (Some(wanted), Some(value)) => is_header_text(wanted) && value@
                == vstd::utf8::encode_utf8(wanted),
            (Some(wanted), None) => !is_header_text(wanted),
            (None, header) => header is None,
        }
    }
}

/// Decides how to connect to a backend with this URL.
pub fn transport_config(url: &BackendUrl) -> (config: TransportConfig)
    ensures
        config.fits(*url),
{
    let mut host_header: Option<Vec<u8>> = None;
    if let Some(host) = &url.host {
        if same_text(url.scheme.as_str(), "https") {
            let mut wanted: String = host.clone();
            if let Some(port) = url.port {
                proof {
                    reveal_strlit(":");
                }
                assert(":"@ =~= seq![':']);
                wanted.append(":");
                append_decimal(&mut wanted, port);
            }
            host_header = header_value(wanted.as_str());
        }
    }
    TransportConfig { uri: url.text.clone(), host_header }
}

} // verus!
