//! The addresses of the daemon's control API.

use vstd::prelude::*;
use vstd::string::*;

verus! {

/// Where the daemon's control API listens unless told otherwise.
pub const DEFAULT_API_URL: &'static str = "http://127.0.0.1:9090";

/// What the API is asked for.
#[derive(Clone, Copy, Debug, PartialEq, Eq, Structural)]
pub enum Endpoint {
    /// All proxies and groups.
    Proxies,
    /// The running configuration.
    Configs,
    /// The traffic counters, as a stream.
    Traffic,
    /// The daemon's version.
    Version,
    /// The open connections.
    Connections,
    /// The log at level `info`, as a stream.
    Logs,
}

impl Endpoint {
    /// The path and query of the endpoint.
    pub open spec fn path_of(self) -> Seq<char> {
        match self {
            Endpoint::Proxies => "/proxies"@,
            Endpoint::Configs => "/configs"@,
            Endpoint::Traffic => "/traffic"@,
            Endpoint::Version => "/version"@,
            Endpoint::Connections => "/connections"@,
            Endpoint::Logs => "/logs?level=info"@,
        }
    }

    /// The path and query of the endpoint.
    pub fn path(&self) -> (path: &'static str)
        ensures
            path@ == self.path_of(),
    {
        match self {
            Endpoint::Proxies => "/proxies",
            Endpoint::Configs => "/configs",
            Endpoint::Traffic => "/traffic",
            Endpoint::Version => "/version",
            Endpoint::Connections => "/connections",
            Endpoint::Logs => "/logs?level=info",
        }
    }

    /// The address of the endpoint at the API that listens at `base`.
    pub fn url(&self, base: &str) -> (url: String)
        ensures
            url@ == base@ + self.path_of(),
    {
        String::from_str(base).concat(self.path())
    }
}

/// The bytes that stand for themselves in an address: letters, digits, and
/// `-`, `.`, `_`, `~`.
pub open spec fn is_unreserved(byte: u8) -> bool {
    ||| 48 <= byte <= 57
    ||| 65 <= byte <= 90
    ||| 97 <= byte <= 122
    ||| byte == 45
    ||| byte == 46
    ||| byte == 95
    ||| byte == 126
}

/// The upper-case hexadecimal digit of a number below 16.
pub open spec fn hex_digit(nibble: u8) -> char {
    if nibble < 10 {
        (48 + nibble) as u8 as char
    } else {
        (55 + nibble) as u8 as char
    }
}

/// A byte as it stands in an address: itself where it is unreserved, else a
/// percent sign and its two hexadecimal digits.
pub open spec fn percent_encoded_byte(byte: u8) -> Seq<char> {
    if is_unreserved(byte) {
        seq![byte as char]
    } else {
        seq!['%', hex_digit(byte / 16), hex_digit(byte % 16)]
    }
}

/// Bytes as they stand in an address.
pub open spec fn percent_encoded(bytes: Seq<u8>) -> Seq<char>
    decreases bytes.len(),
{
    if bytes.len() == 0 {
        Seq::empty()
    } else {
        percent_encoded(bytes.drop_last()) + percent_encoded_byte(bytes.last())
    }
}

/// Calls `urlencoding::encode`, which percent-encodes every byte of a text
/// but letters, digits and `-`, `.`, `_`, `~`, with upper-case hexadecimal
/// digits.
#[verifier::external_body]
fn percent_encode(text: &str) -> (encoded: String)
    ensures
        encoded@ == percent_encoded(text.spec_bytes()),
{
    urlencoding::encode(text).into_owned()
}

/// The address at which a group's selection is changed. The group's name
/// goes into the path as it is.
pub fn proxy_url(base: &str, group: &str) -> (url: String)
    ensures
        url@ == base@ + "/proxies/"@ + group@,
{
    String::from_str(base).concat("/proxies/").concat(group)
}

/// The address at which the delay of a proxy is measured: against a page
/// that answers with no content, with five seconds to answer.
pub fn delay_url(base: &str, proxy: &str) -> (url: String)
    ensures
        url@ == base@ + "/proxies/"@ + percent_encoded(proxy.spec_bytes())
            + "/delay?timeout=5000&url=http://www.gstatic.com/generate_204"@,
{
    let encoded = percent_encode(proxy);
    String::from_str(base).concat("/proxies/").concat(encoded.as_str()).concat(
        "/delay?timeout=5000&url=http://www.gstatic.com/generate_204",
    )
}

} // verus!
