//! The browser-emulating header set shared by the session handshake and
//! every page request.

use vstd::prelude::*;
use vstd::string::StringSliceAdditionalSpecFns;
use vstd::string::StrSliceExecFns;

verus! {

/// One HTTP header, name and value, as plain bytes.
#[derive(Debug, Clone)]
pub struct HeaderPair {
    pub name: Vec<u8>,
    pub value: Vec<u8>,
}

/// The names and values of the six browser-emulating headers, in the order
/// they are sent.
pub open spec fn static_headers_model() -> Seq<(Seq<u8>, Seq<u8>)> {
    seq![
        ("user-agent".spec_bytes(), "Mozilla/5.0".spec_bytes()),
        ("accept".spec_bytes(), "*/*".spec_bytes()),
        ("accept-language".spec_bytes(), "de,en-US;q=0.7,en;q=0.3".spec_bytes()),
        ("accept-encoding".spec_bytes(), "gzip, deflate, br, zstd".spec_bytes()),
        ("origin".spec_bytes(), "https://www.tutti.ch".spec_bytes()),
        ("connection".spec_bytes(), "keep-alive".spec_bytes()),
    ]
}

/// Whether a header list equals [`static_headers_model`], pair for pair.
pub open spec fn headers_match(headers: Seq<HeaderPair>, model: Seq<(Seq<u8>, Seq<u8>)>) -> bool {
    headers.len() == model.len() && forall|i: int|
        0 <= i < headers.len() ==> (#[trigger] headers[i]).name@ == model[i].0
            && headers[i].value@ == model[i].1
}

/// The static browser-emulating headers, identical across all requests of
/// a retrieval call.
pub fn init_headers() -> (r: Vec<HeaderPair>)
    ensures
        headers_match(r@, static_headers_model()),
{
    let mut headers: Vec<HeaderPair> = Vec::new();
    headers.push(
        HeaderPair { name: "user-agent".as_bytes_vec(), value: "Mozilla/5.0".as_bytes_vec() },
    );
    headers.push(HeaderPair { name: "accept".as_bytes_vec(), value: "*/*".as_bytes_vec() });
    headers.push(
        HeaderPair {
            name: "accept-language".as_bytes_vec(),
            value: "de,en-US;q=0.7,en;q=0.3".as_bytes_vec(),
        },
    );
    headers.push(
        HeaderPair {
            name: "accept-encoding".as_bytes_vec(),
            value: "gzip, deflate, br, zstd".as_bytes_vec(),
        },
    );
    headers.push(
        HeaderPair { name: "origin".as_bytes_vec(), value: "https://www.tutti.ch".as_bytes_vec() },
    );
    headers.push(
        HeaderPair { name: "connection".as_bytes_vec(), value: "keep-alive".as_bytes_vec() },
    );
    headers
}

} // verus!
