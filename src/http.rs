use crate::alpn::{lossy_utf8, utf8_lossy};
use vstd::prelude::*;
use vstd::string::*;

verus! {

#[verifier::external_type_specification]
#[verifier::external_body]
pub struct ExHttparseError(httparse::Error);

/// What a plain HTTP exchange reports about a server.
pub struct HTTP {
    pub version: String,
    pub response_code: isize,
    pub response_time: String,
    pub server_type: String,
    pub content_encoding: String,
    pub server_ip: String,
    pub server_port: isize,
}

/// A response header, its value read as text.
pub struct HeaderLine {
    pub name: String,
    pub value: String,
}

/// Why a response could not be read.
#[derive(Clone, Copy, Debug, PartialEq, Eq, Structural)]
pub enum HttpError {
    /// The response head is not valid HTTP/1.x.
    Malformed,
}

/// The request line and headers of a `GET` for `path` on `host`.
pub open spec fn request_text(host: Seq<char>, path: Seq<char>) -> Seq<char> {
    "GET "@ + path + " HTTP/1.1\r\nHost: "@ + host
        + "\r\nConnection: close\r\nAccept-Encoding: gzip,deflate\r\n\r\n"@
}

/// What parsing a response head yields: `None` when it is malformed, else
/// `None` inside while it is incomplete, or the headers' names and values.
pub uninterp spec fn parsed_response(b: Seq<u8>) -> Option<Option<Seq<(Seq<char>, Seq<u8>)>>>;

pub open spec fn headers_view(h: Seq<(String, Vec<u8>)>) -> Seq<(Seq<char>, Seq<u8>)> {
    h.map_values(|p: (String, Vec<u8>)| (p.0@, p.1@))
}

/// Relies on `httparse::Response::parse` with room for 64 headers: the parsed
/// headers once the head is complete, `None` while it is partial.
#[verifier::external_body]
fn parse_response(buf: &[u8]) -> (r: Result<Option<Vec<(String, Vec<u8>)>>, httparse::Error>)
    ensures
        r is Err <==> parsed_response(buf@) is None,
        r matches Ok(None) ==> parsed_response(buf@) == Some(None::<Seq<(Seq<char>, Seq<u8>)>>),
        r matches Ok(Some(h)) ==> parsed_response(buf@) == Some(Some(headers_view(h@))),
{
    let mut headers = [httparse::EMPTY_HEADER; 64];
    let mut resp = httparse::Response::new(&mut headers);
    let status = resp.parse(buf)?;
    if status.is_partial() {
        return Ok(None);
    }
    Ok(Some(resp.headers.iter().map(|h| (h.name.to_string(), h.value.to_vec())).collect()))
}

/// The header lines of parsed headers: each name with its value read as text.
pub open spec fn header_lines(h: Seq<(Seq<char>, Seq<u8>)>) -> Seq<(Seq<char>, Seq<char>)> {
    h.map_values(|p: (Seq<char>, Seq<u8>)| (p.0, lossy_utf8(p.1)))
}

pub open spec fn lines_view(v: Seq<HeaderLine>) -> Seq<(Seq<char>, Seq<char>)> {
    v.map_values(|l: HeaderLine| (l.name@, l.value@))
}

impl HTTP {
    /// The `GET` request for `path` on `host`, asking the server to close the
    /// connection after its answer.
    pub fn new(host: &str, path: &str) -> (r: String)
        ensures
            r@ == request_text(host@, path@),
    {
        let mut r = String::from_str("GET ");
        r.append(path);
        r.append(" HTTP/1.1\r\nHost: ");
        r.append(host);
        r.append("\r\nConnection: close\r\nAccept-Encoding: gzip,deflate\r\n\r\n");
        r
    }
}

/// The header lines of the response `response`: empty while its head is
/// incomplete, `Malformed` when it is not valid HTTP.
pub fn response_parser(response: &[u8]) -> (r: Result<Vec<HeaderLine>, HttpError>)
    ensures
        r is Err <==> parsed_response(response@) is None,
        r matches Ok(v) ==> match parsed_response(response@) {
            Some(Some(h)) => lines_view(v@) == header_lines(h),
            _ => v@.len() == 0,
        },
{
    match parse_response(response) {
        Err(_) => Err(HttpError::Malformed),
        Ok(None) => Ok(Vec::new()),
        Ok(Some(headers)) => {
            let ghost h = headers_view(headers@);
            let mut out: Vec<HeaderLine> = Vec::new();
            let mut i: usize = 0;
            while i < headers.len()
                invariant
                    i <= headers@.len(),
                    h == headers_view(headers@),
                    out@.len() == i,
                    lines_view(out@) == header_lines(h.subrange(0, i as int)),
                decreases headers@.len() - i,
            {
                let (name, value) = &headers[i];
                assert(h[i as int] == (name@, value@));
                let line = HeaderLine { name: name.clone(), value: utf8_lossy(value.as_slice()) };
                assert(line.name@ == name@ && line.value@ == lossy_utf8(value@));
                let ghost before = out@;
                out.push(line);
                assert(out@ == before.push(line));
                proof {
                    let prev = h.subrange(0, i as int);
                    let next = h.subrange(0, i as int + 1);
                    assert forall|k: int| 0 <= k <= i implies lines_view(out@)[k] == header_lines(
                        next,
                    )[k] by {
                        if k < i {
                            assert(lines_view(before)[k] == header_lines(prev)[k]);
                            assert(prev[k] == next[k]);
                        } else {
                            assert(out@[k] == line);
                            assert(next[k] == h[k]);
                            assert(lines_view(out@)[k] == (line.name@, line.value@));
                            assert(header_lines(next)[k] == (h[k].0, lossy_utf8(h[k].1)));
                        }
                    }
                    assert(lines_view(out@) =~= header_lines(next));
                }
                i = i + 1;
            }
            assert(h.subrange(0, i as int) =~= h);
            Ok(out)
        },
    }
}

} // verus!
