//! The response reader: a line-driven parse of the status line, the header
//! block and the body, and the result it produces.
use vstd::prelude::*;

use crate::error::ClientError;
use crate::headers::Headers;
use crate::json::{decode_json, json_valid};
use crate::text::{
    ends_with_newline, find_char, first_index, is_i32_text, parse_i32, signed_value, slice_chars, string_of, strip_eol, strip_eol_chars, trim_end,
    trim_end_chars, trim_quotes, trim_start, trim_start_chars, chars_of,
};

verus! {

/// The synthetic header that holds the protocol version of the status line.
pub open spec fn key_http_version() -> Seq<char> {
    "http_version"@
}

/// The synthetic header that holds the status code of the status line.
pub open spec fn key_status_code() -> Seq<char> {
    "status_code"@
}

/// The synthetic header that holds the reason phrase of the status line.
pub open spec fn key_status() -> Seq<char> {
    "status"@
}

/// The line that ends the header block.
pub open spec fn blank_line() -> Seq<char> {
    "\r\n"@
}

/// The body that stands for an absent one: the empty JSON object.
pub open spec fn empty_body() -> Seq<char> {
    "{}"@
}

/// The status line split into protocol version, status code and reason
/// phrase. The line must be complete (end in a line feed) and needs at least
/// two space-separated tokens; the code is kept as text, whatever it holds.
/// The reason phrase is everything after the second space, with trailing
/// whitespace removed.
pub open spec fn status_line_spec(line: Seq<char>) -> Result<
    (Seq<char>, Seq<char>, Seq<char>),
    ClientError,
> {
    if !ends_with_newline(line) {
        Err(ClientError::Io)
    } else {
        let s = strip_eol(line);
        let p = first_index(s, ' ');
        if p == s.len() {
            Err(ClientError::Protocol)
        } else {
            let rest = s.subrange(p + 1, s.len() as int);
            let q = first_index(rest, ' ');
            let code = rest.subrange(0, q);
            let reason = if q == rest.len() {
                Seq::empty()
            } else {
                trim_end(rest.subrange(q + 1, rest.len() as int))
            };
            Ok((s.subrange(0, p), code, reason))
        }
    }
}

/// A header line split at its first colon into name and value. The line
/// must be complete; the value loses its leading whitespace and the double
/// quotes around it, and the name is kept as received.
pub open spec fn header_line_spec(line: Seq<char>) -> Result<(Seq<char>, Seq<char>), ClientError> {
    if !ends_with_newline(line) {
        Err(ClientError::Io)
    } else {
        let s = strip_eol(line);
        let i = first_index(s, ':');
        if i == s.len() {
            Err(ClientError::Protocol)
        } else {
            Ok((s.subrange(0, i), trim_quotes(trim_start(s.subrange(i + 1, s.len() as int)))))
        }
    }
}

/// Where the reader stands in a response.
#[derive(Debug, Clone, Copy, PartialEq, Eq, Structural)]
pub enum Phase {
    /// Waiting for the status line.
    StatusLine,
    /// Reading header lines up to the blank line.
    Headers,
    /// Waiting for the size line of the chunk.
    ChunkSize,
    /// Waiting for the data line of the chunk.
    ChunkData,
    /// Waiting for the body line of a response with a length.
    Body,
    /// The response is complete.
    Done,
}

/// What the reader has gathered so far.
pub struct ReaderState {
    pub phase: Phase,
    pub headers: Map<Seq<char>, Seq<char>>,
    pub body: Seq<char>,
}

/// The reader before the first line.
pub open spec fn initial_state() -> ReaderState {
    ReaderState { phase: Phase::StatusLine, headers: Map::empty(), body: Seq::empty() }
}

/// How the body is framed, by the headers: a chunked transfer encoding comes
/// first, then a length other than `0`; with neither there is no body.
pub open spec fn body_phase(headers: Map<Seq<char>, Seq<char>>) -> Phase {
    if headers.contains_key("Transfer-Encoding"@) && headers["Transfer-Encoding"@] == "chunked"@ {
        Phase::ChunkSize
    } else if headers.contains_key("Content-Length"@) && headers["Content-Length"@] != "0"@ {
        Phase::Body
    } else {
        Phase::Done
    }
}

/// The headers that a status line sets.
pub open spec fn status_headers(version: Seq<char>, code: Seq<char>, reason: Seq<char>) -> Map<
    Seq<char>,
    Seq<char>,
> {
    Map::empty().insert(key_http_version(), version).insert(key_status_code(), code).insert(
        key_status(),
        reason,
    )
}

/// What one line does to the reader. A line without its line feed means
/// that the stream ended, cutting the read short. Only the first chunk of a chunked body is read, and only one line
/// of a body with a length.
pub open spec fn step(s: ReaderState, line: Seq<char>) -> Result<ReaderState, ClientError> {
    match s.phase {
        Phase::StatusLine => match status_line_spec(line) {
            Ok((version, code, reason)) => Ok(
                ReaderState {
                    phase: Phase::Headers,
                    headers: status_headers(version, code, reason),
                    body: Seq::empty(),
                },
            ),
            Err(e) => Err(e),
        },
        Phase::Headers => if line == blank_line() {
            let next = body_phase(s.headers);
            Ok(
                ReaderState {
                    phase: next,
                    body: if next == Phase::Done {
                        empty_body()
                    } else {
                        s.body
                    },
                    ..s
                },
            )
        } else {
            match header_line_spec(line) {
                Ok((name, value)) => Ok(ReaderState { headers: s.headers.insert(name, value), ..s }),
                Err(e) => Err(e),
            }
        },
        Phase::ChunkSize => if !ends_with_newline(line) {
            Err(ClientError::Io)
        } else {
            Ok(ReaderState { phase: Phase::ChunkData, ..s })
        },
        Phase::ChunkData | Phase::Body => if !ends_with_newline(line) {
            Err(ClientError::Io)
        } else {
            Ok(ReaderState { phase: Phase::Done, body: line, ..s })
        },
        Phase::Done => Ok(s),
    }
}

/// Splits a status line into protocol version, status code and reason.
pub fn parse_status_line(line: &Vec<char>) -> (r: Result<(String, String, String), ClientError>)
    ensures
        match status_line_spec(line@) {
            Ok((version, code, reason)) => r matches Ok((v, c, t)) && v@ == version && c@ == code
                && t@ == reason,
            Err(e) => r == Err::<(String, String, String), ClientError>(e),
        },
{
    let n = line.len();
    if n == 0 || line[n - 1] != '\n' {
        return Err(ClientError::Io);
    }
    let s = strip_eol_chars(line);
    let p = find_char(&s, ' ');
    if p == s.len() {
        return Err(ClientError::Protocol);
    }
    let rest = slice_chars(&s, p + 1, s.len());
    let q = find_char(&rest, ' ');
    let code = slice_chars(&rest, 0, q);
    let reason = if q == rest.len() {
        Vec::new()
    } else {
        trim_end_chars(&slice_chars(&rest, q + 1, rest.len()), false)
    };
    let version = slice_chars(&s, 0, p);
    Ok((string_of(&version), string_of(&code), string_of(&reason)))
}

/// Splits a header line into name and value.
pub fn parse_header_line(line: &Vec<char>) -> (r: Result<(String, String), ClientError>)
    ensures
        match header_line_spec(line@) {
            Ok((name, value)) => r matches Ok((k, v)) && k@ == name && v@ == value,
            Err(e) => r == Err::<(String, String), ClientError>(e),
        },
{
    let n = line.len();
    if n == 0 || line[n - 1] != '\n' {
        return Err(ClientError::Io);
    }
    let s = strip_eol_chars(line);
    let i = find_char(&s, ':');
    if i == s.len() {
        return Err(ClientError::Protocol);
    }
    let name = slice_chars(&s, 0, i);
    let raw = slice_chars(&s, i + 1, s.len());
    let value = trim_end_chars(&trim_start_chars(&trim_start_chars(&raw, false), true), true);
    Ok((string_of(&name), string_of(&value)))
}


/// What a finished response holds: its headers, the body text, and whether
/// that text decoded as JSON.
pub struct ResultView {
    pub headers: Map<Seq<char>, Seq<char>>,
    pub body: Seq<char>,
    pub decoded: bool,
}

/// The result that a finished reader state gives.
pub open spec fn result_of(s: ReaderState) -> ResultView {
    ResultView { headers: s.headers, body: s.body, decoded: json_valid(s.body) }
}

/// Feeds `lines` to the reader from index `i` until the response is
/// complete: the finished state and the index of the first line not read,
/// or the first error. Running out of lines is an I/O error.
pub open spec fn scan(s: ReaderState, lines: Seq<Seq<char>>, i: int) -> Result<
    (ReaderState, int),
    ClientError,
>
    decreases lines.len() - i,
{
    if s.phase == Phase::Done {
        Ok((s, i))
    } else if i < 0 || i >= lines.len() {
        Err(ClientError::Io)
    } else {
        match step(s, lines[i]) {
            Ok(t) => scan(t, lines, i + 1),
            Err(e) => Err(e),
        }
    }
}

/// The character sequences of `lines`.
pub open spec fn line_views(lines: Seq<String>) -> Seq<Seq<char>> {
    lines.map_values(|l: String| l@)
}

/// One HTTP response, read and decoded.
#[derive(Debug)]
pub struct DockerResult {
    headers: Headers,
    body: String,
    data: Result<serde_json::Value, serde_json::Error>,
}

impl View for DockerResult {
    type V = ResultView;

    closed spec fn view(&self) -> ResultView {
        ResultView {
            headers: self.headers@,
            body: self.body@,
            decoded: self.data is Ok,
        }
    }
}

impl DockerResult {
    /// The status code, read from the `status_code` header: `None` where
    /// that header is absent or is not the decimal text of an `i32`.
    pub fn status_code(&self) -> (r: Option<i32>)
        ensures
            r is Some <==> self@.headers.contains_key(key_status_code()) && is_i32_text(
                self@.headers[key_status_code()],
            ),
            r is Some ==> r->0 as int == signed_value(self@.headers[key_status_code()]),
    {
        match self.headers.get("status_code") {
            Some(text) => parse_i32(&chars_of(text.as_str())),
            None => None,
        }
    }

    /// The headers, with the synthetic `http_version`, `status_code` and
    /// `status` entries.
    pub fn headers(&self) -> (r: &Headers)
        ensures
            r@ == self@.headers,
    {
        &self.headers
    }

    /// The body text that was decoded.
    pub fn body(&self) -> (r: &String)
        ensures
            r@ == self@.body,
    {
        &self.body
    }

    /// The decoded payload, or why the body did not decode.
    pub fn data(&self) -> (r: &Result<serde_json::Value, serde_json::Error>)
        ensures
            r is Ok == self@.decoded,
    {
        &self.data
    }
}

/// A response reader, fed one line at a time.
#[derive(Debug)]
pub struct ResponseReader {
    phase: Phase,
    headers: Headers,
    body: String,
}

impl View for ResponseReader {
    type V = ReaderState;

    closed spec fn view(&self) -> ReaderState {
        ReaderState {
            phase: self.phase,
            headers: self.headers@,
            body: self.body@,
        }
    }
}

impl ResponseReader {
    /// A reader waiting for the status line.
    pub fn new() -> (r: ResponseReader)
        ensures
            r@ == initial_state(),
    {
        ResponseReader {
            phase: Phase::StatusLine,
            headers: Headers::new(),
            body: String::new(),
        }
    }

    /// Where the reader stands.
    pub fn phase(&self) -> (r: Phase)
        ensures
            r == self@.phase,
    {
        self.phase
    }

    /// Whether the response is complete.
    pub fn is_complete(&self) -> (r: bool)
        ensures
            r == (self@.phase == Phase::Done),
    {
        self.phase == Phase::Done
    }

    /// The framing that the headers read so far call for.
    fn framing(&self) -> (r: Phase)
        ensures
            r == body_phase(self@.headers),
    {
        let te = "Transfer-Encoding".to_owned();
        let chunked = "chunked".to_owned();
        let cl = "Content-Length".to_owned();
        let zero = "0".to_owned();
        match self.headers.get_string(&te) {
            Some(v) => {
                if *v == chunked {
                    return Phase::ChunkSize;
                }
            },
            None => {},
        }
        match self.headers.get_string(&cl) {
            Some(v) => {
                if *v == zero {
                    Phase::Done
                } else {
                    Phase::Body
                }
            },
            None => Phase::Done,
        }
    }

    /// Feeds the next line of the response, with its line terminator; a
    /// line without one (empty where nothing was left) means that the
    /// stream ended. On an error the reader is left as it was.
    pub fn feed_line(&mut self, line: &str) -> (r: Result<(), ClientError>)
        ensures
            match step(old(self)@, line@) {
                Ok(t) => r is Ok && final(self)@ == t,
                Err(e) => r == Err::<(), ClientError>(e) && final(self)@ == old(self)@,
            },
    {
        let v = chars_of(line);
        match self.phase {
            Phase::StatusLine => {
                match parse_status_line(&v) {
                    Ok((version, code, reason)) => {
                        let mut headers = Headers::new();
                        headers.insert("http_version".to_owned(), version);
                        headers.insert("status_code".to_owned(), code);
                        headers.insert("status".to_owned(), reason);
                        self.headers = headers;
                        self.body = String::new();
                        self.phase = Phase::Headers;
                        Ok(())
                    },
                    Err(e) => Err(e),
                }
            },
            Phase::Headers => {
                proof {
                    reveal_strlit("\r\n");
                }
                if v.len() == 2 && v[0] == '\r' && v[1] == '\n' {
                    assert(line@ =~= blank_line());
                    let next = self.framing();
                    if next == Phase::Done {
                        self.body = "{}".to_owned();
                    }
                    self.phase = next;
                    Ok(())
                } else {
                    assert(line@ != blank_line()) by {
                        if line@ == blank_line() {
                            assert(v@.len() == 2 && v@[0] == '\r' && v@[1] == '\n');
                        }
                    }
                    match parse_header_line(&v) {
                        Ok((name, value)) => {
                            self.headers.insert(name, value);
                            Ok(())
                        },
                        Err(e) => Err(e),
                    }
                }
            },
            Phase::ChunkSize => {
                if v.len() == 0 || v[v.len() - 1] != '\n' {
                    Err(ClientError::Io)
                } else {
                    self.phase = Phase::ChunkData;
                    Ok(())
                }
            },
            Phase::ChunkData | Phase::Body => {
                if v.len() == 0 || v[v.len() - 1] != '\n' {
                    Err(ClientError::Io)
                } else {
                    self.body = line.to_owned();
                    self.phase = Phase::Done;
                    Ok(())
                }
            },
            Phase::Done => Ok(()),
        }
    }

    /// The finished response, with its body decoded as JSON.
    pub fn into_result(self) -> (r: DockerResult)
        requires
            self@.phase == Phase::Done,
        ensures
            r@ == result_of(self@),
            self@.body == empty_body() ==> r@.decoded,
    {
        let data = decode_json(self.body.as_str());
        DockerResult { headers: self.headers, body: self.body, data }
    }
}

/// Reads one response from `lines`, each a line with its terminator: the
/// result and the number of lines read, or the error of the first line that
/// failed, or an I/O error where the lines end before the response does.
pub fn read_response(lines: &Vec<String>) -> (r: Result<(DockerResult, usize), ClientError>)
    ensures
        match scan(initial_state(), line_views(lines@), 0) {
            Ok((t, n)) => r matches Ok((res, m)) && res@ == result_of(t) && m as int == n,
            Err(e) => r matches Err(x) && x == e,
        },
        r matches Ok((res, _)) ==> (res@.body == empty_body() ==> res@.decoded),
{
    let mut reader = ResponseReader::new();
    let mut i: usize = 0;
    while !reader.is_complete()
        invariant
            i <= lines.len(),
            scan(reader@, line_views(lines@), i as int) == scan(
                initial_state(),
                line_views(lines@),
                0,
            ),
        decreases lines.len() - i,
    {
        if i >= lines.len() {
            return Err(ClientError::Io);
        }
        assert(line_views(lines@)[i as int] == lines@[i as int]@);
        match reader.feed_line(lines[i].as_str()) {
            Ok(()) => {},
            Err(e) => {
                return Err(e);
            },
        }
        i = i + 1;
    }
    Ok((reader.into_result(), i))
}

} // verus!
