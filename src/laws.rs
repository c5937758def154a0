//! Properties of the response reader that hold across lines and calls.
use vstd::prelude::*;

use crate::error::ClientError;
use crate::response::{
    blank_line, body_phase, empty_body, header_line_spec, key_http_version, key_status, key_status_code, scan,
    status_headers,
    status_line_spec, step, initial_state, Phase, ReaderState,
};
use crate::text::{ends_with_newline, first_index, is_space, lemma_first_index, lemma_trim_end_at, strip_eol};

verus! {

/// The headers after the header lines `hdrs`, applied in order to `m`.
pub open spec fn fold_headers(m: Map<Seq<char>, Seq<char>>, hdrs: Seq<Seq<char>>) -> Map<
    Seq<char>,
    Seq<char>,
>
    decreases hdrs.len(),
{
    if hdrs.len() == 0 {
        m
    } else {
        match header_line_spec(hdrs[0]) {
            Ok((name, value)) => fold_headers(m.insert(name, value), hdrs.drop_first()),
            Err(_) => m,
        }
    }
}

/// The synthetic headers that a status line sets, or none if it is malformed.
pub open spec fn status_map(line: Seq<char>) -> Map<Seq<char>, Seq<char>> {
    match status_line_spec(line) {
        Ok((version, code, reason)) => status_headers(version, code, reason),
        Err(_) => Map::empty(),
    }
}

/// A status line keeps its code as text and its whole reason phrase: with a
/// version and a code free of spaces, everything after the second space, spaces included, is
/// the reason (less trailing whitespace, of which this one has none).
pub proof fn lemma_reason_phrase_kept(version: Seq<char>, code: Seq<char>, reason: Seq<char>)
    requires
        forall|i: int| 0 <= i < version.len() ==> version[i] != ' ',
        forall|i: int| 0 <= i < code.len() ==> code[i] != ' ',
        reason.len() == 0 || !is_space(reason.last()),
    ensures
        status_line_spec(version + " "@ + code + " "@ + reason + "\r\n"@) == Ok::<
            (Seq<char>, Seq<char>, Seq<char>),
            ClientError,
        >((version, code, reason)),
{
    reveal_strlit(" ");
    reveal_strlit("\r\n");
    let line = version + " "@ + code + " "@ + reason + "\r\n"@;
    let s = version + " "@ + code + " "@ + reason;
    assert(strip_eol(line) =~= s);
    lemma_first_index(s, ' ', version.len() as int);
    let rest = s.subrange(version.len() as int + 1, s.len() as int);
    assert(rest =~= code + " "@ + reason);
    lemma_first_index(rest, ' ', code.len() as int);
    assert(rest.subrange(0, code.len() as int) =~= code);
    let tail = rest.subrange(code.len() as int + 1, rest.len() as int);
    assert(tail =~= reason);
    lemma_trim_end_at(reason, false, reason.len() as int);
    assert(reason.subrange(0, reason.len() as int) =~= reason);
    assert(s.subrange(0, version.len() as int) =~= version);
}

/// A response of a status line and the blank line alone is read whole, in
/// two lines: its synthetic headers hold the version, the code and the full
/// reason phrase, words and inner spaces included, and its body is the
/// empty object.
pub proof fn lemma_status_line_read_whole(
    version: Seq<char>,
    code: Seq<char>,
    reason: Seq<char>,
    rest: Seq<Seq<char>>,
)
    requires
        forall|i: int| 0 <= i < version.len() ==> version[i] != ' ',
        forall|i: int| 0 <= i < code.len() ==> code[i] != ' ',
        reason.len() == 0 || !is_space(reason.last()),
    ensures
        ({
            let lines = seq![version + " "@ + code + " "@ + reason + "\r\n"@, blank_line()] + rest;
            scan(initial_state(), lines, 0) matches Ok((t, n)) && n == 2 && t.phase == Phase::Done
                && t.body == empty_body() && t.headers.contains_key(key_http_version())
                && t.headers[key_http_version()] == version && t.headers.contains_key(
                key_status_code(),
            ) && t.headers[key_status_code()] == code && t.headers.contains_key(key_status())
                && t.headers[key_status()] == reason
        }),
{
    let line = version + " "@ + code + " "@ + reason + "\r\n"@;
    let lines = seq![line, blank_line()] + rest;
    lemma_reason_phrase_kept(version, code, reason);
    reveal_strlit("http_version");
    reveal_strlit("status_code");
    reveal_strlit("status");
    reveal_strlit("Transfer-Encoding");
    reveal_strlit("Content-Length");
    let h = status_headers(version, code, reason);
    assert(key_http_version().len() == 12 && key_status_code().len() == 11 && key_status().len()
        == 6);
    assert("Transfer-Encoding"@.len() == 17 && "Content-Length"@.len() == 14);
    assert(!h.contains_key("Transfer-Encoding"@)) by {
        assert(h.dom() =~= set![key_http_version(), key_status_code(), key_status()]);
    }
    assert(!h.contains_key("Content-Length"@)) by {
        assert(h.dom() =~= set![key_http_version(), key_status_code(), key_status()]);
    }
    assert(body_phase(h) == Phase::Done);
    assert(lines[0] == line);
    assert(lines[1] == blank_line());
    let s1 = ReaderState { phase: Phase::Headers, headers: h, body: Seq::empty() };
    assert(step(initial_state(), line) == Ok::<ReaderState, ClientError>(s1));
    let s2 = ReaderState { phase: Phase::Done, headers: h, body: empty_body() };
    assert(step(s1, blank_line()) == Ok::<ReaderState, ClientError>(s2));
    assert(scan(s2, lines, 2) == Ok::<(ReaderState, int), ClientError>((s2, 2)));
    assert(scan(s1, lines, 1) == scan(s2, lines, 2));
    assert(scan(initial_state(), lines, 0) == scan(s1, lines, 1));
}

/// A response without a chunked encoding and without a length other than
/// `0` has no body: the blank line completes it, with the empty JSON object
/// as its body, and the headers as they were.
pub proof fn lemma_unframed_body_is_empty_object(s: ReaderState)
    requires
        s.phase == Phase::Headers,
        !(s.headers.contains_key("Transfer-Encoding"@) && s.headers["Transfer-Encoding"@]
            == "chunked"@),
        !s.headers.contains_key("Content-Length"@) || s.headers["Content-Length"@] == "0"@,
    ensures
        step(s, blank_line()) == Ok::<ReaderState, ClientError>(
            ReaderState { phase: Phase::Done, body: empty_body(), ..s },
        ),
{
    assert(body_phase(s.headers) == Phase::Done);
}

/// A header line without a colon is a protocol error, and leaves the
/// reader (and so the headers read before it) as it was.
pub proof fn lemma_header_without_colon_rejected(s: ReaderState, line: Seq<char>)
    requires
        s.phase == Phase::Headers,
        line.len() > 0 && line.last() == '\n',
        line != blank_line(),
        first_index(strip_eol(line), ':') == strip_eol(line).len(),
    ensures
        step(s, line) == Err::<ReaderState, ClientError>(ClientError::Protocol),
{
}

proof fn lemma_scan_header_lines(s: ReaderState, lines: Seq<Seq<char>>, i: int, hdrs: Seq<Seq<char>>)
    requires
        s.phase == Phase::Headers,
        0 <= i,
        i + hdrs.len() <= lines.len(),
        forall|j: int| 0 <= j < hdrs.len() ==> lines[i + j] == #[trigger] hdrs[j],
        forall|j: int|
            0 <= j < hdrs.len() ==> #[trigger] hdrs[j] != blank_line() && header_line_spec(hdrs[j]) is Ok,
    ensures
        scan(s, lines, i) == scan(
            ReaderState { headers: fold_headers(s.headers, hdrs), ..s },
            lines,
            i + hdrs.len(),
        ),
    decreases hdrs.len(),
{
    if hdrs.len() == 0 {
        assert(ReaderState { headers: fold_headers(s.headers, hdrs), ..s } == s);
    } else {
        assert(lines[i] == hdrs[0]);
        assert(hdrs[0] != blank_line() && header_line_spec(hdrs[0]) is Ok);
        let (name, value) = header_line_spec(hdrs[0])->Ok_0;
        let t = ReaderState { headers: s.headers.insert(name, value), ..s };
        assert(step(s, lines[i]) == Ok::<ReaderState, ClientError>(t));
        let rest = hdrs.drop_first();
        assert forall|j: int| 0 <= j < rest.len() implies lines[i + 1 + j] == #[trigger] rest[j] by {
            assert(rest[j] == hdrs[j + 1]);
        }
        assert forall|j: int| 0 <= j < rest.len() implies #[trigger] rest[j] != blank_line()
            && header_line_spec(rest[j]) is Ok by {
            assert(rest[j] == hdrs[j + 1]);
        }
        lemma_scan_header_lines(t, lines, i + 1, rest);
    }
}

proof fn lemma_scan_keeps_headers(s: ReaderState, lines: Seq<Seq<char>>, i: int)
    requires
        s.phase != Phase::StatusLine && s.phase != Phase::Headers,
    ensures
        scan(s, lines, i) matches Ok((t, n)) ==> t.headers == s.headers && n >= i,
    decreases lines.len() - i,
{
    if s.phase != Phase::Done && 0 <= i < lines.len() {
        match step(s, lines[i]) {
            Ok(t) => lemma_scan_keeps_headers(t, lines, i + 1),
            Err(_) => {},
        }
    }
}

/// The header block ends exactly at the blank line: whatever follows it,
/// the headers of a response read from a status line, header lines and the
/// blank line are those that the status line and header lines set, and
/// reading goes on past the blank line.
pub proof fn lemma_header_block_ends_at_blank_line(
    status: Seq<char>,
    hdrs: Seq<Seq<char>>,
    rest: Seq<Seq<char>>,
)
    requires
        forall|j: int|
            0 <= j < hdrs.len() ==> #[trigger] hdrs[j] != blank_line() && header_line_spec(hdrs[j]) is Ok,
    ensures
        scan(initial_state(), seq![status] + hdrs + seq![blank_line()] + rest, 0) matches Ok((t, n))
            ==> t.headers == fold_headers(status_map(status), hdrs) && n >= hdrs.len() + 2,
{
    let lines = seq![status] + hdrs + seq![blank_line()] + rest;
    let k = hdrs.len() as int;
    assert(lines[0] == status);
    match status_line_spec(status) {
        Ok((version, code, reason)) => {
            let s1 = match step(initial_state(), status) {
                Ok(t) => t,
                Err(_) => initial_state(),
            };
            assert(s1.phase == Phase::Headers);
            assert(s1.headers == status_map(status));
            assert forall|j: int| 0 <= j < hdrs.len() implies lines[1 + j] == #[trigger] hdrs[j] by {
                assert(lines[1 + j] == hdrs[j]);
            }
            lemma_scan_header_lines(s1, lines, 1, hdrs);
            let s2 = ReaderState { headers: fold_headers(s1.headers, hdrs), ..s1 };
            assert(lines[1 + k] == blank_line());
            let s3 = match step(s2, blank_line()) {
                Ok(t) => t,
                Err(_) => s2,
            };
            assert(s3.headers == s2.headers);
            assert(s3.phase != Phase::StatusLine && s3.phase != Phase::Headers);
            assert(scan(s2, lines, 1 + k) == scan(s3, lines, 2 + k));
            lemma_scan_keeps_headers(s3, lines, 2 + k);
        },
        Err(_) => {},
    }
}


proof fn lemma_scan_to_blank_line(status: Seq<char>, hdrs: Seq<Seq<char>>, rest: Seq<Seq<char>>)
    requires
        status_line_spec(status) is Ok,
        forall|j: int|
            0 <= j < hdrs.len() ==> #[trigger] hdrs[j] != blank_line() && header_line_spec(hdrs[j]) is Ok,
    ensures
        ({
            let lines = seq![status] + hdrs + seq![blank_line()] + rest;
            let h = fold_headers(status_map(status), hdrs);
            let next = body_phase(h);
            scan(initial_state(), lines, 0) == scan(
                ReaderState {
                    phase: next,
                    headers: h,
                    body: if next == Phase::Done {
                        empty_body()
                    } else {
                        Seq::empty()
                    },
                },
                lines,
                hdrs.len() as int + 2,
            )
        }),
{
    let lines = seq![status] + hdrs + seq![blank_line()] + rest;
    let k = hdrs.len() as int;
    assert(lines[0] == status);
    let s1 = ReaderState { phase: Phase::Headers, headers: status_map(status), body: Seq::empty() };
    assert(step(initial_state(), status) == Ok::<ReaderState, ClientError>(s1));
    assert forall|j: int| 0 <= j < hdrs.len() implies lines[1 + j] == #[trigger] hdrs[j] by {
        assert(lines[1 + j] == hdrs[j]);
    }
    lemma_scan_header_lines(s1, lines, 1, hdrs);
    assert(lines[1 + k] == blank_line());
}

/// A response whose headers name neither a chunked encoding nor a length
/// other than `0` ends at the blank line, with the empty JSON object as its
/// body, whatever lines follow.
pub proof fn lemma_unframed_response_has_empty_object(
    status: Seq<char>,
    hdrs: Seq<Seq<char>>,
    rest: Seq<Seq<char>>,
)
    requires
        status_line_spec(status) is Ok,
        forall|j: int|
            0 <= j < hdrs.len() ==> #[trigger] hdrs[j] != blank_line() && header_line_spec(hdrs[j]) is Ok,
        ({
            let h = fold_headers(status_map(status), hdrs);
            &&& !(h.contains_key("Transfer-Encoding"@) && h["Transfer-Encoding"@] == "chunked"@)
            &&& !h.contains_key("Content-Length"@) || h["Content-Length"@] == "0"@
        }),
    ensures
        scan(initial_state(), seq![status] + hdrs + seq![blank_line()] + rest, 0) matches Ok((t, n))
            && n == hdrs.len() + 2 && t.body == empty_body() && t.headers == fold_headers(
            status_map(status),
            hdrs,
        ),
{
    lemma_scan_to_blank_line(status, hdrs, rest);
}

/// A chunked response yields the first chunk's data line as its body and
/// reads nothing past it: later chunks are left unread.
pub proof fn lemma_chunked_reads_first_chunk(
    status: Seq<char>,
    hdrs: Seq<Seq<char>>,
    size: Seq<char>,
    data: Seq<char>,
    rest: Seq<Seq<char>>,
)
    requires
        status_line_spec(status) is Ok,
        forall|j: int|
            0 <= j < hdrs.len() ==> #[trigger] hdrs[j] != blank_line() && header_line_spec(hdrs[j]) is Ok,
        ({
            let h = fold_headers(status_map(status), hdrs);
            h.contains_key("Transfer-Encoding"@) && h["Transfer-Encoding"@] == "chunked"@
        }),
        ends_with_newline(size),
        ends_with_newline(data),
    ensures
        scan(initial_state(), seq![status] + hdrs + seq![blank_line(), size, data] + rest, 0) matches Ok(
            (t, n),
        ) && n == hdrs.len() + 4 && t.body == data && t.headers == fold_headers(status_map(status), hdrs),
{
    let tail = seq![size, data] + rest;
    let lines = seq![status] + hdrs + seq![blank_line()] + tail;
    assert(lines =~= seq![status] + hdrs + seq![blank_line(), size, data] + rest);
    lemma_scan_to_blank_line(status, hdrs, tail);
    let k = hdrs.len() as int;
    let h = fold_headers(status_map(status), hdrs);
    assert(lines[k + 2] == size);
    assert(lines[k + 3] == data);
    let s3 = ReaderState { phase: Phase::ChunkSize, headers: h, body: Seq::empty() };
    let s4 = ReaderState { phase: Phase::ChunkData, headers: h, body: Seq::empty() };
    let s5 = ReaderState { phase: Phase::Done, headers: h, body: data };
    assert(scan(s3, lines, k + 2) == scan(s4, lines, k + 3));
    assert(scan(s4, lines, k + 3) == scan(s5, lines, k + 4));
}

} // verus!
