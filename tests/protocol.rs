use docker_http::{read_response, ClientError, Docker, DockerResult, Method, Phase, ResponseReader};

fn lines(parts: &[&str]) -> Vec<String> {
    parts.iter().map(|s| s.to_string()).collect()
}

fn read(parts: &[&str]) -> (DockerResult, usize) {
    read_response(&lines(parts)).expect("response should parse")
}

fn header(r: &DockerResult, name: &str) -> Option<String> {
    r.headers().get(name).cloned()
}

fn empty_object() -> serde_json::Value {
    serde_json::Value::Object(serde_json::Map::new())
}

#[test]
fn test_new() {
    let d = Docker::new();
    let req = d.head("/_ping");
    assert_eq!(req, "HEAD /v1.24/_ping HTTP/1.1\r\nHost: localhost\r\nAccept: */*\r\n\r\n");
    let (p, _) = read(&["HTTP/1.1 200 OK\r\n", "Content-Length: 2\r\n", "\r\n", "OK\r\n"]);
    assert_eq!(p.status_code(), Some(200));
}

#[test]
fn status_line_gives_code_and_reason() {
    let (r, n) = read(&["HTTP/1.1 200 OK\r\n", "\r\n"]);
    assert_eq!(n, 2);
    assert_eq!(r.status_code(), Some(200));
    assert_eq!(header(&r, "status").as_deref(), Some("OK"));
    assert_eq!(header(&r, "status_code").as_deref(), Some("200"));
    assert_eq!(header(&r, "http_version").as_deref(), Some("HTTP/1.1"));
}

#[test]
fn multi_word_reason_is_kept_whole() {
    let (r, _) = read(&["HTTP/1.1 404 Not Found\r\n", "\r\n"]);
    assert_eq!(r.status_code(), Some(404));
    assert_eq!(header(&r, "status").as_deref(), Some("Not Found"));
}

#[test]
fn status_line_without_reason() {
    let (r, _) = read(&["HTTP/1.1 204\r\n", "\r\n"]);
    assert_eq!(r.status_code(), Some(204));
    assert_eq!(header(&r, "status").as_deref(), Some(""));
}

#[test]
fn content_length_zero_gives_empty_object() {
    let (r, n) = read(&["HTTP/1.1 200 OK\r\n", "Content-Length: 0\r\n", "\r\n", "ignored\r\n"]);
    assert_eq!(n, 3);
    assert_eq!(r.body(), "{}");
    assert_eq!(r.data().as_ref().ok(), Some(&empty_object()));
}

#[test]
fn no_framing_gives_empty_object() {
    let (r, _) = read(&["HTTP/1.1 200 OK\r\n", "Server: test\r\n", "\r\n"]);
    assert_eq!(r.body(), "{}");
    assert_eq!(r.data().as_ref().ok(), Some(&empty_object()));
}

#[test]
fn header_block_stops_at_blank_line() {
    let (r, n) = read(&[
        "HTTP/1.1 200 OK\r\n",
        "Content-Type: application/json\r\n",
        "Content-Length: 13\r\n",
        "\r\n",
        "{\"Key\":\"v\"}\r\n",
        "Extra: nope\r\n",
    ]);
    assert_eq!(n, 5);
    assert_eq!(header(&r, "Content-Type").as_deref(), Some("application/json"));
    assert_eq!(header(&r, "Extra"), None);
    assert_eq!(r.headers().entries().len(), 5);
    assert_eq!(r.body(), "{\"Key\":\"v\"}\r\n");
    let v = r.data().as_ref().expect("body should decode");
    assert_eq!(v["Key"], serde_json::Value::String("v".to_string()));
}

#[test]
fn handshake_sets_api_prefix() {
    let (r, _) = read(&[
        "HTTP/1.1 200 OK\r\n",
        "Content-Length: 52\r\n",
        "\r\n",
        "{\"Version\":\"24.0.0\",\"ApiVersion\":\"1.43\",\"Os\":\"linux\"}\r\n",
    ]);
    let mut d = Docker::new();
    assert_eq!(d.get("/version"), "GET /v1.24/version HTTP/1.1\r\nHost: localhost\r\nAccept: */*\r\n\r\n");
    assert_eq!(d.handshake(&r), Ok(()));
    assert_eq!(d.version(), "24.0.0");
    assert_eq!(d.api_version(), "1.43");
    assert_eq!(d.os_version(), "linux");
    assert_eq!(d.get("/containers/json"), "GET /v1.43/containers/json HTTP/1.1\r\nHost: localhost\r\nAccept: */*\r\n\r\n");
    assert!(d.head("/_ping").starts_with("HEAD /v1.43/_ping "));
}

#[test]
fn handshake_missing_field() {
    let (r, _) = read(&["HTTP/1.1 200 OK\r\n", "Content-Length: 20\r\n", "\r\n", "{\"Version\":\"24.0.0\"}\r\n"]);
    let mut d = Docker::new();
    assert_eq!(d.handshake(&r), Err(ClientError::MissingField));
    assert_eq!(d.api_version(), "1.24");
    assert_eq!(d.version(), "");
}

#[test]
fn handshake_decode_error() {
    let (r, _) = read(&["HTTP/1.1 200 OK\r\n", "Content-Length: 8\r\n", "\r\n", "not json\r\n"]);
    assert!(r.data().is_err());
    let mut d = Docker::new();
    assert_eq!(d.handshake(&r), Err(ClientError::Decode));
    assert_eq!(d.api_version(), "1.24");
}

#[test]
fn chunked_body_keeps_first_chunk_only() {
    let (r, n) = read(&[
        "HTTP/1.1 200 OK\r\n",
        "Transfer-Encoding: chunked\r\n",
        "\r\n",
        "7\r\n",
        "{\"a\":1}\r\n",
        "7\r\n",
        "{\"b\":2}\r\n",
        "0\r\n",
        "\r\n",
    ]);
    assert_eq!(n, 5);
    assert_eq!(r.body(), "{\"a\":1}\r\n");
    let v = r.data().as_ref().expect("first chunk should decode");
    assert_eq!(v["a"], serde_json::Value::from(1));
}

#[test]
fn chunked_takes_precedence_over_length() {
    let (r, _) = read(&[
        "HTTP/1.1 200 OK\r\n",
        "Content-Length: 5\r\n",
        "Transfer-Encoding: chunked\r\n",
        "\r\n",
        "2\r\n",
        "[]\r\n",
    ]);
    assert_eq!(r.body(), "[]\r\n");
}

#[test]
fn header_without_colon_is_protocol_error() {
    let mut reader = ResponseReader::new();
    assert_eq!(reader.feed_line("HTTP/1.1 200 OK\r\n"), Ok(()));
    assert_eq!(reader.feed_line("Server: daemon\r\n"), Ok(()));
    assert_eq!(reader.feed_line("garbage line\r\n"), Err(ClientError::Protocol));
    assert_eq!(reader.phase(), Phase::Headers);
    assert_eq!(reader.feed_line("Date: today\r\n"), Ok(()));
    assert_eq!(reader.feed_line("\r\n"), Ok(()));
    assert!(reader.is_complete());
    let r = reader.into_result();
    assert_eq!(header(&r, "Server").as_deref(), Some("daemon"));
    assert_eq!(header(&r, "Date").as_deref(), Some("today"));
    assert_eq!(r.headers().entries().len(), 5);
    let e = read_response(&lines(&["HTTP/1.1 200 OK\r\n", "X-A: 1\r\n", "broken\r\n", "\r\n"]));
    assert!(matches!(e, Err(ClientError::Protocol)));
}

#[test]
fn status_line_with_one_token_is_protocol_error() {
    let e = read_response(&lines(&["HTTP/1.1\r\n", "\r\n"]));
    assert!(matches!(e, Err(ClientError::Protocol)));
}

#[test]
fn non_numeric_status_code_parses_without_a_code() {
    let (r, _) = read(&["HTTP/1.1 abc OK\r\n", "\r\n"]);
    assert_eq!(header(&r, "status_code").as_deref(), Some("abc"));
    assert_eq!(header(&r, "status").as_deref(), Some("OK"));
    assert_eq!(r.status_code(), None);
    let (r, _) = read(&["HTTP/1.1 99999999999 OK\r\n", "\r\n"]);
    assert_eq!(r.status_code(), None);
    let (r, _) = read(&["HTTP/1.1  200 OK\r\n", "\r\n"]);
    assert_eq!(header(&r, "status_code").as_deref(), Some(""));
    assert_eq!(header(&r, "status").as_deref(), Some("200 OK"));
    assert_eq!(r.status_code(), None);
}

#[test]
fn status_code_accepts_signs_and_i32_range() {
    let code = |c: &str| {
        let line = format!("HTTP/1.1 {c} X\r\n");
        read(&[line.as_str(), "\r\n"]).0.status_code()
    };
    assert_eq!(code("-5"), Some(-5));
    assert_eq!(code("+5"), Some(5));
    assert_eq!(code("0200"), Some(200));
    assert_eq!(code("2147483647"), Some(i32::MAX));
    assert_eq!(code("-2147483648"), Some(i32::MIN));
    assert_eq!(code("2147483648"), None);
    assert_eq!(code("-2147483649"), None);
    assert_eq!(code("-"), None);
    assert_eq!(code("+"), None);
    assert_eq!(code("2x"), None);
}

#[test]
fn body_lines_cut_short_are_io_errors() {
    let e = read_response(&lines(&["HTTP/1.1 200 OK\r\n", "Content-Length: 7\r\n", "\r\n", "{\"a\":1}"]));
    assert!(matches!(e, Err(ClientError::Io)));
    let e = read_response(&lines(&["HTTP/1.1 200 OK\r\n", "Transfer-Encoding: chunked\r\n", "\r\n", "7"]));
    assert!(matches!(e, Err(ClientError::Io)));
    let e = read_response(&lines(&["HTTP/1.1 200 OK\r\n", "Transfer-Encoding: chunked\r\n", "\r\n", "7\r\n", "{\"a\":1}"]));
    assert!(matches!(e, Err(ClientError::Io)));
}

#[test]
fn truncated_stream_is_io_error() {
    let e = read_response(&lines(&["HTTP/1.1 200 OK\r\n", "Server: x\r\n"]));
    assert!(matches!(e, Err(ClientError::Io)));
    let e = read_response(&lines(&["HTTP/1.1 200 OK\r\n", "Content-Length: 4\r\n", "\r\n", ""]));
    assert!(matches!(e, Err(ClientError::Io)));
    let e = read_response(&lines(&["HTTP/1.1 200 OK"]));
    assert!(matches!(e, Err(ClientError::Io)));
    let e = read_response(&lines(&[]));
    assert!(matches!(e, Err(ClientError::Io)));
}

#[test]
fn header_values_are_trimmed_and_last_wins() {
    let (r, _) = read(&[
        "HTTP/1.1 200 OK\r\n",
        "Etag:   \"abc\"\r\n",
        "Location: http://host:80/x\r\n",
        "X-Dup: first\r\n",
        "X-Dup: second\r\n",
        "\r\n",
    ]);
    assert_eq!(header(&r, "Etag").as_deref(), Some("abc"));
    assert_eq!(header(&r, "Location").as_deref(), Some("http://host:80/x"));
    assert_eq!(header(&r, "X-Dup").as_deref(), Some("second"));
    assert_eq!(header(&r, "x-dup"), None);
}

#[test]
fn requests_carry_method_path_and_body() {
    let d = Docker::new();
    assert_eq!(
        d.post("/containers/create", "{\"Image\":\"alpine\"}"),
        "POST /v1.24/containers/create HTTP/1.1\r\nHost: localhost\r\nAccept: */*\r\n\r\n{\"Image\":\"alpine\"}"
    );
    assert_eq!(d.put("/x", "b"), "PUT /v1.24/x HTTP/1.1\r\nHost: localhost\r\nAccept: */*\r\n\r\nb");
    assert_eq!(d.delete("/containers/c1", ""), "DELETE /v1.24/containers/c1 HTTP/1.1\r\nHost: localhost\r\nAccept: */*\r\n\r\n");
    assert_eq!(d.request(Method::Get, "/info", ""), d.get("/info"));
    assert_eq!(Method::Delete.name(), "DELETE");
}

#[test]
fn status_code_follows_replaced_header() {
    let (r, _) = read(&["HTTP/1.1 200 OK\r\n", "status_code: 500\r\n", "\r\n"]);
    assert_eq!(header(&r, "status_code").as_deref(), Some("500"));
    assert_eq!(r.status_code(), Some(500));
    let (r, _) = read(&["HTTP/1.1 200 OK\r\n", "status_code: abc\r\n", "\r\n"]);
    assert_eq!(r.status_code(), None);
}

#[test]
fn reason_with_many_words_and_empty_body() {
    let (r, n) = read(&["HTTP/1.0 503 Service  Temporarily Unavailable\r\n", "\r\n", "tail\r\n"]);
    assert_eq!(n, 2);
    assert_eq!(header(&r, "http_version").as_deref(), Some("HTTP/1.0"));
    assert_eq!(header(&r, "status_code").as_deref(), Some("503"));
    assert_eq!(header(&r, "status").as_deref(), Some("Service  Temporarily Unavailable"));
    assert_eq!(r.body(), "{}");
    assert!(r.data().is_ok());
}
