//! The client's own state: the API version it speaks, and the requests it
//! writes to the daemon.
use vstd::prelude::*;

use crate::error::ClientError;
use crate::json::{json_string_field, string_field};
use crate::response::DockerResult;
use crate::text::{chars_of, string_of};

verus! {

/// The API version that the version handshake is made with.
pub open spec fn bootstrap_api_version() -> Seq<char> {
    "1.24"@
}

/// The request methods that the client issues.
#[derive(Debug, Clone, Copy, PartialEq, Eq, Structural)]
pub enum Method {
    Get,
    Head,
    Post,
    Put,
    Delete,
}

/// The name of a method on the request line.
pub open spec fn method_name(m: Method) -> Seq<char> {
    match m {
        Method::Get => "GET"@,
        Method::Head => "HEAD"@,
        Method::Post => "POST"@,
        Method::Put => "PUT"@,
        Method::Delete => "DELETE"@,
    }
}

/// The text of a request: the request line, whose path is prefixed by the
/// API version, the `Host` and `Accept` headers, the blank line, and the body.
pub open spec fn request_text(m: Method, api_version: Seq<char>, path: Seq<char>, body: Seq<char>) -> Seq<char> {
    method_name(m) + " /v"@ + api_version + path + " HTTP/1.1\r\nHost: localhost\r\nAccept: */*\r\n\r\n"@
        + body
}

impl Method {
    /// The name of the method on the request line.
    pub fn name(&self) -> (r: &'static str)
        ensures
            r@ == method_name(*self),
    {
        match self {
            Method::Get => "GET",
            Method::Head => "HEAD",
            Method::Post => "POST",
            Method::Put => "PUT",
            Method::Delete => "DELETE",
        }
    }
}

/// The client's versions, as the daemon's version handshake reported them.
pub struct DockerView {
    pub version: Seq<char>,
    pub api_version: Seq<char>,
    pub os_version: Seq<char>,
}

/// A client of the daemon's API: the versions that it learned in the
/// handshake, and the requests that it writes.
#[derive(Debug)]
pub struct Docker {
    version: String,
    api_version: String,
    os_version: String,
}

impl View for Docker {
    type V = DockerView;

    closed spec fn view(&self) -> DockerView {
        DockerView {
            version: self.version@,
            api_version: self.api_version@,
            os_version: self.os_version@,
        }
    }
}

fn push_str(out: &mut Vec<char>, s: &str)
    ensures
        final(out)@ == old(out)@ + s@,
{
    let mut c = chars_of(s);
    out.append(&mut c);
}

impl Docker {
    /// A client before its handshake: it speaks the bootstrap API version
    /// and knows no daemon or OS version yet.
    pub fn new() -> (r: Docker)
        ensures
            r@.api_version == bootstrap_api_version(),
            r@.version.len() == 0,
            r@.os_version.len() == 0,
    {
        Docker { version: String::new(), api_version: "1.24".to_owned(), os_version: String::new() }
    }

    /// The daemon's version.
    pub fn version(&self) -> (r: &String)
        ensures
            r@ == self@.version,
    {
        &self.version
    }

    /// The API version that prefixes every request path.
    pub fn api_version(&self) -> (r: &String)
        ensures
            r@ == self@.api_version,
    {
        &self.api_version
    }

    /// The daemon's operating system.
    pub fn os_version(&self) -> (r: &String)
        ensures
            r@ == self@.os_version,
    {
        &self.os_version
    }

    /// The text of a request for `path` (already percent-encoded) with an
    /// optional body, empty for none.
    pub fn request(&self, method: Method, path: &str, body: &str) -> (r: String)
        ensures
            r@ == request_text(method, self@.api_version, path@, body@),
    {
        let mut out: Vec<char> = Vec::new();
        push_str(&mut out, method.name());
        push_str(&mut out, " /v");
        push_str(&mut out, self.api_version.as_str());
        push_str(&mut out, path);
        push_str(&mut out, " HTTP/1.1\r\nHost: localhost\r\nAccept: */*\r\n\r\n");
        push_str(&mut out, body);
        string_of(&out)
    }

    /// The text of a `HEAD` request for `path`.
    pub fn head(&self, path: &str) -> (r: String)
        ensures
            r@ == request_text(Method::Head, self@.api_version, path@, Seq::empty()),
    {
        proof {
            reveal_strlit("");
        }
        self.request(Method::Head, path, "")
    }

    /// The text of a `GET` request for `path`.
    pub fn get(&self, path: &str) -> (r: String)
        ensures
            r@ == request_text(Method::Get, self@.api_version, path@, Seq::empty()),
    {
        proof {
            reveal_strlit("");
        }
        self.request(Method::Get, path, "")
    }

    /// The text of a `POST` request for `path` with `body`.
    pub fn post(&self, path: &str, body: &str) -> (r: String)
        ensures
            r@ == request_text(Method::Post, self@.api_version, path@, body@),
    {
        self.request(Method::Post, path, body)
    }

    /// The text of a `PUT` request for `path` with `body`.
    pub fn put(&self, path: &str, body: &str) -> (r: String)
        ensures
            r@ == request_text(Method::Put, self@.api_version, path@, body@),
    {
        self.request(Method::Put, path, body)
    }

    /// The text of a `DELETE` request for `path` with `body`.
    pub fn delete(&self, path: &str, body: &str) -> (r: String)
        ensures
            r@ == request_text(Method::Delete, self@.api_version, path@, body@),
    {
        self.request(Method::Delete, path, body)
    }

    /// Takes the versions from the response to the version request: the
    /// string members `Version`, `ApiVersion` and `Os` of its JSON body. The
    /// API version then prefixes every later request. A body that is not
    /// JSON is a decode error, a missing member a missing field; on an
    /// error the client is left as it was.
    pub fn handshake(&mut self, response: &DockerResult) -> (r: Result<(), ClientError>)
        ensures
            !response@.decoded ==> r == Err::<(), ClientError>(ClientError::Decode),
            response@.decoded ==> match (
                json_string_field(response@.body, "Version"@),
                json_string_field(response@.body, "ApiVersion"@),
                json_string_field(response@.body, "Os"@),
            ) {
                (Some(v), Some(a), Some(o)) => r is Ok && final(self)@ == (DockerView {
                    version: v,
                    api_version: a,
                    os_version: o,
                }),
                _ => r == Err::<(), ClientError>(ClientError::MissingField),
            },
            r is Err ==> final(self)@ == old(self)@,
    {
        if response.data().is_err() {
            return Err(ClientError::Decode);
        }
        let body = response.body().as_str();
        let version = string_field(body, "Version");
        let api_version = string_field(body, "ApiVersion");
        let os_version = string_field(body, "Os");
        match (version, api_version, os_version) {
            (Some(v), Some(a), Some(o)) => {
                self.version = v;
                self.api_version = a;
                self.os_version = o;
                Ok(())
            },
            _ => Err(ClientError::MissingField),
        }
    }
}

} // verus!
