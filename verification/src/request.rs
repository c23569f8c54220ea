//! HTTP requests: a builder that validates a URL and options into a
//! [`Request`], and the wire form of that request.

use crate::constants::USER_AGENT;
use crate::decimal::{decimal, lemma_decimal_reads_back, parsed_decimal, push_decimal};
use crate::results::{outcome, CabotError, CabotResult, Failure};
use crate::text::{
    body_bytes, copy_body, copy_lines, decode_text, encoding_error_prefix, lemma_encode_concat,
    occurs_at, occurs_in,
};
use crate::url_parts::{parse_url, parsed_view, url_parse, UrlParts, UrlPartsView};
use vstd::prelude::*;
use vstd::slice::slice_to_vec;
use vstd::string::{StrSliceExecFns, StringExecFns};
use vstd::utf8::{decode_utf8, decode_utf8_encode_utf8, encode_utf8, valid_utf8};

verus! {

/// The `host:port` pair that a request for `host` and `port` is addressed to.
pub open spec fn authority_of(host: Seq<char>, port: u16) -> Seq<char> {
    host + ":"@ + decimal(port as nat)
}

/// An HTTP request, ready to be written to a connection.
pub struct Request {
    host: String,
    port: u16,
    authority: String,
    is_domain: bool,
    scheme: String,
    http_method: String,
    request_uri: String,
    http_version: String,
    headers: Vec<String>,
    body: Option<Vec<u8>>,
}

/// What a [`Request`] holds, as mathematical values.
pub struct RequestView {
    /// Host to connect to: a name, or an address in text form.
    pub host: Seq<char>,
    /// TCP port to connect to.
    pub port: u16,
    /// `host:port`.
    pub authority: Seq<char>,
    /// Whether `host` is a name rather than an address.
    pub is_domain: bool,
    /// `http` or `https`.
    pub scheme: Seq<char>,
    /// HTTP verb.
    pub http_method: Seq<char>,
    /// Path and, after a question mark, query.
    pub request_uri: Seq<char>,
    /// Protocol version, such as `HTTP/1.1`.
    pub http_version: Seq<char>,
    /// Header lines in the order in which they are sent.
    pub headers: Seq<Seq<char>>,
    /// Payload, if there is one.
    pub body: Option<Seq<u8>>,
}

/// End of a line on the wire.
pub open spec fn crlf() -> Seq<char> {
    "\r\n"@
}

/// `lines` one after the other, each followed by an end of line.
pub open spec fn lines_text(lines: Seq<Seq<char>>) -> Seq<char>
    decreases lines.len(),
{
    if lines.len() == 0 {
        Seq::empty()
    } else {
        lines_text(lines.drop_last()) + lines.last() + crlf()
    }
}

/// Adding a line to `lines` adds it, and an end of line, to their text.
pub proof fn lemma_lines_text_push(lines: Seq<Seq<char>>, line: Seq<char>)
    ensures
        lines_text(lines.push(line)) == lines_text(lines) + line + crlf(),
{
    assert(lines.push(line).drop_last() =~= lines);
}

impl RequestView {
    /// The authority is the `host:port` pair of host and port.
    pub open spec fn well_formed(self) -> bool {
        self.authority == authority_of(self.host, self.port)
    }

    /// First line of the message: method, target and protocol version.
    pub open spec fn request_line(self) -> Seq<char> {
        self.http_method + " "@ + self.request_uri + " "@ + self.http_version
    }

    /// The `Host` line, sent where the host is a name and only there.
    pub open spec fn host_lines(self) -> Seq<Seq<char>> {
        if self.is_domain {
            seq!["Host: "@ + self.host]
        } else {
            Seq::empty()
        }
    }

    /// The lines that are made of what the caller gave: the request line,
    /// the header lines in their order, and the `Host` line if there is one.
    pub open spec fn opening_lines(self) -> Seq<Seq<char>> {
        seq![self.request_line()] + self.headers + self.host_lines()
    }

    /// The lines of the message head, in the order in which they are sent:
    /// the request line, the header lines, the `Host` line if there is one,
    /// the directive to close the connection, and the length of the payload
    /// where one of `framed` bytes follows.
    pub open spec fn head_lines(self, framed: Option<nat>) -> Seq<Seq<char>> {
        self.opening_lines() + seq!["Connection: close"@] + match framed {
            Some(length) => seq!["Content-Length: "@ + decimal(length)],
            None => Seq::empty(),
        }
    }

    /// The message head as text: its lines, and the empty line that ends it.
    pub open spec fn head(self, framed: Option<nat>) -> Seq<char> {
        lines_text(self.head_lines(framed)) + crlf()
    }

    /// The body as text, where there is one and it is valid UTF-8.
    pub open spec fn text_body(self) -> Option<Seq<char>> {
        match self.body {
            Some(bytes) => if valid_utf8(bytes) {
                Some(decode_utf8(bytes))
            } else {
                None
            },
            None => None,
        }
    }

    /// The message as text. A body that is not valid UTF-8 has no place in
    /// a text: the message is then written as if it had no body.
    pub open spec fn wire_text(self) -> Seq<char> {
        match self.body {
            Some(bytes) => if valid_utf8(bytes) {
                self.head(Some(bytes.len())) + decode_utf8(bytes)
            } else {
                self.head(None)
            },
            None => self.head(None),
        }
    }

    /// The message as the bytes to transmit: the head, then the body as it
    /// is.
    pub open spec fn wire_bytes(self) -> Seq<u8> {
        match self.body {
            Some(bytes) => encode_utf8(self.head(Some(bytes.len()))) + bytes,
            None => encode_utf8(self.head(None)),
        }
    }
}

impl View for Request {
    type V = RequestView;

    closed spec fn view(&self) -> RequestView {
        RequestView {
            host: self.host@,
            port: self.port,
            authority: self.authority@,
            is_domain: self.is_domain,
            scheme: self.scheme@,
            http_method: self.http_method@,
            request_uri: self.request_uri@,
            http_version: self.http_version@,
            headers: self.headers.deep_view(),
            body: body_bytes(self.body),
        }
    }
}

impl Request {
    #[verifier::type_invariant]
    spec fn addressed(&self) -> bool {
        self.authority@ == authority_of(self.host@, self.port)
    }

    /// Assembles a request from its parts. The authority has to be the
    /// `host:port` pair of the host and port given.
    pub fn new(
        host: String,
        port: u16,
        authority: String,
        is_domain: bool,
        scheme: String,
        http_method: String,
        request_uri: String,
        http_version: String,
        headers: Vec<String>,
        body: Option<Vec<u8>>,
    ) -> (request: Request)
        requires
            authority@ == authority_of(host@, port),
        ensures
            request@ == (RequestView {
                host: host@,
                port: port,
                authority: authority@,
                is_domain: is_domain,
                scheme: scheme@,
                http_method: http_method@,
                request_uri: request_uri@,
                http_version: http_version@,
                headers: headers.deep_view(),
                body: body_bytes(body),
            }),
    {
        Request {
            host: host,
            port: port,
            authority: authority,
            is_domain: is_domain,
            scheme: scheme,
            http_method: http_method,
            request_uri: request_uri,
            http_version: http_version,
            headers: headers,
            body: body,
        }
    }

    /// The HTTP verb of the request, such as `GET` or `POST`.
    pub fn http_method(&self) -> (http_method: &str)
        ensures
            http_method@ == self@.http_method,
    {
        self.http_method.as_str()
    }

    /// The body of the request, if it has one.
    pub fn body(&self) -> (body: Option<&[u8]>)
        ensures
            match body {
                Some(bytes) => self@.body == Some(bytes@),
                None => self@.body is None,
            },
    {
        match &self.body {
            None => None,
            Some(body) => Some(body.as_slice()),
        }
    }

    /// The body of the request as text, if it has one.
    ///
    /// Fails with `EncodingError` exactly where there is a body that is not
    /// valid UTF-8.
    pub fn body_as_string(&self) -> (r: CabotResult<Option<String>>)
        ensures
            match r {
                Ok(None) => self@.body is None,
                Ok(Some(text)) => self@.text_body() == Some(text@),
                Err(CabotError::EncodingError(detail)) => self@.body is Some
                    && self@.text_body() is None && encoding_error_prefix().is_prefix_of(detail@),
                Err(_) => false,
            },
    {
        match &self.body {
            None => Ok(None),
            Some(body) => match decode_text(body) {
                Ok(text) => Ok(Some(text)),
                Err(error) => Err(error),
            },
        }
    }

    /// The protocol version of the request.
    pub fn http_version(&self) -> (http_version: &str)
        ensures
            http_version@ == self@.http_version,
    {
        self.http_version.as_str()
    }

    /// The host to connect to: a name to resolve, or an address.
    pub fn host(&self) -> (host: &str)
        ensures
            host@ == self@.host,
    {
        self.host.as_str()
    }

    /// The TCP port to connect to.
    pub fn port(&self) -> (port: u16)
        ensures
            port == self@.port,
    {
        self.port
    }

    /// The `host:port` pair to connect to.
    pub fn authority(&self) -> (authority: &str)
        ensures
            authority@ == self@.authority,
            self@.well_formed(),
    {
        proof {
            use_type_invariant(self);
        }
        self.authority.as_str()
    }

    /// The scheme of the URL, `http` or `https`.
    pub fn scheme(&self) -> (scheme: &str)
        ensures
            scheme@ == self@.scheme,
    {
        self.scheme.as_str()
    }

    /// The target of the request line: a path and, where there is one, a
    /// query.
    pub fn request_uri(&self) -> (request_uri: &str)
        ensures
            request_uri@ == self@.request_uri,
    {
        self.request_uri.as_str()
    }

    /// The header lines of the request, in the order in which they are sent.
    pub fn headers(&self) -> (headers: Vec<&str>)
        ensures
            headers.deep_view() == self@.headers,
    {
        let mut headers: Vec<&str> = Vec::new();
        let mut i: usize = 0;
        while i < self.headers.len()
            invariant
                i <= self.headers.len(),
                headers.len() == i,
                forall|j: int| 0 <= j < i ==> headers@[j]@ == self.headers@[j]@,
            decreases self.headers.len() - i,
        {
            headers.push(self.headers[i].as_str());
            i = i + 1;
        }
        assert(headers.deep_view() =~= self@.headers);
        headers
    }

    /// The message head, with the length of the payload where one follows.
    fn head(&self, framed: Option<usize>) -> (head: String)
        ensures
            head@ == self@.head(
                match framed {
                    Some(length) => Some(length as nat),
                    None => None,
                },
            ),
    {
        let mut out = self.http_method.clone();
        out.append(" ");
        out.append(self.request_uri.as_str());
        out.append(" ");
        out.append(self.http_version.as_str());
        out.append("\r\n");
        let ghost mut lines = seq![self@.request_line()];
        proof {
            lemma_lines_text_push(Seq::empty(), self@.request_line());
            assert(lines =~= Seq::<Seq<char>>::empty().push(self@.request_line()));
            assert(out@ =~= lines_text(lines));
        }
        let mut i: usize = 0;
        while i < self.headers.len()
            invariant
                i <= self.headers.len(),
                lines == seq![self@.request_line()] + self@.headers.subrange(0, i as int),
                out@ == lines_text(lines),
            decreases self.headers.len() - i,
        {
            out.append(self.headers[i].as_str());
            out.append("\r\n");
            proof {
                let line = self.headers@[i as int]@;
                assert(line == self@.headers[i as int]);
                lemma_lines_text_push(lines, line);
                assert(lines.push(line) =~= seq![self@.request_line()] + self@.headers.subrange(
                    0,
                    i + 1,
                ));
                lines = lines.push(line);
                assert(out@ =~= lines_text(lines));
            }
            i = i + 1;
        }
        assert(self@.headers.subrange(0, i as int) =~= self@.headers);
        if self.is_domain {
            out.append("Host: ");
            out.append(self.host.as_str());
            out.append("\r\n");
            proof {
                let line = "Host: "@ + self@.host;
                lemma_lines_text_push(lines, line);
                lines = lines.push(line);
                assert(out@ =~= lines_text(lines));
            }
        }
        assert(lines =~= self@.opening_lines());
        out.append("Connection: close");
        out.append("\r\n");
        proof {
            let line = "Connection: close"@;
            lemma_lines_text_push(lines, line);
            lines = lines.push(line);
            assert(out@ =~= lines_text(lines));
        }
        if let Some(length) = framed {
            out.append("Content-Length: ");
            push_decimal(&mut out, length);
            out.append("\r\n");
            proof {
                let line = "Content-Length: "@ + decimal(length as nat);
                lemma_lines_text_push(lines, line);
                lines = lines.push(line);
                assert(out@ =~= lines_text(lines));
            }
        }
        assert(lines =~= self@.head_lines(
            match framed {
                Some(length) => Some(length as nat),
                None => None,
            },
        ));
        out.append("\r\n");
        out
    }

    /// The request as the text to send to the server. A body that is not
    /// valid UTF-8 cannot stand in a text and is left out, together with its
    /// `Content-Length` line; `to_bytes` sends every body.
    pub fn to_string(&self) -> (text: String)
        ensures
            text@ == self@.wire_text(),
    {
        match &self.body {
            Some(body) => match decode_text(body) {
                Ok(payload) => {
                    let mut out = self.head(Some(body.len()));
                    out.append(payload.as_str());
                    out
                },
                Err(_) => self.head(None),
            },
            None => self.head(None),
        }
    }

    /// The request as the exact bytes to send to the server.
    pub fn to_bytes(&self) -> (bytes: Vec<u8>)
        ensures
            bytes@ == self@.wire_bytes(),
    {
        match &self.body {
            Some(body) => {
                let head = self.head(Some(body.len()));
                let mut out = head.as_str().as_bytes_vec();
                let mut rest = body.clone();
                out.append(&mut rest);
                out
            },
            None => self.head(None).as_str().as_bytes_vec(),
        }
    }
}

/// Collects a URL and options, and validates them into a [`Request`].
pub struct RequestBuilder {
    http_method: String,
    user_agent: String,
    url: String,
    http_version: String,
    headers: Vec<String>,
    body: Option<Vec<u8>>,
}

/// What a [`RequestBuilder`] holds, as mathematical values.
pub struct RequestBuilderView {
    pub http_method: Seq<char>,
    pub user_agent: Seq<char>,
    pub url: Seq<char>,
    pub http_version: Seq<char>,
    pub headers: Seq<Seq<char>>,
    pub body: Option<Seq<u8>>,
}

impl View for RequestBuilder {
    type V = RequestBuilderView;

    closed spec fn view(&self) -> RequestBuilderView {
        RequestBuilderView {
            http_method: self.http_method@,
            user_agent: self.user_agent@,
            url: self.url@,
            http_version: self.http_version@,
            headers: self.headers.deep_view(),
            body: body_bytes(self.body),
        }
    }
}

/// Path and query as they are sent in the request line.
pub open spec fn target_of(path: Seq<char>, query: Option<Seq<char>>) -> Seq<char> {
    match query {
        Some(query) => path + "?"@ + query,
        None => path,
    }
}

/// The request that a builder makes of a parsed URL, or the reason why it
/// makes none.
pub open spec fn built(
    builder: RequestBuilderView,
    parsed: Result<UrlPartsView, url::ParseError>,
) -> Result<RequestView, Failure> {
    match parsed {
        Err(cause) => Err(Failure::UrlParseError(cause)),
        Ok(parts) => match (parts.host, parts.port) {
            (None, _) => Err(Failure::OpaqueUrlError("Unable to find host"@)),
            (Some(_), None) => Err(Failure::OpaqueUrlError("Unable to determine a port"@)),
            (Some(host), Some(port)) => Ok(
                RequestView {
                    host: host,
                    port: port,
                    authority: authority_of(host, port),
                    is_domain: parts.domain is Some,
                    scheme: parts.scheme,
                    http_method: builder.http_method,
                    request_uri: target_of(parts.path, parts.query),
                    http_version: builder.http_version,
                    headers: builder.headers.push("User-Agent: "@ + builder.user_agent),
                    body: builder.body,
                },
            ),
        },
    }
}

impl RequestBuilder {
    /// A builder for a request to `url`: a `GET` over `HTTP/1.1`, with
    /// neither header nor body, that names this library as its user agent.
    /// The URL is not looked at before `build`.
    pub fn new(url: &str) -> (builder: Self)
        ensures
            builder@ == (RequestBuilderView {
                http_method: "GET"@,
                user_agent: USER_AGENT@,
                url: url@,
                http_version: "HTTP/1.1"@,
                headers: Seq::empty(),
                body: None,
            }),
    {
        let builder = RequestBuilder {
            http_method: "GET".to_owned(),
            user_agent: USER_AGENT.to_owned(),
            url: url.to_owned(),
            http_version: "HTTP/1.1".to_owned(),
            headers: Vec::new(),
            body: None,
        };
        assert(builder@.headers =~= Seq::empty());
        builder
    }

    /// Replaces the URL, so that one builder serves several requests.
    pub fn set_url(self, url: &str) -> (builder: Self)
        ensures
            builder@ == (RequestBuilderView { url: url@, ..self@ }),
    {
        let mut builder = self;
        builder.url = url.to_owned();
        builder
    }

    /// Sets the HTTP verb. It is sent as it is given.
    pub fn set_http_method(self, http_method: &str) -> (builder: Self)
        ensures
            builder@ == (RequestBuilderView { http_method: http_method@, ..self@ }),
    {
        let mut builder = self;
        builder.http_method = http_method.to_owned();
        builder
    }

    /// Sets the protocol version.
    pub fn set_http_version(self, http_version: &str) -> (builder: Self)
        ensures
            builder@ == (RequestBuilderView { http_version: http_version@, ..self@ }),
    {
        let mut builder = self;
        builder.http_version = http_version.to_owned();
        builder
    }

    /// Adds a header line after those added so far. The line is sent as it
    /// is given.
    pub fn add_header(self, header: &str) -> (builder: Self)
        ensures
            builder@ == (RequestBuilderView { headers: self@.headers.push(header@), ..self@ }),
    {
        let ghost before = self@;
        let mut builder = self;
        builder.headers.push(header.to_owned());
        assert(builder@.headers =~= before.headers.push(header@));
        builder
    }

    /// Adds header lines, in their order, after those added so far.
    pub fn add_headers(self, headers: &[&str]) -> (builder: Self)
        ensures
            builder@ == (RequestBuilderView {
                headers: self@.headers + headers.deep_view(),
                ..self@
            }),
    {
        let ghost before = self@;
        let mut builder = self;
        assert(before.headers + headers.deep_view().subrange(0, 0) =~= before.headers);
        let mut i: usize = 0;
        while i < headers.len()
            invariant
                i <= headers.len(),
                builder@ == (RequestBuilderView {
                    headers: before.headers + headers.deep_view().subrange(0, i as int),
                    ..before
                }),
            decreases headers.len() - i,
        {
            let ghost added = builder@.headers;
            builder.headers.push(headers[i].to_owned());
            assert(builder@.headers =~= added.push(headers@[i as int]@));
            assert(builder@.headers =~= before.headers + headers.deep_view().subrange(0, i + 1));
            i = i + 1;
        }
        assert(headers.deep_view().subrange(0, i as int) =~= headers.deep_view());
        builder
    }

    /// Replaces the value of the `User-Agent` line, which `build` puts
    /// after the header lines. No such line should be added as a header.
    pub fn set_user_agent(self, user_agent: &str) -> (builder: Self)
        ensures
            builder@ == (RequestBuilderView { user_agent: user_agent@, ..self@ }),
    {
        let mut builder = self;
        builder.user_agent = user_agent.to_owned();
        builder
    }

    /// Gives the request a body: a copy of `buf`.
    pub fn set_body(self, buf: &[u8]) -> (builder: Self)
        ensures
            builder@ == (RequestBuilderView { body: Some(buf@), ..self@ }),
    {
        let mut builder = self;
        builder.body = Some(slice_to_vec(buf));
        builder
    }

    /// Gives the request a body: the UTF-8 encoding of `body`.
    pub fn set_body_as_str(self, body: &str) -> (builder: Self)
        ensures
            builder@ == (RequestBuilderView { body: Some(encode_utf8(body@)), ..self@ }),
    {
        self.set_body(body.as_bytes())
    }

    /// Validates the URL and the options into a request.
    ///
    /// Fails with `UrlParseError` where the URL does not parse, and with
    /// `OpaqueUrlError` where it names no host or where no port can be
    /// determined for it.
    pub fn build(&self) -> (r: CabotResult<Request>)
        ensures
            outcome(r) == built(self@, url_parse(self@.url)),
    {
        self.build_with(parse_url(self.url.as_str()))
    }

    /// Makes a request of the options and of a URL that has been parsed
    /// already.
    pub fn build_with(&self, parsed: Result<UrlParts, url::ParseError>) -> (r: CabotResult<
        Request,
    >)
        ensures
            outcome(r) == built(self@, parsed_view(parsed)),
    {
        let parts = match parsed {
            Ok(parts) => parts,
            Err(cause) => {
                return Err(CabotError::UrlParseError(cause));
            },
        };
        let UrlParts { scheme, host, domain, port, path, query } = parts;
        let host = match host {
            Some(host) => host,
            None => {
                return Err(CabotError::OpaqueUrlError("Unable to find host".to_owned()));
            },
        };
        let port = match port {
            Some(port) => port,
            None => {
                return Err(CabotError::OpaqueUrlError("Unable to determine a port".to_owned()));
            },
        };
        let mut request_uri = path;
        if let Some(querystring) = query {
            request_uri.append("?");
            request_uri.append(querystring.as_str());
        }
        let is_domain = domain.is_some();
        let mut headers = copy_lines(&self.headers);
        let mut agent = "User-Agent: ".to_owned();
        agent.append(self.user_agent.as_str());
        headers.push(agent);
        let mut authority = host.clone();
        authority.append(":");
        push_decimal(&mut authority, port as usize);
        let request = Request::new(
            host,
            port,
            authority,
            is_domain,
            scheme,
            self.http_method.clone(),
            request_uri,
            self.http_version.clone(),
            headers,
            copy_body(&self.body),
        );
        assert(request@.headers =~= self@.headers.push("User-Agent: "@ + self@.user_agent));
        Ok(request)
    }
}

/// A request without a body ends with the directive to close the
/// connection and the empty line; no line gives a length.
pub proof fn law_without_body_ends_with_close(request: RequestView)
    requires
        request.body is None,
    ensures
        request.head_lines(None).last() == "Connection: close"@,
        request.wire_text() == lines_text(request.opening_lines())
            + "Connection: close\r\n\r\n"@,
        "Connection: close\r\n\r\n"@.is_suffix_of(request.wire_text()),
        request.wire_bytes() == encode_utf8(request.wire_text()),
{
    let opening = request.opening_lines();
    let tail = "Connection: close\r\n\r\n"@;
    reveal_strlit("Connection: close\r\n\r\n");
    reveal_strlit("Connection: close");
    reveal_strlit("\r\n");
    assert(request.head_lines(None) =~= opening.push("Connection: close"@));
    lemma_lines_text_push(opening, "Connection: close"@);
    let text = request.wire_text();
    assert(text =~= lines_text(opening) + tail);
    assert(tail =~= text.subrange(text.len() - tail.len(), text.len() as int));
}

/// A request without a body holds the words `Content-Length` nowhere,
/// unless the caller wrote them into the request line, a header line or the
/// host.
pub proof fn law_without_body_no_content_length(request: RequestView)
    requires
        request.body is None,
        !occurs_in(lines_text(request.opening_lines()), "Content-Length"@),
    ensures
        !occurs_in(request.wire_text(), "Content-Length"@),
{
    law_without_body_ends_with_close(request);
    reveal_strlit("Connection: close\r\n\r\n");
    reveal_strlit("Content-Length");
    let opening = lines_text(request.opening_lines());
    let tail = "Connection: close\r\n\r\n"@;
    let pattern = "Content-Length"@;
    let text = request.wire_text();
    assert forall|at: int| !occurs_at(text, pattern, at) by {
        if occurs_at(text, pattern, at) {
            let found = text.subrange(at, at + 14);
            if at + 14 <= opening.len() {
                assert(opening.subrange(at, at + 14) =~= found);
                assert(occurs_at(opening, pattern, at));
            } else if at >= opening.len() {
                // the words would have to stand inside the closing lines
                let skip = at - opening.len();
                assert(found[0] == tail[skip]);
                assert(found[3] == tail[skip + 3]);
                assert(skip == 0) by {
                    if skip == 1 {
                    } else if skip == 2 {
                    } else if skip == 3 {
                    } else if skip == 4 {
                    } else if skip == 5 {
                    } else if skip == 6 {
                    } else if skip == 7 {
                    } else if skip == 8 {
                    } else if skip == 9 {
                    }
                }
            } else {
                // the words would have to begin before the closing lines
                // and run into them
                let inside = opening.len() - at;
                assert(found[inside] == tail[0]);
                assert(false) by {
                    if inside == 1 {
                    } else if inside == 2 {
                    } else if inside == 3 {
                    } else if inside == 4 {
                    } else if inside == 5 {
                    } else if inside == 6 {
                    } else if inside == 7 {
                    } else if inside == 8 {
                    } else if inside == 9 {
                    } else if inside == 10 {
                    } else if inside == 11 {
                    } else if inside == 12 {
                    } else if inside == 13 {
                    }
                }
            }
        }
    }
}

/// A request with a body ends with the `Content-Length` line, the empty
/// line and the body itself; the length is the number of bytes of the body,
/// in decimal.
pub proof fn law_body_is_framed_by_its_length(request: RequestView)
    requires
        request.body is Some,
    ensures
        ({
            let body = request.body->0;
            let before = lines_text(request.opening_lines().push("Connection: close"@));
            let framing = "Content-Length: "@ + decimal(body.len()) + crlf() + crlf();
            &&& request.wire_bytes() == encode_utf8(before) + encode_utf8(framing) + body
            &&& valid_utf8(body) ==> request.wire_text() == before + framing + decode_utf8(body)
            &&& valid_utf8(body) ==> encode_utf8(request.wire_text()) == request.wire_bytes()
            &&& body.len() <= usize::MAX ==> parsed_decimal(decimal(body.len())) == Some(
                body.len() as usize,
            )
        }),
{
    let body = request.body->0;
    let close = request.opening_lines().push("Connection: close"@);
    let before = lines_text(close);
    let length_line = "Content-Length: "@ + decimal(body.len());
    let framing = length_line + crlf() + crlf();
    assert(request.head_lines(Some(body.len())) =~= close.push(length_line));
    lemma_lines_text_push(close, length_line);
    let head = request.head(Some(body.len()));
    assert(head =~= before + framing);
    lemma_encode_concat(before, framing);
    if valid_utf8(body) {
        decode_utf8_encode_utf8(body);
        lemma_encode_concat(head, decode_utf8(body));
    }
    if body.len() <= usize::MAX {
        lemma_decimal_reads_back(body.len());
    }
}

/// For every body that can stand in a text, the text form of a request
/// encodes to its byte form.
pub proof fn law_text_encodes_to_bytes(request: RequestView)
    requires
        request.body matches Some(body) ==> valid_utf8(body),
    ensures
        encode_utf8(request.wire_text()) == request.wire_bytes(),
{
    if request.body is Some {
        law_body_is_framed_by_its_length(request);
    }
}

/// The `Host` line is sent exactly where the host is a name: it then
/// follows the header lines and names the host. Where the host is an
/// address, the directive to close the connection follows the header lines
/// at once.
pub proof fn law_host_line_iff_named(request: RequestView, framed: Option<nat>)
    ensures
        ({
            let lines = request.head_lines(framed);
            let after_headers = 1 + request.headers.len() as int;
            &&& request.is_domain ==> lines[after_headers] == "Host: "@ + request.host
                && lines[after_headers + 1] == "Connection: close"@
            &&& !request.is_domain ==> lines[after_headers] == "Connection: close"@
        }),
{
}

/// Header lines are sent in the order in which they were added, right after
/// the request line, and the `User-Agent` line that `build` makes is the
/// last of them.
pub proof fn law_headers_in_call_order(
    builder: RequestBuilderView,
    parsed: Result<UrlPartsView, url::ParseError>,
    framed: Option<nat>,
)
    requires
        built(builder, parsed) is Ok,
    ensures
        ({
            let request = built(builder, parsed)->Ok_0;
            let added = builder.headers.len() as int;
            &&& request.headers.len() == added + 1
            &&& request.headers.subrange(0, added) == builder.headers
            &&& request.headers.last() == "User-Agent: "@ + builder.user_agent
            &&& request.head_lines(framed).subrange(1, added + 2) == request.headers
        }),
{
    let request = built(builder, parsed)->Ok_0;
    let added = builder.headers.len() as int;
    assert(request.headers.subrange(0, added) =~= builder.headers);
    assert(request.head_lines(framed).subrange(1, added + 2) =~= request.headers);
}

/// A builder that is given another URL makes a request of what it was
/// given before: method, protocol version, header lines, user agent and
/// body are those of the builder, and everything else comes from the URL
/// alone.
pub proof fn law_new_url_keeps_options(
    builder: RequestBuilderView,
    url: Seq<char>,
    other: RequestBuilderView,
)
    ensures
        ({
            let reused = RequestBuilderView { url: url, ..builder };
            let parsed = url_parse(url);
            &&& built(reused, parsed) == built(builder, parsed)
            &&& built(reused, parsed) matches Ok(request) ==> {
                &&& request.http_method == builder.http_method
                &&& request.http_version == builder.http_version
                &&& request.headers == builder.headers.push("User-Agent: "@ + builder.user_agent)
                &&& request.body == builder.body
                &&& request.well_formed()
                &&& built(other, parsed) matches Ok(twin) && twin.host == request.host
                    && twin.port == request.port && twin.authority == request.authority
                    && twin.is_domain == request.is_domain && twin.scheme == request.scheme
                    && twin.request_uri == request.request_uri
            }
            &&& built(reused, parsed) matches Err(failure) ==> built(other, parsed) == Err::<
                RequestView,
                Failure,
            >(failure)
        }),
{
}

} // verus!
