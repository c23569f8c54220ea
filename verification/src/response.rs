//! HTTP responses: a builder that takes the status line, the header lines
//! and the body as they arrive, and validates them into a [`Response`].

use crate::decimal::{parse_decimal, parsed_decimal};
use crate::results::{outcome, CabotError, CabotResult, Failure};
use crate::text::{
    body_bytes, copy_body, copy_lines, cut_at_space, decode_text, encoding_error_prefix,
    lemma_before_space, split_at_space, starts_with,
};
use crate::tokens::{
    is_whitespace, joined, lemma_first_token, lemma_joined_front, lemma_tokens_are_words,
    next_token, tokens,
};
use vstd::prelude::*;
use vstd::slice::slice_to_vec;
use vstd::string::StringExecFns;
use vstd::utf8::{decode_utf8, valid_utf8};

verus! {

/// An HTTP response, as parsed from what a server sent.
pub struct Response {
    status_code: usize,
    status_line: String,
    headers: Vec<String>,
    body: Option<Vec<u8>>,
}

/// What a [`Response`] holds, as mathematical values.
pub struct ResponseView {
    /// Numeric status.
    pub status_code: usize,
    /// The status line from the status code on: the code as it was
    /// received, a space, and the reason phrase.
    pub status_line: Seq<char>,
    /// Header lines in the order in which they arrived.
    pub headers: Seq<Seq<char>>,
    /// Payload, if one was received.
    pub body: Option<Seq<u8>>,
}

impl ResponseView {
    /// The body as text: empty where there is no body, nothing where the
    /// body is not valid UTF-8.
    pub open spec fn text_body(self) -> Option<Seq<char>> {
        match self.body {
            Some(bytes) => if valid_utf8(bytes) {
                Some(decode_utf8(bytes))
            } else {
                None
            },
            None => Some(Seq::empty()),
        }
    }

    /// The status line begins with the text of the status code, then a space.
    pub open spec fn well_formed(self) -> bool {
        split_at_space(self.status_line) matches Some((code, _)) && parsed_decimal(code) == Some(
            self.status_code,
        )
    }

    /// What follows the status code and its space in the status line.
    pub open spec fn reason_phrase(self) -> Seq<char> {
        match split_at_space(self.status_line) {
            Some((_, reason)) => reason,
            None => Seq::empty(),
        }
    }
}

impl View for Response {
    type V = ResponseView;

    closed spec fn view(&self) -> ResponseView {
        ResponseView {
            status_code: self.status_code,
            status_line: self.status_line@,
            headers: self.headers.deep_view(),
            body: body_bytes(self.body),
        }
    }
}

impl Response {
    #[verifier::type_invariant]
    spec fn parsed(&self) -> bool {
        self@.well_formed()
    }

    /// Assembles a response from a status code and the status line it was
    /// read off.
    fn new(
        status_code: usize,
        status_line: String,
        headers: Vec<String>,
        body: Option<Vec<u8>>,
    ) -> (response: Response)
        requires
            (ResponseView {
                status_code: status_code,
                status_line: status_line@,
                headers: headers.deep_view(),
                body: body_bytes(body),
            }).well_formed(),
        ensures
            response@ == (ResponseView {
                status_code: status_code,
                status_line: status_line@,
                headers: headers.deep_view(),
                body: body_bytes(body),
            }),
    {
        Response {
            status_code: status_code,
            status_line: status_line,
            headers: headers,
            body: body,
        }
    }

    /// The numeric status of the response.
    pub fn status_code(&self) -> (status_code: usize)
        ensures
            status_code == self@.status_code,
            self@.well_formed(),
    {
        proof {
            use_type_invariant(self);
        }
        self.status_code
    }

    /// The status line from the status code on: the code as the server
    /// wrote it, a space, and the reason phrase.
    pub fn status_line(&self) -> (status_line: &str)
        ensures
            status_line@ == self@.status_line,
            self@.well_formed(),
    {
        proof {
            use_type_invariant(self);
        }
        self.status_line.as_str()
    }

    /// The reason phrase: the words that followed the status code, with a
    /// single space between each two.
    pub fn reason_phrase(&self) -> (reason: &str)
        ensures
            reason@ == self@.reason_phrase(),
    {
        proof {
            use_type_invariant(self);
        }
        match cut_at_space(self.status_line.as_str()) {
            Some((_, reason)) => reason,
            // a status line that was parsed holds a space after its code
            None => self.status_line.as_str(),
        }
    }

    /// The header lines of the response, in the order in which they arrived.
    pub fn headers(&self) -> (headers: Vec<&str>)
        ensures
            headers.deep_view() == self@.headers,
    {
        let mut headers: Vec<&str> = Vec::new();
        let mut i: usize = 0;
        while i < self.headers.len()
            invariant
                i <= self.headers.len(),
                headers.len() == i,
                forall|j: int| 0 <= j < i ==> headers@[j]@ == self.headers@[j]@,
            decreases self.headers.len() - i,
        {
            headers.push(self.headers[i].as_str());
            i = i + 1;
        }
        assert(headers.deep_view() =~= self@.headers);
        headers
    }

    /// The body of the response, if one was received.
    pub fn body(&self) -> (body: Option<&[u8]>)
        ensures
            match body {
                Some(bytes) => self@.body == Some(bytes@),
                None => self@.body is None,
            },
    {
        match &self.body {
            None => None,
            Some(body) => Some(body.as_slice()),
        }
    }

    /// The body of the response as text; the empty text where no body was
    /// received.
    ///
    /// Fails with `EncodingError` exactly where there is a body that is not
    /// valid UTF-8.
    pub fn body_as_string(&self) -> (r: CabotResult<String>)
        ensures
            match r {
                Ok(text) => self@.text_body() == Some(text@),
                Err(CabotError::EncodingError(detail)) => self@.text_body() is None
                    && encoding_error_prefix().is_prefix_of(detail@),
                Err(_) => false,
            },
    {
        match &self.body {
            None => Ok(String::new()),
            Some(body) => decode_text(body),
        }
    }
}

/// Accumulates what a server sent, and validates it into a [`Response`].
#[derive(Debug)]
pub struct ResponseBuilder {
    status_line: Option<String>,
    headers: Vec<String>,
    body: Option<Vec<u8>>,
}

/// What a [`ResponseBuilder`] holds, as mathematical values.
pub struct ResponseBuilderView {
    pub status_line: Option<Seq<char>>,
    pub headers: Seq<Seq<char>>,
    pub body: Option<Seq<u8>>,
}

impl View for ResponseBuilder {
    type V = ResponseBuilderView;

    closed spec fn view(&self) -> ResponseBuilderView {
        ResponseBuilderView {
            status_line: self.status_line.deep_view(),
            headers: self.headers.deep_view(),
            body: body_bytes(self.body),
        }
    }
}

/// A status line parsed: its status code, and the line from the code on.
///
/// The line is made of tokens, separated by white space of any kind and
/// length: the protocol, the status code, and one token or more of reason.
/// The protocol has to begin with `HTTP/` and the code has to be an
/// unsigned decimal number. What is kept of the line are the tokens from the
/// code on, joined by single spaces.
pub open spec fn parsed_status(line: Seq<char>) -> Result<(usize, Seq<char>), Failure> {
    let parts = tokens(line);
    if parts.len() < 3 {
        Err(Failure::HttpResponseParseError("Malformed Status Line: "@ + line))
    } else if !"HTTP/"@.is_prefix_of(parts[0]) {
        Err(Failure::HttpResponseParseError("Unknown Protocol in Status Line: "@ + line))
    } else {
        match parsed_decimal(parts[1]) {
            None => Err(Failure::HttpResponseParseError("Malformed status code: "@ + line)),
            Some(status_code) => Ok((status_code, joined(parts.skip(1)))),
        }
    }
}

/// The response that a builder makes of what it holds, or the reason why it
/// makes none.
pub open spec fn parsed_response(builder: ResponseBuilderView) -> Result<ResponseView, Failure> {
    match builder.status_line {
        None => Err(Failure::HttpResponseParseError("No Status Line"@)),
        Some(line) => match parsed_status(line) {
            Err(failure) => Err(failure),
            Ok((status_code, status_line)) => Ok(
                ResponseView {
                    status_code: status_code,
                    status_line: status_line,
                    headers: builder.headers,
                    body: builder.body,
                },
            ),
        },
    }
}

/// An error about a status line: `reason`, then the line itself.
fn status_line_error(reason: &str, line: &str) -> (error: CabotError)
    ensures
        error@ == Failure::HttpResponseParseError(reason@ + line@),
{
    let mut detail = reason.to_owned();
    detail.append(line);
    CabotError::HttpResponseParseError(detail)
}

impl ResponseBuilder {
    /// A builder that holds nothing yet.
    pub fn new() -> (builder: Self)
        ensures
            builder@ == (ResponseBuilderView {
                status_line: None,
                headers: Seq::empty(),
                body: None,
            }),
    {
        let builder = ResponseBuilder { status_line: None, headers: Vec::new(), body: None };
        assert(builder@.headers =~= Seq::empty());
        builder
    }

    /// Sets the status line, in place of one set before.
    pub fn set_status_line(self, status_line: &str) -> (builder: Self)
        ensures
            builder@ == (ResponseBuilderView { status_line: Some(status_line@), ..self@ }),
    {
        let mut builder = self;
        builder.status_line = Some(status_line.to_owned());
        builder
    }

    /// Adds a header line after those added so far.
    pub fn add_header(self, header: &str) -> (builder: Self)
        ensures
            builder@ == (ResponseBuilderView { headers: self@.headers.push(header@), ..self@ }),
    {
        let ghost before = self@;
        let mut builder = self;
        builder.headers.push(header.to_owned());
        assert(builder@.headers =~= before.headers.push(header@));
        builder
    }

    /// Sets the body: a copy of `buf`.
    pub fn set_body(self, buf: &[u8]) -> (builder: Self)
        ensures
            builder@ == (ResponseBuilderView { body: Some(buf@), ..self@ }),
    {
        let mut builder = self;
        builder.body = Some(slice_to_vec(buf));
        builder
    }

    /// Validates the status line and makes a response of it, of the header
    /// lines and of the body.
    ///
    /// Fails with `HttpResponseParseError` where no status line was set,
    /// where it has fewer than three tokens, where its protocol is not
    /// HTTP, and where its status code is no number.
    pub fn build(&self) -> (r: CabotResult<Response>)
        ensures
            outcome(r) == parsed_response(self@),
    {
        let line = match &self.status_line {
            Some(line) => line.as_str(),
            None => {
                return Err(CabotError::HttpResponseParseError("No Status Line".to_owned()));
            },
        };
        let (protocol, rest) = match next_token(line) {
            Some(parts) => parts,
            None => {
                return Err(status_line_error("Malformed Status Line: ", line));
            },
        };
        assert(tokens(line@) == seq![protocol@] + tokens(rest@));
        let ghost after_protocol = rest@;
        let (code, rest) = match next_token(rest) {
            Some(parts) => parts,
            None => {
                assert(tokens(rest@).len() == 0);
                return Err(status_line_error("Malformed Status Line: ", line));
            },
        };
        assert(tokens(after_protocol) == seq![code@] + tokens(rest@));
        let ghost after_code = rest@;
        let (reason, rest) = match next_token(rest) {
            Some(parts) => parts,
            None => {
                assert(tokens(rest@).len() == 0);
                return Err(status_line_error("Malformed Status Line: ", line));
            },
        };
        assert(tokens(after_code) == seq![reason@] + tokens(rest@));
        let ghost mut seen = seq![protocol@, code@, reason@];
        assert(tokens(line@) =~= seen + tokens(rest@));
        if !starts_with(protocol, "HTTP/") {
            return Err(status_line_error("Unknown Protocol in Status Line: ", line));
        }
        let status_code = match parse_decimal(code) {
            Some(status_code) => status_code,
            None => {
                return Err(status_line_error("Malformed status code: ", line));
            },
        };
        let mut status_line = code.to_owned();
        status_line.append(" ");
        status_line.append(reason);
        proof {
            assert(seen.skip(1) =~= seq![code@, reason@]);
            assert(seen.skip(1).drop_last() =~= seq![code@]);
            assert(joined(seq![code@]) == code@);
            assert(status_line@ =~= joined(seen.skip(1)));
        }
        let mut rest = rest;
        loop
            invariant
                seen.len() >= 3,
                seen[1] == code@,
                tokens(line@) == seen + tokens(rest@),
                status_line@ == joined(seen.skip(1)),
                (code@ + " "@).is_prefix_of(status_line@),
            ensures
                seen.len() >= 3,
                seen[1] == code@,
                tokens(line@) == seen,
                status_line@ == joined(seen.skip(1)),
                (code@ + " "@).is_prefix_of(status_line@),
            decreases rest@.len(),
        {
            proof {
                lemma_first_token(rest@);
            }
            match next_token(rest) {
                Some((word, others)) => {
                    status_line.append(" ");
                    status_line.append(word);
                    proof {
                        let longer = seen.push(word@);
                        assert(longer.skip(1).drop_last() =~= seen.skip(1));
                        assert(tokens(line@) =~= longer + tokens(others@));
                        seen = longer;
                    }
                    rest = others;
                },
                None => {
                    assert(tokens(line@) =~= seen);
                    break ;
                },
            }
        }
        proof {
            lemma_tokens_are_words(line@);
            reveal_strlit(" ");
            assert forall|j: int| 0 <= j < code@.len() implies status_line@[j] != ' ' by {
                assert(status_line@[j] == (code@ + " "@)[j]);
                assert(!is_whitespace(tokens(line@)[1][j]));
            }
            assert(status_line@[code@.len() as int] == (code@ + " "@)[code@.len() as int]);
            lemma_before_space(status_line@, code@.len() as int);
            assert(status_line@.subrange(0, code@.len() as int) =~= code@);
        }
        Ok(
            Response::new(
                status_code,
                status_line,
                copy_lines(&self.headers),
                copy_body(&self.body),
            ),
        )
    }
}

/// The status line that is kept begins with the code, a space follows, and
/// the code holds no space: the code and the reason can be read off it again.
pub proof fn lemma_kept_status_line(line: Seq<char>)
    requires
        tokens(line).len() >= 3,
    ensures
        ({
            let parts = tokens(line);
            let kept = joined(parts.skip(1));
            &&& kept == parts[1] + " "@ + joined(parts.skip(2))
            &&& split_at_space(kept) == Some((parts[1], joined(parts.skip(2))))
        }),
{
    let parts = tokens(line);
    let kept = joined(parts.skip(1));
    let code = parts[1];
    let reason = joined(parts.skip(2));
    lemma_joined_front(parts.skip(1));
    assert(parts.skip(1).drop_first() =~= parts.skip(2));
    lemma_tokens_are_words(line);
    reveal_strlit(" ");
    assert forall|j: int| 0 <= j < code.len() implies kept[j] != ' ' by {
        assert(kept[j] == code[j]);
        assert(!is_whitespace(parts[1][j]));
    }
    assert(kept[code.len() as int] == ' ');
    lemma_before_space(kept, code.len() as int);
    assert(kept.subrange(0, code.len() as int) =~= code);
    assert(kept.subrange(code.len() as int + 1, kept.len() as int) =~= reason);
}

/// A status line is refused as malformed exactly where it has fewer than
/// three tokens.
pub proof fn law_malformed_iff_fewer_than_three_tokens(line: Seq<char>)
    ensures
        tokens(line).len() < 3 <==> parsed_status(line) == Err::<(usize, Seq<char>), Failure>(
            Failure::HttpResponseParseError("Malformed Status Line: "@ + line),
        ),
{
    reveal_strlit("Malformed Status Line: ");
    reveal_strlit("Unknown Protocol in Status Line: ");
    reveal_strlit("Malformed status code: ");
    let malformed = "Malformed Status Line: "@ + line;
    let unknown = "Unknown Protocol in Status Line: "@ + line;
    let no_code = "Malformed status code: "@ + line;
    assert(unknown[0] == 'U' && malformed[0] == 'M');
    assert(no_code[10] == 's' && malformed[10] == 'S');
}

/// Where a status line has three tokens or more, a first token that does
/// not begin with `HTTP/` is refused as an unknown protocol; after that, a
/// second token that is no number is refused as a malformed status code;
/// every other line is accepted, with the number as its status code and the
/// tokens after it, joined by single spaces, as its reason.
pub proof fn law_status_line_verdicts(line: Seq<char>)
    requires
        tokens(line).len() >= 3,
    ensures
        ({
            let parts = tokens(line);
            let reason = joined(parts.skip(2));
            &&& !"HTTP/"@.is_prefix_of(parts[0]) ==> parsed_status(line) == Err::<
                (usize, Seq<char>),
                Failure,
            >(Failure::HttpResponseParseError("Unknown Protocol in Status Line: "@ + line))
            &&& "HTTP/"@.is_prefix_of(parts[0]) && parsed_decimal(parts[1]) is None
                ==> parsed_status(line) == Err::<(usize, Seq<char>), Failure>(
                Failure::HttpResponseParseError("Malformed status code: "@ + line),
            )
            &&& "HTTP/"@.is_prefix_of(parts[0]) && parsed_decimal(parts[1]) is Some
                ==> parsed_status(line) == Ok::<(usize, Seq<char>), Failure>(
                (parsed_decimal(parts[1])->0, parts[1] + " "@ + reason),
            )
        }),
{
    lemma_kept_status_line(line);
}

/// A builder makes a response exactly of a status line that has three
/// tokens or more, a first token that begins with `HTTP/` and a second
/// token that is a number; header lines and body never stand in the way.
/// Every response that it makes holds that number as its status code, the
/// tokens after it, joined by single spaces, as its reason phrase, and the
/// header lines and the body of the builder unchanged.
pub proof fn law_response_is_well_formed(builder: ResponseBuilderView)
    ensures
        parsed_response(builder) is Ok <==> builder.status_line is Some && ({
            let parts = tokens(builder.status_line->0);
            parts.len() >= 3 && "HTTP/"@.is_prefix_of(parts[0]) && parsed_decimal(parts[1])
                is Some
        }),
        parsed_response(builder) matches Err(failure)
            ==> failure is HttpResponseParseError,
        parsed_response(builder) matches Ok(response) ==> ({
            let parts = tokens(builder.status_line->0);
            &&& response.well_formed()
            &&& response.headers == builder.headers
            &&& response.body == builder.body
            &&& parsed_decimal(parts[1]) == Some(response.status_code)
            &&& response.reason_phrase() == joined(parts.skip(2))
            &&& response.status_line == parts[1] + " "@ + response.reason_phrase()
        }),
{
    if builder.status_line is Some && tokens(builder.status_line->0).len() >= 3 {
        lemma_kept_status_line(builder.status_line->0);
    }
}

} // verus!
