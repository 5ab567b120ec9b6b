//! Responses of the line-oriented text protocol front end, and the error type
//! that carries one.

use vstd::prelude::*;

use crate::query::{parse_spec, Query};
use crate::text::{decimal, decimal_text};

verus! {

/// Turns the failure of a result into an `Error` that carries a response.
pub trait OkResponse<T>: Sized {
    /// The success value, if any.
    spec fn ok_part(&self) -> Option<T>;

    /// The success value, or a failure answered by `response` and described
    /// by the failure's own text.
    fn ok_or_response(self, response: Response) -> (r: Result<T, Error>)
        ensures
            self.ok_part().is_some() ==> r == Ok::<T, Error>(self.ok_part().unwrap()),
            self.ok_part().is_none() ==> (r matches Err(Error::Response(_, resp)) && resp == response),
    ;

    /// As `ok_or_response`, building the response only on failure.
    fn ok_else_response<F: FnOnce() -> Response>(self, response: F) -> (r: Result<T, Error>)
        requires
            self.ok_part().is_none() ==> response.requires(()),
        ensures
            self.ok_part().is_some() ==> r == Ok::<T, Error>(self.ok_part().unwrap()),
            self.ok_part().is_none() ==> (r matches Err(Error::Response(_, resp)) && response.ensures((), resp)),
    ;
}

impl<T, E: std::fmt::Display> OkResponse<T> for Result<T, E> {
    open spec fn ok_part(&self) -> Option<T> {
        match self {
            Ok(v) => Some(*v),
            Err(_) => None,
        }
    }

    fn ok_or_response(self, response: Response) -> (r: Result<T, Error>) {
        match self {
            Ok(v) => Ok(v),
            Err(e) => Err(Error::Response(e.to_string(), response)),
        }
    }

    fn ok_else_response<F: FnOnce() -> Response>(self, response: F) -> (r: Result<T, Error>) {
        match self {
            Ok(v) => Ok(v),
            Err(e) => Err(Error::Response(e.to_string(), response())),
        }
    }
}

/// The status classes of a response.
#[derive(Clone, Copy, Debug, PartialEq, Eq, Structural)]
pub enum ResponseCode {
    Input,
    SensitiveInput,
    Success,
    Redirect,
    RedirectPerm,
    TempError,
    Unavailable,
    CgiError,
    ProxyError,
    SlowDown,
    PermError,
    NotFound,
    Gone,
    ProxyRefused,
    BadRequest,
    CertRequired,
    CertNotAuthorized,
    CertNotValid,
}

/// A response: a status, its meta line (a prompt, a MIME type, a target or a
/// message) and, on success, a body.
#[derive(Clone, Debug)]
pub struct Response {
    pub code: ResponseCode,
    pub meta: String,
    pub body: Option<String>,
}

/// A failure while handling a request, possibly with the response to send.
#[derive(Clone, Debug)]
pub enum Error {
    Message(String),
    Response(String, Response),
    Nested(String),
    NestedResponse(String, Response),
}

pub open spec fn code_number(c: ResponseCode) -> int {
    match c {
        ResponseCode::Input => 10,
        ResponseCode::SensitiveInput => 11,
        ResponseCode::Success => 20,
        ResponseCode::Redirect => 30,
        ResponseCode::RedirectPerm => 31,
        ResponseCode::TempError => 40,
        ResponseCode::Unavailable => 41,
        ResponseCode::CgiError => 42,
        ResponseCode::ProxyError => 43,
        ResponseCode::SlowDown => 44,
        ResponseCode::PermError => 50,
        ResponseCode::NotFound => 51,
        ResponseCode::Gone => 52,
        ResponseCode::ProxyRefused => 53,
        ResponseCode::BadRequest => 59,
        ResponseCode::CertRequired => 60,
        ResponseCode::CertNotAuthorized => 61,
        ResponseCode::CertNotValid => 62,
    }
}

/// A response of status `code` whose meta line is `meta`, without a body.
pub open spec fn plain(r: Response, code: ResponseCode, meta: Seq<char>) -> bool {
    r.code == code && r.meta@ == meta && r.body.is_none()
}

impl ResponseCode {
    /// The two-digit status number.
    pub fn status_code(&self) -> (r: i32)
        ensures
            r == code_number(*self),
    {
        match self {
            ResponseCode::Input => 10,
            ResponseCode::SensitiveInput => 11,
            ResponseCode::Success => 20,
            ResponseCode::Redirect => 30,
            ResponseCode::RedirectPerm => 31,
            ResponseCode::TempError => 40,
            ResponseCode::Unavailable => 41,
            ResponseCode::CgiError => 42,
            ResponseCode::ProxyError => 43,
            ResponseCode::SlowDown => 44,
            ResponseCode::PermError => 50,
            ResponseCode::NotFound => 51,
            ResponseCode::Gone => 52,
            ResponseCode::ProxyRefused => 53,
            ResponseCode::BadRequest => 59,
            ResponseCode::CertRequired => 60,
            ResponseCode::CertNotAuthorized => 61,
            ResponseCode::CertNotValid => 62,
        }
    }
}

impl Response {
    pub fn new(code: ResponseCode, meta: &str) -> (r: Response)
        ensures
            plain(r, code, meta@),
    {
        Response { code, meta: String::from_str(meta), body: None }
    }

    pub fn input(prompt: &str) -> (r: Response)
        ensures
            plain(r, ResponseCode::Input, prompt@),
    {
        Self::new(ResponseCode::Input, prompt)
    }

    pub fn sensitive_input(prompt: &str) -> (r: Response)
        ensures
            plain(r, ResponseCode::SensitiveInput, prompt@),
    {
        Self::new(ResponseCode::SensitiveInput, prompt)
    }

    /// A success of MIME type `mime` with `body`.
    pub fn success(mime: &str, body: &str) -> (r: Response)
        ensures
            r.code == ResponseCode::Success,
            r.meta@ == mime@,
            r.body.is_some() && r.body.unwrap()@ == body@,
    {
        Response { code: ResponseCode::Success, meta: String::from_str(mime), body: Some(String::from_str(body)) }
    }

    pub fn redirect(dest: &str) -> (r: Response)
        ensures
            plain(r, ResponseCode::Redirect, dest@),
    {
        Self::new(ResponseCode::Redirect, dest)
    }

    pub fn redirect_perm(dest: &str) -> (r: Response)
        ensures
            plain(r, ResponseCode::RedirectPerm, dest@),
    {
        Self::new(ResponseCode::RedirectPerm, dest)
    }

    pub fn temp_error(message: &str) -> (r: Response)
        ensures
            plain(r, ResponseCode::TempError, message@),
    {
        Self::new(ResponseCode::TempError, message)
    }

    pub fn unavailable(message: &str) -> (r: Response)
        ensures
            plain(r, ResponseCode::Unavailable, message@),
    {
        Self::new(ResponseCode::Unavailable, message)
    }

    pub fn cgi_error(message: &str) -> (r: Response)
        ensures
            plain(r, ResponseCode::CgiError, message@),
    {
        Self::new(ResponseCode::CgiError, message)
    }

    pub fn proxy_error(message: &str) -> (r: Response)
        ensures
            plain(r, ResponseCode::ProxyError, message@),
    {
        Self::new(ResponseCode::ProxyError, message)
    }

    /// Asks the client to wait `delay` seconds; the meta line is the number in
    /// decimal.
    pub fn slow_down(delay: i32) -> (r: Response)
        ensures
            plain(r, ResponseCode::SlowDown, decimal(delay as int)),
    {
        Response { code: ResponseCode::SlowDown, meta: decimal_text(delay), body: None }
    }

    pub fn perm_error(message: &str) -> (r: Response)
        ensures
            plain(r, ResponseCode::PermError, message@),
    {
        Self::new(ResponseCode::PermError, message)
    }

    pub fn not_found() -> (r: Response)
        ensures
            plain(r, ResponseCode::NotFound, "Path not found"@),
    {
        Self::new(ResponseCode::NotFound, "Path not found")
    }

    pub fn gone() -> (r: Response)
        ensures
            plain(r, ResponseCode::Gone, "Path no longer exists"@),
    {
        Self::new(ResponseCode::Gone, "Path no longer exists")
    }

    pub fn proxy_refused(message: &str) -> (r: Response)
        ensures
            plain(r, ResponseCode::ProxyRefused, message@),
    {
        Self::new(ResponseCode::ProxyRefused, message)
    }

    pub fn bad_request() -> (r: Response)
        ensures
            plain(r, ResponseCode::BadRequest, "Invalid request"@),
    {
        Self::new(ResponseCode::BadRequest, "Invalid request")
    }

    pub fn cert_required(message: &str) -> (r: Response)
        ensures
            plain(r, ResponseCode::CertRequired, message@),
    {
        Self::new(ResponseCode::CertRequired, message)
    }

    pub fn cert_not_authorized(message: &str) -> (r: Response)
        ensures
            plain(r, ResponseCode::CertNotAuthorized, message@),
    {
        Self::new(ResponseCode::CertNotAuthorized, message)
    }

    pub fn cert_not_valid(message: &str) -> (r: Response)
        ensures
            plain(r, ResponseCode::CertNotValid, message@),
    {
        Self::new(ResponseCode::CertNotValid, message)
    }

    pub fn status_code(&self) -> (r: i32)
        ensures
            r == code_number(self.code),
    {
        self.code.status_code()
    }

    pub fn meta(&self) -> (r: &str)
        ensures
            r@ == self.meta@,
    {
        self.meta.as_str()
    }

    /// The response as sent: status, a space, the meta line, CR LF, the body.
    pub fn to_text(&self) -> (r: String)
        ensures
            r@ == decimal(code_number(self.code)) + " "@ + self.meta@ + "\r\n"@ + match self.body {
                Some(b) => b@,
                None => Seq::<char>::empty(),
            },
    {
        let status = decimal_text(self.status_code());
        let text = status.concat(" ").concat(self.meta()).concat("\r\n").concat(self.body());
        proof {
            reveal_strlit(" ");
            reveal_strlit("\r\n");
        }
        text
    }

    /// The body, empty when there is none.
    pub fn body(&self) -> (r: &str)
        ensures
            self.body.is_some() ==> r@ == self.body.unwrap()@,
            self.body.is_none() ==> r@ == Seq::<char>::empty(),
    {
        match &self.body {
            Some(body) => body.as_str(),
            None => {
                proof {
                    reveal_strlit("");
                }
                ""
            },
        }
    }
}

impl Error {
    /// Wraps a lower-level failure, kept as its message.
    pub fn nested(err: String) -> (r: Error)
        ensures
            r == Error::Nested(err),
    {
        Error::Nested(err)
    }

    pub fn nested_with_response(err: String, response: Response) -> (r: Error)
        ensures
            r == Error::NestedResponse(err, response),
    {
        Error::NestedResponse(err, response)
    }

    /// Wraps a lower-level failure given by its message.
    pub fn from_err(err: &str) -> (r: Error)
        ensures
            r matches Error::Nested(m) && m@ == err@,
    {
        Error::Nested(String::from_str(err))
    }

    pub fn from_err_with_response(err: &str, response: Response) -> (r: Error)
        ensures
            r matches Error::NestedResponse(m, resp) && m@ == err@ && resp == response,
    {
        Error::NestedResponse(String::from_str(err), response)
    }

    /// A failure answered by `response`, described by its meta line.
    pub fn response(response: Response) -> (r: Error)
        ensures
            r matches Error::Response(m, resp) && m@ == response.meta@ && resp == response,
    {
        let message = response.meta.clone();
        Error::Response(message, response)
    }

    pub fn message(message: &str) -> (r: Error)
        ensures
            r matches Error::Message(m) && m@ == message@,
    {
        Error::Message(String::from_str(message))
    }

    pub fn response_with_message(message: &str, response: Response) -> (r: Error)
        ensures
            r matches Error::Response(m, resp) && m@ == message@ && resp == response,
    {
        Error::Response(String::from_str(message), response)
    }

    /// The response this failure carries, if any.
    pub fn get_response(&self) -> (r: Option<&Response>)
        ensures
            r.is_some() == (self is Response || self is NestedResponse),
            self matches Error::Response(_, resp) ==> r == Some(resp),
            self matches Error::NestedResponse(_, resp) ==> r == Some(resp),
    {
        match self {
            Error::Message(_) => None,
            Error::Nested(_) => None,
            Error::NestedResponse(_, response) => Some(response),
            Error::Response(_, response) => Some(response),
        }
    }

    /// The text of the failure.
    pub fn text(&self) -> (r: String)
        ensures
            self matches Error::Message(m) ==> r@ == m@,
            self matches Error::Response(m, _) ==> r@ == m@,
            self matches Error::Nested(m) ==> r@ == m@,
            self matches Error::NestedResponse(m, _) ==> r@ == m@,
    {
        match self {
            Error::Message(m) => m.clone(),
            Error::Response(m, _) => m.clone(),
            Error::Nested(m) => m.clone(),
            Error::NestedResponse(m, _) => m.clone(),
        }
    }

    /// The response to send for this failure: the one it carries, else an
    /// internal error.
    pub fn into_response(self) -> (r: Response)
        ensures
            self matches Error::Response(_, resp) ==> r == resp,
            self matches Error::NestedResponse(_, resp) ==> r == resp,
            (self is Message || self is Nested) ==> plain(r, ResponseCode::CgiError, "Internal Server Error"@),
    {
        match self {
            Error::Response(_, response) => response,
            Error::NestedResponse(_, response) => response,
            _ => Response::cgi_error("Internal Server Error"),
        }
    }
}

/// Reads the request's query string; a string whose escapes do not decode
/// fails with a bad-request response.
pub fn parse_query(query: &str) -> (r: Result<Query, Error>)
    ensures
        r.is_ok() == parse_spec(query@).is_some(),
        r.is_ok() ==> r.unwrap().wf() && parse_spec(query@) == Some(
            (r.unwrap().unnamed_view(), r.unwrap().named_view()),
        ),
        r.is_err() ==> (r.unwrap_err() matches Error::Response(_, resp) && plain(
            resp,
            ResponseCode::BadRequest,
            "Invalid request"@,
        )),
{
    match Query::parse(query) {
        Ok(q) => Ok(q),
        Err(_) => Err(Error::response_with_message("invalid percent-encoding in query", Response::bad_request())),
    }
}

} // verus!
