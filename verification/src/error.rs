//! Error types.
use reqwest::Error as HttpError;
use url::ParseError as UrlError;
use vstd::prelude::*;
use vstd::std_specs::convert::FromSpec;
use vstd::string::*;

use crate::text::joined;
use crate::types::{api_error_text, ApiError, ApiErrors};

verus! {

// ── Errors of the HTTP and URL libraries ────────────────────────────────────

/// An error of the HTTP library; it is carried along and printed.
#[verifier::external_type_specification]
#[verifier::external_body]
pub struct ExHttpError(HttpError);

/// An error of the URL parser; it is carried along and printed.
#[verifier::external_type_specification]
#[verifier::external_body]
pub struct ExUrlError(UrlError);

/// The message of an error of the HTTP library.
pub uninterp spec fn http_error_text(error: HttpError) -> Seq<char>;

/// The message of an error of the URL parser.
pub uninterp spec fn url_error_text(error: UrlError) -> Seq<char>;

/// `to_string` of `reqwest::Error`: a message that depends on the error alone,
/// which [`http_error_text`] names.
#[verifier::external_body]
fn http_error_message(error: &HttpError) -> (text: String)
    ensures
        text@ == http_error_text(*error),
{
    error.to_string()
}

/// `to_string` of `url::ParseError`: a message that depends on the error alone,
/// which [`url_error_text`] names.
#[verifier::external_body]
fn url_error_message(error: &UrlError) -> (text: String)
    ensures
        text@ == url_error_text(*error),
{
    error.to_string()
}

// ── The library's errors ────────────────────────────────────────────────────

/// Errors returned by the API client.
#[derive(Debug)]
#[non_exhaustive]
pub enum Error {
    /// Low-level HTTP error.
    Http(HttpError),
    /// Invalid URL.
    Url(UrlError),
    /// Resource could not be found.
    NotFound(NotFoundError),
    /// No permission to access the resource.
    PermissionDenied(PermissionDeniedError),
    /// JSON decoding failed.
    JsonDecode(JsonDecodeError),
    /// Error returned by the crates.io API.
    Api(ApiErrors),
}

/// Error returned when JSON from the registry could not be decoded.
#[derive(Debug)]
pub struct JsonDecodeError {
    /// What the decoder reported.
    pub message: String,
}

/// Error returned when a resource could not be found.
#[derive(Debug)]
pub struct NotFoundError {
    /// Where the resource was looked for.
    pub url: String,
}

/// Error returned when a resource is not accessible.
#[derive(Debug)]
pub struct PermissionDeniedError {
    /// What the registry answered.
    pub reason: String,
}

/// The message of a [`JsonDecodeError`].
pub open spec fn json_decode_text(message: Seq<char>) -> Seq<char> {
    "Could not decode JSON: "@ + message
}

/// The message of a [`NotFoundError`].
pub open spec fn not_found_text(url: Seq<char>) -> Seq<char> {
    "Resource at '"@ + url + "' could not be found"@
}

/// The message of a [`PermissionDeniedError`].
pub open spec fn permission_denied_text(reason: Seq<char>) -> Seq<char> {
    "Permission denied: "@ + reason
}

/// The messages of a list of API errors.
pub open spec fn api_error_texts(details: Seq<Option<Seq<char>>>) -> Seq<Seq<char>> {
    details.map_values(|detail: Option<Seq<char>>| api_error_text(detail))
}

/// The message of a list of API errors.
pub open spec fn api_errors_text(details: Seq<Option<Seq<char>>>) -> Seq<char> {
    let inner = if details.len() == 0 {
        "Unknown API error"@
    } else {
        joined(api_error_texts(details), ", "@)
    };
    "API Error ("@ + inner + ")"@
}

/// The message of an [`Error`].
pub open spec fn error_text(error: Error) -> Seq<char> {
    match error {
        Error::Http(inner) => http_error_text(inner),
        Error::Url(inner) => url_error_text(inner),
        Error::NotFound(inner) => not_found_text(inner.url@),
        Error::PermissionDenied(inner) => permission_denied_text(inner.reason@),
        Error::JsonDecode(inner) => "Could not decode registry JSON: "@ + json_decode_text(
            inner.message@,
        ),
        Error::Api(inner) => api_errors_text(inner.deep_view()),
    }
}

/// What the errors say: where a resource was looked for, why it may not be read,
/// what could not be decoded, and what the other libraries say of their errors.
pub proof fn law_error_text(error: Error)
    ensures
        error matches Error::Http(inner) ==> error_text(error) == http_error_text(inner),
        error matches Error::Url(inner) ==> error_text(error) == url_error_text(inner),
        error matches Error::NotFound(inner) ==> error_text(error) == "Resource at '"@ + inner.url@
            + "' could not be found"@ && error_text(error) == not_found_text(inner.url@),
        error matches Error::PermissionDenied(inner) ==> error_text(error)
            == "Permission denied: "@ + inner.reason@ && error_text(error)
            == permission_denied_text(inner.reason@),
        error matches Error::JsonDecode(inner) ==> error_text(error)
            == "Could not decode registry JSON: "@ + ("Could not decode JSON: "@ + inner.message@)
            && json_decode_text(inner.message@) == "Could not decode JSON: "@ + inner.message@,
{
}

/// An error of the other libraries is carried along as it is.
pub proof fn law_errors_are_carried(http: HttpError, url: UrlError)
    ensures
        <Error as FromSpec<HttpError>>::from_spec(http) == Error::Http(http),
        <Error as FromSpec<UrlError>>::from_spec(url) == Error::Url(url),
{
}

/// What API errors say together: that the error is unknown where there is none,
/// and else what each says, with a comma and a space between them.
pub proof fn law_api_errors_text(errors: ApiErrors)
    ensures
        ({
            let text = error_text(Error::Api(errors));
            &&& text == api_errors_text(errors.deep_view())
            &&& errors.errors@.len() == 0 ==> text == "API Error ("@ + "Unknown API error"@ + ")"@
            &&& errors.errors@.len() > 0 ==> text == "API Error ("@ + joined(
                Seq::new(
                    errors.errors@.len(),
                    |i: int|
                        match errors.errors@[i].detail {
                            Some(detail) => detail@,
                            None => "Unknown API Error"@,
                        },
                ),
                ", "@,
            ) + ")"@
        }),
{
    let details = errors.deep_view();
    assert(details.len() == errors.errors@.len());
    assert(api_error_texts(details) =~= Seq::new(
        errors.errors@.len(),
        |i: int|
            match errors.errors@[i].detail {
                Some(detail) => detail@,
                None => "Unknown API Error"@,
            },
    ));
}

/// An API error says its detail, or that it is unknown.
pub proof fn law_api_error_text(error: ApiError)
    ensures
        error.detail matches Some(detail) ==> api_error_text(error.deep_view()) == detail@,
        error.detail is None ==> api_error_text(error.deep_view()) == "Unknown API Error"@,
{
}

impl JsonDecodeError {
    /// The error's message.
    pub fn to_string(&self) -> (text: String)
        ensures
            text@ == json_decode_text(self.message@),
    {
        "Could not decode JSON: ".to_owned().concat(self.message.as_str())
    }
}

impl NotFoundError {
    /// The error's message.
    pub fn to_string(&self) -> (text: String)
        ensures
            text@ == not_found_text(self.url@),
    {
        "Resource at '".to_owned().concat(self.url.as_str()).concat("' could not be found")
    }
}

impl PermissionDeniedError {
    /// The error's message.
    pub fn to_string(&self) -> (text: String)
        ensures
            text@ == permission_denied_text(self.reason@),
    {
        "Permission denied: ".to_owned().concat(self.reason.as_str())
    }
}

impl ApiErrors {
    /// The message of the errors together.
    pub fn to_string(&self) -> (text: String)
        ensures
            text@ == api_errors_text(self.deep_view()),
    {
        if self.errors.len() == 0 {
            return "API Error (".to_owned().concat("Unknown API error").concat(")");
        }
        let ghost texts = api_error_texts(self.deep_view());
        let mut inner = self.errors[0].to_string();
        assert(inner@ == texts[0]);
        assert(texts.take(1) =~= seq![texts[0]]);
        for i in 1..self.errors.len()
            invariant
                texts == api_error_texts(self.deep_view()),
                texts.len() == self.errors@.len(),
                inner@ == joined(texts.take(i as int), ", "@),
                1 <= i,
        {
            inner = inner.concat(", ").concat(self.errors[i].to_string().as_str());
            assert(texts.take(i + 1).drop_last() =~= texts.take(i as int));
            assert(texts.take(i + 1).last() == texts[i as int]);
        }
        assert(texts.take(texts.len() as int) =~= texts);
        "API Error (".to_owned().concat(inner.as_str()).concat(")")
    }
}

impl Error {
    /// The error's message.
    pub fn to_string(&self) -> (text: String)
        ensures
            text@ == error_text(*self),
    {
        match self {
            Error::Http(inner) => http_error_message(inner),
            Error::Url(inner) => url_error_message(inner),
            Error::NotFound(inner) => inner.to_string(),
            Error::PermissionDenied(inner) => inner.to_string(),
            Error::JsonDecode(inner) => "Could not decode registry JSON: ".to_owned().concat(
                inner.to_string().as_str(),
            ),
            Error::Api(inner) => inner.to_string(),
        }
    }
}

impl From<HttpError> for Error {
    fn from(e: HttpError) -> (error: Self) {
        Error::Http(e)
    }
}

impl vstd::std_specs::convert::FromSpecImpl<HttpError> for Error {
    open spec fn obeys_from_spec() -> bool {
        true
    }

    open spec fn from_spec(e: HttpError) -> Self {
        Error::Http(e)
    }
}

impl From<UrlError> for Error {
    fn from(e: UrlError) -> (error: Self) {
        Error::Url(e)
    }
}

impl vstd::std_specs::convert::FromSpecImpl<UrlError> for Error {
    open spec fn obeys_from_spec() -> bool {
        true
    }

    open spec fn from_spec(e: UrlError) -> Self {
        Error::Url(e)
    }
}

} // verus!
