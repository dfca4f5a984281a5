//! The errors that requests are answered with.
use crate::utils::{reply, Reply};
use vstd::prelude::*;

verus! {

#[derive(Debug)]
pub enum ApiError {
    InternalServerError,
    BadRequest(String),
    NotFound(String),
    UploadError(String),
}

/// An error as the contracts speak of it.
pub enum ApiErrorView {
    InternalServerError,
    BadRequest(Seq<char>),
    NotFound(Seq<char>),
    UploadError(Seq<char>),
}

impl View for ApiError {
    type V = ApiErrorView;

    open spec fn view(&self) -> ApiErrorView {
        match self {
            ApiError::InternalServerError => ApiErrorView::InternalServerError,
            ApiError::BadRequest(m) => ApiErrorView::BadRequest(m@),
            ApiError::NotFound(m) => ApiErrorView::NotFound(m@),
            ApiError::UploadError(m) => ApiErrorView::UploadError(m@),
        }
    }
}

impl ApiErrorView {
    /// The HTTP status, which is also the code in the body.
    pub open spec fn status(self) -> u16 {
        match self {
            ApiErrorView::InternalServerError => 500,
            ApiErrorView::BadRequest(_) => 400,
            ApiErrorView::NotFound(_) => 404,
            ApiErrorView::UploadError(_) => 400,
        }
    }

    /// The message in the body.
    pub open spec fn message(self) -> Seq<char> {
        match self {
            ApiErrorView::InternalServerError => "Internal Server Error"@,
            ApiErrorView::BadRequest(m) => m,
            ApiErrorView::NotFound(m) => m,
            ApiErrorView::UploadError(m) => m,
        }
    }

    /// The text of the error.
    pub open spec fn text(self) -> Seq<char> {
        match self {
            ApiErrorView::InternalServerError => "Internal Server Error"@,
            ApiErrorView::BadRequest(m) => "Bad Request: "@ + m,
            ApiErrorView::NotFound(m) => "Not Found: "@ + m,
            ApiErrorView::UploadError(m) => "Upload Error: "@ + m,
        }
    }
}

/// The body of an answer that reports an error.
#[derive(Debug)]
pub struct ErrorResponse {
    pub code: i32,
    pub message: String,
}

fn prefixed(prefix: &str, m: &String) -> (r: String)
    ensures
        r@ == prefix@ + m@,
{
    let mut r = prefix.to_owned();
    r.append(m.as_str());
    r
}

impl ApiError {
    pub fn bad_request(message: &str) -> (r: ApiError)
        ensures
            r@ == ApiErrorView::BadRequest(message@),
    {
        ApiError::BadRequest(message.to_owned())
    }

    pub fn not_found(message: &str) -> (r: ApiError)
        ensures
            r@ == ApiErrorView::NotFound(message@),
    {
        ApiError::NotFound(message.to_owned())
    }

    pub fn upload(message: &str) -> (r: ApiError)
        ensures
            r@ == ApiErrorView::UploadError(message@),
    {
        ApiError::UploadError(message.to_owned())
    }

    /// The text of the error.
    pub fn display(&self) -> (r: String)
        ensures
            r@ == self@.text(),
    {
        match self {
            ApiError::InternalServerError => "Internal Server Error".to_owned(),
            ApiError::BadRequest(m) => prefixed("Bad Request: ", m),
            ApiError::NotFound(m) => prefixed("Not Found: ", m),
            ApiError::UploadError(m) => prefixed("Upload Error: ", m),
        }
    }

    /// The answer to a request that ends in the error.
    pub fn error_response(&self) -> (r: Reply<ErrorResponse>)
        ensures
            r.json(self@.status()),
            r.body.code == self@.status(),
            r.body.message@ == self@.message(),
    {
        let (status, code, message): (u16, i32, String) = match self {
            ApiError::InternalServerError => (500, 500, "Internal Server Error".to_owned()),
            ApiError::BadRequest(m) => (400, 400, m.clone()),
            ApiError::NotFound(m) => (404, 404, m.clone()),
            ApiError::UploadError(m) => (400, 400, m.clone()),
        };
        reply(status, ErrorResponse { code, message })
    }
}

/// The message of an error reaches the client as it was given, whatever it is; what went wrong
/// inside the service does not. Only a request for something that is not there is answered with
/// 404, and only a fault of the service with 500.
pub proof fn law_messages_are_told(m: Seq<char>)
    ensures
        ApiErrorView::BadRequest(m).message() == m,
        ApiErrorView::NotFound(m).message() == m,
        ApiErrorView::UploadError(m).message() == m,
        m.is_suffix_of(ApiErrorView::BadRequest(m).text()),
        m.is_suffix_of(ApiErrorView::NotFound(m).text()),
        m.is_suffix_of(ApiErrorView::UploadError(m).text()),
        forall|e: ApiErrorView| #[trigger] e.status() == 404 <==> e is NotFound,
        forall|e: ApiErrorView| #[trigger] e.status() == 500 <==> e is InternalServerError,
        forall|e: ApiErrorView| #[trigger]
            e.status() == 400 <==> e is BadRequest || e is UploadError,
{
    lemma_suffix("Bad Request: "@, m);
    lemma_suffix("Not Found: "@, m);
    lemma_suffix("Upload Error: "@, m);
}

proof fn lemma_suffix(a: Seq<char>, b: Seq<char>)
    ensures
        b.is_suffix_of(a + b),
{
    let s = a + b;
    assert(s.subrange(s.len() - b.len(), s.len() as int) =~= b);
}

} // verus!
