use vstd::prelude::*;
use vstd::string::*;

verus! {

/// The outcome of a request, as an HTTP status.
#[derive(Clone, Copy, PartialEq, Eq, Structural, Debug)]
pub enum Status {
    Success,
    BadRequest,
    NotFound,
    MethodNotAllowed,
}

impl Status {
    /// The numeric HTTP status code.
    pub open spec fn spec_code(self) -> u16 {
        match self {
            Status::Success => 200,
            Status::BadRequest => 400,
            Status::NotFound => 404,
            Status::MethodNotAllowed => 405,
        }
    }

    /// The numeric HTTP status code, for the transport layer.
    pub fn code(&self) -> (c: u16)
        ensures
            c == self.spec_code(),
    {
        match self {
            Status::Success => 200,
            Status::BadRequest => 400,
            Status::NotFound => 404,
            Status::MethodNotAllowed => 405,
        }
    }
}

/// What the service hands back to the transport layer: a status and a plain
/// text body.
pub struct Response {
    pub status: Status,
    pub body: String,
}

impl Response {
    /// A response with the given status and an empty body.
    pub fn with_status(status: Status) -> (r: Response)
        ensures
            r.status == status,
            r.body@ == Seq::<char>::empty(),
    {
        Response { status, body: String::new() }
    }

    /// A success response carrying the given body.
    pub fn success_with_body(body: String) -> (r: Response)
        ensures
            r.status == Status::Success,
            r.body == body,
    {
        Response { status: Status::Success, body }
    }
}

/// The fixed static page served on the index route.
pub open spec fn index_page() -> Seq<char> {
    "\n <!doctype html>\n <html>\n     <head>\n         <title>Rust Microservice</title>\n     </head>\n     <body>\n         <h3>Rust Microservice</h3>\n     </body>\n </html>\n "@
}

/// Build the index page body.
pub fn index_body() -> (s: String)
    ensures
        s@ == index_page(),
{
    String::from_str(
        "\n <!doctype html>\n <html>\n     <head>\n         <title>Rust Microservice</title>\n     </head>\n     <body>\n         <h3>Rust Microservice</h3>\n     </body>\n </html>\n ",
    )
}

} // verus!
