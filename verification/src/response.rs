use crate::request::pairs_view;
use vstd::prelude::*;

verus! {

/// An HTTP response: built by a handler, by the error mapper, or mutated in
/// place by a plugin's post-response hook.
#[verifier::ext_equal]
#[derive(Debug)]
pub struct Response {
    pub status_code: u16,
    pub contents: String,
    pub headers: Vec<(String, String)>,
}

/// A failed handler: either an opaque internal failure (nothing is exposed to
/// the client beyond a generic 500), or a fully formed response the handler
/// wants sent verbatim.
#[derive(Debug)]
pub enum JuriError {
    CustomError(String),
    ResponseError(Response),
}

/// A failure of the byte codec while decoding a request off the stream.
#[derive(Debug)]
pub struct DecodeError {
    pub code: u16,
    pub message: String,
}

/// The single `Content-Type` header carried by the built-in html responses.
pub open spec fn is_html_headers(h: Seq<(String, String)>) -> bool {
    pairs_view(h) == seq![("Content-Type"@, "text/html;charset=utf-8"@)]
}

/// The built-in "no route matched" response.
pub open spec fn is_404_response(r: Response) -> bool {
    &&& r.status_code == 404
    &&& r.contents@ == "<h1>404</h1>"@
    &&& is_html_headers(r.headers@)
}

/// The built-in generic failure response.
pub open spec fn is_500_response(r: Response) -> bool {
    &&& r.status_code == 500
    &&& r.contents@ == "<h1>500</h1>"@
    &&& is_html_headers(r.headers@)
}

/// The minimal response sent when decoding fails with code 405.
pub open spec fn is_405_decode_response(r: Response) -> bool {
    &&& r.status_code == 405
    &&& r.contents@ == Seq::<char>::empty()
    &&& r.headers@ == Seq::<(String, String)>::empty()
}

} // verus!
