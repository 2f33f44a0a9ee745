use vstd::prelude::*;

verus! {

/// The HTTP methods a route can be registered under.
#[derive(Clone, Copy, Debug, PartialEq, Eq, Structural)]
pub enum HTTPMethod {
    GET,
    POST,
}

/// The view of an ordered list of key/value pairs, as used for headers and
/// for the parameter mapping filled in by route matching.
pub open spec fn pairs_view(v: Seq<(String, String)>) -> Seq<(Seq<char>, Seq<char>)> {
    Seq::new(v.len(), |i: int| (v[i].0@, v[i].1@))
}

/// A single decoded HTTP request. One instance lives per request cycle;
/// `params_map` is filled by route matching, everything else comes from the
/// byte codec that decoded the request off the stream.
#[verifier::ext_equal]
#[derive(Debug)]
pub struct Request {
    pub method: String,
    pub path: String,
    pub headers: Vec<(String, String)>,
    pub contents: String,
    pub params_map: Vec<(String, String)>,
    pub keep_alive: bool,
}

impl Request {
    /// Whether the client asked to reuse the connection for a further request.
    pub fn is_keep_alive(&self) -> (r: bool)
        ensures
            r == self.keep_alive,
    {
        self.keep_alive
    }
}

} // verus!
