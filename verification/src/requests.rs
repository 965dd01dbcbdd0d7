//! The outbound-request model: status codes, transport errors, and the
//! provider request (endpoint, optional basic auth, query pairs).
//!
//! The transport itself (a blocking HTTP GET) lives outside the library;
//! the library builds the full request URL and judges the returned
//! status and body.

use vstd::prelude::*;

verus! {

/// An HTTP status code as the transport reports it.
#[derive(Debug)]
pub struct StatusCode(pub u32);

impl StatusCode {
    /// A status counts as success exactly when it lies in `[200, 300)`.
    pub open spec fn spec_is_success(self) -> bool {
        200 <= self.0 < 300
    }

    /// Whether the status lies in the success range `[200, 300)`.
    pub fn is_success(&self) -> (r: bool)
        ensures
            r == self.spec_is_success(),
    {
        300 > self.0 && self.0 >= 200
    }
}

/// A transport error carried as a plain message.
#[derive(Debug)]
pub struct Error(pub String);

impl Error {
    /// The message the error carries.
    pub fn message(&self) -> (r: String)
        ensures
            r@ == self.0@,
    {
        self.0.clone()
    }
}

/// What `application/x-www-form-urlencoded` encoding returns for a list
/// of key/value pairs.  The encoding is a pure function of the pairs
/// alone; its full definition (percent-escaping, `=` and `&` joiners) is
/// left to the encoder and is given no statement here beyond its name.
pub uninterp spec fn urlencoded_of(pairs: Seq<(Seq<char>, Seq<char>)>) -> Seq<char>;

/// Relies on `serde_urlencoded::to_string`: encodes a list of string
/// pairs as a query string.  Its pair serializer appends each string
/// key and value with no error path, so the call cannot fail on this
/// input type.
#[verifier::external_body]
fn encode_pairs(pairs: &Vec<(String, String)>) -> (r: String)
    ensures
        r@ == urlencoded_of(pairs.deep_view()),
{
    match serde_urlencoded::to_string(pairs) {
        Ok(s) => s,
        Err(_) => String::new(),
    }
}

/// What a confirmed successful update asks to be persisted: for each
/// family, the newly confirmed address, present exactly when that
/// family changed.  A failed or skipped update persists nothing.
#[derive(Debug)]
pub struct Commit {
    pub v4: Option<String>,
    pub v6: Option<String>,
}

/// One provider update request, ready to be sent by the transport:
/// the endpoint URL, an optional basic-auth pair `(username, password)`,
/// and the query parameters in order.
#[derive(Debug)]
pub struct UpdateRequest {
    pub url: String,
    pub basic_auth: Option<(String, String)>,
    pub query: Vec<(String, String)>,
}

impl UpdateRequest {
    /// The endpoint with the encoded query appended, as the transport
    /// fetches it.
    pub fn full_url(&self) -> (r: String)
        ensures
            r@ == self.url@ + "?"@ + urlencoded_of(self.query.deep_view()),
    {
        let encoded = encode_pairs(&self.query);
        self.url.clone().concat("?").concat(encoded.as_str())
    }
}

} // verus!
