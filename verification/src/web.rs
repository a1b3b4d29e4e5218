//! What comes back from a request to a service.
use vstd::prelude::*;

use crate::json;
use crate::json::{Json, JsonModel};
use crate::text;

verus! {

/// What came of a request whose status does not count: no answer, an answer whose body
/// could not be read, or the body. The texts are the reasons.
#[derive(Debug)]
pub enum Body {
    Unreachable(String),
    Unreadable(String),
    Received(Vec<u8>),
}

/// What came of a request whose status counts: no answer, a status that is no success, a
/// body that could not be read as what was expected, or that.
#[derive(Debug)]
pub enum Reply<T> {
    Unreachable(String),
    Status(String),
    Unreadable(String),
    Received(T),
}

/// The document in a body, or what to say of the request named `what`.
pub open spec fn document_in(what: Seq<char>, body: Body) -> Result<JsonModel, Seq<char>> {
    match body {
        Body::Unreachable(e) => Err(what + ": "@ + e@),
        Body::Unreadable(e) => Err(what + " json: "@ + e@),
        Body::Received(bytes) => match json::json_read(bytes@) {
            Ok(m) => Ok(m),
            Err(_) => Err(undecodable(what)),
        },
    }
}

/// What to say where a body is not the document that was expected.
pub open spec fn undecodable(what: Seq<char>) -> Seq<char> {
    what + " json: "@ + "error decoding response body"@
}

/// What to say where a body is not the document that was expected.
pub fn undecodable_body(what: &str) -> (r: String)
    ensures
        r@ == undecodable(what@),
{
    text::cat3(what, " json: ", "error decoding response body")
}

/// The document in a body, or what to say of the request named `what`.
pub fn document(what: &str, body: Body) -> (r: Result<Json, String>)
    ensures
        match r {
            Ok(j) => document_in(what@, body) == Ok::<JsonModel, Seq<char>>(j@) && json::ordered(
                j@,
            ),
            Err(e) => document_in(what@, body) == Err::<JsonModel, Seq<char>>(e@),
        },
{
    match body {
        Body::Unreachable(e) => Err(text::cat3(what, ": ", e.as_str())),
        Body::Unreadable(e) => Err(text::cat3(what, " json: ", e.as_str())),
        Body::Received(bytes) => match json::parse(bytes.as_slice()) {
            Ok(j) => Ok(j),
            Err(_) => Err(undecodable_body(what)),
        },
    }
}

/// The bytes of a file that was downloaded from `url`, or what to say of it.
pub fn downloaded(url: &str, body: Body) -> (r: Result<Vec<u8>, String>)
    ensures
        match body {
            Body::Unreachable(e) => r is Err && r->Err_0@ == "download "@ + url@ + ": "@ + e@,
            Body::Unreadable(e) => r is Err && r->Err_0@ == "download "@ + url@ + " body: "@ + e@,
            Body::Received(bytes) => r is Ok && r->Ok_0@ == bytes@,
        },
{
    match body {
        Body::Unreachable(e) => Err(text::cat4("download ", url, ": ", e.as_str())),
        Body::Unreadable(e) => Err(text::cat4("download ", url, " body: ", e.as_str())),
        Body::Received(bytes) => Ok(bytes),
    }
}

/// A document is had from a body exactly where the body was received and can be read, and it
/// is what the body reads as.
pub proof fn document_is_what_was_received(what: Seq<char>, body: Body)
    ensures
        document_in(what, body) is Ok <==> body is Received && json::json_read(
            body->Received_0@,
        ) is Ok,
        document_in(what, body) is Ok ==> document_in(what, body)->Ok_0 == json::json_read(
            body->Received_0@,
        )->Ok_0,
{
}

} // verus!
