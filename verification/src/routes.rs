//! The two handlers of the service: the liveness probe and the
//! subscription intake. Each handler is pure: it decides a response,
//! or asks its caller to persist a row and then report how that went.

use vstd::prelude::*;

use crate::form::{parse_form, spec_validate, UserFormData, ValidationError};

verus! {

/// An HTTP response: a status code and a body.
pub struct Response {
    pub status: u16,
    pub body: String,
}

/// What handling a request asks of the caller: write one subscription
/// row and then call `subscribe_completion`, or send a response as it
/// stands.
pub enum RequestStep {
    Insert(UserFormData),
    Respond(Response),
}

/// Answers the liveness probe: always 200 with an empty body. It takes
/// no datastore handle, so its outcome cannot depend on one.
pub fn health_check() -> (r: Response)
    ensures
        r.status == 200,
        r.body@.len() == 0,
{
    Response { status: 200, body: String::new() }
}

/// Handles a subscription submission: a body that `spec_validate`
/// accepts asks for exactly one row with the decoded `name` and
/// `email`; any other body is answered 400 with an empty body, and no
/// row is asked for.
pub fn subscribe(body: &str) -> (step: RequestStep)
    ensures
        spec_validate(body@) matches Ok(p) ==> {
            &&& step matches RequestStep::Insert(f)
            &&& f.name@ == p.0
            &&& f.email@ == p.1
        },
        spec_validate(body@) is Err ==> {
            &&& step matches RequestStep::Respond(r)
            &&& r.status == 400
            &&& r.body@.len() == 0
        },
{
    match parse_form(body) {
        Result::Ok(form) => RequestStep::Insert(form),
        Result::Err(_) => RequestStep::Respond(
            Response { status: 400, body: String::new() },
        ),
    }
}

/// Finishes a subscription whose row was handed to the datastore: 200
/// with an empty body when the insert went through, 500 with an empty
/// body when it did not.
pub fn subscribe_completion(inserted: bool) -> (r: Response)
    ensures
        inserted ==> r.status == 200,
        !inserted ==> r.status == 500,
        r.body@.len() == 0,
{
    if inserted {
        Response { status: 200, body: String::new() }
    } else {
        Response { status: 500, body: String::new() }
    }
}

/// A submission is only ever accepted with both fields non-empty: the
/// values a 200 response vouches for are never blank.
pub proof fn lemma_accepted_fields_nonempty(body: Seq<char>)
    ensures
        spec_validate(body) matches Ok(p) ==> p.0.len() > 0 && p.1.len() > 0,
{
}

} // verus!
