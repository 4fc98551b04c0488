use vstd::prelude::*;
use vstd::string::StringExecFns;
use crate::text::{chars_of, lines_of, occurs_at_exec, split_lines, string_of, strings_view};
use crate::uris::Uris;

verus! {

/// The string held by the `message` field of the JSON object that a body
/// holds, if it is such an object and the field is a string.
pub uninterp spec fn message_field(body: Seq<char>) -> Option<Seq<char>>;

pub open spec fn opt_view(o: Option<String>) -> Option<Seq<char>> {
    match o {
        Some(s) => Some(s@),
        None => None,
    }
}

/// Relies on `serde_json::from_str` into a `serde_json::Value`, then
/// `Value::get("message")` and `Value::as_str`: the message string of a
/// JSON object body. An empty body is no JSON value.
#[verifier::external_body]
fn json_message(body: &str) -> (r: Option<String>)
    ensures
        opt_view(r) == message_field(body@),
        body@.len() == 0 ==> r is None,
{
    let v: serde_json::Value = serde_json::from_str(body).ok()?;
    v.get("message")?.as_str().map(|m| m.to_string())
}

/// How a managed-list response is taken.
#[derive(Debug)]
pub enum ListOutcome {
    /// A success whose body is a JSON object with a `message` string: the
    /// list as the server rendered it.
    Rendered(String),
    /// A success with any other body: its lines, to be read one by one.
    Lines(Vec<String>),
    /// A failure whose body is a JSON object with a `message` string: shown
    /// to the user, and no error.
    ServerMessage(String),
}

/// The managed-list service failed without saying why.
#[derive(PartialEq, Eq, Structural, Clone, Copy, Debug)]
pub enum ApiError {
    InternalServerError,
}

impl ApiError {
    /// The text shown for the error.
    pub fn message(&self) -> (r: String)
        ensures
            r@ == "Error: internal server error"@,
    {
        String::from_str("Error: internal server error")
    }
}

/// The outcome of a response model: `Ok` carries the tag and the text or
/// the lines.
pub enum OutcomeModel {
    Rendered(Seq<char>),
    Lines(Seq<Seq<char>>),
    ServerMessage(Seq<char>),
}

pub open spec fn outcome_view(r: Result<ListOutcome, ApiError>) -> Result<OutcomeModel, ApiError> {
    match r {
        Ok(ListOutcome::Rendered(m)) => Ok(OutcomeModel::Rendered(m@)),
        Ok(ListOutcome::Lines(ls)) => Ok(OutcomeModel::Lines(strings_view(ls@))),
        Ok(ListOutcome::ServerMessage(m)) => Ok(OutcomeModel::ServerMessage(m@)),
        Err(e) => Err(e),
    }
}

/// How a response with the given success status, body and message field is
/// taken. Exactly one of the four outcomes comes of each response.
pub open spec fn response_outcome(success: bool, body: Seq<char>, message: Option<Seq<char>>) -> Result<
    OutcomeModel,
    ApiError,
> {
    match (success, message) {
        (true, Some(m)) => Ok(OutcomeModel::Rendered(m)),
        (true, None) => Ok(OutcomeModel::Lines(lines_of(body))),
        (false, Some(m)) => Ok(OutcomeModel::ServerMessage(m)),
        (false, None) => Err(ApiError::InternalServerError),
    }
}

/// The managed-list fetch protocol.
pub struct ApiGetList;

impl ApiGetList {
    /// Takes a response whose body's `message` field has been read.
    pub fn decide(success: bool, body: &str, message: Option<String>) -> (r: Result<ListOutcome, ApiError>)
        ensures
            outcome_view(r) == response_outcome(success, body@, opt_view(message)),
    {
        match message {
            Some(m) => {
                if success {
                    Ok(ListOutcome::Rendered(m))
                } else {
                    Ok(ListOutcome::ServerMessage(m))
                }
            },
            None => {
                if success {
                    Ok(ListOutcome::Lines(split_lines(body)))
                } else {
                    Err(ApiError::InternalServerError)
                }
            },
        }
    }

    /// Takes a managed-list response: its success status and its body.
    pub fn read_response(success: bool, body: &str) -> (r: Result<ListOutcome, ApiError>)
        ensures
            outcome_view(r) == response_outcome(success, body@, message_field(body@)),
            !success && body@.len() == 0 ==> r == Err::<ListOutcome, ApiError>(ApiError::InternalServerError),
    {
        let m = json_message(body);
        Self::decide(success, body, m)
    }

    /// The resource of a managed list: the service base, the lists segment,
    /// the identifier without a leading `@`, and `/raw`.
    pub fn list_url(list_id: &str) -> (r: String)
        ensures
            r@ == Uris::RAVENLIB_API_REQUEST@ + Uris::API_LISTS_ENDPOINT@ + "/"@ + list_name(list_id@) + "/raw"@,
    {
        let id = chars_of(list_id);
        let at = chars_of("@");
        let from: usize = if occurs_at_exec(&id, &at, 0) { 1 } else { 0 };
        proof {
            reveal_strlit("@");
            if from == 1 {
                assert(id@.subrange(0, 1)[0] == '@');
            } else if id@.len() > 0 && id@[0] == '@' {
                assert(id@.subrange(0, 1) =~= at@);
            }
            assert(id@.subrange(from as int, id@.len() as int) =~= list_name(list_id@));
        }
        let mut url = String::from_str(Uris::RAVENLIB_API_REQUEST);
        url.append(Uris::API_LISTS_ENDPOINT);
        url.append("/");
        url.append(string_of(&id, from, id.len()).as_str());
        url.append("/raw");
        url
    }
}

/// A managed-list identifier without its optional leading `@`.
pub open spec fn list_name(id: Seq<char>) -> Seq<char> {
    if id.len() > 0 && id[0] == '@' {
        id.subrange(1, id.len() as int)
    } else {
        id
    }
}

} // verus!
