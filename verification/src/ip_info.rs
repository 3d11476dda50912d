//! Looking up where an address is: the request to make and what to answer
//! with. The request itself is the caller's to send.

use vstd::prelude::*;
use vstd::string::*;
use serde_json::Error;

verus! {

/// `serde_json::Error`, why a value was not written as JSON.
#[verifier::external_type_specification]
#[verifier::external_body]
pub struct ExJsonError(Error);

/// What `serde_json::to_string_pretty` writes for the string `text`, if it
/// writes anything.
pub uninterp spec fn json_of(text: Seq<char>) -> Option<Seq<char>>;

/// Calls `serde_json::to_string_pretty` on a string. Trusted: what is
/// written depends on the string alone.
#[verifier::external_body]
fn to_json(text: &str) -> (json: Result<String, Error>)
    ensures
        match json {
            Ok(written) => json_of(text@) == Some(written@),
            Err(_) => json_of(text@) is None,
        },
{
    serde_json::to_string_pretty(text)
}

/// The lookup service could be reached, but its answer could not be written
/// as JSON.
#[derive(Clone, Copy, Debug, PartialEq, Eq, Structural)]
pub struct Unwritable;

/// The address of the lookup service's answer about `ip`.
pub open spec fn lookup_url_text(ip: Seq<char>) -> Seq<char> {
    "http://demo.ip-api.com/json/"@ + ip + "?fields=66846719"@
}

/// What a lookup answers with: the service's answer written as a JSON
/// string, or `None` if the service gave no answer.
pub open spec fn lookup_result(answer: Option<Seq<char>>) -> Result<Seq<char>, Unwritable> {
    match answer {
        Some(text) => match json_of(text) {
            Some(written) => Ok(written),
            None => Err(Unwritable),
        },
        None => Ok("None"@),
    }
}

/// The address to ask the lookup service about `ip`.
pub fn lookup_url(ip: &str) -> (url: String)
    ensures
        url@ == lookup_url_text(ip@),
{
    let mut url = String::from_str("http://demo.ip-api.com/json/");
    url.append(ip);
    url.append("?fields=66846719");
    url
}

/// What a lookup answers with, given how the service's answer was written
/// as JSON: nothing stands for no answer, an error for an answer that could
/// not be written.
pub fn lookup_answer(json: Option<Result<String, Unwritable>>) -> (text: Result<String, Unwritable>)
    ensures
        match json {
            Some(Ok(written)) => text == Ok::<String, Unwritable>(written),
            Some(Err(_)) => text is Err,
            None => text is Ok && text->Ok_0@ == "None"@,
        },
{
    match json {
        Some(Ok(written)) => Ok(written),
        Some(Err(e)) => Err(e),
        None => Ok(String::from_str("None")),
    }
}

/// What a lookup answers with, given the text that the service sent, or
/// nothing if it could not be reached or sent no text.
pub fn lookup_reply(answer: Option<&str>) -> (text: Result<String, Unwritable>)
    ensures
        match text {
            Ok(t) => lookup_result(
                match answer {
                    Some(a) => Some(a@),
                    None => None,
                },
            ) == Ok::<Seq<char>, Unwritable>(t@),
            Err(_) => lookup_result(
                match answer {
                    Some(a) => Some(a@),
                    None => None,
                },
            ) is Err,
        },
{
    let json = match answer {
        Some(a) => Some(
            match to_json(a) {
                Ok(written) => Ok(written),
                Err(_) => Err(Unwritable),
            },
        ),
        None => None,
    };
    lookup_answer(json)
}

} // verus!
