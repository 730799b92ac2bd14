//! Linking the client to an account with a one-time code.
use vstd::prelude::*;

use crate::put::request::{ApiRequest, RequestView, get_request, request_view};
use crate::text::{concat2, owned, same_text};

verus! {

/// The request for a new one-time code for this application.
pub fn code_request() -> (res: ApiRequest)
    ensures
        request_view(res) == (RequestView {
            post: false,
            url: "https://api.put.io/v2/oauth2/oob/code?app_id=4701"@,
            form: seq![],
        }),
{
    get_request(owned("https://api.put.io/v2/oauth2/oob/code?app_id=4701"))
}

/// The request that asks whether a one-time code has been linked, and for
/// the account's token if so.
pub fn check_request(oob_code: &str) -> (res: ApiRequest)
    ensures
        request_view(res) == (RequestView {
            post: false,
            url: "https://api.put.io/v2/oauth2/oob/code/"@ + oob_code@,
            form: seq![],
        }),
{
    get_request(concat2("https://api.put.io/v2/oauth2/oob/code/", oob_code))
}

/// The value of the field `name` in a reply read as name and value pairs:
/// that of the first pair with the name, or none when no pair has it.
pub open spec fn field_value(reply: Seq<(String, String)>, name: Seq<char>) -> Option<Seq<char>>
    decreases reply.len(),
{
    if reply.len() == 0 {
        None
    } else if reply[0].0@ == name {
        Some(reply[0].1@)
    } else {
        field_value(reply.skip(1), name)
    }
}

/// Looks up the field `name` in a reply read as name and value pairs.
pub fn reply_field(reply: &Vec<(String, String)>, name: &str) -> (res: Option<String>)
    ensures
        match res {
            Some(v) => field_value(reply@, name@) == Some(v@),
            None => field_value(reply@, name@) is None,
        },
{
    let mut i: usize = 0;
    proof {
        assert(reply@.skip(0) =~= reply@);
    }
    while i < reply.len()
        invariant
            i <= reply@.len(),
            field_value(reply@, name@) == field_value(reply@.skip(i as int), name@),
        decreases reply@.len() - i,
    {
        proof {
            assert(reply@.skip(i as int).skip(1) =~= reply@.skip(i + 1));
            assert(reply@.skip(i as int)[0] == reply@[i as int]);
        }
        if same_text(reply[i].0.as_str(), name) {
            return Some(reply[i].1.clone());
        }
        i = i + 1;
    }
    None
}

/// The one-time code in the reply to `code_request`: its "code" field.
pub fn code_of(reply: &Vec<(String, String)>) -> (res: Option<String>)
    ensures
        match res {
            Some(v) => field_value(reply@, "code"@) == Some(v@),
            None => field_value(reply@, "code"@) is None,
        },
{
    reply_field(reply, "code")
}

/// The account's token in the reply to `check_request`: its "oauth_token"
/// field.
pub fn token_of(reply: &Vec<(String, String)>) -> (res: Option<String>)
    ensures
        match res {
            Some(v) => field_value(reply@, "oauth_token"@) == Some(v@),
            None => field_value(reply@, "oauth_token"@) is None,
        },
{
    reply_field(reply, "oauth_token")
}

} // verus!
