//! A request to the service, as the library prepares it for sending.
use vstd::prelude::*;

use crate::text::{concat2, owned};

verus! {

/// One field of a multipart form.
pub struct FormField {
    pub name: String,
    pub value: String,
}

/// A request to the service: a GET, or a POST with a multipart form. The
/// caller adds the bearer token and sends it.
pub struct ApiRequest {
    pub post: bool,
    pub url: String,
    pub form: Vec<FormField>,
}

/// A request as plain values.
pub struct RequestView {
    pub post: bool,
    pub url: Seq<char>,
    pub form: Seq<(Seq<char>, Seq<char>)>,
}

/// The fields of a form as name and value pairs.
pub open spec fn form_view(form: Seq<FormField>) -> Seq<(Seq<char>, Seq<char>)> {
    form.map_values(|f: FormField| (f.name@, f.value@))
}

/// A request as plain values.
pub open spec fn request_view(r: ApiRequest) -> RequestView {
    RequestView { post: r.post, url: r.url@, form: form_view(r.form@) }
}

/// The field `name` holding `value`.
pub fn form_field(name: &str, value: &str) -> (res: FormField)
    ensures
        res.name@ == name@,
        res.value@ == value@,
{
    FormField { name: owned(name), value: owned(value) }
}

/// A GET request for `url`.
pub fn get_request(url: String) -> (res: ApiRequest)
    ensures
        request_view(res) == (RequestView { post: false, url: url@, form: seq![] }),
{
    let r = ApiRequest { post: false, url, form: Vec::new() };
    proof {
        assert(form_view(r.form@) =~= seq![]);
    }
    r
}

/// A POST request for `url` with the given form.
pub fn post_request(url: String, form: Vec<FormField>) -> (res: ApiRequest)
    ensures
        request_view(res) == (RequestView { post: true, url: url@, form: form_view(form@) }),
{
    ApiRequest { post: true, url, form }
}

/// The `Authorization` header value that carries a bearer token.
pub fn bearer(api_token: &str) -> (res: String)
    ensures
        res@ == "Bearer "@ + api_token@,
{
    concat2("Bearer ", api_token)
}

} // verus!
