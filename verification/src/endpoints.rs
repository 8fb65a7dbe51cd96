//! The calls that the bridge makes to the game server's administrative API.
//!
//! Each call is a GET of a fixed path joined to the server's base URL, with
//! the access token passed as the query parameter `token`.

use vstd::prelude::*;
use vstd::string::*;

verus! {

/// One parameter of a query string.
#[derive(Debug, Clone, PartialEq, Eq)]
pub struct QueryParam {
    pub name: String,
    pub value: String,
}

/// A call to the game server: the path below the base URL and the parameters
/// of the query string, in order.
#[derive(Debug, Clone, PartialEq, Eq)]
pub struct ApiCall {
    pub path: String,
    pub query: Vec<QueryParam>,
}

/// The content of an [`ApiCall`].
pub struct ApiCallView {
    pub path: Seq<char>,
    pub query: Seq<(Seq<char>, Seq<char>)>,
}

impl View for QueryParam {
    type V = (Seq<char>, Seq<char>);

    open spec fn view(&self) -> (Seq<char>, Seq<char>) {
        (self.name@, self.value@)
    }
}

impl View for ApiCall {
    type V = ApiCallView;

    open spec fn view(&self) -> ApiCallView {
        ApiCallView { path: self.path@, query: self.query@.map_values(|p: QueryParam| p@) }
    }
}

/// The call that asks for the world's name and capacity.
pub open spec fn status_call(token: Seq<char>) -> ApiCallView {
    ApiCallView { path: "v2/server/status"@, query: seq![("token"@, token)] }
}

/// The call that asks for the players who are online.
pub open spec fn players_call(token: Seq<char>) -> ApiCallView {
    ApiCallView { path: "v2/players/list"@, query: seq![("token"@, token)] }
}

/// The call that broadcasts `message` into the game.
pub open spec fn broadcast_call(token: Seq<char>, message: Seq<char>) -> ApiCallView {
    ApiCallView {
        path: "v2/server/broadcast"@,
        query: seq![("token"@, token), ("msg"@, message)],
    }
}

/// Whether `Url::parse` of the crate `url`, which the crate `reqwest` hands
/// on, accepts `text` as an absolute URL.
pub uninterp spec fn url_parses(text: Seq<char>) -> bool;

/// The text of the URL that comes of reading `base` with `Url::parse` and
/// joining `reference` to the result with `Url::join`, both of the crate
/// `url`, which the crate `reqwest` hands on; `None` where `base` is not an
/// absolute URL or the join fails.
pub uninterp spec fn joined_url(base: Seq<char>, reference: Seq<char>) -> Option<Seq<char>>;

/// The text of a URL, where there is one.
pub open spec fn url_view(url: Option<String>) -> Option<Seq<char>> {
    match url {
        Some(text) => Some(text@),
        None => None,
    }
}

/// Asks `reqwest::Url::parse` whether `text` is an absolute URL. The answer is
/// that of the parser and of nothing else: it is `true` exactly when the
/// parser returns a URL.
#[verifier::external_body]
pub(crate) fn is_absolute_url(text: &str) -> (accepted: bool)
    ensures
        accepted == url_parses(text@),
{
    reqwest::Url::parse(text).is_ok()
}

/// Reads `base` with `reqwest::Url::parse`, joins `reference` to the result
/// with `reqwest::Url::join` and hands back the text of the resulting URL.
/// The result is that of the two outside functions and depends on the two
/// texts alone. Where the parser turns `base` down there is nothing to join
/// to, and the result is `None`; nothing more is claimed.
#[verifier::external_body]
fn join_url(base: &str, reference: &str) -> (url: Option<String>)
    ensures
        url_view(url) == joined_url(base@, reference@),
        !url_parses(base@) ==> url is None,
{
    reqwest::Url::parse(base).ok()?.join(reference).ok().map(String::from)
}

/// The URL of a call to the server whose base URL is `base_url`: the call's
/// path joined to the base URL, or `None` where they cannot be joined, as
/// they cannot where the base URL is not an absolute URL.
pub fn url_of(base_url: &str, call: &ApiCall) -> (url: Option<String>)
    ensures
        url_view(url) == joined_url(base_url@, call@.path),
        !url_parses(base_url@) ==> url is None,
{
    join_url(base_url, call.path.as_str())
}

fn token_param(token: &str) -> (param: QueryParam)
    ensures
        param@ == ("token"@, token@),
{
    QueryParam { name: String::from_str("token"), value: String::from_str(token) }
}

/// Builds the call that asks for the world's name and capacity.
pub fn fetch_status(token: &str) -> (call: ApiCall)
    ensures
        call@ == status_call(token@),
{
    let mut query: Vec<QueryParam> = Vec::new();
    query.push(token_param(token));
    let call = ApiCall { path: String::from_str("v2/server/status"), query };
    assert(call@.query =~= seq![("token"@, token@)]);
    call
}

/// Builds the call that asks for the players who are online.
pub fn fetch_players(token: &str) -> (call: ApiCall)
    ensures
        call@ == players_call(token@),
{
    let mut query: Vec<QueryParam> = Vec::new();
    query.push(token_param(token));
    let call = ApiCall { path: String::from_str("v2/players/list"), query };
    assert(call@.query =~= seq![("token"@, token@)]);
    call
}

/// Builds the call that broadcasts `message` into the game.
pub fn broadcast(token: &str, message: &str) -> (call: ApiCall)
    ensures
        call@ == broadcast_call(token@, message@),
{
    let mut query: Vec<QueryParam> = Vec::new();
    query.push(token_param(token));
    query.push(QueryParam { name: String::from_str("msg"), value: String::from_str(message) });
    let call = ApiCall { path: String::from_str("v2/server/broadcast"), query };
    assert(call@.query =~= seq![("token"@, token@), ("msg"@, message@)]);
    call
}

} // verus!
