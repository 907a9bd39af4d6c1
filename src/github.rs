use vstd::prelude::*;
use vstd::string::StringExecFns;

verus! {

/// A repository as the GitHub REST API lists it.
#[derive(Clone, Debug)]
pub struct Repository {
    pub full_name: String,
    pub html_url: String,
    pub private: bool,
}

/// An organization the user belongs to.
#[derive(Clone, Debug)]
pub struct Organization {
    pub login: String,
    pub avatar_url: String,
}

/// The authenticated user.
#[derive(Clone, Debug)]
pub struct User {
    pub login: String,
}

/// A successful OAuth token exchange.
#[derive(Clone, Debug)]
pub struct TokenResponse {
    pub access_token: String,
    pub token_type: String,
    pub scope: String,
}

/// A failed OAuth token exchange.
#[derive(Clone, Debug)]
pub struct ErrorResponse {
    pub error: String,
    pub error_description: Option<String>,
}

/// The URL that starts the GitHub login for an OAuth application.
pub fn authorize_url(client_id: &str) -> (r: String)
    ensures
        r@ == "https://github.com/login/oauth/authorize?client_id="@ + client_id@
            + "&redirect_uri=http://127.0.0.1:8787/oauth/callback&scope=read:project read:org"@,
{
    String::from_str("https://github.com/login/oauth/authorize?client_id=").concat(client_id).concat(
        "&redirect_uri=http://127.0.0.1:8787/oauth/callback&scope=read:project read:org",
    )
}

/// The label shown beside a repository.
pub fn visibility_label(repo: &Repository) -> (r: &'static str)
    ensures
        repo.private ==> r@ == "Private"@,
        !repo.private ==> r@ == "Public"@,
{
    if repo.private {
        "Private"
    } else {
        "Public"
    }
}

/// What the token endpoint answered: a token on success, an error body otherwise.
pub enum ExchangeReply {
    Granted(TokenResponse),
    Refused(ErrorResponse),
}

/// The outcome of a token exchange: the access token, or the error code the server gave.
pub fn exchange_outcome(reply: ExchangeReply) -> (r: Result<String, String>)
    ensures
        reply is Granted ==> r is Ok && r->Ok_0@ == reply->Granted_0.access_token@,
        reply is Refused ==> r is Err && r->Err_0@ == reply->Refused_0.error@,
{
    match reply {
        ExchangeReply::Granted(token) => Ok(token.access_token),
        ExchangeReply::Refused(error) => Err(error.error),
    }
}

} // verus!
