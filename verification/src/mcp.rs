//! Requests to the MCP server: with a token where one is called for.

use vstd::prelude::*;

use crate::auth;
use crate::auth::{Fetched, ManagerView, TokenManager, TokenRequest, TokenStep};
use crate::step::Failure;

verus! {

/// Why a request to the MCP server failed.
pub enum AuthedError {
    /// The request itself failed, with this message.
    Reqwest(String),
    /// There was no token to be had, for this reason.
    TokenFetch(String),
}

/// The mathematical value of an `AuthedError`.
pub enum AuthedErrorView {
    Reqwest(Seq<char>),
    TokenFetch(Seq<char>),
}

impl View for AuthedError {
    type V = AuthedErrorView;

    open spec fn view(&self) -> AuthedErrorView {
        match self {
            AuthedError::Reqwest(message) => AuthedErrorView::Reqwest(message@),
            AuthedError::TokenFetch(reason) => AuthedErrorView::TokenFetch(reason@),
        }
    }
}

/// The message of an error.
pub open spec fn authed_message(error: AuthedErrorView) -> Seq<char> {
    match error {
        AuthedErrorView::Reqwest(message) => message,
        AuthedErrorView::TokenFetch(reason) => "token fetch: "@ + reason,
    }
}

impl AuthedError {
    /// The message of the error.
    pub fn message(&self) -> (s: String)
        ensures
            s@ == authed_message(self@),
    {
        match self {
            AuthedError::Reqwest(message) => message.clone(),
            AuthedError::TokenFetch(reason) => "token fetch: ".to_owned().concat(reason.as_str()),
        }
    }
}

/// What an error says first.
pub open spec fn headline(chain: Seq<Seq<char>>) -> Seq<char> {
    if chain.len() == 0 {
        Seq::empty()
    } else {
        chain[0]
    }
}

/// What to do for the token of a request.
pub enum TokenNeed {
    /// The request goes out without one.
    NoToken,
    /// It goes out with this one.
    Use(String),
    /// One must be asked for first.
    Fetch(TokenRequest),
}

/// A client of an MCP server that has a fresh token for every request, where
/// the server calls for tokens. Without a manager of tokens, requests go out
/// without one.
pub struct AuthedReqwest {
    pub tokens: Option<TokenManager>,
}

/// The mathematical value of the manager of an `AuthedReqwest`.
pub open spec fn tokens_view(tokens: Option<TokenManager>) -> Option<ManagerView> {
    match tokens {
        Some(manager) => Some(manager@),
        None => None,
    }
}

impl View for AuthedReqwest {
    type V = Option<ManagerView>;

    open spec fn view(&self) -> Option<ManagerView> {
        tokens_view(self.tokens)
    }
}

impl AuthedReqwest {
    /// The credentials, where there are any, can be sent.
    pub open spec fn wf(self) -> bool {
        self@ matches Some(manager) ==> manager.wf()
    }

    /// A client with or without a manager of tokens.
    pub fn new(tokens: Option<TokenManager>) -> (client: AuthedReqwest)
        ensures
            client@ == tokens_view(tokens),
    {
        AuthedReqwest { tokens }
    }

    /// What to do for the token of a request that goes out at this time.
    pub fn token(&self, now: u128) -> (need: TokenNeed)
        requires
            self.wf(),
        ensures
            match self@ {
                None => need is NoToken,
                Some(manager) => match manager.good_token(now as nat) {
                    Some(token) => need matches TokenNeed::Use(used) && used@ == token,
                    None => need matches TokenNeed::Fetch(request) && request@ == manager.request(),
                },
            },
    {
        match &self.tokens {
            None => TokenNeed::NoToken,
            Some(manager) => match manager.get_valid_token(now) {
                TokenStep::Use(token) => TokenNeed::Use(token),
                TokenStep::Fetch(request) => TokenNeed::Fetch(request),
            },
        }
    }

    /// Takes what came of a request for a token, at this time. Of an error, a
    /// request to the server tells what it says first.
    pub fn receive(&mut self, fetched: Fetched, now: u128) -> (token: Result<String, AuthedError>)
        requires
            old(self).wf(),
            old(self)@ is Some,
            fetched@.wf(),
            fetched@.granted() matches Some((token, expires_in)) ==> now + expires_in
                * auth::SECOND <= u128::MAX,
        ensures
            final(self).wf(),
            final(self)@ == Some(old(self)@.unwrap().told(fetched@, now as nat)),
            match token {
                Ok(token) => fetched@.granted() matches Some((granted, expires_in)) && granted
                    == token@,
                Err(error) => auth::fetch_error(
                    old(self)@.unwrap().token_endpoint,
                    fetched@,
                ) matches Some(chain) && error@ == AuthedErrorView::TokenFetch(headline(chain)),
            },
    {
        match self.tokens.take() {
            Some(mut manager) => {
                let outcome = manager.receive(fetched, now);
                self.tokens = Some(manager);
                match outcome {
                    Ok(token) => Ok(token),
                    Err(failure) => Err(token_error(&failure)),
                }
            },
            None => Err(AuthedError::TokenFetch(String::new())),
        }
    }
}

/// The error of a request that had no token, because of this.
fn token_error(failure: &Failure) -> (error: AuthedError)
    ensures
        error@ == AuthedErrorView::TokenFetch(headline(failure@)),
{
    assert(failure@.len() == failure.chain@.len());
    if failure.chain.len() == 0 {
        let reason = String::new();
        assert(reason@ =~= headline(failure@));
        AuthedError::TokenFetch(reason)
    } else {
        AuthedError::TokenFetch(failure.chain[0].clone())
    }
}

/// A client never uses a token that expires within a minute, nor one that it
/// was not granted.
pub proof fn law_no_stale_token(manager: ManagerView, now: nat)
    ensures
        manager.good_token(now) matches Some(token) ==> (manager.cache matches Some((kept,
            expires_at)) && kept == token && now + auth::SKEW < expires_at),
{
}

/// A request that fails says why itself, and one without a token says that the
/// token was the reason, with the outermost cause.
pub proof fn law_authed_message(s: Seq<char>, chain: Seq<Seq<char>>)
    ensures
        authed_message(AuthedErrorView::Reqwest(s)) == s,
        authed_message(AuthedErrorView::TokenFetch(s)) == "token fetch: "@ + s,
        chain.len() > 0 ==> headline(chain) == chain[0],
        chain.len() == 0 ==> headline(chain).len() == 0,
{
}

/// The value of an error has all that the error has.
pub proof fn law_errors_seen(s: String)
    ensures
        AuthedError::Reqwest(s)@ == AuthedErrorView::Reqwest(s@),
        AuthedError::TokenFetch(s)@ == AuthedErrorView::TokenFetch(s@),
{
}

} // verus!
