//! One fetch of a leaderboard: the request to send, and what the response
//! amounts to. The shell sends the request, once.

use vstd::prelude::*;
use vstd::string::*;
use crate::error::Error;
use crate::leaderboard::{Leaderboard, LeaderboardView};
use crate::text::{decimal, decimal_string};
use crate::wire::decoded;

verus! {

/// A GET request for a leaderboard.
#[derive(Debug, PartialEq, Eq)]
pub struct FetchRequest {
    /// The address to get.
    pub url: String,
    /// The value of the `Cookie` header.
    pub cookie: String,
}

/// What came back for a request.
#[derive(Debug, PartialEq, Eq)]
pub struct Response {
    /// The status code.
    pub status: u16,
    /// The body as text.
    pub body: String,
}

/// Whether a status code tells of success: 200 to 299.
pub open spec fn is_success(status: u16) -> bool {
    200 <= status < 300
}

/// The cause that is given for a response without success.
pub open spec fn status_cause(status: u16) -> Seq<char> {
    "HTTP status "@ + decimal(status as nat)
}

/// Whether `board` is what `response` amounts to, where `response` is what
/// came back or the cause for which nothing came back: a network error with
/// that cause for a failed transport, a network error that names the status
/// for a status without success, else what the body stands for.
pub open spec fn answers(
    response: Result<Response, String>,
    board: Result<Leaderboard, Error>,
) -> bool {
    match response {
        Ok(response) => if is_success(response.status) {
            match board {
                Ok(board) => decoded(response.body@) == Ok::<LeaderboardView, Error>(board@),
                Err(error) => decoded(response.body@) == Err::<LeaderboardView, Error>(error),
            }
        } else {
            board matches Err(Error::NetworkError(cause)) && cause@ == status_cause(response.status)
        },
        Err(cause) => board == Err::<Leaderboard, Error>(Error::NetworkError(cause)),
    }
}

/// The value of the cookie header that carries a session token.
pub open spec fn session_cookie(session_token: Seq<char>) -> Seq<char> {
    "session="@ + session_token
}

impl Leaderboard {
    /// The request that fetches the leaderboard at `leaderboard_url` with
    /// the session `session_token`.
    pub fn fetch(leaderboard_url: &str, session_token: &str) -> (request: FetchRequest)
        ensures
            request.url@ == leaderboard_url@,
            request.cookie@ == session_cookie(session_token@),
    {
        let mut cookie = "session=".to_owned();
        cookie.append(session_token);
        FetchRequest { url: leaderboard_url.to_owned(), cookie }
    }

    /// The leaderboard that a response holds. A failure of the transport is
    /// a network error with the transport's cause, a status without success
    /// a network error that names the status; a body that is no leaderboard
    /// is a malformed response.
    pub fn from_response(response: Result<Response, String>) -> (board: Result<Leaderboard, Error>)
        ensures
            answers(response, board),
    {
        match response {
            Ok(response) => {
                if 200 <= response.status && response.status < 300 {
                    Leaderboard::decode(response.body.as_str())
                } else {
                    let mut cause = "HTTP status ".to_owned();
                    cause.append(decimal_string(response.status as u128).as_str());
                    Err(Error::NetworkError(cause))
                }
            },
            Err(cause) => Err(Error::NetworkError(cause)),
        }
    }
}

} // verus!
