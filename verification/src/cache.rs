//! The cache policy: a leaderboard fetched no more than fifteen minutes ago
//! is served from the store; an older one, or none, is fetched anew and
//! stored with the instant of the fetch.

use vstd::prelude::*;
use crate::config::{
    cached,
    last_api_access,
    last_leaderboard,
    leaderboard_url,
    required,
    session_token,
    set_last_api_access,
    set_last_leaderboard,
    Lookup,
    Store,
    StoreView,
};
use crate::error::{Error, Setting, StoreKey};
use crate::fetch::{answers, session_cookie, FetchRequest, Response};
use crate::leaderboard::{Leaderboard, LeaderboardView};
use crate::time::Timestamp;

verus! {

/// How long a fetched leaderboard is served from the store: fifteen minutes,
/// in nanoseconds.
pub const CACHE_TTL_NANOS: i128 = 900_000_000_000;

/// Whether a leaderboard fetched at `last_access` may still be served at
/// `now`: no time has run backwards since, and no more than fifteen minutes
/// forwards.
pub open spec fn is_fresh(now: Timestamp, last_access: Timestamp) -> bool {
    0 <= now.nanos_since_epoch() - last_access.nanos_since_epoch() <= CACHE_TTL_NANOS
}

/// Says whether a leaderboard fetched at `last_access` may still be served
/// at `now`.
pub fn fresh(now: Timestamp, last_access: Timestamp) -> (fresh: bool)
    ensures
        fresh == is_fresh(now, last_access),
{
    let passed = now.signed_duration_since(&last_access);
    0 <= passed.nanos && passed.nanos <= CACHE_TTL_NANOS
}

/// What is to be done to get the leaderboard.
#[derive(Debug, PartialEq, Eq)]
pub enum Acquire {
    /// The store holds a fresh leaderboard: this copy of it.
    Cached(Leaderboard),
    /// The leaderboard is to be fetched with this request.
    Fetch(FetchRequest),
}

/// What is to be done, told by what a store holds.
pub enum Plan {
    /// The leaderboard in the store is served.
    Reuse(LeaderboardView),
    /// The leaderboard is fetched from the address with the cookie.
    Refetch { url: Seq<char>, cookie: Seq<char> },
}

/// What is to be done at `now` with a store. An unreadable cache is an
/// error. A leaderboard in the store is served if it is fresh; otherwise a
/// fetch is due, for which address and session token are required.
pub open spec fn plan(store: StoreView, now: Timestamp) -> Result<Plan, Error> {
    match cached(store.last_api_access, StoreKey::LastApiAccess) {
        Err(error) => Err(error),
        Ok(last_access) => match cached(store.last_api_response, StoreKey::LastApiResponse) {
            Err(error) => Err(error),
            Ok(held) => if last_access is Some && held is Some && is_fresh(
                now,
                last_access.unwrap(),
            ) {
                Ok(Plan::Reuse(held.unwrap()))
            } else {
                match required(store.leaderboard_url, Setting::LeaderboardUrl) {
                    Err(error) => Err(error),
                    Ok(url) => match required(store.session_token, Setting::SessionToken) {
                        Err(error) => Err(error),
                        Ok(token) => Ok(Plan::Refetch { url, cookie: session_cookie(token) }),
                    },
                }
            },
        },
    }
}

/// Decides at `now` whether the leaderboard in the store is served or a
/// fetch is due.
pub fn acquire(store: &Store, now: Timestamp) -> (step: Result<Acquire, Error>)
    ensures
        match plan(store@, now) {
            Ok(Plan::Reuse(held)) => step matches Ok(Acquire::Cached(board)) && board@ == held,
            Ok(Plan::Refetch { url, cookie }) => step matches Ok(Acquire::Fetch(request))
                && request.url@ == url && request.cookie@ == cookie,
            Err(error) => step == Err::<Acquire, Error>(error),
        },
{
    let last_access = last_api_access(store)?;
    let held = last_leaderboard(store)?;
    match (last_access, held) {
        (Some(last_access), Some(board)) => {
            if fresh(now, last_access) {
                return Ok(Acquire::Cached(board));
            }
        },
        _ => {},
    }
    let url = leaderboard_url(store)?;
    let token = session_token(store)?;
    Ok(Acquire::Fetch(Leaderboard::fetch(url.as_str(), token.as_str())))
}

/// Takes the response to a fetch made at `now`: the leaderboard that it
/// holds is stored with `now` as the instant of the fetch; a failure leaves
/// the store as it is.
pub fn accept_response(
    store: &mut Store,
    now: Timestamp,
    response: Result<Response, String>,
) -> (board: Result<Leaderboard, Error>)
    ensures
        answers(response, board),
        match board {
            Ok(board) => final(store)@ == (StoreView {
                last_api_access: Lookup::Found(now),
                last_api_response: Lookup::Found(board@),
                ..old(store)@
            }),
            Err(_) => *final(store) == *old(store),
        },
{
    let board = Leaderboard::from_response(response)?;
    set_last_api_access(store, Some(now));
    set_last_leaderboard(store, board.clone());
    Ok(board)
}

/// The leaderboard in the store is served exactly when the store holds one
/// together with the instant of its fetch, and from 0 to 15 minutes have
/// passed since that instant; in every other case a fetch is due or the
/// acquisition fails.
pub proof fn lemma_cache_reused_iff_fresh(store: StoreView, now: Timestamp)
    ensures
        (plan(store, now) matches Ok(Plan::Reuse(_))) <==> ({
            &&& store.last_api_access matches Lookup::Found(last_access)
            &&& store.last_api_response is Found
            &&& 0 <= now.nanos_since_epoch() - last_access.nanos_since_epoch() <= 15 * 60
                * 1_000_000_000
        }),
        plan(store, now) matches Ok(Plan::Reuse(held)) ==> store.last_api_response
            == Lookup::Found(held),
{
}

/// A leaderboard that was stored with the instant of its fetch is served
/// from then on for fifteen minutes.
pub proof fn lemma_stored_response_is_served(
    store: StoreView,
    fetched: Timestamp,
    board: LeaderboardView,
    later: Timestamp,
)
    requires
        store.last_api_access == Lookup::Found(fetched),
        store.last_api_response == Lookup::Found(board),
        is_fresh(later, fetched),
    ensures
        plan(store, later) == Ok::<Plan, Error>(Plan::Reuse(board)),
{
}

} // verus!
