//! The settings and the cache as the preference store holds them, read and
//! changed in memory. The shell loads the store before the library works on
//! it and saves it afterwards.

use vstd::prelude::*;
use vstd::string::*;
use crate::error::{Access, Error, Setting, StoreKey};
use crate::leaderboard::{Leaderboard, LeaderboardView};
use crate::text::{ends_with, has_suffix};
use crate::time::Timestamp;

verus! {

/// What the store gave for one key.
#[derive(Debug, PartialEq, Eq)]
pub enum Lookup<T> {
    /// The key holds a value.
    Found(T),
    /// The key holds nothing.
    NotFound,
    /// The store could not be read.
    Failed,
}

/// The four keys of the preference store.
#[derive(Debug, PartialEq, Eq)]
pub struct Store {
    pub leaderboard_url: Lookup<String>,
    pub session_token: Lookup<String>,
    pub last_api_access: Lookup<Timestamp>,
    pub last_api_response: Lookup<Leaderboard>,
}

/// What a store holds.
pub struct StoreView {
    pub leaderboard_url: Lookup<Seq<char>>,
    pub session_token: Lookup<Seq<char>>,
    pub last_api_access: Lookup<Timestamp>,
    pub last_api_response: Lookup<LeaderboardView>,
}

/// What a looked-up string holds.
pub open spec fn text_lookup(slot: Lookup<String>) -> Lookup<Seq<char>> {
    match slot {
        Lookup::Found(text) => Lookup::Found(text@),
        Lookup::NotFound => Lookup::NotFound,
        Lookup::Failed => Lookup::Failed,
    }
}

/// What a looked-up leaderboard holds.
pub open spec fn board_lookup(slot: Lookup<Leaderboard>) -> Lookup<LeaderboardView> {
    match slot {
        Lookup::Found(board) => Lookup::Found(board@),
        Lookup::NotFound => Lookup::NotFound,
        Lookup::Failed => Lookup::Failed,
    }
}

impl View for Store {
    type V = StoreView;

    open spec fn view(&self) -> StoreView {
        StoreView {
            leaderboard_url: text_lookup(self.leaderboard_url),
            session_token: text_lookup(self.session_token),
            last_api_access: self.last_api_access,
            last_api_response: board_lookup(self.last_api_response),
        }
    }
}

/// The ending of the address of a leaderboard.
pub open spec fn url_suffix() -> Seq<char> {
    ".json"@
}

/// An address of a leaderboard as it is stored: with the ending `.json`,
/// added where the address lacks it.
pub open spec fn normalized_url(url: Seq<char>) -> Seq<char> {
    if ends_with(url, url_suffix()) {
        url
    } else {
        url + url_suffix()
    }
}

/// What a required setting amounts to: its value, or the error that names
/// the setting where the store holds none.
pub open spec fn required(slot: Lookup<Seq<char>>, setting: Setting) -> Result<Seq<char>, Error> {
    match slot {
        Lookup::Found(text) => Ok(text),
        _ => Err(Error::ConfigMissing(setting)),
    }
}

/// What a key of the cache amounts to: its value, nothing where the key is
/// not found, or the error that names the key where the store failed.
pub open spec fn cached<T>(slot: Lookup<T>, key: StoreKey) -> Result<Option<T>, Error> {
    match slot {
        Lookup::Found(value) => Ok(Some(value)),
        Lookup::NotFound => Ok(None),
        Lookup::Failed => Err(Error::PersistenceError(key, Access::Load)),
    }
}

impl Store {
    /// A store that holds nothing.
    pub fn new() -> (store: Store)
        ensures
            store@ == (StoreView {
                leaderboard_url: Lookup::NotFound,
                session_token: Lookup::NotFound,
                last_api_access: Lookup::NotFound,
                last_api_response: Lookup::NotFound,
            }),
    {
        Store {
            leaderboard_url: Lookup::NotFound,
            session_token: Lookup::NotFound,
            last_api_access: Lookup::NotFound,
            last_api_response: Lookup::NotFound,
        }
    }
}

/// The address of the leaderboard.
pub fn leaderboard_url(store: &Store) -> (url: Result<String, Error>)
    ensures
        match required(store@.leaderboard_url, Setting::LeaderboardUrl) {
            Ok(text) => url is Ok && url.unwrap()@ == text,
            Err(error) => url == Err::<String, Error>(error),
        },
{
    match &store.leaderboard_url {
        Lookup::Found(url) => Ok(url.clone()),
        _ => Err(Error::ConfigMissing(Setting::LeaderboardUrl)),
    }
}

/// Stores the address of the leaderboard, with the ending `.json`.
pub fn set_leaderboard_url(store: &mut Store, url: String)
    ensures
        final(store)@ == (StoreView {
            leaderboard_url: Lookup::Found(normalized_url(url@)),
            ..old(store)@
        }),
{
    let mut url = url;
    if !has_suffix(url.as_str(), ".json") {
        url.append(".json");
    }
    store.leaderboard_url = Lookup::Found(url);
}

/// The session token.
pub fn session_token(store: &Store) -> (token: Result<String, Error>)
    ensures
        match required(store@.session_token, Setting::SessionToken) {
            Ok(text) => token is Ok && token.unwrap()@ == text,
            Err(error) => token == Err::<String, Error>(error),
        },
{
    match &store.session_token {
        Lookup::Found(token) => Ok(token.clone()),
        _ => Err(Error::ConfigMissing(Setting::SessionToken)),
    }
}

/// Stores the session token.
pub fn set_session_token(store: &mut Store, token: String)
    ensures
        final(store)@ == (StoreView { session_token: Lookup::Found(token@), ..old(store)@ }),
{
    store.session_token = Lookup::Found(token);
}

/// The instant of the last fetch; none where the store holds none.
pub fn last_api_access(store: &Store) -> (last_access: Result<Option<Timestamp>, Error>)
    ensures
        last_access == cached(store@.last_api_access, StoreKey::LastApiAccess),
{
    match store.last_api_access {
        Lookup::Found(at) => Ok(Some(at)),
        Lookup::NotFound => Ok(None),
        Lookup::Failed => Err(Error::PersistenceError(StoreKey::LastApiAccess, Access::Load)),
    }
}

/// Stores the instant of the last fetch, or that there was none.
pub fn set_last_api_access(store: &mut Store, last_access: Option<Timestamp>)
    ensures
        final(store)@ == (StoreView {
            last_api_access: match last_access {
                Some(at) => Lookup::Found(at),
                None => Lookup::NotFound,
            },
            ..old(store)@
        }),
{
    store.last_api_access = match last_access {
        Some(at) => Lookup::Found(at),
        None => Lookup::NotFound,
    };
}

/// A copy of the leaderboard that was fetched last; none where the store
/// holds none.
pub fn last_leaderboard(store: &Store) -> (board: Result<Option<Leaderboard>, Error>)
    ensures
        match cached(store@.last_api_response, StoreKey::LastApiResponse) {
            Ok(Some(held)) => board is Ok && board.unwrap() is Some && board.unwrap().unwrap()@
                == held,
            Ok(None) => board == Ok::<Option<Leaderboard>, Error>(None),
            Err(error) => board == Err::<Option<Leaderboard>, Error>(error),
        },
{
    match &store.last_api_response {
        Lookup::Found(board) => Ok(Some(board.clone())),
        Lookup::NotFound => Ok(None),
        Lookup::Failed => Err(Error::PersistenceError(StoreKey::LastApiResponse, Access::Load)),
    }
}

/// Stores the leaderboard that was fetched last.
pub fn set_last_leaderboard(store: &mut Store, leaderboard: Leaderboard)
    ensures
        final(store)@ == (StoreView {
            last_api_response: Lookup::Found(leaderboard@),
            ..old(store)@
        }),
{
    store.last_api_response = Lookup::Found(leaderboard);
}

} // verus!
