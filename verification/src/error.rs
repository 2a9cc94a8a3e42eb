//! What can go wrong, and the message shown for it.

use vstd::prelude::*;

verus! {

/// A setting that the user has to supply before a leaderboard can be fetched.
#[derive(Clone, Copy, Debug, PartialEq, Eq, Structural)]
pub enum Setting {
    LeaderboardUrl,
    SessionToken,
}

/// A key of the preference store.
#[derive(Clone, Copy, Debug, PartialEq, Eq, Structural)]
pub enum StoreKey {
    LeaderboardUrl,
    SessionToken,
    LastApiAccess,
    LastApiResponse,
}

/// The direction of an access to the preference store.
#[derive(Clone, Copy, Debug, PartialEq, Eq, Structural)]
pub enum Access {
    Load,
    Save,
}

/// The failures of this library.
#[derive(Clone, Debug, PartialEq, Eq)]
pub enum Error {
    /// A required setting is absent from the store.
    ConfigMissing(Setting),
    /// The transport failed; the text is its cause.
    NetworkError(String),
    /// The body of the response is no leaderboard.
    MalformedResponse,
    /// The event of the leaderboard names no year.
    InvalidYear,
    /// The preference store failed on the given key.
    PersistenceError(StoreKey, Access),
}

impl StoreKey {
    /// The name under which the store holds this key.
    pub open spec fn spec_name(self) -> Seq<char> {
        match self {
            StoreKey::LeaderboardUrl => "leaderboard_url"@,
            StoreKey::SessionToken => "session_token"@,
            StoreKey::LastApiAccess => "last_api_access"@,
            StoreKey::LastApiResponse => "last_api_response"@,
        }
    }

    pub fn name(self) -> (name: &'static str)
        ensures
            name@ == self.spec_name(),
    {
        match self {
            StoreKey::LeaderboardUrl => "leaderboard_url",
            StoreKey::SessionToken => "session_token",
            StoreKey::LastApiAccess => "last_api_access",
            StoreKey::LastApiResponse => "last_api_response",
        }
    }
}

/// The message for a failure of the store on one key.
pub open spec fn persistence_text(key: StoreKey, access: Access) -> Seq<char> {
    match (key, access) {
        (StoreKey::LeaderboardUrl, Access::Load) => "Failed to load leaderboard URL"@,
        (StoreKey::LeaderboardUrl, Access::Save) => "Failed to save leaderboard URL"@,
        (StoreKey::SessionToken, Access::Load) => "Failed to load session token"@,
        (StoreKey::SessionToken, Access::Save) => "Failed to save session token"@,
        (StoreKey::LastApiAccess, Access::Load) => "Failed to load last API access timestamp"@,
        (StoreKey::LastApiAccess, Access::Save) => "Failed to save last API access timestamp"@,
        (StoreKey::LastApiResponse, Access::Load) => "Failed to load last leaderboard"@,
        (StoreKey::LastApiResponse, Access::Save) => "Failed to save last leaderboard"@,
    }
}

impl Error {
    /// The message shown to the user.
    pub open spec fn text(self) -> Seq<char> {
        match self {
            Error::ConfigMissing(Setting::LeaderboardUrl) =>
                "Leaderboard url not set.\n\
                 Set one using `--url https://adventofcode.com/YEAR/leaderboard/private/view/ID`.\n\
                 You can get this URL by viewing your private leaderboard\n\
                 and copying it from your browser's address bar."@,
            Error::ConfigMissing(Setting::SessionToken) =>
                "Session token not set.\n\
                 Set one using `--session SESSION_TOKEN`.\n\
                 Get this one from the AoC cookies.\n\
                 It's the value of the key called `session`.\n\
                 How to do this depends on your browser.\n\
                 Use google or ask around if needed."@,
            Error::NetworkError(cause) => cause@,
            Error::MalformedResponse => "The response is not a leaderboard"@,
            Error::InvalidYear => "Event name is not a valid year"@,
            Error::PersistenceError(key, access) => persistence_text(key, access),
        }
    }

    pub fn message(&self) -> (message: String)
        ensures
            message@ == self.text(),
    {
        match self {
            Error::ConfigMissing(Setting::LeaderboardUrl) =>
                "Leaderboard url not set.\n\
                 Set one using `--url https://adventofcode.com/YEAR/leaderboard/private/view/ID`.\n\
                 You can get this URL by viewing your private leaderboard\n\
                 and copying it from your browser's address bar.".to_owned(),
            Error::ConfigMissing(Setting::SessionToken) =>
                "Session token not set.\n\
                 Set one using `--session SESSION_TOKEN`.\n\
                 Get this one from the AoC cookies.\n\
                 It's the value of the key called `session`.\n\
                 How to do this depends on your browser.\n\
                 Use google or ask around if needed.".to_owned(),
            Error::NetworkError(cause) => cause.clone(),
            Error::MalformedResponse => "The response is not a leaderboard".to_owned(),
            Error::InvalidYear => "Event name is not a valid year".to_owned(),
            Error::PersistenceError(StoreKey::LeaderboardUrl, Access::Load) =>
                "Failed to load leaderboard URL".to_owned(),
            Error::PersistenceError(StoreKey::LeaderboardUrl, Access::Save) =>
                "Failed to save leaderboard URL".to_owned(),
            Error::PersistenceError(StoreKey::SessionToken, Access::Load) =>
                "Failed to load session token".to_owned(),
            Error::PersistenceError(StoreKey::SessionToken, Access::Save) =>
                "Failed to save session token".to_owned(),
            Error::PersistenceError(StoreKey::LastApiAccess, Access::Load) =>
                "Failed to load last API access timestamp".to_owned(),
            Error::PersistenceError(StoreKey::LastApiAccess, Access::Save) =>
                "Failed to save last API access timestamp".to_owned(),
            Error::PersistenceError(StoreKey::LastApiResponse, Access::Load) =>
                "Failed to load last leaderboard".to_owned(),
            Error::PersistenceError(StoreKey::LastApiResponse, Access::Save) =>
                "Failed to save last leaderboard".to_owned(),
        }
    }
}

} // verus!
