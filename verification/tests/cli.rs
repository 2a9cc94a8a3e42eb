use aoc::cli::{select_command, update_preferences, Command};
use aoc::config::{leaderboard_url, session_token, Store};
use aoc::error::{Access, Error, Setting, StoreKey};

#[test]
fn times_is_the_only_sub_command() {
    assert_eq!(select_command(Some("times")), Command::Times);
    assert_eq!(select_command(None), Command::Default);
    assert_eq!(select_command(Some("")), Command::Default);
    assert_eq!(select_command(Some("Times")), Command::Default);
    assert_eq!(select_command(Some("times ")), Command::Default);
    assert_eq!(select_command(Some("time")), Command::Default);
}

#[test]
fn given_settings_are_stored() {
    let mut store = Store::new();
    update_preferences(&mut store, None, None);
    assert_eq!(store, Store::new());
    update_preferences(&mut store, Some("https://example.org/v/1".to_string()), None);
    assert_eq!(leaderboard_url(&store), Ok("https://example.org/v/1.json".to_string()));
    assert_eq!(session_token(&store), Err(Error::ConfigMissing(Setting::SessionToken)));
    update_preferences(&mut store, None, Some("tok".to_string()));
    assert_eq!(leaderboard_url(&store), Ok("https://example.org/v/1.json".to_string()));
    assert_eq!(session_token(&store), Ok("tok".to_string()));
    update_preferences(&mut store, Some("u.json".to_string()), Some("t2".to_string()));
    assert_eq!(leaderboard_url(&store), Ok("u.json".to_string()));
    assert_eq!(session_token(&store), Ok("t2".to_string()));
}

#[test]
fn errors_have_messages() {
    assert_eq!(
        Error::ConfigMissing(Setting::LeaderboardUrl).message(),
        "Leaderboard url not set.\n\
         Set one using `--url https://adventofcode.com/YEAR/leaderboard/private/view/ID`.\n\
         You can get this URL by viewing your private leaderboard\n\
         and copying it from your browser's address bar."
    );
    assert_eq!(
        Error::ConfigMissing(Setting::SessionToken).message(),
        "Session token not set.\n\
         Set one using `--session SESSION_TOKEN`.\n\
         Get this one from the AoC cookies.\n\
         It's the value of the key called `session`.\n\
         How to do this depends on your browser.\n\
         Use google or ask around if needed."
    );
    assert_eq!(Error::NetworkError("dns failure".to_string()).message(), "dns failure");
    assert_eq!(Error::MalformedResponse.message(), "The response is not a leaderboard");
    assert_eq!(Error::InvalidYear.message(), "Event name is not a valid year");
    let texts = [
        (StoreKey::LeaderboardUrl, Access::Load, "Failed to load leaderboard URL"),
        (StoreKey::LeaderboardUrl, Access::Save, "Failed to save leaderboard URL"),
        (StoreKey::SessionToken, Access::Load, "Failed to load session token"),
        (StoreKey::SessionToken, Access::Save, "Failed to save session token"),
        (StoreKey::LastApiAccess, Access::Load, "Failed to load last API access timestamp"),
        (StoreKey::LastApiAccess, Access::Save, "Failed to save last API access timestamp"),
        (StoreKey::LastApiResponse, Access::Load, "Failed to load last leaderboard"),
        (StoreKey::LastApiResponse, Access::Save, "Failed to save last leaderboard"),
    ];
    for (key, access, text) in texts {
        assert_eq!(Error::PersistenceError(key, access).message(), text);
    }
}

#[test]
fn store_keys_have_names() {
    assert_eq!(StoreKey::LeaderboardUrl.name(), "leaderboard_url");
    assert_eq!(StoreKey::SessionToken.name(), "session_token");
    assert_eq!(StoreKey::LastApiAccess.name(), "last_api_access");
    assert_eq!(StoreKey::LastApiResponse.name(), "last_api_response");
}
