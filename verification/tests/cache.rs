use aoc::cache::{accept_response, acquire, fresh, Acquire, CACHE_TTL_NANOS};
use aoc::config::{
    last_api_access, last_leaderboard, leaderboard_url, session_token, set_last_api_access,
    set_last_leaderboard, set_leaderboard_url, set_session_token, Lookup, Store,
};
use aoc::error::{Access, Error, Setting, StoreKey};
use aoc::fetch::{FetchRequest, Response};
use aoc::leaderboard::{Leaderboard, Member};
use aoc::time::Timestamp;

const MINUTE: i64 = 60;

fn snapshot(owner: &str) -> Leaderboard {
    let mut board = Leaderboard::new(owner.to_string(), "2018".to_string());
    board.insert_member(
        "a".to_string(),
        Member::new("a".to_string(), "Ay".to_string(), 0, 80, 0, Timestamp::new(0, 0)),
    );
    board
}

fn body(owner: &str) -> String {
    snapshot(owner).encode().unwrap()
}

fn ok(body: String) -> Result<Response, String> {
    Ok(Response { status: 200, body })
}

fn configured() -> Store {
    let mut store = Store::new();
    set_leaderboard_url(&mut store, "https://example.org/2018/leaderboard/private/view/42".to_string());
    set_session_token(&mut store, "s3cr3t".to_string());
    store
}

fn request() -> FetchRequest {
    FetchRequest {
        url: "https://example.org/2018/leaderboard/private/view/42.json".to_string(),
        cookie: "session=s3cr3t".to_string(),
    }
}

#[test]
fn cache_is_fresh_from_zero_to_fifteen_minutes() {
    let last = Timestamp::new(1_000_000, 500);
    assert!(fresh(last, last));
    assert!(fresh(Timestamp::new(1_000_000, 501), last));
    assert!(fresh(Timestamp::new(1_000_000 + 15 * MINUTE, 500), last));
    assert!(!fresh(Timestamp::new(1_000_000 + 15 * MINUTE, 501), last));
    assert!(!fresh(Timestamp::new(1_000_000, 499), last));
    assert!(!fresh(Timestamp::new(999_999, 999_999_999), last));
    assert!(fresh(Timestamp::new(1_000_000 + 14 * MINUTE + 59, 999_999_999), last));
    assert!(!fresh(Timestamp::new(i64::MAX, 0), Timestamp::new(i64::MIN, 0)));
    assert!(!fresh(Timestamp::new(i64::MIN, 0), Timestamp::new(i64::MAX, 0)));
    assert_eq!(CACHE_TTL_NANOS, 15 * 60 * 1_000_000_000);
}

#[test]
fn fresh_snapshot_is_served_from_the_store() {
    let mut store = Store::new();
    set_last_api_access(&mut store, Some(Timestamp::new(1_000_000, 0)));
    set_last_leaderboard(&mut store, snapshot("42"));
    let now = Timestamp::new(1_000_000 + 15 * MINUTE, 0);
    // neither address nor token is needed while the cache is fresh
    assert_eq!(acquire(&store, now), Ok(Acquire::Cached(snapshot("42"))));
    assert_eq!(acquire(&store, Timestamp::new(1_000_000, 0)), Ok(Acquire::Cached(snapshot("42"))));
}

#[test]
fn stale_snapshot_is_fetched_anew() {
    let mut store = configured();
    set_last_api_access(&mut store, Some(Timestamp::new(1_000_000, 0)));
    set_last_leaderboard(&mut store, snapshot("42"));
    let now = Timestamp::new(1_000_000 + 15 * MINUTE, 1);
    assert_eq!(acquire(&store, now), Ok(Acquire::Fetch(request())));
}

#[test]
fn clock_that_ran_backwards_is_not_trusted() {
    let mut store = configured();
    set_last_api_access(&mut store, Some(Timestamp::new(1_000_000, 0)));
    set_last_leaderboard(&mut store, snapshot("42"));
    assert_eq!(acquire(&store, Timestamp::new(999_999, 999_999_999)), Ok(Acquire::Fetch(request())));
}

#[test]
fn empty_cache_is_fetched() {
    let now = Timestamp::new(1_000_000, 0);
    assert_eq!(acquire(&configured(), now), Ok(Acquire::Fetch(request())));
    let mut store = configured();
    set_last_api_access(&mut store, Some(now));
    assert_eq!(acquire(&store, now), Ok(Acquire::Fetch(request())));
    let mut store = configured();
    set_last_leaderboard(&mut store, snapshot("42"));
    assert_eq!(acquire(&store, now), Ok(Acquire::Fetch(request())));
}

#[test]
fn fetch_needs_address_and_token() {
    let now = Timestamp::new(1_000_000, 0);
    assert_eq!(acquire(&Store::new(), now), Err(Error::ConfigMissing(Setting::LeaderboardUrl)));
    let mut store = Store::new();
    set_session_token(&mut store, "s3cr3t".to_string());
    assert_eq!(acquire(&store, now), Err(Error::ConfigMissing(Setting::LeaderboardUrl)));
    let mut store = Store::new();
    set_leaderboard_url(&mut store, "https://example.org/x.json".to_string());
    assert_eq!(acquire(&store, now), Err(Error::ConfigMissing(Setting::SessionToken)));
    store.session_token = Lookup::Failed;
    assert_eq!(acquire(&store, now), Err(Error::ConfigMissing(Setting::SessionToken)));
}

#[test]
fn unreadable_cache_is_an_error() {
    let now = Timestamp::new(1_000_000, 0);
    let mut store = configured();
    store.last_api_response = Lookup::Failed;
    assert_eq!(
        acquire(&store, now),
        Err(Error::PersistenceError(StoreKey::LastApiResponse, Access::Load))
    );
    store.last_api_access = Lookup::Failed;
    assert_eq!(
        acquire(&store, now),
        Err(Error::PersistenceError(StoreKey::LastApiAccess, Access::Load))
    );
}

#[test]
fn response_is_stored_with_the_instant_of_the_fetch() {
    let mut store = configured();
    let now = Timestamp::new(1_000_000, 7);
    let board = accept_response(&mut store, now, ok(body("42"))).unwrap();
    assert_eq!(board, snapshot("42"));
    assert_eq!(last_api_access(&store), Ok(Some(now)));
    assert_eq!(last_leaderboard(&store), Ok(Some(snapshot("42"))));
    assert_eq!(session_token(&store), Ok("s3cr3t".to_string()));
    // and is served for the next fifteen minutes
    let later = Timestamp::new(1_000_000 + 15 * MINUTE, 7);
    assert_eq!(acquire(&store, later), Ok(Acquire::Cached(snapshot("42"))));
    // a newer response takes its place
    let board = accept_response(&mut store, later, ok(body("43"))).unwrap();
    assert_eq!(board.owner_id(), "43");
    assert_eq!(last_api_access(&store), Ok(Some(later)));
    assert_eq!(last_leaderboard(&store), Ok(Some(snapshot("43"))));
}

#[test]
fn failed_fetch_leaves_the_store_alone() {
    let mut store = configured();
    set_last_api_access(&mut store, Some(Timestamp::new(5, 0)));
    set_last_leaderboard(&mut store, snapshot("42"));
    let now = Timestamp::new(1_000_000, 0);
    assert_eq!(
        accept_response(&mut store, now, Err("connection refused".to_string())),
        Err(Error::NetworkError("connection refused".to_string()))
    );
    assert_eq!(
        accept_response(&mut store, now, ok("<html>".to_string())),
        Err(Error::MalformedResponse)
    );
    assert_eq!(
        accept_response(&mut store, now, Ok(Response { status: 500, body: body("43") })),
        Err(Error::NetworkError("HTTP status 500".to_string()))
    );
    assert_eq!(last_api_access(&store), Ok(Some(Timestamp::new(5, 0))));
    assert_eq!(last_leaderboard(&store), Ok(Some(snapshot("42"))));
}

#[test]
fn request_carries_the_session_cookie() {
    let request = Leaderboard::fetch("https://example.org/x.json", "abc");
    assert_eq!(request.url, "https://example.org/x.json");
    assert_eq!(request.cookie, "session=abc");
    assert_eq!(Leaderboard::fetch("", "").cookie, "session=");
}

#[test]
fn response_is_a_leaderboard_or_an_error() {
    assert_eq!(Leaderboard::from_response(ok(body("42"))), Ok(snapshot("42")));
    assert_eq!(Leaderboard::from_response(ok("{}".to_string())), Err(Error::MalformedResponse));
    for status in [200, 204, 299] {
        assert_eq!(
            Leaderboard::from_response(Ok(Response { status, body: body("42") })),
            Ok(snapshot("42"))
        );
    }
    for (status, cause) in [
        (199, "HTTP status 199"),
        (300, "HTTP status 300"),
        (404, "HTTP status 404"),
        (0, "HTTP status 0"),
        (65_535, "HTTP status 65535"),
    ] {
        assert_eq!(
            Leaderboard::from_response(Ok(Response { status, body: body("42") })),
            Err(Error::NetworkError(cause.to_string()))
        );
    }
    assert_eq!(
        Leaderboard::from_response(Err("timed out".to_string())),
        Err(Error::NetworkError("timed out".to_string()))
    );
}

#[test]
fn address_is_stored_with_its_ending() {
    let mut store = Store::new();
    set_leaderboard_url(&mut store, "https://example.org/view/42".to_string());
    assert_eq!(leaderboard_url(&store), Ok("https://example.org/view/42.json".to_string()));
    set_leaderboard_url(&mut store, "https://example.org/view/43.json".to_string());
    assert_eq!(leaderboard_url(&store), Ok("https://example.org/view/43.json".to_string()));
    set_leaderboard_url(&mut store, "".to_string());
    assert_eq!(leaderboard_url(&store), Ok(".json".to_string()));
    set_leaderboard_url(&mut store, "json".to_string());
    assert_eq!(leaderboard_url(&store), Ok("json.json".to_string()));
    set_leaderboard_url(&mut store, "x.JSON".to_string());
    assert_eq!(leaderboard_url(&store), Ok("x.JSON.json".to_string()));
    set_leaderboard_url(&mut store, "é.json".to_string());
    assert_eq!(leaderboard_url(&store), Ok("é.json".to_string()));
}

#[test]
fn settings_are_required_and_the_cache_is_not() {
    let mut store = Store::new();
    assert_eq!(leaderboard_url(&store), Err(Error::ConfigMissing(Setting::LeaderboardUrl)));
    assert_eq!(session_token(&store), Err(Error::ConfigMissing(Setting::SessionToken)));
    assert_eq!(last_api_access(&store), Ok(None));
    assert_eq!(last_leaderboard(&store), Ok(None));
    store.leaderboard_url = Lookup::Failed;
    assert_eq!(leaderboard_url(&store), Err(Error::ConfigMissing(Setting::LeaderboardUrl)));
    store.last_api_access = Lookup::Failed;
    store.last_api_response = Lookup::Failed;
    assert_eq!(
        last_api_access(&store),
        Err(Error::PersistenceError(StoreKey::LastApiAccess, Access::Load))
    );
    assert_eq!(
        last_leaderboard(&store),
        Err(Error::PersistenceError(StoreKey::LastApiResponse, Access::Load))
    );
    set_last_api_access(&mut store, Some(Timestamp::new(1, 2)));
    assert_eq!(last_api_access(&store), Ok(Some(Timestamp::new(1, 2))));
    set_last_api_access(&mut store, None);
    assert_eq!(last_api_access(&store), Ok(None));
    set_session_token(&mut store, "t".to_string());
    assert_eq!(session_token(&store), Ok("t".to_string()));
}
