use aoc::error::Error;
use aoc::json::Json;
use aoc::leaderboard::{Leaderboard, Level, Member, StarInfo};
use aoc::time::Timestamp;

const DOCUMENT: &str = r#"{
  "owner_id": "42",
  "event": "2018",
  "members": {
    "b": {
      "id": "b", "name": "Bee", "global_score": 7, "local_score": 50, "stars": 3,
      "last_star_ts": "2018-12-03T06:00:00Z",
      "completion_day_level": {
        "3": {"1": {"get_star_ts": "2018-12-03T06:00:00Z"}},
        "1": {"1": {"get_star_ts": "2018-12-01T05:00:10Z"},
              "2": {"get_star_ts": "2018-12-01T05:10:00.250Z"}}
      }
    },
    "a": {
      "id": "a", "name": "Ay", "global_score": 0, "local_score": 80, "stars": 0,
      "last_star_ts": "1970-01-01T00:00:00Z",
      "completion_day_level": {}
    }
  }
}"#;

fn star(secs: i64, nanos: u32) -> StarInfo {
    StarInfo::new(Timestamp::new(secs, nanos))
}

fn sample() -> Leaderboard {
    let mut bee = Member::new(
        "b".to_string(),
        "Bee".to_string(),
        7,
        50,
        3,
        Timestamp::new(1_543_816_800, 0),
    );
    bee.complete_day("3".to_string(), Level::new(star(1_543_816_800, 0), None));
    bee.complete_day(
        "1".to_string(),
        Level::new(star(1_543_640_410, 0), Some(star(1_543_641_000, 250_000_000))),
    );
    let ay = Member::new("a".to_string(), "Ay".to_string(), 0, 80, 0, Timestamp::new(0, 0));
    let mut board = Leaderboard::new("42".to_string(), "2018".to_string());
    board.insert_member("b".to_string(), bee);
    board.insert_member("a".to_string(), ay);
    board
}

#[test]
fn decode_reads_every_field() {
    let board = Leaderboard::decode(DOCUMENT).unwrap();
    assert_eq!(board, sample());
    assert_eq!(board.owner_id(), "42");
    assert_eq!(board.event(), "2018");
    let members = board.members();
    assert_eq!(members.len(), 2);
    assert_eq!(members[0].id(), "a");
    assert_eq!(members[1].id(), "b");
    assert_eq!(members[1].name(), "Bee");
    assert_eq!(members[1].global_score(), 7);
    assert_eq!(members[1].local_score(), 50);
    assert_eq!(members[1].stars(), 3);
    assert_eq!(members[1].last_star_ts(), Timestamp::new(1_543_816_800, 0));
    let days = members[1].completed_days();
    assert_eq!(days.len(), 2);
    assert_eq!(days[0].0, "1");
    assert_eq!(days[1].0, "3");
    assert_eq!(days[0].1.one().get_star_ts, Timestamp::new(1_543_640_410, 0));
    assert_eq!(days[0].1.two().unwrap().get_star_ts, Timestamp::new(1_543_641_000, 250_000_000));
    assert!(days[1].1.two().is_none());
}

#[test]
fn decode_converts_offsets_to_utc() {
    let text = DOCUMENT.replace("2018-12-03T06:00:00Z", "2018-12-03T01:00:00-05:00");
    assert_eq!(Leaderboard::decode(&text).unwrap(), sample());
}

#[test]
fn decode_passes_over_unknown_members_and_null_second_star() {
    let text = DOCUMENT
        .replace("\"owner_id\": \"42\",", "\"owner_id\": \"42\", \"extra\": [1, 2.5, true, null],")
        .replace(
            "\"3\": {\"1\": {\"get_star_ts\": \"2018-12-03T06:00:00Z\"}}",
            "\"3\": {\"1\": {\"get_star_ts\": \"2018-12-03T06:00:00Z\"}, \"2\": null}",
        );
    assert_ne!(text, DOCUMENT);
    assert_eq!(Leaderboard::decode(&text).unwrap(), sample());
}

#[test]
fn decode_rejects_text_that_is_no_json() {
    assert_eq!(Leaderboard::decode("{\"owner_id\": "), Err(Error::MalformedResponse));
    assert_eq!(Leaderboard::decode(""), Err(Error::MalformedResponse));
}

#[test]
fn decode_rejects_a_missing_field() {
    let text = DOCUMENT.replace("\"event\": \"2018\",", "");
    assert_eq!(Leaderboard::decode(&text), Err(Error::MalformedResponse));
    let text = DOCUMENT.replace("\"stars\": 3,", "");
    assert_eq!(Leaderboard::decode(&text), Err(Error::MalformedResponse));
}

#[test]
fn decode_rejects_a_field_of_the_wrong_type() {
    for (from, to) in [
        ("\"event\": \"2018\"", "\"event\": 2018"),
        ("\"local_score\": 50", "\"local_score\": \"50\""),
        ("\"local_score\": 50", "\"local_score\": -50"),
        ("\"local_score\": 50", "\"local_score\": 50.5"),
        ("\"local_score\": 50", "\"local_score\": 4294967296"),
        ("\"name\": \"Bee\"", "\"name\": null"),
        ("\"completion_day_level\": {}", "\"completion_day_level\": []"),
        ("\"last_star_ts\": \"1970-01-01T00:00:00Z\"", "\"last_star_ts\": \"yesterday\""),
        ("\"last_star_ts\": \"1970-01-01T00:00:00Z\"", "\"last_star_ts\": 0"),
    ] {
        let text = DOCUMENT.replace(from, to);
        assert_ne!(text, DOCUMENT);
        assert_eq!(Leaderboard::decode(&text), Err(Error::MalformedResponse), "{}", to);
    }
    assert_eq!(Leaderboard::decode("[]"), Err(Error::MalformedResponse));
}

#[test]
fn decode_takes_the_largest_score() {
    let text = DOCUMENT.replace("\"local_score\": 50", "\"local_score\": 4294967295");
    let board = Leaderboard::decode(&text).unwrap();
    assert_eq!(board.members()[1].local_score(), 4_294_967_295);
}

#[test]
fn decode_rejects_a_second_star_without_the_first() {
    let text = DOCUMENT.replace(
        "\"3\": {\"1\": {\"get_star_ts\": \"2018-12-03T06:00:00Z\"}}",
        "\"3\": {\"2\": {\"get_star_ts\": \"2018-12-03T06:00:00Z\"}}",
    );
    assert_ne!(text, DOCUMENT);
    assert_eq!(Leaderboard::decode(&text), Err(Error::MalformedResponse));
}

#[test]
fn encode_then_decode_gives_the_snapshot_back() {
    let board = sample();
    let text = board.encode().unwrap();
    let back = Leaderboard::decode(&text).unwrap();
    assert_eq!(back, board);
    assert!(back.same_as(&board));
    let ids: Vec<&str> = back.members().iter().map(|member| member.id()).collect();
    assert_eq!(ids, vec!["a", "b"]);
}

#[test]
fn encode_writes_the_wire_format() {
    let ay = Member::new("a".to_string(), "Ay".to_string(), 0, 80, 0, Timestamp::new(0, 0));
    let mut board = Leaderboard::new("42".to_string(), "2018".to_string());
    board.insert_member("a".to_string(), ay);
    assert_eq!(
        board.encode().unwrap(),
        "{\"event\":\"2018\",\"members\":{\"a\":{\"completion_day_level\":{},\
         \"global_score\":0,\"id\":\"a\",\"last_star_ts\":\"1970-01-01T00:00:00Z\",\
         \"local_score\":80,\"name\":\"Ay\",\"stars\":0}},\"owner_id\":\"42\"}"
    );
}

#[test]
fn encode_refuses_an_instant_beyond_the_calendar() {
    let lost = Member::new("a".to_string(), "Ay".to_string(), 0, 0, 0, Timestamp::new(i64::MAX, 0));
    let mut board = Leaderboard::new("42".to_string(), "2018".to_string());
    board.insert_member("a".to_string(), lost);
    assert_eq!(board.encode(), None);
    assert_eq!(board.to_json(), None);
}

#[test]
fn tree_of_a_star_holds_the_instant_as_text() {
    let tree = star(1_543_640_410, 0).to_json().unwrap();
    assert_eq!(
        tree,
        Json::Object(vec![(
            "get_star_ts".to_string(),
            Json::Text("2018-12-01T05:00:10Z".to_string())
        )])
    );
    assert_eq!(StarInfo::from_json(&tree), Some(star(1_543_640_410, 0)));
}

#[test]
fn from_json_reads_a_tree_built_by_hand() {
    let tree = Json::Object(vec![
        ("members".to_string(), Json::Object(vec![])),
        ("event".to_string(), Json::Text("2015".to_string())),
        ("owner_id".to_string(), Json::Text("7".to_string())),
    ]);
    let board = Leaderboard::from_json(&tree).unwrap();
    assert_eq!(board, Leaderboard::new("7".to_string(), "2015".to_string()));
    assert_eq!(Leaderboard::from_json(&Json::Null), Err(Error::MalformedResponse));
    assert_eq!(Level::from_json(&Json::Object(vec![])), None);
}

#[test]
fn same_as_tells_leaderboards_apart() {
    let board = sample();
    let mut other = sample();
    assert!(board.same_as(&other));
    other.insert_member(
        "c".to_string(),
        Member::new("c".to_string(), "Cee".to_string(), 0, 1, 0, Timestamp::new(0, 0)),
    );
    assert!(!board.same_as(&other));
}
