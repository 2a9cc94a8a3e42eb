use aoc::leaderboard::{Leaderboard, Member};
use aoc::sorting::sort_places;
use aoc::time::Timestamp;

fn member(id: &str, score: u32) -> Member {
    Member::new(id.to_string(), id.to_uppercase(), 0, score, 0, Timestamp::new(0, 0))
}

fn board(members: &[(&str, u32)]) -> Leaderboard {
    let mut board = Leaderboard::new("1".to_string(), "2018".to_string());
    for (id, score) in members {
        board.insert_member(id.to_string(), member(id, *score));
    }
    board
}

fn ranked_ids(board: &Leaderboard) -> Vec<String> {
    board.ranked_members().iter().map(|member| member.id().to_string()).collect()
}

#[test]
fn ranking_is_stable() {
    let board = board(&[("a", 50), ("b", 50), ("c", 80)]);
    assert_eq!(ranked_ids(&board), vec!["c", "a", "b"]);
    assert_eq!(board.ranking(), vec![2, 0, 1]);
}

#[test]
fn ranking_goes_by_key_order_not_by_order_of_insertion() {
    let board = board(&[("b", 50), ("c", 80), ("a", 50), ("10", 50), ("9", 50)]);
    assert_eq!(ranked_ids(&board), vec!["c", "10", "9", "a", "b"]);
}

#[test]
fn ranking_of_no_members_is_empty() {
    let board = board(&[]);
    assert!(board.ranked_members().is_empty());
    assert!(board.ranking().is_empty());
}

#[test]
fn ranking_puts_the_highest_score_first() {
    let board = board(&[("a", 0), ("b", u32::MAX), ("c", 1), ("d", u32::MAX - 1)]);
    assert_eq!(ranked_ids(&board), vec!["b", "d", "c", "a"]);
}

#[test]
fn sort_places_keeps_equal_keys_in_place() {
    assert_eq!(sort_places(&vec![5, -3, 5, 0, -3, i128::MAX, i128::MIN]), vec![6, 1, 4, 3, 0, 2, 5]);
    assert_eq!(sort_places(&vec![]), Vec::<usize>::new());
    assert_eq!(sort_places(&vec![7, 7, 7]), vec![0, 1, 2]);
    assert_eq!(sort_places(&vec![3, 2, 1]), vec![2, 1, 0]);
}

#[test]
fn members_are_listed_in_ascending_order_of_their_keys() {
    let mut board = board(&[("b", 1), ("a", 2), ("c", 3)]);
    let ids: Vec<&str> = board.members().iter().map(|member| member.id()).collect();
    assert_eq!(ids, vec!["a", "b", "c"]);
    assert_eq!(board.member("b").map(|member| member.local_score()), Some(1));
    assert!(board.member("d").is_none());
    // a member put under a key that is taken replaces the one that stood there
    board.insert_member("b".to_string(), member("b2", 9));
    let ids: Vec<&str> = board.members().iter().map(|member| member.id()).collect();
    assert_eq!(ids, vec!["a", "b2", "c"]);
    assert_eq!(board.members().len(), 3);
    let copy = board.clone();
    assert_eq!(copy, board);
}
