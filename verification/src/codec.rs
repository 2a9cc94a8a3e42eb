//! Reading and writing leaderboards in their wire format.

use vstd::prelude::*;
use crate::error::Error;
use crate::json::{object_view, read_tree, text_of_json, write_tree, Json, JsonView};
use crate::keyed::{
    ascending,
    entries_view,
    keys_of,
    lemma_view_with_entry,
    lemma_with_entry_keeps,
    put,
};
use crate::leaderboard::{Leaderboard, LeaderboardView, Level, Member, StarInfo};
use crate::text::{decimal_string, parse_unsigned, same_text};
use crate::time::{instant_round_trips, instant_text, parse_instant, Timestamp};
use crate::wire::{
    board_of,
    board_tree,
    board_writable,
    can_encode,
    days_members,
    days_of,
    decoded,
    instant_field,
    instant_tree,
    lemma_board_round_trip,
    lemma_days_of_fails,
    lemma_members_of_fails,
    level_of,
    level_tree,
    level_writable,
    list_members,
    member_named,
    member_of,
    member_tree,
    member_writable,
    members_of,
    number_field,
    number_tree,
    star_of,
    star_tree,
    text_field,
};

verus! {

/// Finds the first member of an object that stands under `name`.
pub fn find_member<'a>(members: &'a Vec<(String, Json)>, name: &str) -> (found: Option<&'a Json>)
    ensures
        match found {
            Some(tree) => member_named(object_view(members@), name@) == Some(tree@),
            None => member_named(object_view(members@), name@) is None,
        },
{
    let ghost all = object_view(members@);
    let mut at: usize = 0;
    assert(all.subrange(0, all.len() as int) =~= all);
    while at < members.len()
        invariant
            at <= members.len(),
            all == object_view(members@),
            member_named(all, name@) == member_named(
                all.subrange(at as int, all.len() as int),
                name@,
            ),
        decreases members.len() - at,
    {
        let ghost rest = all.subrange(at as int, all.len() as int);
        assert(rest[0] == all[at as int]);
        if same_text(members[at].0.as_str(), name) {
            return Some(&members[at].1);
        }
        assert(rest.drop_first() =~= all.subrange(at + 1, all.len() as int));
        at = at + 1;
    }
    None
}

fn read_text<'a>(members: &'a Vec<(String, Json)>, name: &str) -> (text: Option<&'a String>)
    ensures
        match text {
            Some(text) => text_field(object_view(members@), name@) == Some(text@),
            None => text_field(object_view(members@), name@) is None,
        },
{
    match find_member(members, name) {
        Some(Json::Text(text)) => Some(text),
        _ => None,
    }
}

fn read_number(members: &Vec<(String, Json)>, name: &str) -> (number: Option<u32>)
    ensures
        number == number_field(object_view(members@), name@),
{
    match find_member(members, name) {
        Some(Json::Number(text)) => parse_unsigned(text.as_str()),
        _ => None,
    }
}

fn read_instant_field(members: &Vec<(String, Json)>, name: &str) -> (at: Option<Timestamp>)
    ensures
        at == instant_field(object_view(members@), name@),
{
    match find_member(members, name) {
        Some(Json::Text(text)) => parse_instant(text.as_str()),
        _ => None,
    }
}

impl StarInfo {
    /// Reads a star out of a tree.
    pub fn from_json(tree: &Json) -> (star: Option<StarInfo>)
        ensures
            star == star_of(tree@),
    {
        match tree {
            Json::Object(members) => match read_instant_field(members, "get_star_ts") {
                Some(at) => Some(StarInfo { get_star_ts: at }),
                None => None,
            },
            _ => None,
        }
    }
}

impl Level {
    /// Reads the stars of a day out of a tree.
    pub fn from_json(tree: &Json) -> (level: Option<Level>)
        ensures
            level == level_of(tree@),
    {
        match tree {
            Json::Object(members) => {
                let one = match find_member(members, "1") {
                    Some(first) => match StarInfo::from_json(first) {
                        Some(one) => one,
                        None => {
                            return None;
                        },
                    },
                    None => {
                        return None;
                    },
                };
                match find_member(members, "2") {
                    None => Some(Level { one, two: None }),
                    Some(Json::Null) => Some(Level { one, two: None }),
                    Some(second) => match StarInfo::from_json(second) {
                        Some(two) => Some(Level { one, two: Some(two) }),
                        None => None,
                    },
                }
            },
            _ => None,
        }
    }
}

fn read_days(members: &Vec<(String, Json)>) -> (days: Option<Vec<(String, Level)>>)
    ensures
        match days {
            Some(days) => days_of(object_view(members@)) == Some(
                entries_view(days@, |level: Level| level),
            ) && ascending(keys_of(days@)),
            None => days_of(object_view(members@)) is None,
        },
{
    let ghost all = object_view(members@);
    let mut days: Vec<(String, Level)> = Vec::new();
    let mut at: usize = 0;
    assert(all.subrange(0, 0) =~= Seq::empty());
    assert(entries_view(days@, |level: Level| level) =~= Seq::empty());
    while at < members.len()
        invariant
            at <= members.len(),
            all == object_view(members@),
            ascending(keys_of(days@)),
            days_of(all.subrange(0, at as int)) == Some(entries_view(days@, |level: Level| level)),
        decreases members.len() - at,
    {
        let ghost upto = all.subrange(0, at + 1);
        proof {
            assert(upto.drop_last() =~= all.subrange(0, at as int));
            assert(upto.last() == all[at as int]);
        }
        match Level::from_json(&members[at].1) {
            Some(level) => {
                let key = members[at].0.clone();
                proof {
                    lemma_view_with_entry(days@, key, level, |level: Level| level);
                }
                put(&mut days, key, level);
            },
            None => {
                proof {
                    lemma_days_of_fails(all, at + 1);
                }
                return None;
            },
        }
        at = at + 1;
    }
    assert(all.subrange(0, at as int) =~= all);
    Some(days)
}

impl Member {
    /// Reads a member out of a tree.
    pub fn from_json(tree: &Json) -> (member: Option<Member>)
        ensures
            match member {
                Some(member) => member_of(tree@) == Some(member@),
                None => member_of(tree@) is None,
            },
    {
        match tree {
            Json::Object(members) => {
                let id = match read_text(members, "id") {
                    Some(id) => id.clone(),
                    None => {
                        return None;
                    },
                };
                let name = match read_text(members, "name") {
                    Some(name) => name.clone(),
                    None => {
                        return None;
                    },
                };
                let global_score = match read_number(members, "global_score") {
                    Some(score) => score,
                    None => {
                        return None;
                    },
                };
                let local_score = match read_number(members, "local_score") {
                    Some(score) => score,
                    None => {
                        return None;
                    },
                };
                let stars = match read_number(members, "stars") {
                    Some(stars) => stars,
                    None => {
                        return None;
                    },
                };
                let days = match find_member(members, "completion_day_level") {
                    Some(Json::Object(days)) => match read_days(days) {
                        Some(days) => days,
                        None => {
                            return None;
                        },
                    },
                    _ => {
                        return None;
                    },
                };
                let last_star_ts = match read_instant_field(members, "last_star_ts") {
                    Some(at) => at,
                    None => {
                        return None;
                    },
                };
                let member = Member {
                    id,
                    name,
                    global_score,
                    local_score,
                    stars,
                    completion_day_level: days,
                    last_star_ts,
                };
                assert(member@.days =~= entries_view(days@, |level: Level| level));
                Some(member)
            },
            _ => None,
        }
    }
}

fn read_members(members: &Vec<(String, Json)>) -> (list: Option<Vec<(String, Member)>>)
    ensures
        match list {
            Some(list) => members_of(object_view(members@)) == Some(
                entries_view(list@, |member: Member| member@),
            ) && ascending(keys_of(list@)) && forall|i: int|
                0 <= i < list@.len() ==> (#[trigger] list@[i]).1.inv(),
            None => members_of(object_view(members@)) is None,
        },
{
    let ghost all = object_view(members@);
    let mut list: Vec<(String, Member)> = Vec::new();
    let mut at: usize = 0;
    assert(all.subrange(0, 0) =~= Seq::empty());
    assert(entries_view(list@, |member: Member| member@) =~= Seq::empty());
    while at < members.len()
        invariant
            at <= members.len(),
            all == object_view(members@),
            ascending(keys_of(list@)),
            forall|i: int| 0 <= i < list@.len() ==> (#[trigger] list@[i]).1.inv(),
            members_of(all.subrange(0, at as int)) == Some(
                entries_view(list@, |member: Member| member@),
            ),
        decreases members.len() - at,
    {
        let ghost upto = all.subrange(0, at + 1);
        proof {
            assert(upto.drop_last() =~= all.subrange(0, at as int));
            assert(upto.last() == all[at as int]);
        }
        match Member::from_json(&members[at].1) {
            Some(member) => {
                let key = members[at].0.clone();
                let ghost before = list@;
                proof {
                    use_type_invariant(&member);
                    lemma_view_with_entry(list@, key, member, |member: Member| member@);
                    lemma_with_entry_keeps(list@, key, member, |member: Member| member.inv());
                }
                put(&mut list, key, member);
            },
            None => {
                proof {
                    lemma_members_of_fails(all, at + 1);
                }
                return None;
            },
        }
        at = at + 1;
    }
    assert(all.subrange(0, at as int) =~= all);
    Some(list)
}

impl Leaderboard {
    /// Reads a leaderboard out of a tree. Fails where a required member is
    /// absent or of the wrong type, or where a day has no first star.
    pub fn from_json(tree: &Json) -> (board: Result<Leaderboard, Error>)
        ensures
            match board {
                Ok(board) => board_of(tree@) == Some(board@),
                Err(error) => board_of(tree@) is None && error == Error::MalformedResponse,
            },
    {
        match tree {
            Json::Object(members) => {
                let owner_id = match read_text(members, "owner_id") {
                    Some(owner_id) => owner_id.clone(),
                    None => {
                        return Err(Error::MalformedResponse);
                    },
                };
                let event = match read_text(members, "event") {
                    Some(event) => event.clone(),
                    None => {
                        return Err(Error::MalformedResponse);
                    },
                };
                let list = match find_member(members, "members") {
                    Some(Json::Object(list)) => match read_members(list) {
                        Some(list) => list,
                        None => {
                            return Err(Error::MalformedResponse);
                        },
                    },
                    _ => {
                        return Err(Error::MalformedResponse);
                    },
                };
                let board = Leaderboard { owner_id, event, members: list };
                assert(board@.members =~= entries_view(list@, |member: Member| member@));
                Ok(board)
            },
            _ => Err(Error::MalformedResponse),
        }
    }

    /// Reads a leaderboard out of a JSON document. Fails where the text is no
    /// JSON document or the document is no leaderboard.
    pub fn decode(text: &str) -> (board: Result<Leaderboard, Error>)
        ensures
            match board {
                Ok(board) => decoded(text@) == Ok::<LeaderboardView, Error>(board@),
                Err(error) => decoded(text@) == Err::<LeaderboardView, Error>(error),
            },
    {
        match read_tree(text) {
            Some(tree) => Leaderboard::from_json(&tree),
            None => Err(Error::MalformedResponse),
        }
    }
}

fn text_json(text: &str) -> (tree: Json)
    ensures
        tree@ == JsonView::Text(text@),
{
    Json::Text(text.to_owned())
}

fn number_json(n: u32) -> (tree: Json)
    ensures
        tree@ == number_tree(n),
{
    Json::Number(decimal_string(n as u128))
}

fn instant_json(at: Timestamp) -> (tree: Option<Json>)
    ensures
        tree is Some <==> instant_round_trips(at),
        tree is Some ==> tree.unwrap()@ == instant_tree(at),
{
    match instant_text(at) {
        Some(text) => Some(Json::Text(text)),
        None => None,
    }
}

impl StarInfo {
    /// The tree that stands for the star; none where its instant cannot be
    /// written and read back.
    pub fn to_json(&self) -> (tree: Option<Json>)
        ensures
            tree is Some <==> instant_round_trips(self.get_star_ts),
            tree is Some ==> tree.unwrap()@ == star_tree(*self),
    {
        let at = instant_json(self.get_star_ts)?;
        let mut members: Vec<(String, Json)> = Vec::new();
        members.push(("get_star_ts".to_owned(), at));
        let tree = Json::Object(members);
        assert(object_view(members@) =~= seq![("get_star_ts"@, instant_tree(self.get_star_ts))]);
        Some(tree)
    }
}

impl Level {
    /// The tree that stands for the stars of a day; none where an instant
    /// cannot be written and read back.
    pub fn to_json(&self) -> (tree: Option<Json>)
        ensures
            tree is Some <==> level_writable(*self),
            tree is Some ==> tree.unwrap()@ == level_tree(*self),
    {
        let one = self.one.to_json()?;
        let mut members: Vec<(String, Json)> = Vec::new();
        members.push(("1".to_owned(), one));
        match self.two {
            Some(star) => {
                let two = star.to_json()?;
                members.push(("2".to_owned(), two));
                let tree = Json::Object(members);
                assert(object_view(members@) =~= seq![
                    ("1"@, star_tree(self.one)),
                    ("2"@, star_tree(star)),
                ]);
                Some(tree)
            },
            None => {
                let tree = Json::Object(members);
                assert(object_view(members@) =~= seq![("1"@, star_tree(self.one))]);
                Some(tree)
            },
        }
    }
}

fn days_json(days: &Vec<(String, Level)>) -> (tree: Option<Json>)
    ensures
        tree is Some <==> forall|i: int|
            0 <= i < days@.len() ==> level_writable((#[trigger] days@[i]).1),
        tree is Some ==> tree.unwrap()@ == JsonView::Object(
            days_members(entries_view(days@, |level: Level| level)),
        ),
{
    let ghost wanted = days_members(entries_view(days@, |level: Level| level));
    let mut members: Vec<(String, Json)> = Vec::new();
    let mut at: usize = 0;
    while at < days.len()
        invariant
            at <= days.len(),
            wanted == days_members(entries_view(days@, |level: Level| level)),
            members@.len() == at,
            forall|i: int| 0 <= i < at ==> level_writable((#[trigger] days@[i]).1),
            forall|i: int|
                0 <= i < at ==> (#[trigger] members@[i]).0@ == wanted[i].0 && members@[i].1@
                    == wanted[i].1,
        decreases days.len() - at,
    {
        match days[at].1.to_json() {
            Some(level) => {
                members.push((days[at].0.clone(), level));
            },
            None => {
                return None;
            },
        }
        at = at + 1;
    }
    let tree = Json::Object(members);
    assert(object_view(members@) =~= wanted);
    Some(tree)
}

impl Member {
    /// The tree that stands for the member; none where an instant cannot be
    /// written and read back.
    pub fn to_json(&self) -> (tree: Option<Json>)
        ensures
            tree is Some <==> member_writable(self@),
            tree is Some ==> tree.unwrap()@ == member_tree(self@),
    {
        assert(self@.days =~= entries_view(self.completion_day_level@, |level: Level| level));
        let days = match days_json(&self.completion_day_level) {
            Some(days) => days,
            None => {
                proof {
                    if member_writable(self@) {
                        assert forall|i: int|
                            0 <= i < self.completion_day_level@.len() implies level_writable(
                            (#[trigger] self.completion_day_level@[i]).1,
                        ) by {
                            assert(level_writable(self@.days[i].1));
                        }
                    }
                }
                return None;
            },
        };
        assert forall|i: int| 0 <= i < self@.days.len() implies level_writable(
            (#[trigger] self@.days[i]).1,
        ) by {
            assert(level_writable(self.completion_day_level@[i].1));
        }
        let last = instant_json(self.last_star_ts)?;
        let mut members: Vec<(String, Json)> = Vec::new();
        members.push(("completion_day_level".to_owned(), days));
        members.push(("global_score".to_owned(), number_json(self.global_score)));
        members.push(("id".to_owned(), text_json(self.id.as_str())));
        members.push(("last_star_ts".to_owned(), last));
        members.push(("local_score".to_owned(), number_json(self.local_score)));
        members.push(("name".to_owned(), text_json(self.name.as_str())));
        members.push(("stars".to_owned(), number_json(self.stars)));
        let tree = Json::Object(members);
        assert(object_view(members@) =~= seq![
            ("completion_day_level"@, JsonView::Object(days_members(self@.days))),
            ("global_score"@, number_tree(self@.global_score)),
            ("id"@, JsonView::Text(self@.id)),
            ("last_star_ts"@, instant_tree(self@.last_star_ts)),
            ("local_score"@, number_tree(self@.local_score)),
            ("name"@, JsonView::Text(self@.name)),
            ("stars"@, number_tree(self@.stars)),
        ]);
        Some(tree)
    }
}

impl Leaderboard {
    /// The tree that stands for the leaderboard; none where an instant
    /// cannot be written and read back. Reading the tree gives the
    /// leaderboard back.
    pub fn to_json(&self) -> (tree: Option<Json>)
        ensures
            tree is Some <==> board_writable(self@),
            tree is Some ==> tree.unwrap()@ == board_tree(self@),
            tree is Some ==> board_of(tree.unwrap()@) == Some(self@),
    {
        let ghost wanted = list_members(self@.members);
        let mut list: Vec<(String, Json)> = Vec::new();
        let mut at: usize = 0;
        while at < self.members.len()
            invariant
                at <= self.members.len(),
                wanted == list_members(self@.members),
                list@.len() == at,
                forall|i: int| 0 <= i < at ==> member_writable((#[trigger] self@.members[i]).1),
                forall|i: int|
                    0 <= i < at ==> (#[trigger] list@[i]).0@ == wanted[i].0 && list@[i].1@
                        == wanted[i].1,
            decreases self.members.len() - at,
        {
            match self.members[at].1.to_json() {
                Some(member) => {
                    list.push((self.members[at].0.clone(), member));
                },
                None => {
                    assert(!member_writable(self@.members[at as int].1));
                    return None;
                },
            }
            at = at + 1;
        }
        let listed = Json::Object(list);
        assert(object_view(list@) =~= wanted);
        let mut members: Vec<(String, Json)> = Vec::new();
        members.push(("event".to_owned(), text_json(self.event.as_str())));
        members.push(("members".to_owned(), listed));
        members.push(("owner_id".to_owned(), text_json(self.owner_id.as_str())));
        let tree = Json::Object(members);
        assert(object_view(members@) =~= seq![
            ("event"@, JsonView::Text(self@.event)),
            ("members"@, JsonView::Object(list_members(self@.members))),
            ("owner_id"@, JsonView::Text(self@.owner_id)),
        ]);
        proof {
            use_type_invariant(self);
            self.lemma_view_wf();
            lemma_board_round_trip(self@);
        }
        Some(tree)
    }

    /// Writes the leaderboard as a JSON document; none where the document
    /// cannot be written or does not give the leaderboard back.
    pub fn encode(&self) -> (text: Option<String>)
        ensures
            text is Some <==> can_encode(self@),
            text is Some ==> text_of_json(board_tree(self@)) == Some(text.unwrap()@),
            text is Some ==> decoded(text.unwrap()@) == Ok::<LeaderboardView, Error>(self@),
    {
        let tree = self.to_json()?;
        let text = write_tree(&tree)?;
        match Leaderboard::decode(text.as_str()) {
            Ok(back) => {
                if back.same_as(self) {
                    Some(text)
                } else {
                    None
                }
            },
            Err(_) => None,
        }
    }
}

} // verus!
