//! The wire format of a leaderboard: a JSON object with `owner_id`, `event`
//! and `members`, the members and their completed days as objects keyed by
//! strings, instants as text. What a document stands for, what stands for a
//! leaderboard, and that the two agree.

use vstd::prelude::*;
use crate::error::Error;
use crate::json::{json_of_text, text_of_json, JsonView, ObjectView};
use crate::keyed::{ascending, entry_keys, lemma_view_with_entry_appends, view_with_entry, Keyed};
use crate::leaderboard::{LeaderboardView, Level, MemberView, StarInfo};
use crate::text::{decimal, lemma_parse_decimal, lex_lt, parse_digits};
use crate::time::{instant_of_text, instant_round_trips, text_of_instant, Timestamp};

verus! {

/// The first member of an object that stands under `name`.
pub open spec fn member_named(members: ObjectView, name: Seq<char>) -> Option<JsonView>
    decreases members.len(),
{
    if members.len() == 0 {
        None
    } else if members[0].0 == name {
        Some(members[0].1)
    } else {
        member_named(members.drop_first(), name)
    }
}

/// The text that stands under `name`; `None` where nothing stands there or
/// what stands there is no string.
pub open spec fn text_field(members: ObjectView, name: Seq<char>) -> Option<Seq<char>> {
    match member_named(members, name) {
        Some(JsonView::Text(text)) => Some(text),
        _ => None,
    }
}

/// The number that stands under `name`; `None` where nothing stands there or
/// what stands there is no whole number from 0 to 4294967295.
pub open spec fn number_field(members: ObjectView, name: Seq<char>) -> Option<u32> {
    match member_named(members, name) {
        Some(JsonView::Number(text)) => parse_digits(text),
        _ => None,
    }
}

/// The instant that stands under `name`; `None` where nothing stands there
/// or what stands there is no string that holds a date and time.
pub open spec fn instant_field(members: ObjectView, name: Seq<char>) -> Option<Timestamp> {
    match member_named(members, name) {
        Some(JsonView::Text(text)) => instant_of_text(text),
        _ => None,
    }
}

/// The star that a tree stands for: an object with the instant
/// `get_star_ts`.
pub open spec fn star_of(tree: JsonView) -> Option<StarInfo> {
    match tree {
        JsonView::Object(members) => match instant_field(members, "get_star_ts"@) {
            Some(at) => Some(StarInfo { get_star_ts: at }),
            None => None,
        },
        _ => None,
    }
}

/// The second star of a day, where the first is `one`: none where `2` is
/// absent or null.
pub open spec fn level_with(one: StarInfo, second: Option<JsonView>) -> Option<Level> {
    match second {
        None => Some(Level { one, two: None }),
        Some(JsonView::Null) => Some(Level { one, two: None }),
        Some(tree) => match star_of(tree) {
            Some(two) => Some(Level { one, two: Some(two) }),
            None => None,
        },
    }
}

/// The stars of a day that a tree stands for: an object with the star `1`
/// and, where the second part is solved, the star `2`. A day without `1` is
/// no day.
pub open spec fn level_of(tree: JsonView) -> Option<Level> {
    match tree {
        JsonView::Object(members) => match member_named(members, "1"@) {
            Some(first) => match star_of(first) {
                Some(one) => level_with(one, member_named(members, "2"@)),
                None => None,
            },
            None => None,
        },
        _ => None,
    }
}

/// The completed days that the members of an object stand for, each under
/// its key; of two members with one key the later one counts.
pub open spec fn days_of(members: ObjectView) -> Option<Keyed<Level>>
    decreases members.len(),
{
    if members.len() == 0 {
        Some(Seq::empty())
    } else {
        match (days_of(members.drop_last()), level_of(members.last().1)) {
            (Some(days), Some(level)) => Some(view_with_entry(days, members.last().0, level)),
            _ => None,
        }
    }
}

/// The completed days that stand under `completion_day_level`.
pub open spec fn days_field(members: ObjectView) -> Option<Keyed<Level>> {
    match member_named(members, "completion_day_level"@) {
        Some(JsonView::Object(days)) => days_of(days),
        _ => None,
    }
}

/// The member that a tree stands for: an object with the strings `id` and
/// `name`, the numbers `global_score`, `local_score` and `stars`, the object
/// `completion_day_level` and the instant `last_star_ts`.
pub open spec fn member_of(tree: JsonView) -> Option<MemberView> {
    match tree {
        JsonView::Object(members) => match (
            text_field(members, "id"@),
            text_field(members, "name"@),
            number_field(members, "global_score"@),
            number_field(members, "local_score"@),
            number_field(members, "stars"@),
            days_field(members),
            instant_field(members, "last_star_ts"@),
        ) {
            (
                Some(id),
                Some(name),
                Some(global_score),
                Some(local_score),
                Some(stars),
                Some(days),
                Some(last_star_ts),
            ) => Some(
                MemberView { id, name, global_score, local_score, stars, days, last_star_ts },
            ),
            _ => None,
        },
        _ => None,
    }
}

/// The members that the members of an object stand for, each under its key;
/// of two with one key the later one counts.
pub open spec fn members_of(members: ObjectView) -> Option<Keyed<MemberView>>
    decreases members.len(),
{
    if members.len() == 0 {
        Some(Seq::empty())
    } else {
        match (members_of(members.drop_last()), member_of(members.last().1)) {
            (Some(list), Some(member)) => Some(
                view_with_entry(list, members.last().0, member),
            ),
            _ => None,
        }
    }
}

/// The members that stand under `members`.
pub open spec fn members_field(members: ObjectView) -> Option<
    Keyed<MemberView>,
> {
    match member_named(members, "members"@) {
        Some(JsonView::Object(list)) => members_of(list),
        _ => None,
    }
}

/// The leaderboard that a tree stands for: an object with the strings
/// `owner_id` and `event` and the object `members`. Members that the
/// leaderboard does not know are passed over.
pub open spec fn board_of(tree: JsonView) -> Option<LeaderboardView> {
    match tree {
        JsonView::Object(members) => match (
            text_field(members, "owner_id"@),
            text_field(members, "event"@),
            members_field(members),
        ) {
            (Some(owner_id), Some(event), Some(list)) => Some(
                LeaderboardView { owner_id, event, members: list },
            ),
            _ => None,
        },
        _ => None,
    }
}

/// The leaderboard that a document stands for.
pub open spec fn decoded(text: Seq<char>) -> Result<LeaderboardView, Error> {
    match json_of_text(text) {
        Some(tree) => match board_of(tree) {
            Some(board) => Ok(board),
            None => Err(Error::MalformedResponse),
        },
        None => Err(Error::MalformedResponse),
    }
}

/// Once the days of the first members of an object cannot be read, those of
/// all its members cannot.
pub proof fn lemma_days_of_fails(members: ObjectView, upto: int)
    requires
        0 <= upto <= members.len(),
        days_of(members.subrange(0, upto)) is None,
    ensures
        days_of(members) is None,
    decreases members.len() - upto,
{
    if upto < members.len() {
        let longer = members.subrange(0, upto + 1);
        assert(longer.drop_last() =~= members.subrange(0, upto));
        lemma_days_of_fails(members, upto + 1);
    } else {
        assert(members.subrange(0, upto) =~= members);
    }
}

/// Once the first members of a list cannot be read, the whole list cannot.
pub proof fn lemma_members_of_fails(members: ObjectView, upto: int)
    requires
        0 <= upto <= members.len(),
        members_of(members.subrange(0, upto)) is None,
    ensures
        members_of(members) is None,
    decreases members.len() - upto,
{
    if upto < members.len() {
        let longer = members.subrange(0, upto + 1);
        assert(longer.drop_last() =~= members.subrange(0, upto));
        lemma_members_of_fails(members, upto + 1);
    } else {
        assert(members.subrange(0, upto) =~= members);
    }
}

/// The tree that stands for an instant: the text that chrono writes for it.
pub open spec fn instant_tree(at: Timestamp) -> JsonView {
    JsonView::Text(text_of_instant(at).unwrap())
}

/// The tree that stands for a number.
pub open spec fn number_tree(n: u32) -> JsonView {
    JsonView::Number(decimal(n as nat))
}

/// The tree that stands for a star.
pub open spec fn star_tree(star: StarInfo) -> JsonView {
    JsonView::Object(seq![("get_star_ts"@, instant_tree(star.get_star_ts))])
}

/// The tree that stands for the stars of a day: `2` only where the second
/// part is solved.
pub open spec fn level_tree(level: Level) -> JsonView {
    match level.two {
        Some(two) => JsonView::Object(seq![("1"@, star_tree(level.one)), ("2"@, star_tree(two))]),
        None => JsonView::Object(seq![("1"@, star_tree(level.one))]),
    }
}

/// The members of the object that stands for completed days, in the order
/// of the days.
pub open spec fn days_members(days: Keyed<Level>) -> ObjectView {
    Seq::new(days.len(), |i: int| (days[i].0, level_tree(days[i].1)))
}

/// The tree that stands for a member, its members in ascending order of
/// their names.
pub open spec fn member_tree(member: MemberView) -> JsonView {
    JsonView::Object(
        seq![
            ("completion_day_level"@, JsonView::Object(days_members(member.days))),
            ("global_score"@, number_tree(member.global_score)),
            ("id"@, JsonView::Text(member.id)),
            ("last_star_ts"@, instant_tree(member.last_star_ts)),
            ("local_score"@, number_tree(member.local_score)),
            ("name"@, JsonView::Text(member.name)),
            ("stars"@, number_tree(member.stars)),
        ],
    )
}

/// The members of the object that stands for the members of a leaderboard,
/// in their order.
pub open spec fn list_members(members: Keyed<MemberView>) -> ObjectView {
    Seq::new(members.len(), |i: int| (members[i].0, member_tree(members[i].1)))
}

/// The tree that stands for a leaderboard, its members in ascending order of
/// their names.
pub open spec fn board_tree(board: LeaderboardView) -> JsonView {
    JsonView::Object(
        seq![
            ("event"@, JsonView::Text(board.event)),
            ("members"@, JsonView::Object(list_members(board.members))),
            ("owner_id"@, JsonView::Text(board.owner_id)),
        ],
    )
}

/// Whether the instants of a day can be written and read back.
pub open spec fn level_writable(level: Level) -> bool {
    &&& instant_round_trips(level.one.get_star_ts)
    &&& level.two is Some ==> instant_round_trips(level.two.unwrap().get_star_ts)
}

/// Whether the instants of a member can be written and read back.
pub open spec fn member_writable(member: MemberView) -> bool {
    &&& instant_round_trips(member.last_star_ts)
    &&& forall|i: int| 0 <= i < member.days.len() ==> level_writable((#[trigger] member.days[i]).1)
}

/// Whether the instants of a leaderboard can be written and read back.
pub open spec fn board_writable(board: LeaderboardView) -> bool {
    forall|i: int| 0 <= i < board.members.len() ==> member_writable((#[trigger] board.members[i]).1)
}

/// A member is found under a name where it is the first with that name.
pub proof fn lemma_member_named_at(members: ObjectView, at: int, name: Seq<char>)
    requires
        0 <= at < members.len(),
        members[at].0 == name,
        forall|j: int| 0 <= j < at ==> (#[trigger] members[j]).0 != name,
    ensures
        member_named(members, name) == Some(members[at].1),
    decreases at,
{
    if at > 0 {
        let rest = members.drop_first();
        assert(members[0].0 != name);
        assert forall|j: int| 0 <= j < at - 1 implies (#[trigger] rest[j]).0 != name by {
            assert(rest[j] == members[j + 1]);
        }
        lemma_member_named_at(rest, at - 1, name);
    }
}

/// Nothing is found under a name that no member has.
pub proof fn lemma_member_named_absent(members: ObjectView, name: Seq<char>)
    requires
        forall|j: int| 0 <= j < members.len() ==> (#[trigger] members[j]).0 != name,
    ensures
        member_named(members, name) is None,
    decreases members.len(),
{
    if members.len() > 0 {
        let rest = members.drop_first();
        assert(members[0].0 != name);
        assert forall|j: int| 0 <= j < rest.len() implies (#[trigger] rest[j]).0 != name by {
            assert(rest[j] == members[j + 1]);
        }
        lemma_member_named_absent(rest, name);
    }
}

/// A star that is written and read back is the same star.
pub proof fn lemma_star_round_trip(star: StarInfo)
    requires
        instant_round_trips(star.get_star_ts),
    ensures
        star_of(star_tree(star)) == Some(star),
{
    let members = seq![("get_star_ts"@, instant_tree(star.get_star_ts))];
    lemma_member_named_at(members, 0, "get_star_ts"@);
}

/// The stars of a day that are written and read back are the same.
pub proof fn lemma_level_round_trip(level: Level)
    requires
        level_writable(level),
    ensures
        level_of(level_tree(level)) == Some(level),
{
    reveal_strlit("1");
    reveal_strlit("2");
    lemma_star_round_trip(level.one);
    match level.two {
        Some(two) => {
            let members = seq![("1"@, star_tree(level.one)), ("2"@, star_tree(two))];
            lemma_member_named_at(members, 0, "1"@);
            assert("1"@ != "2"@) by {
                assert("1"@[0] != "2"@[0]);
            }
            lemma_member_named_at(members, 1, "2"@);
            lemma_star_round_trip(two);
        },
        None => {
            let members = seq![("1"@, star_tree(level.one))];
            lemma_member_named_at(members, 0, "1"@);
            assert("1"@ != "2"@) by {
                assert("1"@[0] != "2"@[0]);
            }
            lemma_member_named_absent(members, "2"@);
        },
    }
}

/// Completed days that are written and read back are the same, in the same
/// order.
pub proof fn lemma_days_round_trip(days: Keyed<Level>)
    requires
        ascending(entry_keys(days)),
        forall|i: int| 0 <= i < days.len() ==> level_writable((#[trigger] days[i]).1),
    ensures
        days_of(days_members(days)) == Some(days),
    decreases days.len(),
{
    if days.len() == 0 {
        assert(days =~= Seq::empty());
    } else {
        let front = days.drop_last();
        let last = days.last();
        assert(days_members(days).drop_last() =~= days_members(front));
        assert forall|i: int, j: int| 0 <= i < j < front.len() implies lex_lt(
            #[trigger] entry_keys(front)[i],
            #[trigger] entry_keys(front)[j],
        ) by {
            assert(lex_lt(entry_keys(days)[i], entry_keys(days)[j]));
        }
        assert forall|i: int| 0 <= i < front.len() implies level_writable(
            (#[trigger] front[i]).1,
        ) by {
            assert(front[i] == days[i]);
        }
        lemma_days_round_trip(front);
        assert(level_writable(days[days.len() - 1].1));
        lemma_level_round_trip(last.1);
        assert forall|i: int| 0 <= i < front.len() implies lex_lt(
            #[trigger] front[i].0,
            last.0,
        ) by {
            assert(lex_lt(entry_keys(days)[i], entry_keys(days)[days.len() - 1]));
        }
        lemma_view_with_entry_appends(front, last.0, last.1);
        assert(front.push((last.0, last.1)) =~= days);
    }
}

/// The names of the members of a member differ from each other.
proof fn lemma_member_names_differ()
    ensures
        "completion_day_level"@.len() == 20,
        "global_score"@.len() == 12,
        "id"@.len() == 2,
        "last_star_ts"@.len() == 12,
        "local_score"@.len() == 11,
        "name"@.len() == 4,
        "stars"@.len() == 5,
        "global_score"@[0] == 'g',
        "last_star_ts"@[0] == 'l',
{
    reveal_strlit("completion_day_level");
    reveal_strlit("global_score");
    reveal_strlit("id");
    reveal_strlit("last_star_ts");
    reveal_strlit("local_score");
    reveal_strlit("name");
    reveal_strlit("stars");
}

/// A member that is written and read back is the same member.
pub proof fn lemma_member_round_trip(member: MemberView)
    requires
        member.wf(),
        member_writable(member),
    ensures
        member_of(member_tree(member)) == Some(member),
{
    lemma_member_names_differ();
    let members = seq![
        ("completion_day_level"@, JsonView::Object(days_members(member.days))),
        ("global_score"@, number_tree(member.global_score)),
        ("id"@, JsonView::Text(member.id)),
        ("last_star_ts"@, instant_tree(member.last_star_ts)),
        ("local_score"@, number_tree(member.local_score)),
        ("name"@, JsonView::Text(member.name)),
        ("stars"@, number_tree(member.stars)),
    ];
    lemma_member_named_at(members, 0, "completion_day_level"@);
    lemma_member_named_at(members, 1, "global_score"@);
    lemma_member_named_at(members, 2, "id"@);
    lemma_member_named_at(members, 3, "last_star_ts"@);
    lemma_member_named_at(members, 4, "local_score"@);
    lemma_member_named_at(members, 5, "name"@);
    lemma_member_named_at(members, 6, "stars"@);
    lemma_days_round_trip(member.days);
    lemma_parse_decimal(member.global_score);
    lemma_parse_decimal(member.local_score);
    lemma_parse_decimal(member.stars);
}

/// Members that are written and read back are the same, in the same order.
pub proof fn lemma_members_round_trip(members: Keyed<MemberView>)
    requires
        ascending(entry_keys(members)),
        forall|i: int| 0 <= i < members.len() ==> (#[trigger] members[i]).1.wf(),
        forall|i: int| 0 <= i < members.len() ==> member_writable((#[trigger] members[i]).1),
    ensures
        members_of(list_members(members)) == Some(members),
    decreases members.len(),
{
    if members.len() == 0 {
        assert(members =~= Seq::empty());
    } else {
        let front = members.drop_last();
        let last = members.last();
        assert(list_members(members).drop_last() =~= list_members(front));
        assert forall|i: int, j: int| 0 <= i < j < front.len() implies lex_lt(
            #[trigger] entry_keys(front)[i],
            #[trigger] entry_keys(front)[j],
        ) by {
            assert(lex_lt(entry_keys(members)[i], entry_keys(members)[j]));
        }
        assert forall|i: int| 0 <= i < front.len() implies (#[trigger] front[i]).1.wf()
            && member_writable(front[i].1) by {
            assert(front[i] == members[i]);
        }
        lemma_members_round_trip(front);
        assert(members[members.len() - 1].1.wf());
        assert(member_writable(members[members.len() - 1].1));
        lemma_member_round_trip(last.1);
        assert forall|i: int| 0 <= i < front.len() implies lex_lt(
            #[trigger] front[i].0,
            last.0,
        ) by {
            assert(lex_lt(entry_keys(members)[i], entry_keys(members)[members.len() - 1]));
        }
        lemma_view_with_entry_appends(front, last.0, last.1);
        assert(front.push((last.0, last.1)) =~= members);
    }
}

/// A leaderboard that is written as a tree and read back is the same
/// leaderboard: every field, and the members and their days in the same
/// order.
pub proof fn lemma_board_round_trip(board: LeaderboardView)
    requires
        board.wf(),
        board_writable(board),
    ensures
        board_of(board_tree(board)) == Some(board),
{
    reveal_strlit("event");
    reveal_strlit("members");
    reveal_strlit("owner_id");
    assert("event"@.len() == 5 && "members"@.len() == 7 && "owner_id"@.len() == 8);
    let members = seq![
        ("event"@, JsonView::Text(board.event)),
        ("members"@, JsonView::Object(list_members(board.members))),
        ("owner_id"@, JsonView::Text(board.owner_id)),
    ];
    lemma_member_named_at(members, 0, "event"@);
    lemma_member_named_at(members, 1, "members"@);
    lemma_member_named_at(members, 2, "owner_id"@);
    lemma_members_round_trip(board.members);
}

/// Whether a leaderboard can be written as a document that gives it back:
/// its instants can be written and read back, and so can its tree.
pub open spec fn can_encode(board: LeaderboardView) -> bool {
    &&& board_writable(board)
    &&& match text_of_json(board_tree(board)) {
        Some(text) => decoded(text) == Ok::<LeaderboardView, Error>(board),
        None => false,
    }
}

} // verus!
