//! The completion times: for each unlocked day the stars that the members
//! earned on it, the earliest first.

use vstd::prelude::*;
use vstd::string::*;
use crate::error::Error;
use crate::keyed::Keyed;
use crate::leaderboard::{Leaderboard, LeaderboardView, MemberView};
use crate::sorting::{comes_before, is_stable_order, sort_places, stable_order_of};
use crate::text::{decimal, decimal_string};
use crate::time::Timestamp;

verus! {

/// One star of one member.
#[derive(Debug, PartialEq, Eq)]
pub struct Completion {
    /// The instant at which the star was earned.
    pub at: Timestamp,
    /// The part of the puzzle that earned it: 1 or 2.
    pub part: u32,
    /// The name of the member.
    pub name: String,
}

/// What a completion holds.
pub struct CompletionView {
    pub at: Timestamp,
    pub part: u32,
    pub name: Seq<char>,
}

impl View for Completion {
    type V = CompletionView;

    open spec fn view(&self) -> CompletionView {
        CompletionView { at: self.at, part: self.part, name: self.name@ }
    }
}

/// The stars of one day.
#[derive(Debug, PartialEq, Eq)]
pub struct DayTimes {
    pub day: u32,
    /// The stars of the day, the earliest first.
    pub completions: Vec<Completion>,
}

/// What a list of completions holds.
pub open spec fn completions_view(list: Seq<Completion>) -> Seq<CompletionView> {
    Seq::new(list.len(), |i: int| list[i]@)
}

/// The stars of a member on a day: the first, then the second if it is
/// earned; none where the member has no entry for the day.
pub open spec fn member_stars(member: MemberView, day: u32) -> Seq<CompletionView> {
    match member.level(decimal(day as nat)) {
        None => Seq::empty(),
        Some(level) => match level.two {
            None => seq![CompletionView { at: level.one.get_star_ts, part: 1, name: member.name }],
            Some(two) => seq![
                CompletionView { at: level.one.get_star_ts, part: 1, name: member.name },
                CompletionView { at: two.get_star_ts, part: 2, name: member.name },
            ],
        },
    }
}

/// The stars of all members on a day, member by member in the order of the
/// leaderboard.
pub open spec fn day_stars(members: Keyed<MemberView>, day: u32) -> Seq<CompletionView>
    decreases members.len(),
{
    if members.len() == 0 {
        Seq::empty()
    } else {
        day_stars(members.drop_last(), day) + member_stars(members.last().1, day)
    }
}

/// The keys by which stars are put in order: their instants in nanoseconds.
pub open spec fn time_keys(stars: Seq<CompletionView>) -> Seq<i128> {
    Seq::new(stars.len(), |i: int| stars[i].at.nanos_since_epoch() as i128)
}

/// The order in which the stars of a day are listed: the stable order of
/// their instants.
pub open spec fn time_order(board: LeaderboardView, day: u32) -> Seq<usize> {
    stable_order_of(time_keys(day_stars(board.members, day)))
}

/// Whether the order of the stars of a day is the stable order of their
/// instants: it is, wherever the stars are few enough to be counted.
pub open spec fn in_time_order(board: LeaderboardView, day: u32) -> bool {
    is_stable_order(time_keys(day_stars(board.members, day)), time_order(board, day))
}

/// The stars of a day, the earliest first; stars of the same instant in the
/// order of the leaderboard, the first part before the second.
pub open spec fn completion_times(board: LeaderboardView, day: u32) -> Seq<CompletionView> {
    let stars = day_stars(board.members, day);
    let order = time_order(board, day);
    Seq::new(stars.len(), |i: int| stars[order[i] as int])
}

/// Where the stars of a day are in the stable order of their instants, no
/// star is listed before an earlier one.
pub proof fn lemma_completion_times_ascend(board: LeaderboardView, day: u32)
    requires
        in_time_order(board, day),
    ensures
        forall|i: int, j: int|
            0 <= i < j < completion_times(board, day).len() ==> (#[trigger] completion_times(
                board,
                day,
            )[i]).at.nanos_since_epoch() <= (#[trigger] completion_times(
                board,
                day,
            )[j]).at.nanos_since_epoch(),
{
    let stars = day_stars(board.members, day);
    let keys = time_keys(stars);
    let order = time_order(board, day);
    assert forall|i: int, j: int| 0 <= i < j < completion_times(board, day).len() implies (
    #[trigger] completion_times(board, day)[i]).at.nanos_since_epoch() <= (
    #[trigger] completion_times(board, day)[j]).at.nanos_since_epoch() by {
        assert(comes_before(keys, order[i] as int, order[j] as int));
        lemma_time_key(stars[order[i] as int].at);
        lemma_time_key(stars[order[j] as int].at);
    }
}

/// Every instant has a key of its own.
proof fn lemma_time_key(at: Timestamp)
    ensures
        (at.nanos_since_epoch() as i128) as int == at.nanos_since_epoch(),
{
}

/// The heading of a day in the list of completion times.
pub open spec fn day_heading(day: u32) -> Seq<char> {
    "===== Day "@ + decimal(day as nat) + " ====="@
}

/// Writes the heading of a day.
pub fn heading(day: u32) -> (text: String)
    ensures
        text@ == day_heading(day),
{
    let mut text = "===== Day ".to_owned();
    text.append(decimal_string(day as u128).as_str());
    text.append(" =====");
    text
}

impl Leaderboard {
    /// The stars that the members earned on `day`, the earliest first.
    pub fn completion_times(&self, day: u32) -> (times: Vec<Completion>)
        ensures
            completions_view(times@) == completion_times(self@, day),
            in_time_order(self@, day),
    {
        let key = decimal_string(day as u128);
        let mut stars: Vec<Completion> = Vec::new();
        let mut keys: Vec<i128> = Vec::new();
        let mut at: usize = 0;
        assert(self@.members.subrange(0, 0) =~= Seq::empty());
        while at < self.members.len()
            invariant
                at <= self.members.len(),
                key@ == decimal(day as nat),
                self@.members.len() == self.members.len(),
                completions_view(stars@) == day_stars(self@.members.subrange(0, at as int), day),
                keys@ == time_keys(completions_view(stars@)),
            decreases self.members.len() - at,
        {
            let member = &self.members[at].1;
            let ghost before = completions_view(stars@);
            proof {
                let upto = self@.members.subrange(0, at + 1);
                assert(upto.drop_last() =~= self@.members.subrange(0, at as int));
                assert(upto.last().1 == member@);
            }
            match member.level(key.as_str()) {
                Some(level) => {
                    stars.push(
                        Completion {
                            at: level.one.get_star_ts,
                            part: 1,
                            name: member.name.clone(),
                        },
                    );
                    keys.push(level.one.get_star_ts.total_nanos());
                    match level.two {
                        Some(two) => {
                            stars.push(
                                Completion {
                                    at: two.get_star_ts,
                                    part: 2,
                                    name: member.name.clone(),
                                },
                            );
                            keys.push(two.get_star_ts.total_nanos());
                        },
                        None => {},
                    }
                },
                None => {},
            }
            proof {
                assert(completions_view(stars@) =~= before + member_stars(member@, day));
                assert(keys@ =~= time_keys(completions_view(stars@)));
            }
            at = at + 1;
        }
        assert(self@.members.subrange(0, at as int) =~= self@.members);
        let order = sort_places(&keys);
        let mut times: Vec<Completion> = Vec::new();
        let mut place: usize = 0;
        while place < order.len()
            invariant
                place <= order.len(),
                order@.len() == stars@.len(),
                keys@.len() == stars@.len(),
                is_stable_order(keys@, order@),
                times@.len() == place,
                forall|i: int|
                    0 <= i < place ==> (#[trigger] times@[i])@ == stars@[order@[i] as int]@,
            decreases order.len() - place,
        {
            let from = order[place];
            assert(0 <= order@[place as int] < keys@.len());
            let star = &stars[from];
            times.push(Completion { at: star.at, part: star.part, name: star.name.clone() });
            place = place + 1;
        }
        assert(completions_view(times@) =~= completion_times(self@, day));
        times
    }
}

/// The completion times of the days that are unlocked at `now`, day by day
/// from the first.
pub open spec fn times_upto(board: LeaderboardView, days: u32) -> Seq<(u32, Seq<CompletionView>)> {
    Seq::new(days as nat, |i: int| ((i + 1) as u32, completion_times(board, (i + 1) as u32)))
}

/// What a list of days holds.
pub open spec fn days_view(list: Seq<DayTimes>) -> Seq<(u32, Seq<CompletionView>)> {
    Seq::new(list.len(), |i: int| (list[i].day, completions_view(list[i].completions@)))
}

/// The completion times of all days that are unlocked at `now`.
pub fn times(board: &Leaderboard, now: Timestamp) -> (list: Result<Vec<DayTimes>, Error>)
    ensures
        match board@.num_unlocked_days(now) {
            Ok(days) => list is Ok && days_view(list.unwrap()@) == times_upto(board@, days),
            Err(error) => list == Err::<Vec<DayTimes>, Error>(error),
        },
        list is Ok ==> forall|day: u32|
            1 <= day <= board@.num_unlocked_days(now).unwrap() ==> #[trigger] in_time_order(
                board@,
                day,
            ),
{
    let days = board.num_unlocked_days_at(now)?;
    let mut list: Vec<DayTimes> = Vec::new();
    let mut day: u32 = 1;
    while day <= days
        invariant
            1 <= day <= days + 1,
            days <= 25,
            list@.len() == day - 1,
            forall|i: int|
                0 <= i < list@.len() ==> (#[trigger] list@[i]).day == i + 1 && completions_view(
                    list@[i].completions@,
                ) == completion_times(board@, (i + 1) as u32),
            forall|before: u32| 1 <= before < day ==> #[trigger] in_time_order(board@, before),
        decreases days + 1 - day,
    {
        list.push(DayTimes { day, completions: board.completion_times(day) });
        day = day + 1;
    }
    assert(days_view(list@) =~= times_upto(board@, days));
    Ok(list)
}

} // verus!
