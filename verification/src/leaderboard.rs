//! A snapshot of a private leaderboard: its members, their scores and the
//! stars they earned.

use vstd::prelude::*;
use crate::error::Error;
use crate::keyed::{
    ascending,
    entries_view,
    entry_keys,
    find,
    keys_of,
    lemma_view_with_entry,
    lemma_with_entry_keeps,
    position_of,
    put,
    view_with_entry,
    with_entry,
    Keyed,
};
use crate::schedule::{
    lemma_next_unlock_in_future,
    lemma_release_start_bounds,
    lemma_unlocked_days_bounded,
    lemma_unlocked_days_monotonic,
    next_unlock,
    LAST_DAY,
    SECONDS_PER_DAY,
    release_start,
    release_start_of,
    unlocked_days,
    unlocked_days_at,
    until_next_unlock,
    until_next_unlock_at,
};
use crate::text::{parse_decimal, parse_u32, same_text};
use crate::time::{now, Duration, Timestamp};

verus! {

/// One earned star.
#[derive(Clone, Copy, Debug, PartialEq, Eq, Structural)]
pub struct StarInfo {
    pub get_star_ts: Timestamp,
}

/// The stars of one member on one day: the first, and the second if both
/// parts are solved.
#[derive(Clone, Copy, Debug, PartialEq, Eq, Structural)]
pub struct Level {
    pub one: StarInfo,
    pub two: Option<StarInfo>,
}

/// One member of a leaderboard.
#[derive(Debug, PartialEq, Eq)]
pub struct Member {
    pub(crate) id: String,
    pub(crate) name: String,
    pub(crate) global_score: u32,
    pub(crate) local_score: u32,
    pub(crate) stars: u32,
    pub(crate) completion_day_level: Vec<(String, Level)>,
    pub(crate) last_star_ts: Timestamp,
}

/// A leaderboard as fetched.
#[derive(Debug, PartialEq, Eq)]
pub struct Leaderboard {
    pub(crate) owner_id: String,
    pub(crate) event: String,
    pub(crate) members: Vec<(String, Member)>,
}

/// What a member holds.
pub struct MemberView {
    pub id: Seq<char>,
    pub name: Seq<char>,
    pub global_score: u32,
    pub local_score: u32,
    pub stars: u32,
    /// The completed days under their keys, in ascending order of the keys.
    pub days: Keyed<Level>,
    pub last_star_ts: Timestamp,
}

/// What a leaderboard holds.
pub struct LeaderboardView {
    pub owner_id: Seq<char>,
    pub event: Seq<char>,
    /// The members under their keys, in ascending order of the keys.
    pub members: Keyed<MemberView>,
}

impl MemberView {
    /// The days stand in ascending order of their keys, each key once.
    pub open spec fn wf(self) -> bool {
        ascending(entry_keys(self.days))
    }

    /// The stars earned on the day that stands under `key`.
    pub open spec fn level(self, key: Seq<char>) -> Option<Level> {
        match position_of(entry_keys(self.days), key) {
            Some(at) => Some(self.days[at].1),
            None => None,
        }
    }
}

impl LeaderboardView {
    /// The members stand in ascending order of their keys, each key once, and
    /// so do the days of each.
    pub open spec fn wf(self) -> bool {
        &&& ascending(entry_keys(self.members))
        &&& forall|i: int| 0 <= i < self.members.len() ==> (#[trigger] self.members[i]).1.wf()
    }

    /// The year of the event, where the event is the decimal text of a
    /// number.
    pub open spec fn year(self) -> Option<u32> {
        parse_u32(self.event)
    }

    /// The number of unlocked days at `now`.
    pub open spec fn num_unlocked_days(self, now: Timestamp) -> Result<u32, Error> {
        match self.year() {
            Some(year) => Ok(
                unlocked_days(release_start(year as int), now.nanos_since_epoch()) as u32,
            ),
            None => Err(Error::InvalidYear),
        }
    }

    /// The instant of the next unlock after `now`; `None` once all days are
    /// unlocked.
    pub open spec fn next_unlock_date(self, now: Timestamp) -> Result<Option<Timestamp>, Error> {
        match self.year() {
            Some(year) => {
                let start = release_start(year as int);
                if unlocked_days(start, now.nanos_since_epoch()) == 25 {
                    Ok(None)
                } else {
                    Ok(
                        Some(
                            Timestamp {
                                secs: next_unlock(start, now.nanos_since_epoch()) as i64,
                                nanos: 0,
                            },
                        ),
                    )
                }
            },
            None => Err(Error::InvalidYear),
        }
    }

    /// The span from `now` to the next unlock; `None` once all days are
    /// unlocked.
    pub open spec fn span_until_next_unlock(self, now: Timestamp) -> Result<
        Option<Duration>,
        Error,
    > {
        match self.duration_until_next_unlock(now) {
            Ok(Some(nanos)) => Ok(Some(Duration { nanos: nanos as i128 })),
            Ok(None) => Ok(None),
            Err(error) => Err(error),
        }
    }

    /// The nanoseconds from `now` to the next unlock; `None` once all days
    /// are unlocked.
    pub open spec fn duration_until_next_unlock(self, now: Timestamp) -> Result<
        Option<int>,
        Error,
    > {
        match self.year() {
            Some(year) => Ok(
                until_next_unlock(release_start(year as int), now.nanos_since_epoch()),
            ),
            None => Err(Error::InvalidYear),
        }
    }
}

impl StarInfo {
    pub fn new(get_star_ts: Timestamp) -> (star: StarInfo)
        ensures
            star.get_star_ts == get_star_ts,
    {
        StarInfo { get_star_ts }
    }
}

impl Level {
    pub fn new(one: StarInfo, two: Option<StarInfo>) -> (level: Level)
        ensures
            level.one == one,
            level.two == two,
    {
        Level { one, two }
    }

    pub fn one(&self) -> (star: &StarInfo)
        ensures
            *star == self.one,
    {
        &self.one
    }

    pub fn two(&self) -> (star: Option<&StarInfo>)
        ensures
            star is Some <==> self.two is Some,
            star is Some ==> *star.unwrap() == self.two.unwrap(),
    {
        self.two.as_ref()
    }
}

impl View for Member {
    type V = MemberView;

    open(crate) spec fn view(&self) -> MemberView {
        MemberView {
            id: self.id@,
            name: self.name@,
            global_score: self.global_score,
            local_score: self.local_score,
            stars: self.stars,
            days: Seq::new(
                self.completion_day_level@.len(),
                |i: int| (self.completion_day_level@[i].0@, self.completion_day_level@[i].1),
            ),
            last_star_ts: self.last_star_ts,
        }
    }
}

impl Member {
    #[verifier::type_invariant]
    pub open(crate) spec fn inv(&self) -> bool {
        ascending(keys_of(self.completion_day_level@))
    }

    /// The view of a member is well formed.
    pub proof fn lemma_view_wf(&self)
        requires
            self.inv(),
        ensures
            self@.wf(),
    {
        assert(entry_keys(self@.days) =~= keys_of(self.completion_day_level@));
    }

    /// A member that has completed no day yet.
    pub fn new(
        id: String,
        name: String,
        global_score: u32,
        local_score: u32,
        stars: u32,
        last_star_ts: Timestamp,
    ) -> (member: Member)
        ensures
            member@ == (MemberView {
                id: id@,
                name: name@,
                global_score,
                local_score,
                stars,
                days: Seq::empty(),
                last_star_ts,
            }),
            member@.wf(),
    {
        let member = Member {
            id,
            name,
            global_score,
            local_score,
            stars,
            completion_day_level: Vec::new(),
            last_star_ts,
        };
        assert(member@.days =~= Seq::empty());
        proof {
            member.lemma_view_wf();
        }
        member
    }

    pub fn id(&self) -> (id: &str)
        ensures
            id@ == self@.id,
    {
        self.id.as_str()
    }

    pub fn name(&self) -> (name: &str)
        ensures
            name@ == self@.name,
    {
        self.name.as_str()
    }

    pub fn global_score(&self) -> (score: u32)
        ensures
            score == self@.global_score,
    {
        self.global_score
    }

    pub fn local_score(&self) -> (score: u32)
        ensures
            score == self@.local_score,
    {
        self.local_score
    }

    pub fn stars(&self) -> (stars: u32)
        ensures
            stars == self@.stars,
    {
        self.stars
    }

    pub fn last_star_ts(&self) -> (at: Timestamp)
        ensures
            at == self@.last_star_ts,
    {
        self.last_star_ts
    }

    /// The completed days under their keys, in ascending order of the keys.
    pub fn completed_days(&self) -> (days: &Vec<(String, Level)>)
        ensures
            days@.len() == self@.days.len(),
            forall|i: int|
                0 <= i < days@.len() ==> (#[trigger] days@[i]).0@ == self@.days[i].0 && days@[i].1
                    == self@.days[i].1,
            self@.wf(),
    {
        proof {
            use_type_invariant(self);
            self.lemma_view_wf();
        }
        &self.completion_day_level
    }

    /// The stars earned on the day that stands under `key`.
    pub fn level(&self, key: &str) -> (level: Option<&Level>)
        ensures
            level is Some <==> self@.level(key@) is Some,
            level is Some ==> *level.unwrap() == self@.level(key@).unwrap(),
    {
        proof {
            use_type_invariant(self);
            assert(entry_keys(self@.days) =~= keys_of(self.completion_day_level@));
        }
        match find(&self.completion_day_level, key) {
            Some(at) => Some(&self.completion_day_level[at].1),
            None => None,
        }
    }

    /// Records the stars of the day that stands under `key`, in place of
    /// what was recorded for it.
    pub fn complete_day(&mut self, key: String, level: Level)
        ensures
            final(self)@ == (MemberView {
                days: view_with_entry(old(self)@.days, key@, level),
                ..old(self)@
            }),
            final(self)@.wf(),
    {
        proof {
            use_type_invariant(&*self);
        }
        let ghost before = self.completion_day_level@;
        let mut days: Vec<(String, Level)> = Vec::new();
        std::mem::swap(&mut self.completion_day_level, &mut days);
        put(&mut days, key, level);
        self.completion_day_level = days;
        proof {
            lemma_view_with_entry(before, key, level, |l: Level| l);
            assert(old(self)@.days =~= entries_view(before, |l: Level| l));
            assert(self@.days =~= entries_view(with_entry(before, key, level), |l: Level| l));
            self.lemma_view_wf();
        }
    }
}

impl View for Leaderboard {
    type V = LeaderboardView;

    open(crate) spec fn view(&self) -> LeaderboardView {
        LeaderboardView {
            owner_id: self.owner_id@,
            event: self.event@,
            members: Seq::new(
                self.members@.len(),
                |i: int| (self.members@[i].0@, self.members@[i].1@),
            ),
        }
    }
}

impl Leaderboard {
    #[verifier::type_invariant]
    pub open(crate) spec fn inv(&self) -> bool {
        &&& ascending(keys_of(self.members@))
        &&& forall|i: int| 0 <= i < self.members@.len() ==> (#[trigger] self.members@[i]).1.inv()
    }

    /// The view of a leaderboard is well formed.
    pub proof fn lemma_view_wf(&self)
        requires
            self.inv(),
        ensures
            self@.wf(),
    {
        assert(entry_keys(self@.members) =~= keys_of(self.members@));
        assert forall|i: int| 0 <= i < self@.members.len() implies (
        #[trigger] self@.members[i]).1.wf() by {
            assert(self.members@[i].1.inv());
            self.members@[i].1.lemma_view_wf();
        }
    }

    /// A leaderboard without members.
    pub fn new(owner_id: String, event: String) -> (board: Leaderboard)
        ensures
            board@ == (LeaderboardView {
                owner_id: owner_id@,
                event: event@,
                members: Seq::empty(),
            }),
            board@.wf(),
    {
        let board = Leaderboard { owner_id, event, members: Vec::new() };
        assert(board@.members =~= Seq::empty());
        proof {
            board.lemma_view_wf();
        }
        board
    }

    pub fn owner_id(&self) -> (owner_id: &str)
        ensures
            owner_id@ == self@.owner_id,
    {
        self.owner_id.as_str()
    }

    pub fn event(&self) -> (event: &str)
        ensures
            event@ == self@.event,
    {
        self.event.as_str()
    }

    /// The members in ascending order of their keys.
    pub fn members(&self) -> (members: Vec<&Member>)
        ensures
            members@.len() == self@.members.len(),
            forall|i: int|
                0 <= i < members@.len() ==> (#[trigger] members@[i])@ == self@.members[i].1,
            self@.wf(),
    {
        proof {
            use_type_invariant(self);
            self.lemma_view_wf();
        }
        let mut members: Vec<&Member> = Vec::new();
        let mut at: usize = 0;
        while at < self.members.len()
            invariant
                at <= self.members.len(),
                members@.len() == at,
                forall|i: int| 0 <= i < at ==> *(#[trigger] members@[i]) == self.members@[i].1,
            decreases self.members.len() - at,
        {
            members.push(&self.members[at].1);
            at = at + 1;
        }
        members
    }

    /// The member that stands under `key`.
    pub fn member(&self, key: &str) -> (member: Option<&Member>)
        ensures
            match position_of(entry_keys(self@.members), key@) {
                Some(at) => member is Some && member.unwrap()@ == self@.members[at].1,
                None => member is None,
            },
    {
        proof {
            use_type_invariant(self);
            assert(entry_keys(self@.members) =~= keys_of(self.members@));
        }
        match find(&self.members, key) {
            Some(at) => Some(&self.members[at].1),
            None => None,
        }
    }

    /// Puts `member` under `key`, in place of the member that stood there.
    pub fn insert_member(&mut self, key: String, member: Member)
        ensures
            final(self)@ == (LeaderboardView {
                members: view_with_entry(old(self)@.members, key@, member@),
                ..old(self)@
            }),
            final(self)@.wf(),
    {
        proof {
            use_type_invariant(&*self);
            use_type_invariant(&member);
        }
        let ghost before = self.members@;
        let mut members: Vec<(String, Member)> = Vec::new();
        std::mem::swap(&mut self.members, &mut members);
        put(&mut members, key, member);
        proof {
            lemma_with_entry_keeps(before, key, member, |m: Member| m.inv());
        }
        self.members = members;
        proof {
            lemma_view_with_entry(before, key, member, |m: Member| m@);
            assert(old(self)@.members =~= entries_view(before, |m: Member| m@));
            assert(self@.members =~= entries_view(with_entry(before, key, member), |m: Member| m@));
            self.lemma_view_wf();
        }
    }

    /// The year of the event: the number whose decimal text the event is.
    pub fn year(&self) -> (year: Result<u32, Error>)
        ensures
            year == (match parse_u32(self@.event) {
                Some(year) => Ok::<u32, Error>(year),
                None => Err(Error::InvalidYear),
            }),
    {
        match parse_decimal(self.event.as_str()) {
            Some(year) => Ok(year),
            None => Err(Error::InvalidYear),
        }
    }

    /// The number of days unlocked at `now`, between 0 and 25.
    pub fn num_unlocked_days_at(&self, now: Timestamp) -> (days: Result<u32, Error>)
        ensures
            days == self@.num_unlocked_days(now),
            days is Ok <==> parse_u32(self@.event) is Some,
            days is Ok ==> days.unwrap() <= LAST_DAY,
    {
        let year = self.year()?;
        Ok(unlocked_days_at(release_start_of(year), now))
    }

    /// The number of days unlocked by the clock of this machine.
    pub fn num_unlocked_days(&self) -> (days: Result<u32, Error>)
        ensures
            exists|now: Timestamp| days == #[trigger] self@.num_unlocked_days(now),
            days is Ok <==> parse_u32(self@.event) is Some,
            days is Ok ==> days.unwrap() <= LAST_DAY,
    {
        let at = now();
        let days = self.num_unlocked_days_at(at);
        assert(days == self@.num_unlocked_days(at));
        days
    }

    /// The span from `now` to the next unlock; `None` once all 25 days are
    /// unlocked. A span that is handed out is greater than zero.
    pub fn duration_until_next_unlock_at(&self, now: Timestamp) -> (left: Result<
        Option<Duration>,
        Error,
    >)
        ensures
            left == self@.span_until_next_unlock(now),
            left is Ok <==> parse_u32(self@.event) is Some,
            left matches Ok(Some(span)) ==> self@.duration_until_next_unlock(now) == Ok::<
                Option<int>,
                Error,
            >(Some(span.nanos as int)) && span.nanos > 0,
            left is Ok ==> (left.unwrap() is None <==> self@.num_unlocked_days(now) == Ok::<
                u32,
                Error,
            >(25)),
    {
        let year = self.year()?;
        let start = release_start_of(year);
        proof {
            if unlocked_days(start as int, now.nanos_since_epoch()) < 25 {
                lemma_next_unlock_in_future(start as int, now.nanos_since_epoch());
            }
        }
        Ok(until_next_unlock_at(start, now))
    }

    /// The instant of the next unlock after `now`: the midnight of the
    /// release zone that begins the day after the last unlocked one; `None`
    /// once all 25 days are unlocked.
    pub fn next_unlock_date_at(&self, now: Timestamp) -> (next: Result<Option<Timestamp>, Error>)
        ensures
            next == self@.next_unlock_date(now),
            next is Ok <==> parse_u32(self@.event) is Some,
    {
        let year = self.year()?;
        let start = release_start_of(year);
        let days = unlocked_days_at(start, now);
        if days >= LAST_DAY {
            Ok(None)
        } else {
            proof {
                lemma_release_start_bounds(year as int);
            }
            Ok(Some(Timestamp { secs: start + days as i64 * SECONDS_PER_DAY, nanos: 0 }))
        }
    }

    /// The span to the next unlock by the clock of this machine.
    pub fn duration_until_next_unlock(&self) -> (left: Result<Option<Duration>, Error>)
        ensures
            exists|now: Timestamp| left == #[trigger] self@.span_until_next_unlock(now),
            left is Ok <==> parse_u32(self@.event) is Some,
            left matches Ok(Some(span)) ==> span.nanos > 0,
    {
        let at = now();
        let left = self.duration_until_next_unlock_at(at);
        assert(left == self@.span_until_next_unlock(at));
        left
    }
}

/// The next unlock is wanting exactly when all 25 days are unlocked.
pub proof fn lemma_no_unlock_left_iff_all_unlocked(board: LeaderboardView, now: Timestamp)
    ensures
        board.duration_until_next_unlock(now) == Ok::<Option<int>, Error>(None)
            <==> board.num_unlocked_days(now) == Ok::<u32, Error>(25),
        board.duration_until_next_unlock(now) is Err <==> board.num_unlocked_days(now) is Err,
{
}

/// As time goes on, the number of unlocked days of a leaderboard never
/// falls, and it lies between 0 and 25.
pub proof fn lemma_num_unlocked_days_monotonic(
    board: LeaderboardView,
    earlier: Timestamp,
    later: Timestamp,
)
    requires
        earlier.nanos_since_epoch() <= later.nanos_since_epoch(),
        board.year() is Some,
    ensures
        board.num_unlocked_days(earlier) is Ok,
        board.num_unlocked_days(later) is Ok,
        board.num_unlocked_days(earlier).unwrap() <= board.num_unlocked_days(later).unwrap(),
        board.num_unlocked_days(later).unwrap() <= 25,
{
    let start = release_start(board.year().unwrap() as int);
    lemma_unlocked_days_monotonic(start, earlier.nanos_since_epoch(), later.nanos_since_epoch());
    lemma_unlocked_days_bounded(start, earlier.nanos_since_epoch());
    lemma_unlocked_days_bounded(start, later.nanos_since_epoch());
}

/// An event that names no year fails every question about the schedule.
pub proof fn lemma_invalid_year_fails(board: LeaderboardView, now: Timestamp)
    requires
        board.year() is None,
    ensures
        board.num_unlocked_days(now) == Err::<u32, Error>(Error::InvalidYear),
        board.duration_until_next_unlock(now) == Err::<Option<int>, Error>(Error::InvalidYear),
{
}

impl Member {
    /// Whether two members hold the same.
    pub fn same_as(&self, other: &Member) -> (same: bool)
        ensures
            same == (self@ == other@),
    {
        if !same_text(self.id.as_str(), other.id.as_str()) || !same_text(
            self.name.as_str(),
            other.name.as_str(),
        ) || self.global_score != other.global_score || self.local_score != other.local_score
            || self.stars != other.stars || self.last_star_ts != other.last_star_ts {
            return false;
        }
        if self.completion_day_level.len() != other.completion_day_level.len() {
            assert(self@.days.len() != other@.days.len());
            return false;
        }
        let mut at: usize = 0;
        while at < self.completion_day_level.len()
            invariant
                at <= self.completion_day_level.len(),
                self.completion_day_level.len() == other.completion_day_level.len(),
                forall|i: int| 0 <= i < at ==> #[trigger] self@.days[i] == other@.days[i],
            decreases self.completion_day_level.len() - at,
        {
            let mine = &self.completion_day_level[at];
            let theirs = &other.completion_day_level[at];
            if !same_text(mine.0.as_str(), theirs.0.as_str()) || mine.1 != theirs.1 {
                assert(self@.days[at as int] != other@.days[at as int]);
                return false;
            }
            at = at + 1;
        }
        assert(self@.days =~= other@.days);
        true
    }
}

impl Clone for Member {
    fn clone(&self) -> (copy: Member)
        ensures
            copy@ == self@,
    {
        proof {
            use_type_invariant(self);
        }
        let mut days: Vec<(String, Level)> = Vec::new();
        let mut at: usize = 0;
        while at < self.completion_day_level.len()
            invariant
                at <= self.completion_day_level.len(),
                days@.len() == at,
                forall|i: int| 0 <= i < at ==> #[trigger] days@[i] == self.completion_day_level@[i],
            decreases self.completion_day_level.len() - at,
        {
            let entry = &self.completion_day_level[at];
            days.push((entry.0.clone(), entry.1));
            at = at + 1;
        }
        assert(days@ =~= self.completion_day_level@);
        let copy = Member {
            id: self.id.clone(),
            name: self.name.clone(),
            global_score: self.global_score,
            local_score: self.local_score,
            stars: self.stars,
            completion_day_level: days,
            last_star_ts: self.last_star_ts,
        };
        assert(copy@.days =~= self@.days);
        copy
    }
}

impl Leaderboard {
    /// Whether two leaderboards hold the same.
    pub fn same_as(&self, other: &Leaderboard) -> (same: bool)
        ensures
            same == (self@ == other@),
    {
        if !same_text(self.owner_id.as_str(), other.owner_id.as_str()) || !same_text(
            self.event.as_str(),
            other.event.as_str(),
        ) {
            return false;
        }
        if self.members.len() != other.members.len() {
            assert(self@.members.len() != other@.members.len());
            return false;
        }
        let mut at: usize = 0;
        while at < self.members.len()
            invariant
                at <= self.members.len(),
                self.members.len() == other.members.len(),
                forall|i: int| 0 <= i < at ==> #[trigger] self@.members[i] == other@.members[i],
            decreases self.members.len() - at,
        {
            let mine = &self.members[at];
            let theirs = &other.members[at];
            if !same_text(mine.0.as_str(), theirs.0.as_str()) || !mine.1.same_as(&theirs.1) {
                assert(self@.members[at as int] != other@.members[at as int]);
                return false;
            }
            at = at + 1;
        }
        assert(self@.members =~= other@.members);
        true
    }
}

impl Clone for Leaderboard {
    fn clone(&self) -> (copy: Leaderboard)
        ensures
            copy@ == self@,
    {
        proof {
            use_type_invariant(self);
        }
        let mut members: Vec<(String, Member)> = Vec::new();
        let mut at: usize = 0;
        while at < self.members.len()
            invariant
                at <= self.members.len(),
                members@.len() == at,
                forall|i: int|
                    0 <= i < at ==> (#[trigger] members@[i]).0@ == self.members@[i].0@
                        && members@[i].1@ == self.members@[i].1@ && members@[i].1.inv(),
            decreases self.members.len() - at,
        {
            let entry = &self.members[at];
            let member = entry.1.clone();
            proof {
                use_type_invariant(&member);
            }
            members.push((entry.0.clone(), member));
            at = at + 1;
        }
        assert(keys_of(members@) =~= keys_of(self.members@));
        let copy = Leaderboard {
            owner_id: self.owner_id.clone(),
            event: self.event.clone(),
            members,
        };
        assert(copy@.members =~= self@.members);
        copy
    }
}

} // verus!
