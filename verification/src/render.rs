//! The leaderboard as lines of text for a terminal: a title, the days as two
//! rows of digits, one row of stars for each member in the order of merit,
//! and the time left until the next unlock.

use vstd::prelude::*;
use vstd::string::*;
use chrono_humanize::HumanTime;
use crate::error::Error;
use crate::leaderboard::{Leaderboard, LeaderboardView, Member, MemberView};
use crate::ranking::{rank_keys, ranking_of};
use crate::sorting::is_stable_order;
use crate::schedule::{lemma_next_unlock_in_future, release_start, unlocked_days, LAST_DAY};
use crate::text::{decimal, decimal_string, digit_char, digit_str, pad_left, padded};
use crate::time::{Duration, Timestamp};

verus! {

/// The colour of a piece of text, by what it means.
#[derive(Clone, Copy, Debug, PartialEq, Eq, Structural)]
pub enum Tone {
    /// The colour of the terminal.
    Plain,
    /// A locked day, or an unlocked day without a star.
    Gray,
    /// One star.
    Silver,
    /// Two stars.
    Gold,
}

/// A piece of text in one colour.
#[derive(Debug, PartialEq, Eq)]
pub struct Span {
    pub text: String,
    pub tone: Tone,
}

/// What a span holds.
pub struct SpanView {
    pub text: Seq<char>,
    pub tone: Tone,
}

impl View for Span {
    type V = SpanView;

    open spec fn view(&self) -> SpanView {
        SpanView { text: self.text@, tone: self.tone }
    }
}

/// What a line of spans holds.
pub open spec fn line_view(line: Seq<Span>) -> Seq<SpanView> {
    Seq::new(line.len(), |i: int| line[i]@)
}

/// What a list of lines holds.
pub open spec fn lines_view(lines: Seq<Vec<Span>>) -> Seq<Seq<SpanView>> {
    Seq::new(lines.len(), |i: int| line_view(lines[i]@))
}

/// What a member has reached on one day.
#[derive(Clone, Copy, Debug, PartialEq, Eq, Structural)]
pub enum StarStatus {
    /// The day is locked and the member has no entry for it.
    Locked,
    /// The day is unlocked and the member has no entry for it.
    NoStar,
    /// The member solved the first part.
    OneStar,
    /// The member solved both parts.
    TwoStars,
}

/// The status of `member` on `day` when `unlocked` days are unlocked. The
/// entry of a day stands under the day's number in base ten.
pub open spec fn star_status(member: MemberView, day: u32, unlocked: u32) -> StarStatus {
    match member.level(decimal(day as nat)) {
        Some(level) => if level.two is Some {
            StarStatus::TwoStars
        } else {
            StarStatus::OneStar
        },
        None => if day <= unlocked {
            StarStatus::NoStar
        } else {
            StarStatus::Locked
        },
    }
}

/// Text in the colour of the terminal.
pub open spec fn plain(text: Seq<char>) -> SpanView {
    SpanView { text, tone: Tone::Plain }
}

/// The mark that stands for a status: a blank for a locked day, else a star
/// in the colour of the status.
pub open spec fn marker(status: StarStatus) -> SpanView {
    match status {
        StarStatus::Locked => SpanView { text: " "@, tone: Tone::Plain },
        StarStatus::NoStar => SpanView { text: "*"@, tone: Tone::Gray },
        StarStatus::OneStar => SpanView { text: "*"@, tone: Tone::Silver },
        StarStatus::TwoStars => SpanView { text: "*"@, tone: Tone::Gold },
    }
}

/// One digit of the number of `day`: plain for an unlocked day, gray for a
/// locked one.
pub open spec fn day_label(digit: int, day: int, unlocked: u32) -> SpanView {
    SpanView {
        text: seq![digit_char(digit)],
        tone: if day <= unlocked {
            Tone::Plain
        } else {
            Tone::Gray
        },
    }
}

/// The upper row of the day numbers: the tens of the days 10 to 25, each
/// followed by a blank.
pub open spec fn tens_row(unlocked: u32) -> Seq<SpanView> {
    seq![plain("                             "@)] + Seq::new(
        32,
        |i: int|
            if i % 2 == 0 {
                day_label((10 + i / 2) / 10, 10 + i / 2, unlocked)
            } else {
                plain(" "@)
            },
    )
}

/// The lower row of the day numbers: the units of the days 1 to 25, each
/// followed by a blank.
pub open spec fn units_row(unlocked: u32) -> Seq<SpanView> {
    seq![plain("           "@)] + Seq::new(
        50,
        |i: int|
            if i % 2 == 0 {
                day_label((1 + i / 2) % 10, 1 + i / 2, unlocked)
            } else {
                plain(" "@)
            },
    )
}

/// The marks of the days 1 to 25 of one member, each followed by a blank.
pub open spec fn star_cells(member: MemberView, unlocked: u32) -> Seq<SpanView> {
    Seq::new(
        50,
        |i: int|
            if i % 2 == 0 {
                marker(star_status(member, (1 + i / 2) as u32, unlocked))
            } else {
                plain(" "@)
            },
    )
}

/// The row of one member: rank and local score, each at least three wide,
/// the marks of the 25 days, and the name.
pub open spec fn member_row(rank: nat, member: MemberView, unlocked: u32) -> Seq<SpanView> {
    seq![
        plain(" "@ + pad_left(decimal(rank), 3, ' ') + ")  "@),
        plain(pad_left(decimal(member.local_score as nat), 3, ' ') + " "@),
    ] + star_cells(member, unlocked) + seq![plain(member.name)]
}

impl Member {
    /// What this member has reached on `day` when `unlocked` days are
    /// unlocked.
    pub fn star_status(&self, day: u32, unlocked: u32) -> (status: StarStatus)
        ensures
            status == star_status(self@, day, unlocked),
    {
        let key = decimal_string(day as u128);
        match self.level(key.as_str()) {
            Some(level) => {
                if level.two().is_some() {
                    StarStatus::TwoStars
                } else {
                    StarStatus::OneStar
                }
            },
            None => {
                if day <= unlocked {
                    StarStatus::NoStar
                } else {
                    StarStatus::Locked
                }
            },
        }
    }
}

impl StarStatus {
    /// The mark that stands for this status.
    pub fn marker(self) -> (span: Span)
        ensures
            span@ == marker(self),
    {
        match self {
            StarStatus::Locked => Span { text: " ".to_owned(), tone: Tone::Plain },
            StarStatus::NoStar => Span { text: "*".to_owned(), tone: Tone::Gray },
            StarStatus::OneStar => Span { text: "*".to_owned(), tone: Tone::Silver },
            StarStatus::TwoStars => Span { text: "*".to_owned(), tone: Tone::Gold },
        }
    }
}

fn plain_span(text: &str) -> (span: Span)
    ensures
        span@ == plain(text@),
{
    Span { text: text.to_owned(), tone: Tone::Plain }
}

fn label_span(digit: u32, day: u32, unlocked: u32) -> (span: Span)
    requires
        digit < 10,
    ensures
        span@ == day_label(digit as int, day as int, unlocked),
{
    Span {
        text: digit_str(digit).to_owned(),
        tone: if day <= unlocked {
            Tone::Plain
        } else {
            Tone::Gray
        },
    }
}

/// The upper row of the day numbers.
pub fn render_tens_row(unlocked: u32) -> (row: Vec<Span>)
    ensures
        line_view(row@) == tens_row(unlocked),
{
    let mut row: Vec<Span> = Vec::new();
    row.push(plain_span("                             "));
    let mut day: u32 = 10;
    while day <= LAST_DAY
        invariant
            10 <= day <= LAST_DAY + 1,
            row@.len() == 1 + 2 * (day - 10),
            forall|i: int| 0 <= i < row@.len() ==> (#[trigger] row@[i])@ == tens_row(unlocked)[i],
        decreases LAST_DAY + 1 - day,
    {
        row.push(label_span(day / 10, day, unlocked));
        row.push(plain_span(" "));
        day = day + 1;
    }
    assert(line_view(row@) =~= tens_row(unlocked));
    row
}

/// The lower row of the day numbers.
pub fn render_units_row(unlocked: u32) -> (row: Vec<Span>)
    ensures
        line_view(row@) == units_row(unlocked),
{
    let mut row: Vec<Span> = Vec::new();
    row.push(plain_span("           "));
    let mut day: u32 = 1;
    while day <= LAST_DAY
        invariant
            1 <= day <= LAST_DAY + 1,
            row@.len() == 1 + 2 * (day - 1),
            forall|i: int| 0 <= i < row@.len() ==> (#[trigger] row@[i])@ == units_row(unlocked)[i],
        decreases LAST_DAY + 1 - day,
    {
        row.push(label_span(day % 10, day, unlocked));
        row.push(plain_span(" "));
        day = day + 1;
    }
    assert(line_view(row@) =~= units_row(unlocked));
    row
}

/// The row of the member that holds place `rank` in the order of merit.
pub fn render_member_row(rank: usize, member: &Member, unlocked: u32) -> (row: Vec<Span>)
    ensures
        line_view(row@) == member_row(rank as nat, member@, unlocked),
{
    let mut row: Vec<Span> = Vec::new();
    let mut head = " ".to_owned();
    let rank_text = padded(decimal_string(rank as u128).as_str(), 3, false);
    head.append(rank_text.as_str());
    head.append(")  ");
    row.push(Span { text: head, tone: Tone::Plain });
    let mut score = padded(decimal_string(member.local_score() as u128).as_str(), 3, false);
    score.append(" ");
    row.push(Span { text: score, tone: Tone::Plain });
    let ghost wanted = member_row(rank as nat, member@, unlocked);
    let mut day: u32 = 1;
    while day <= LAST_DAY
        invariant
            1 <= day <= LAST_DAY + 1,
            wanted == member_row(rank as nat, member@, unlocked),
            row@.len() == 2 + 2 * (day - 1),
            forall|i: int| 0 <= i < row@.len() ==> (#[trigger] row@[i])@ == wanted[i],
        decreases LAST_DAY + 1 - day,
    {
        let status = member.star_status(day, unlocked);
        row.push(status.marker());
        row.push(plain_span(" "));
        day = day + 1;
    }
    row.push(plain_span(member.name()));
    assert(line_view(row@) =~= wanted);
    row
}

/// The time left until a day unlocks, in hours, minutes and seconds.
#[derive(Clone, Copy, Debug, PartialEq, Eq, Structural)]
pub struct Countdown {
    /// The day that unlocks next.
    pub day: u32,
    pub hours: u128,
    pub minutes: u32,
    pub seconds: u32,
}

/// The countdown to `day` for a span of `nanos` nanoseconds, in whole
/// seconds; none for a span that is not greater than zero.
pub open spec fn countdown(day: u32, nanos: int) -> Option<Countdown> {
    if nanos > 0 {
        let seconds = nanos / 1_000_000_000;
        Some(
            Countdown {
                day,
                hours: (seconds / 3600) as u128,
                minutes: (seconds % 3600 / 60) as u32,
                seconds: (seconds % 60) as u32,
            },
        )
    } else {
        None
    }
}

impl Countdown {
    /// The countdown to `day` over the span `left`; none where the unlock
    /// does not lie in the future.
    pub fn new(day: u32, left: Duration) -> (countdown: Option<Countdown>)
        ensures
            countdown == self::countdown(day, left.nanos as int),
    {
        if left.nanos <= 0 {
            return None;
        }
        let seconds: u128 = left.num_seconds() as u128;
        Some(
            Countdown {
                day,
                hours: seconds / 3600,
                minutes: (seconds % 3600 / 60) as u32,
                seconds: (seconds % 60) as u32,
            },
        )
    }

    /// The line that announces the unlock: the hours as they are, minutes
    /// and seconds with two digits.
    pub open spec fn text(self) -> Seq<char> {
        " Day "@ + decimal(self.day as nat) + " unlocks in "@ + decimal(self.hours as nat) + ":"@
            + pad_left(decimal(self.minutes as nat), 2, '0') + ":"@ + pad_left(
            decimal(self.seconds as nat),
            2,
            '0',
        )
    }

    pub fn message(&self) -> (message: String)
        ensures
            message@ == self.text(),
    {
        let mut message = " Day ".to_owned();
        message.append(decimal_string(self.day as u128).as_str());
        message.append(" unlocks in ");
        message.append(decimal_string(self.hours).as_str());
        message.append(":");
        message.append(padded(decimal_string(self.minutes as u128).as_str(), 2, true).as_str());
        message.append(":");
        message.append(padded(decimal_string(self.seconds as u128).as_str(), 2, true).as_str());
        message
    }
}

/// The leaderboard as it is shown.
#[derive(Debug, PartialEq, Eq)]
pub struct Rendering {
    /// Title, day numbers and one row for each member.
    pub lines: Vec<Vec<Span>>,
    /// The countdown to the next unlock; none once all days are unlocked; an
    /// error where the event names no year.
    pub next_unlock: Result<Option<Countdown>, Error>,
}

/// The number of days shown as unlocked: all 25 where the event names no
/// year.
pub open spec fn shown_days(board: LeaderboardView, now: Timestamp) -> u32 {
    match board.num_unlocked_days(now) {
        Ok(days) => days,
        Err(_) => 25,
    }
}

/// The title line.
pub open spec fn title(board: LeaderboardView) -> Seq<char> {
    " Advent of Code "@ + board.event + " | Leaderboard #"@ + board.owner_id
}

/// The lines of a leaderboard: a blank line, the title, a blank line, the two
/// rows of day numbers, and the rows of the members in the order of merit,
/// ranks counted from 1.
pub open spec fn grid(board: LeaderboardView, unlocked: u32) -> Seq<Seq<SpanView>> {
    seq![
        Seq::empty(),
        seq![plain(title(board))],
        Seq::empty(),
        tens_row(unlocked),
        units_row(unlocked),
    ] + Seq::new(
        board.members.len(),
        |place: int|
            member_row(
                (place + 1) as nat,
                board.members[ranking_of(board)[place] as int].1,
                unlocked,
            ),
    )
}

/// The countdown that goes with a leaderboard at `now`.
pub open spec fn next_countdown(board: LeaderboardView, now: Timestamp) -> Result<
    Option<Countdown>,
    Error,
> {
    match board.duration_until_next_unlock(now) {
        Ok(Some(nanos)) => Ok(countdown((shown_days(board, now) + 1) as u32, nanos)),
        Ok(None) => Ok(None),
        Err(error) => Err(error),
    }
}

/// Lays out the lines of a leaderboard on which `unlocked` days are shown as
/// unlocked.
pub fn render_grid(board: &Leaderboard, unlocked: u32) -> (lines: Vec<Vec<Span>>)
    ensures
        lines_view(lines@) == grid(board@, unlocked),
        is_stable_order(rank_keys(board@), ranking_of(board@)),
{
    let mut lines: Vec<Vec<Span>> = Vec::new();
    lines.push(Vec::new());
    let mut heading = " Advent of Code ".to_owned();
    heading.append(board.event());
    heading.append(" | Leaderboard #");
    heading.append(board.owner_id());
    let mut title_line: Vec<Span> = Vec::new();
    title_line.push(Span { text: heading, tone: Tone::Plain });
    assert(line_view(title_line@) =~= seq![plain(title(board@))]);
    lines.push(title_line);
    lines.push(Vec::new());
    lines.push(render_tens_row(unlocked));
    lines.push(render_units_row(unlocked));
    let ranked = board.ranked_members();
    let ghost wanted = grid(board@, unlocked);
    assert(line_view(lines@[0]@) =~= wanted[0]);
    assert(line_view(lines@[2]@) =~= wanted[2]);
    let mut place: usize = 0;
    while place < ranked.len()
        invariant
            place <= ranked.len(),
            ranked@.len() == board@.members.len(),
            forall|i: int|
                0 <= i < ranked@.len() ==> (#[trigger] ranked@[i])@ == board@.members[ranking_of(
                    board@,
                )[i] as int].1,
            wanted == grid(board@, unlocked),
            lines@.len() == 5 + place,
            forall|i: int|
                0 <= i < lines@.len() ==> line_view((#[trigger] lines@[i])@) == wanted[i],
        decreases ranked.len() - place,
    {
        let row = render_member_row(place + 1, ranked[place], unlocked);
        lines.push(row);
        place = place + 1;
    }
    assert(lines_view(lines@) =~= wanted);
    lines
}

/// Lays out a leaderboard as it stands at `now`. Where the event names no
/// year, all days are shown as unlocked and the countdown is the error.
pub fn render_leaderboard(board: &Leaderboard, now: Timestamp) -> (rendering: Rendering)
    ensures
        lines_view(rendering.lines@) == grid(board@, shown_days(board@, now)),
        is_stable_order(rank_keys(board@), ranking_of(board@)),
        rendering.next_unlock == next_countdown(board@, now),
{
    let unlocked = match board.num_unlocked_days_at(now) {
        Ok(days) => days,
        Err(_) => LAST_DAY,
    };
    let lines = render_grid(board, unlocked);
    let next_unlock = match board.duration_until_next_unlock_at(now) {
        Ok(Some(left)) => Ok(Countdown::new(unlocked + 1, left)),
        Ok(None) => Ok(None),
        Err(error) => Err(error),
    };
    Rendering { lines, next_unlock }
}

/// A leaderboard shows a countdown exactly while a day is still locked, and
/// the countdown is to the day after the last unlocked one.
pub proof fn lemma_countdown_shown(board: LeaderboardView, now: Timestamp)
    requires
        board.year() is Some,
    ensures
        next_countdown(board, now) is Ok,
        next_countdown(board, now).unwrap() is Some <==> board.num_unlocked_days(now).unwrap() < 25,
        next_countdown(board, now) matches Ok(Some(countdown)) ==> countdown.day
            == board.num_unlocked_days(now).unwrap() + 1,
{
    let start = release_start(board.year().unwrap() as int);
    if unlocked_days(start, now.nanos_since_epoch()) < 25 {
        lemma_next_unlock_in_future(start, now.nanos_since_epoch());
    }
}

/// The phrase that chrono_humanize has for a span of `secs` seconds and
/// `nanos` nanoseconds, measured from now: `5 minutes ago`, `now`,
/// `in an hour`. None for a span that chrono cannot hold.
pub uninterp spec fn humanized(secs: int, nanos: int) -> Option<Seq<char>>;

/// Makes chrono's span by `TimeDelta::new`, chrono_humanize's `HumanTime` of
/// it by `From`, and writes that by its `Display`. Trusted: the phrase
/// depends on the span alone.
#[verifier::external_body]
fn humanize(secs: i64, nanos: u32) -> (phrase: Option<String>)
    ensures
        match phrase {
            Some(phrase) => humanized(secs as int, nanos as int) == Some(phrase@),
            None => humanized(secs as int, nanos as int) is None,
        },
{
    match chrono::TimeDelta::new(secs, nanos) {
        Some(span) => Some(HumanTime::from(span).to_string()),
        None => None,
    }
}

/// The phrase for the instant `then` as seen from `now`, where the span
/// between them has one: the span in whole seconds, rounded down, and the
/// nanoseconds above them.
pub open spec fn humanized_since(then: Timestamp, now: Timestamp) -> Option<Seq<char>> {
    let span = then.nanos_since_epoch() - now.nanos_since_epoch();
    if i64::MIN <= span / 1_000_000_000 <= i64::MAX {
        humanized(span / 1_000_000_000, span % 1_000_000_000)
    } else {
        None
    }
}

/// The line that tells when the leaderboard was fetched.
pub open spec fn last_updated_text(last_access: Timestamp, now: Timestamp) -> Option<Seq<char>> {
    match humanized_since(last_access, now) {
        Some(phrase) => Some(" Last updated "@ + phrase + "."@),
        None => None,
    }
}

/// Writes the line that tells, at `now`, when the leaderboard was fetched;
/// none where the span between the two instants has no phrase.
pub fn last_updated(last_access: Timestamp, now: Timestamp) -> (line: Option<String>)
    ensures
        match line {
            Some(line) => last_updated_text(last_access, now) == Some(line@),
            None => last_updated_text(last_access, now) is None,
        },
{
    let span: i128 = last_access.total_nanos() - now.total_nanos();
    let below: i128 = span % 1_000_000_000;
    let (secs, nanos): (i128, i128) = if below < 0 {
        (span / 1_000_000_000 - 1, below + 1_000_000_000)
    } else {
        (span / 1_000_000_000, below)
    };
    assert(secs == (span as int) / 1_000_000_000 && nanos == (span as int) % 1_000_000_000);
    if secs < i64::MIN as i128 || secs > i64::MAX as i128 {
        return None;
    }
    match humanize(secs as i64, nanos as u32) {
        Some(phrase) => {
            let mut line = " Last updated ".to_owned();
            line.append(phrase.as_str());
            line.append(".");
            Some(line)
        },
        None => None,
    }
}

} // verus!
