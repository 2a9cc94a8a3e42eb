//! What the command line asks for, once its arguments are taken apart.

use vstd::prelude::*;
use crate::config::{
    normalized_url,
    set_leaderboard_url,
    set_session_token,
    Lookup,
    Store,
    StoreView,
};
use crate::text::same_text;

verus! {

/// What the program is to show.
#[derive(Clone, Copy, Debug, PartialEq, Eq, Structural)]
pub enum Command {
    /// The leaderboard with its grid of stars.
    Default,
    /// The completion times, day by day.
    Times,
}

/// The name of the sub-command that shows the completion times.
pub open spec fn times_name() -> Seq<char> {
    "times"@
}

/// The command that a sub-command stands for: the completion times for
/// `times`, the leaderboard for any other name and for none.
pub open spec fn command_named(subcommand: Option<Seq<char>>) -> Command {
    match subcommand {
        Some(name) => if name == times_name() {
            Command::Times
        } else {
            Command::Default
        },
        None => Command::Default,
    }
}

/// Picks the command for the sub-command that was given, if one was.
pub fn select_command(subcommand: Option<&str>) -> (command: Command)
    ensures
        command == command_named(
            match subcommand {
                Some(name) => Some(name@),
                None => None,
            },
        ),
{
    match subcommand {
        Some(name) => {
            if same_text(name, "times") {
                Command::Times
            } else {
                Command::Default
            }
        },
        None => Command::Default,
    }
}

/// Stores the settings that were given on the command line: the address of
/// the leaderboard, with its ending, and the session token. A setting that
/// was not given stays as it is.
pub fn update_preferences(store: &mut Store, url: Option<String>, session: Option<String>)
    ensures
        final(store)@ == (StoreView {
            leaderboard_url: match url {
                Some(url) => Lookup::Found(normalized_url(url@)),
                None => old(store)@.leaderboard_url,
            },
            session_token: match session {
                Some(session) => Lookup::Found(session@),
                None => old(store)@.session_token,
            },
            ..old(store)@
        }),
{
    match url {
        Some(url) => {
            set_leaderboard_url(store, url);
        },
        None => {},
    }
    match session {
        Some(session) => {
            set_session_token(store, session);
        },
        None => {},
    }
}

} // verus!
