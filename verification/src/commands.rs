//! What the commands decide: whether a request is in order and how it
//! changes the store. Talking to the chat platform is left to the caller.

pub mod autocomplete;
pub mod location;
pub mod upcoming;
pub mod watch;

pub use location::{add_location, list_locations, remove_location};
pub use upcoming::{
    embed_passes, get_upcoming_noaa_passes, get_upcoming_passes, upcoming_reply, UpcomingReply,
};
pub use watch::{check_watch, list_watched_satellites, unwatch_satellite, watch_satellite};

use vstd::prelude::*;
use vstd::string::*;

verus! {

/// Why a command was turned down. The store is as it was.
#[derive(Debug, Clone, Copy, PartialEq, Eq, Structural)]
pub enum CommandError {
    /// A location of that name exists already.
    LocationExists,
    /// No location has that name.
    NoSuchLocation,
    /// Someone other than its creator asked to remove a location.
    NotLocationCreator,
    /// The days to look ahead are not between 1 and 10.
    InvalidDays,
    /// The elevation is not above the horizon, or it is beyond the zenith.
    InvalidElevation,
    /// The satellite is watched already in that channel from that location
    /// with that threshold.
    AlreadyWatched,
    /// No subscription is for that satellite, channel and location.
    NoSuchWatchedSatellite,
    /// Someone other than its watcher asked to remove a subscription.
    NotWatcher,
}

impl CommandError {
    /// What the user is told.
    pub open spec fn message_text(self) -> Seq<char> {
        match self {
            CommandError::LocationExists => "location already exists"@,
            CommandError::NoSuchLocation => "no such location"@,
            CommandError::NotLocationCreator => "location must be removed by its creator"@,
            CommandError::InvalidDays => "days must be between 1 and 10"@,
            CommandError::InvalidElevation => "min_max_elevation must be between 1 and 90"@,
            CommandError::AlreadyWatched => "satellite already being watched in this channel with these parameters"@,
            CommandError::NoSuchWatchedSatellite => "no such watched satellite"@,
            CommandError::NotWatcher => "watched satellite must be removed by its watcher"@,
        }
    }

    /// What the user is told.
    pub fn message(&self) -> (text: String)
        ensures
            text@ == self.message_text(),
    {
        match self {
            CommandError::LocationExists => String::from_str("location already exists"),
            CommandError::NoSuchLocation => String::from_str("no such location"),
            CommandError::NotLocationCreator => String::from_str(
                "location must be removed by its creator",
            ),
            CommandError::InvalidDays => String::from_str("days must be between 1 and 10"),
            CommandError::InvalidElevation => String::from_str(
                "min_max_elevation must be between 1 and 90",
            ),
            CommandError::AlreadyWatched => String::from_str(
                "satellite already being watched in this channel with these parameters",
            ),
            CommandError::NoSuchWatchedSatellite => String::from_str("no such watched satellite"),
            CommandError::NotWatcher => String::from_str(
                "watched satellite must be removed by its watcher",
            ),
        }
    }
}

/// One line of a list that is shown: what it is about, and what is said of it.
#[derive(Debug, PartialEq, Eq)]
pub struct EmbedField {
    pub name: String,
    pub value: String,
}

/// A list that is shown under a heading.
#[derive(Debug, PartialEq, Eq)]
pub struct Embed {
    pub title: String,
    pub fields: Vec<EmbedField>,
}

/// Whether `field` says `value` of `name`.
pub open spec fn field_says(field: EmbedField, name: Seq<char>, value: Seq<char>) -> bool {
    field.name@ == name && field.value@ == value
}

/// What went wrong around a command, as far as the reply depends on it.
#[derive(Debug, PartialEq, Eq)]
pub enum FrameworkFailure {
    Setup,
    EventHandler,
    /// A command failed; the text is that of its error.
    Command(String),
    SubcommandRequired,
    CommandPanic,
    /// An argument could not be read; the text is that of the error.
    ArgumentParse(String),
    CommandStructureMismatch,
    UnknownInteraction,
}

impl FrameworkFailure {
    /// What the user is told of the failure.
    pub open spec fn reply_text(self) -> Seq<char> {
        match self {
            FrameworkFailure::Command(error) => "Error: "@ + error@,
            FrameworkFailure::SubcommandRequired => "Command invoked without a subcommand"@,
            FrameworkFailure::CommandPanic => "Command panicked"@,
            FrameworkFailure::ArgumentParse(error) => "Error parsing arguments: "@ + error@,
            FrameworkFailure::UnknownInteraction => "Unknown interaction"@,
            FrameworkFailure::Setup
            | FrameworkFailure::EventHandler
            | FrameworkFailure::CommandStructureMismatch => "Unknown error"@,
        }
    }
}

/// What the user is told of a failure: its own message where it has one,
/// and that the error is unknown where it has none.
pub fn on_error(failure: &FrameworkFailure) -> (reply: String)
    ensures
        reply@ == failure.reply_text(),
{
    match failure {
        FrameworkFailure::Command(error) => String::from_str("Error: ").concat(error.as_str()),
        FrameworkFailure::SubcommandRequired => String::from_str(
            "Command invoked without a subcommand",
        ),
        FrameworkFailure::CommandPanic => String::from_str("Command panicked"),
        FrameworkFailure::ArgumentParse(error) => String::from_str(
            "Error parsing arguments: ",
        ).concat(error.as_str()),
        FrameworkFailure::UnknownInteraction => String::from_str("Unknown interaction"),
        _ => String::from_str("Unknown error"),
    }
}

} // verus!
