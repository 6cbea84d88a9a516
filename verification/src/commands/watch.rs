//! Making and removing subscriptions.

use crate::commands::{field_says, CommandError, Embed, EmbedField};
use crate::database::{
    first_watch_at, has_location, has_watch, has_watch_key, valid_elevation, DatabaseContents,
    DatabaseContentsView, LocationName, SatelliteId, Snowflake, WatchKey, WatchedSatellite,
    WatchedSatelliteView, MAX_ELEVATION,
};
use crate::util::{decimal, degrees_text, degrees_to_string, u64_to_string};
use vstd::prelude::*;
use vstd::string::*;

verus! {

/// Why a subscription with the key `key` cannot be made, if it cannot: the
/// threshold is checked first, then that the key is free, then that the
/// location exists.
pub open spec fn watch_error(contents: DatabaseContentsView, key: WatchKey) -> Option<CommandError> {
    if !valid_elevation(key.min_max_elevation) {
        Some(CommandError::InvalidElevation)
    } else if has_watch_key(contents.watched_satellites, key) {
        Some(CommandError::AlreadyWatched)
    } else if !has_location(contents.locations, key.location) {
        Some(CommandError::NoSuchLocation)
    } else {
        None
    }
}

/// Where the first subscription for that satellite, channel and location
/// stands; meaningful where there is one.
pub open spec fn first_watch(
    watched: Seq<WatchedSatelliteView>,
    satellite_id: usize,
    channel: u64,
    location: Seq<char>,
) -> int {
    choose|index: int| first_watch_at(watched, satellite_id, channel, location, index)
}

/// A key is taken once: in a well formed store, a subscription with the key
/// of one that exists is refused as watched already.
pub proof fn lemma_same_key_is_refused(contents: DatabaseContentsView, key: WatchKey)
    requires
        contents.well_formed(),
        has_watch_key(contents.watched_satellites, key),
    ensures
        watch_error(contents, key) == Some(CommandError::AlreadyWatched),
{
    // The subscription that has the key has a valid threshold, as every one has.
    let i = choose|i: int|
        0 <= i < contents.watched_satellites.len() && (#[trigger] contents.watched_satellites[i]).key()
            == key;
    assert(valid_elevation(contents.watched_satellites[i].min_max_elevation));
}

/// Only its watcher removes a subscription: anyone else is refused.
pub proof fn lemma_only_the_watcher_removes(
    watched: Seq<WatchedSatelliteView>,
    satellite_id: usize,
    channel: u64,
    location: Seq<char>,
    actor: u64,
)
    requires
        has_watch(watched, satellite_id, channel, location),
        watched[first_watch(watched, satellite_id, channel, location)].watcher != actor,
    ensures
        watch_removal_error(watched, satellite_id, channel, location, actor) == Some(
            CommandError::NotWatcher,
        ),
{
}

/// Whether a threshold lies above the horizon and at most at the zenith.
pub fn is_valid_elevation(min_max_elevation: u32) -> (valid: bool)
    ensures
        valid == valid_elevation(min_max_elevation),
{
    0 < min_max_elevation && min_max_elevation <= MAX_ELEVATION
}

/// Whether a subscription with this key can be made, before the satellite's
/// name is asked for.
pub fn check_watch(
    contents: &DatabaseContents,
    satellite_id: usize,
    location: &String,
    min_max_elevation: u32,
    channel: u64,
) -> (outcome: Result<(), CommandError>)
    ensures
        outcome == match watch_error(
            contents@,
            WatchKey { satellite_id, location: location@, min_max_elevation, channel },
        ) {
            Some(error) => Err::<(), CommandError>(error),
            None => Ok::<(), CommandError>(()),
        },
{
    if !is_valid_elevation(min_max_elevation) {
        return Err(CommandError::InvalidElevation);
    }
    if contents.find_watch_key(satellite_id, location, min_max_elevation, channel).is_some() {
        return Err(CommandError::AlreadyWatched);
    }
    if contents.find_location(location).is_none() {
        return Err(CommandError::NoSuchLocation);
    }
    Ok(())
}

/// Makes a subscription for `watcher` in `channel`, with an empty history.
/// `name` is the satellite's name as the prediction source gives it now; it
/// stays with the subscription.
///
/// It fails where the threshold is not a valid elevation, where a
/// subscription with the same satellite, location, threshold and channel
/// exists, and where no location has that name; the store is then as it
/// was. Else the new subscription stands behind the others.
pub fn watch_satellite(
    contents: &mut DatabaseContents,
    satellite_id: usize,
    name: String,
    location: String,
    channel: Snowflake,
    watcher: Snowflake,
    locale: String,
    min_max_elevation: u32,
) -> (outcome: Result<(), CommandError>)
    ensures
        match watch_error(
            old(contents)@,
            WatchKey { satellite_id, location: location@, min_max_elevation, channel: channel.0 },
        ) {
            Some(error) => outcome == Err::<(), CommandError>(error) && final(contents)@
                == old(contents)@,
            None => outcome is Ok && final(contents)@.locations == old(contents)@.locations
                && final(contents)@.watched_satellites == old(contents)@.watched_satellites.push(
                WatchedSatelliteView {
                    satellite_id,
                    name: name@,
                    location: location@,
                    channel: channel.0,
                    watcher: watcher.0,
                    locale: locale@,
                    min_max_elevation,
                    previous_notifications: Seq::empty(),
                },
            ),
        },
        old(contents)@.well_formed() ==> final(contents)@.well_formed(),
{
    match check_watch(contents, satellite_id, &location, min_max_elevation, channel.0) {
        Err(error) => Err(error),
        Ok(_) => {
            let watch = WatchedSatellite {
                satellite_id: SatelliteId(satellite_id),
                name,
                location: LocationName(location),
                channel,
                watcher,
                locale,
                min_max_elevation,
                previous_notifications: Vec::new(),
            };
            contents.watched_satellites.push(watch);
            proof {
                if old(contents)@.well_formed() {
                    old(contents)@.lemma_new_watch_keeps_well_formed(watch@);
                }
            }
            Ok(())
        },
    }
}

/// What is said of a subscription in the list of subscriptions: its
/// channel, its location and its threshold in degrees, each on a line.
pub open spec fn watch_text(watch: WatchedSatelliteView) -> Seq<char> {
    "Channel: "@ + decimal(watch.channel as int) + "\nLocation: "@ + watch.location
        + "\nMinimum Elevation: "@ + degrees_text(watch.min_max_elevation as int) + "°"@
}

/// The list of the subscriptions, as it is shown: each under the name of
/// its satellite, in the order of the store.
pub fn list_watched_satellites(contents: &DatabaseContents) -> (embed: Embed)
    ensures
        embed.title@ == "Watched satellites"@,
        embed.fields.len() == contents@.watched_satellites.len(),
        forall|i: int|
            0 <= i < contents@.watched_satellites.len() ==> field_says(
                #[trigger] embed.fields[i],
                contents@.watched_satellites[i].name,
                watch_text(contents@.watched_satellites[i]),
            ),
{
    let mut fields: Vec<EmbedField> = Vec::new();
    let mut i: usize = 0;
    while i < contents.watched_satellites.len()
        invariant
            i <= contents.watched_satellites.len(),
            fields.len() == i,
            forall|j: int|
                0 <= j < i ==> field_says(
                    #[trigger] fields[j],
                    contents@.watched_satellites[j].name,
                    watch_text(contents@.watched_satellites[j]),
                ),
        decreases contents.watched_satellites.len() - i,
    {
        let watch = &contents.watched_satellites[i];
        let mut value = String::from_str("Channel: ");
        value.append(u64_to_string(watch.channel.0).as_str());
        value.append("\nLocation: ");
        value.append(watch.location.0.as_str());
        value.append("\nMinimum Elevation: ");
        value.append(degrees_to_string(watch.min_max_elevation as i64).as_str());
        value.append("°");
        fields.push(EmbedField { name: watch.name.clone(), value });
        i += 1;
    }
    Embed { title: String::from_str("Watched satellites"), fields }
}

/// Why `actor` cannot remove the subscription for that satellite, channel
/// and location, if they cannot: there is none, or the first such one was
/// made by someone else.
pub open spec fn watch_removal_error(
    watched: Seq<WatchedSatelliteView>,
    satellite_id: usize,
    channel: u64,
    location: Seq<char>,
    actor: u64,
) -> Option<CommandError> {
    if !has_watch(watched, satellite_id, channel, location) {
        Some(CommandError::NoSuchWatchedSatellite)
    } else if watched[first_watch(watched, satellite_id, channel, location)].watcher != actor {
        Some(CommandError::NotWatcher)
    } else {
        None
    }
}

/// Removes the first subscription for that satellite, channel and location
/// on behalf of `actor`, and hands it back.
///
/// It fails where there is no such subscription, and where the first such
/// one was made by someone else. The store is then as it was.
pub fn unwatch_satellite(
    contents: &mut DatabaseContents,
    satellite_id: usize,
    channel: Snowflake,
    location: &String,
    actor: Snowflake,
) -> (outcome: Result<WatchedSatellite, CommandError>)
    ensures
        match watch_removal_error(
            old(contents)@.watched_satellites,
            satellite_id,
            channel.0,
            location@,
            actor.0,
        ) {
            Some(error) => outcome == Err::<WatchedSatellite, CommandError>(error) && final(contents)@
                == old(contents)@,
            None => outcome is Ok && outcome->Ok_0@ == old(contents)@.watched_satellites[first_watch(
                old(contents)@.watched_satellites,
                satellite_id,
                channel.0,
                location@,
            )] && final(contents)@.watched_satellites == old(contents)@.watched_satellites.remove(
                first_watch(old(contents)@.watched_satellites, satellite_id, channel.0, location@),
            ) && final(contents)@.locations == old(contents)@.locations,
        },
        old(contents)@.well_formed() ==> final(contents)@.well_formed(),
{
    match contents.find_watch(satellite_id, channel.0, location) {
        None => Err(CommandError::NoSuchWatchedSatellite),
        Some(index) => {
            assert(index == first_watch(
                contents@.watched_satellites,
                satellite_id,
                channel.0,
                location@,
            ));
            if contents.watched_satellites[index].watcher.0 != actor.0 {
                Err(CommandError::NotWatcher)
            } else {
                let removed = contents.watched_satellites.remove(index);
                proof {
                    assert(contents@.watched_satellites =~= old(contents)@.watched_satellites.remove(
                        index as int,
                    ));
                    if old(contents)@.well_formed() {
                        old(contents)@.lemma_fewer_watches_keep_well_formed(index as int);
                    }
                }
                Ok(removed)
            }
        },
    }
}

} // verus!
