//! Adding and removing observer locations.

use crate::commands::{field_says, CommandError, Embed, EmbedField};
use crate::database::{
    first_location, has_location, DatabaseContents, Location, LocationName, LocationView,
    Snowflake,
};
use crate::util::{degrees_text, degrees_to_string, metres_text, metres_to_string};
use vstd::prelude::*;
use vstd::string::*;

verus! {

/// Adds a location called `name`, made by `creator`.
///
/// It fails where a location of that name exists, and the store is then as
/// it was. Else the new location stands behind the others.
pub fn add_location(
    contents: &mut DatabaseContents,
    name: String,
    creator: Snowflake,
    latitude: i32,
    longitude: i32,
    altitude: i64,
) -> (outcome: Result<(), CommandError>)
    ensures
        has_location(old(contents)@.locations, name@) ==> outcome == Err::<(), CommandError>(
            CommandError::LocationExists,
        ) && final(contents)@ == old(contents)@,
        !has_location(old(contents)@.locations, name@) ==> outcome is Ok && final(contents)@.locations
            == old(contents)@.locations.push(
            LocationView { name: name@, creator: creator.0, latitude, longitude, altitude },
        ) && final(contents)@.watched_satellites == old(contents)@.watched_satellites,
        old(contents)@.well_formed() ==> final(contents)@.well_formed(),
{
    match contents.find_location(&name) {
        Some(_) => Err(CommandError::LocationExists),
        None => {
            let location = Location { name: LocationName(name), creator, latitude, longitude, altitude };
            contents.locations.push(location);
            proof {
                if old(contents)@.well_formed() {
                    old(contents)@.lemma_new_location_keeps_well_formed(location@);
                }
            }
            Ok(())
        },
    }
}

/// Where a location lies, as it is shown: latitude and longitude in
/// degrees, and the height in metres.
pub open spec fn position_text(location: LocationView) -> Seq<char> {
    degrees_text(location.latitude as int) + "°N "@ + degrees_text(location.longitude as int)
        + "°E @ "@ + metres_text(location.altitude as int) + "m"@
}

/// The list of the locations, as it is shown: each under its name with
/// where it lies, in the order of the store.
pub fn list_locations(contents: &DatabaseContents) -> (embed: Embed)
    ensures
        embed.title@ == "Locations"@,
        embed.fields.len() == contents@.locations.len(),
        forall|i: int|
            0 <= i < contents@.locations.len() ==> field_says(
                #[trigger] embed.fields[i],
                contents@.locations[i].name,
                position_text(contents@.locations[i]),
            ),
{
    let mut fields: Vec<EmbedField> = Vec::new();
    let mut i: usize = 0;
    while i < contents.locations.len()
        invariant
            i <= contents.locations.len(),
            fields.len() == i,
            forall|j: int|
                0 <= j < i ==> field_says(
                    #[trigger] fields[j],
                    contents@.locations[j].name,
                    position_text(contents@.locations[j]),
                ),
        decreases contents.locations.len() - i,
    {
        let location = &contents.locations[i];
        let mut value = degrees_to_string(location.latitude as i64);
        value.append("°N ");
        value.append(degrees_to_string(location.longitude as i64).as_str());
        value.append("°E @ ");
        value.append(metres_to_string(location.altitude).as_str());
        value.append("m");
        fields.push(EmbedField { name: location.name.0.clone(), value });
        i += 1;
    }
    Embed { title: String::from_str("Locations"), fields }
}

/// Why `actor` cannot remove the location called `name`, if they cannot:
/// there is none, or the first one of that name was made by someone else.
pub open spec fn location_removal_error(
    locations: Seq<LocationView>,
    name: Seq<char>,
    actor: u64,
) -> Option<CommandError> {
    if !has_location(locations, name) {
        Some(CommandError::NoSuchLocation)
    } else if locations[first_location(locations, name)].creator != actor {
        Some(CommandError::NotLocationCreator)
    } else {
        None
    }
}

/// Only its creator removes a location: anyone else is refused.
pub proof fn lemma_only_the_creator_removes(locations: Seq<LocationView>, name: Seq<char>, actor: u64)
    requires
        has_location(locations, name),
        locations[first_location(locations, name)].creator != actor,
    ensures
        location_removal_error(locations, name, actor) == Some(CommandError::NotLocationCreator),
{
}

/// Removes the first location called `name` on behalf of `actor`, and hands
/// it back.
///
/// It fails where no location has that name, and where the first one of
/// that name was made by someone else. The store is then as it was.
/// Subscriptions that refer to the location are left alone.
pub fn remove_location(contents: &mut DatabaseContents, name: &String, actor: Snowflake) -> (outcome:
    Result<Location, CommandError>)
    ensures
        match location_removal_error(old(contents)@.locations, name@, actor.0) {
            Some(error) => outcome == Err::<Location, CommandError>(error) && final(contents)@
                == old(contents)@,
            None => outcome is Ok && outcome->Ok_0@ == old(contents)@.locations[first_location(
                old(contents)@.locations,
                name@,
            )] && final(contents)@.locations == old(contents)@.locations.remove(
                first_location(old(contents)@.locations, name@),
            ) && final(contents)@.watched_satellites == old(contents)@.watched_satellites,
        },
        old(contents)@.well_formed() ==> final(contents)@.well_formed(),
{
    match contents.find_location(name) {
        None => Err(CommandError::NoSuchLocation),
        Some(index) => {
            assert(index == first_location(contents@.locations, name@));
            if contents.locations[index].creator.0 != actor.0 {
                Err(CommandError::NotLocationCreator)
            } else {
                let removed = contents.locations.remove(index);
                proof {
                    assert(contents@.locations =~= old(contents)@.locations.remove(index as int));
                    if old(contents)@.well_formed() {
                        old(contents)@.lemma_fewer_locations_keep_well_formed(index as int);
                    }
                }
                Ok(removed)
            }
        },
    }
}

} // verus!
