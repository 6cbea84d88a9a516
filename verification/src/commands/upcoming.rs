//! Looking up the coming passes of a satellite.

use crate::commands::watch::is_valid_elevation;
use crate::commands::{field_says, CommandError, Embed, EmbedField};
use crate::database::{
    first_location, has_location, valid_elevation, DatabaseContents, DatabaseContentsView,
};
use crate::n2yo::{PassRequest, SatellitePass, SatellitePasses};
use crate::util::{
    decimal, degrees_text, degrees_to_string, format_pass_time, pass_time_text, spans_a_delta,
    usize_to_string,
};
use vstd::prelude::*;
use vstd::string::*;

verus! {

/// The most days that a look-up may look ahead.
pub const MAX_DAYS: usize = 10;

/// The catalogue number of the weather satellite NOAA 15.
pub const NOAA_15: usize = 25338;

/// The catalogue number of the weather satellite NOAA 18.
pub const NOAA_18: usize = 28654;

/// The catalogue number of the weather satellite NOAA 19.
pub const NOAA_19: usize = 33591;

/// Whether a look-up may look `days` ahead.
pub open spec fn valid_days(days: usize) -> bool {
    0 < days <= MAX_DAYS
}

/// Why the passes over the location called `location` cannot be looked up,
/// if they cannot: the days are checked first, then the threshold, then that
/// the location exists.
pub open spec fn upcoming_error(
    contents: DatabaseContentsView,
    location: Seq<char>,
    days: usize,
    min_max_elevation: u32,
) -> Option<CommandError> {
    if !valid_days(days) {
        Some(CommandError::InvalidDays)
    } else if !valid_elevation(min_max_elevation) {
        Some(CommandError::InvalidElevation)
    } else if !has_location(contents.locations, location) {
        Some(CommandError::NoSuchLocation)
    } else {
        None
    }
}

/// What the prediction source is asked about `satellite_id` over the first
/// location called `location`.
pub open spec fn upcoming_request(
    contents: DatabaseContentsView,
    satellite_id: usize,
    location: Seq<char>,
    days: usize,
    min_max_elevation: u32,
) -> PassRequest {
    let place = contents.locations[first_location(contents.locations, location)];
    PassRequest {
        satellite_id,
        latitude: place.latitude,
        longitude: place.longitude,
        altitude: place.altitude,
        days,
        min_max_elevation,
    }
}

/// What to ask the prediction source for the coming passes of a satellite.
///
/// It fails where the days are not between 1 and 10, where the threshold is
/// not a valid elevation, and where no location has that name.
pub fn get_upcoming_passes(
    contents: &DatabaseContents,
    satellite_id: usize,
    location: &String,
    days: usize,
    min_max_elevation: u32,
) -> (outcome: Result<PassRequest, CommandError>)
    ensures
        outcome == match upcoming_error(contents@, location@, days, min_max_elevation) {
            Some(error) => Err::<PassRequest, CommandError>(error),
            None => Ok::<PassRequest, CommandError>(
                upcoming_request(contents@, satellite_id, location@, days, min_max_elevation),
            ),
        },
{
    if days > MAX_DAYS || days == 0 {
        return Err(CommandError::InvalidDays);
    }
    if !is_valid_elevation(min_max_elevation) {
        return Err(CommandError::InvalidElevation);
    }
    match contents.find_location(location) {
        None => Err(CommandError::NoSuchLocation),
        Some(index) => {
            assert(index == first_location(contents@.locations, location@));
            let place = &contents.locations[index];
            Ok(
                PassRequest {
                    satellite_id,
                    latitude: place.latitude,
                    longitude: place.longitude,
                    altitude: place.altitude,
                    days,
                    min_max_elevation,
                },
            )
        },
    }
}

/// What to ask the prediction source for the coming passes of NOAA 15, 18
/// and 19, in that order. It fails as a look-up of one satellite does.
pub fn get_upcoming_noaa_passes(
    contents: &DatabaseContents,
    location: &String,
    days: usize,
    min_max_elevation: u32,
) -> (outcome: Result<Vec<PassRequest>, CommandError>)
    ensures
        match upcoming_error(contents@, location@, days, min_max_elevation) {
            Some(error) => outcome == Err::<Vec<PassRequest>, CommandError>(error),
            None => outcome is Ok && outcome->Ok_0@ == seq![
                upcoming_request(contents@, NOAA_15, location@, days, min_max_elevation),
                upcoming_request(contents@, NOAA_18, location@, days, min_max_elevation),
                upcoming_request(contents@, NOAA_19, location@, days, min_max_elevation),
            ],
        },
{
    let first = get_upcoming_passes(contents, NOAA_15, location, days, min_max_elevation);
    match first {
        Err(error) => Err(error),
        Ok(noaa_15) => {
            let mut requests: Vec<PassRequest> = Vec::new();
            requests.push(noaa_15);
            requests.push(PassRequest { satellite_id: NOAA_18, ..noaa_15 });
            requests.push(PassRequest { satellite_id: NOAA_19, ..noaa_15 });
            Ok(requests)
        },
    }
}

/// Whether the time span of a pass can be written: both instants are ones
/// that a signed count of seconds holds, and their distance is one that a
/// time delta holds.
pub open spec fn printable(pass: SatellitePass) -> bool {
    pass.start_utc <= i64::MAX && pass.end_utc <= i64::MAX && spans_a_delta(
        pass.start_utc as int,
        pass.end_utc as int,
    )
}

/// Whether the time span of a pass can be written.
pub fn is_printable(pass: &SatellitePass) -> (can: bool)
    ensures
        can == printable(*pass),
{
    let limit: u64 = i64::MAX as u64;
    if pass.start_utc as u64 > limit || pass.end_utc as u64 > limit {
        return false;
    }
    let gap: usize = if pass.start_utc >= pass.end_utc {
        pass.start_utc - pass.end_utc
    } else {
        pass.end_utc - pass.start_utc
    };
    gap as u64 <= crate::util::MAX_DELTA_SECONDS as u64
}

/// Whether the time span of every pass can be written.
pub fn all_printable(passes: &Vec<SatellitePass>) -> (can: bool)
    ensures
        can == (forall|i: int| 0 <= i < passes.len() ==> printable(#[trigger] passes[i])),
{
    let mut i: usize = 0;
    while i < passes.len()
        invariant
            i <= passes.len(),
            forall|j: int| 0 <= j < i ==> printable(#[trigger] passes[j]),
        decreases passes.len() - i,
    {
        if !is_printable(&passes[i]) {
            return false;
        }
        i += 1;
    }
    true
}

/// The heading of the list of the coming passes.
pub open spec fn embed_title(satellite_name: Seq<char>, days: usize) -> Seq<char> {
    "Upcoming passes for "@ + satellite_name + " in the next "@ + decimal(days as int) + " days"@
}

/// What is said of a pass in a list of passes: how high it rises, in degrees.
pub open spec fn max_elevation_text(max_elevation: u32) -> Seq<char> {
    "Max Elevation: "@ + degrees_text(max_elevation as int) + "°"@
}

/// Whether `embed` shows the answer `passes` of a look-up over `days` days:
/// the heading names the satellite and the days, and each pass has the text
/// of its time span and its highest elevation, in the order of the answer.
pub open spec fn shows(embed: Embed, passes: SatellitePasses, days: usize) -> bool {
    &&& embed.title@ == embed_title(passes.info.name@, days)
    &&& embed.fields.len() == passes.passes.len()
    &&& forall|i: int|
        0 <= i < passes.passes.len() ==> field_says(
            #[trigger] embed.fields[i],
            pass_time_text(passes.passes[i].start_utc as int, passes.passes[i].end_utc as int),
            max_elevation_text(passes.passes[i].max_elevation),
        )
}

/// The list of the coming passes of one satellite, as it is shown.
pub fn embed_passes(passes: &SatellitePasses, days: usize) -> (embed: Embed)
    requires
        forall|i: int| 0 <= i < passes.passes.len() ==> printable(#[trigger] passes.passes[i]),
    ensures
        shows(embed, *passes, days),
{
    let mut title = String::from_str("Upcoming passes for ");
    title.append(passes.info.name.as_str());
    title.append(" in the next ");
    title.append(usize_to_string(days).as_str());
    title.append(" days");
    let mut fields: Vec<EmbedField> = Vec::new();
    let mut i: usize = 0;
    while i < passes.passes.len()
        invariant
            i <= passes.passes.len(),
            fields.len() == i,
            forall|j: int| 0 <= j < passes.passes.len() ==> printable(#[trigger] passes.passes[j]),
            forall|j: int|
                0 <= j < i ==> field_says(
                    #[trigger] fields[j],
                    pass_time_text(passes.passes[j].start_utc as int, passes.passes[j].end_utc as int),
                    max_elevation_text(passes.passes[j].max_elevation),
                ),
        decreases passes.passes.len() - i,
    {
        let pass = passes.passes[i];
        let name = format_pass_time(pass.start_utc as i64, pass.end_utc as i64);
        let mut value = String::from_str("Max Elevation: ");
        value.append(degrees_to_string(pass.max_elevation as i64).as_str());
        value.append("°");
        fields.push(EmbedField { name, value });
        i += 1;
    }
    Embed { title, fields }
}

/// What a look-up answers.
#[derive(Debug, PartialEq, Eq)]
pub enum UpcomingReply {
    /// None of the satellites passes.
    NoPassesFound,
    /// One list for each satellite that was asked about, in that order.
    Passes(Vec<Embed>),
}

/// Whether none of the answers holds a pass.
pub open spec fn no_passes(answers: Seq<SatellitePasses>) -> bool {
    forall|i: int| 0 <= i < answers.len() ==> (#[trigger] answers[i]).passes.len() == 0
}

/// What a look-up answers to the answers of the prediction source: that no
/// passes were found where none of them holds a pass, else one list for
/// each of them, empty ones too.
pub fn upcoming_reply(answers: &Vec<SatellitePasses>, days: usize) -> (reply: UpcomingReply)
    requires
        forall|i: int, k: int|
            0 <= i < answers.len() && 0 <= k < answers[i].passes.len() ==> printable(
                #[trigger] answers[i].passes[k],
            ),
    ensures
        no_passes(answers@) <==> reply is NoPassesFound,
        reply matches UpcomingReply::Passes(embeds) ==> embeds.len() == answers.len() && forall|
            i: int,
        | 0 <= i < answers.len() ==> shows(#[trigger] embeds[i], answers[i], days),
{
    let mut i: usize = 0;
    let mut none = true;
    while i < answers.len()
        invariant
            i <= answers.len(),
            none <==> (forall|j: int| 0 <= j < i ==> (#[trigger] answers[j]).passes.len() == 0),
        decreases answers.len() - i,
    {
        if answers[i].passes.len() != 0 {
            none = false;
        }
        i += 1;
    }
    if none {
        return UpcomingReply::NoPassesFound;
    }
    let mut embeds: Vec<Embed> = Vec::new();
    let mut k: usize = 0;
    while k < answers.len()
        invariant
            k <= answers.len(),
            embeds.len() == k,
            forall|i: int, j: int|
                0 <= i < answers.len() && 0 <= j < answers[i].passes.len() ==> printable(
                    #[trigger] answers[i].passes[j],
                ),
            forall|i: int| 0 <= i < k ==> shows(#[trigger] embeds[i], answers[i], days),
        decreases answers.len() - k,
    {
        let embed = embed_passes(&answers[k], days);
        embeds.push(embed);
        k += 1;
    }
    UpcomingReply::Passes(embeds)
}

} // verus!
