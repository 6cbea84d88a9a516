//! The persisted snapshot: observer locations and watched satellites.

use vstd::prelude::*;

verus! {

/// Millionths of a degree in one degree.
pub const ANGLE_UNITS_PER_DEGREE: u32 = 1_000_000;

/// The zenith, in millionths of a degree: the largest elevation there is.
pub const MAX_ELEVATION: u32 = 90_000_000;

/// An identifier handed out by the chat platform, for a user or a channel.
#[derive(Debug, Clone, Copy, PartialEq, Eq, Structural)]
pub struct Snowflake(pub u64);

/// The catalogue number of a tracked satellite.
#[derive(Debug, Clone, Copy, PartialEq, Eq, Structural)]
pub struct SatelliteId(pub usize);

/// The name of an observer location: the key by which subscriptions refer to it.
#[derive(Debug, PartialEq, Eq)]
pub struct LocationName(pub String);

impl View for LocationName {
    type V = Seq<char>;

    open spec fn view(&self) -> Seq<char> {
        self.0@
    }
}

impl Clone for LocationName {
    fn clone(&self) -> (copy: Self)
        ensures
            copy == *self,
    {
        LocationName(self.0.clone())
    }
}

/// An observer location.
#[derive(Debug, PartialEq, Eq)]
pub struct Location {
    pub name: LocationName,
    pub creator: Snowflake,
    /// Millionths of a degree, north positive.
    pub latitude: i32,
    /// Millionths of a degree, east positive.
    pub longitude: i32,
    /// Millimetres above sea level.
    pub altitude: i64,
}

/// What a `Location` is, as mathematics.
pub struct LocationView {
    pub name: Seq<char>,
    pub creator: u64,
    pub latitude: i32,
    pub longitude: i32,
    pub altitude: i64,
}

impl View for Location {
    type V = LocationView;

    open spec fn view(&self) -> LocationView {
        LocationView {
            name: self.name@,
            creator: self.creator.0,
            latitude: self.latitude,
            longitude: self.longitude,
            altitude: self.altitude,
        }
    }
}

impl Clone for Location {
    fn clone(&self) -> (copy: Self)
        ensures
            copy == *self,
    {
        Location {
            name: self.name.clone(),
            creator: self.creator,
            latitude: self.latitude,
            longitude: self.longitude,
            altitude: self.altitude,
        }
    }
}

/// Whether `elevation` is a threshold that a subscription may carry: above
/// the horizon and at most the zenith.
pub open spec fn valid_elevation(elevation: u32) -> bool {
    0 < elevation <= MAX_ELEVATION
}

/// The four values that no two subscriptions may share.
pub struct WatchKey {
    pub satellite_id: usize,
    pub location: Seq<char>,
    pub min_max_elevation: u32,
    pub channel: u64,
}

/// A standing request to be told of the passes of one satellite over one
/// location that rise to `min_max_elevation` or higher.
#[derive(Debug, PartialEq, Eq)]
pub struct WatchedSatellite {
    pub satellite_id: SatelliteId,
    /// The satellite's name as the prediction source gave it when the
    /// subscription was made; it is never refreshed.
    pub name: String,
    pub location: LocationName,
    pub channel: Snowflake,
    pub watcher: Snowflake,
    pub locale: String,
    /// Millionths of a degree.
    pub min_max_elevation: u32,
    /// The `(start, end)` windows that were notified already, oldest first.
    pub previous_notifications: Vec<(usize, usize)>,
}

/// What a `WatchedSatellite` is, as mathematics.
pub struct WatchedSatelliteView {
    pub satellite_id: usize,
    pub name: Seq<char>,
    pub location: Seq<char>,
    pub channel: u64,
    pub watcher: u64,
    pub locale: Seq<char>,
    pub min_max_elevation: u32,
    pub previous_notifications: Seq<(usize, usize)>,
}

impl WatchedSatelliteView {
    /// The key under which the subscription is unique.
    pub open spec fn key(self) -> WatchKey {
        WatchKey {
            satellite_id: self.satellite_id,
            location: self.location,
            min_max_elevation: self.min_max_elevation,
            channel: self.channel,
        }
    }

    /// The same subscription with another history.
    pub open spec fn with_history(self, history: Seq<(usize, usize)>) -> WatchedSatelliteView {
        WatchedSatelliteView { previous_notifications: history, ..self }
    }
}

impl View for WatchedSatellite {
    type V = WatchedSatelliteView;

    open spec fn view(&self) -> WatchedSatelliteView {
        WatchedSatelliteView {
            satellite_id: self.satellite_id.0,
            name: self.name@,
            location: self.location@,
            channel: self.channel.0,
            watcher: self.watcher.0,
            locale: self.locale@,
            min_max_elevation: self.min_max_elevation,
            previous_notifications: self.previous_notifications@,
        }
    }
}

/// Copies a history, entry by entry.
pub fn copy_history(history: &Vec<(usize, usize)>) -> (copy: Vec<(usize, usize)>)
    ensures
        copy@ == history@,
{
    let mut copy: Vec<(usize, usize)> = Vec::new();
    let mut i: usize = 0;
    while i < history.len()
        invariant
            i <= history.len(),
            copy@ == history@.take(i as int),
        decreases history.len() - i,
    {
        let entry = history[i];
        copy.push(entry);
        i += 1;
    }
    copy
}

impl Clone for WatchedSatellite {
    fn clone(&self) -> (copy: Self)
        ensures
            copy@ == self@,
    {
        WatchedSatellite {
            satellite_id: self.satellite_id,
            name: self.name.clone(),
            location: self.location.clone(),
            channel: self.channel,
            watcher: self.watcher,
            locale: self.locale.clone(),
            min_max_elevation: self.min_max_elevation,
            previous_notifications: copy_history(&self.previous_notifications),
        }
    }
}

/// Everything that is persisted: the unit that is loaded and written whole.
#[derive(Debug, PartialEq, Eq)]
pub struct DatabaseContents {
    pub locations: Vec<Location>,
    pub watched_satellites: Vec<WatchedSatellite>,
}

/// What a `DatabaseContents` is, as mathematics.
pub struct DatabaseContentsView {
    pub locations: Seq<LocationView>,
    pub watched_satellites: Seq<WatchedSatelliteView>,
}

impl View for DatabaseContents {
    type V = DatabaseContentsView;

    open spec fn view(&self) -> DatabaseContentsView {
        DatabaseContentsView {
            locations: location_views(self.locations@),
            watched_satellites: watch_views(self.watched_satellites@),
        }
    }
}

/// The locations, each as mathematics.
pub open spec fn location_views(locations: Seq<Location>) -> Seq<LocationView> {
    locations.map_values(|l: Location| l@)
}

/// The subscriptions, each as mathematics.
pub open spec fn watch_views(watched: Seq<WatchedSatellite>) -> Seq<WatchedSatelliteView> {
    watched.map_values(|w: WatchedSatellite| w@)
}

impl Clone for DatabaseContents {
    fn clone(&self) -> (copy: Self)
        ensures
            copy@ == self@,
    {
        let mut locations: Vec<Location> = Vec::new();
        let mut i: usize = 0;
        while i < self.locations.len()
            invariant
                i <= self.locations.len(),
                location_views(locations@) == location_views(self.locations@.take(i as int)),
            decreases self.locations.len() - i,
        {
            locations.push(self.locations[i].clone());
            assert(location_views(self.locations@.take(i + 1)) =~= location_views(
                self.locations@.take(i as int),
            ).push(self.locations@[i as int]@));
            i += 1;
        }
        assert(self.locations@.take(self.locations.len() as int) == self.locations@);
        let mut watched: Vec<WatchedSatellite> = Vec::new();
        let mut k: usize = 0;
        while k < self.watched_satellites.len()
            invariant
                k <= self.watched_satellites.len(),
                watch_views(watched@) == watch_views(self.watched_satellites@.take(k as int)),
            decreases self.watched_satellites.len() - k,
        {
            watched.push(self.watched_satellites[k].clone());
            assert(watch_views(self.watched_satellites@.take(k + 1)) =~= watch_views(
                self.watched_satellites@.take(k as int),
            ).push(self.watched_satellites@[k as int]@));
            k += 1;
        }
        assert(self.watched_satellites@.take(self.watched_satellites.len() as int)
            == self.watched_satellites@);
        DatabaseContents { locations, watched_satellites: watched }
    }
}

/// Whether some location in `locations` is called `name`.
pub open spec fn has_location(locations: Seq<LocationView>, name: Seq<char>) -> bool {
    exists|i: int| 0 <= i < locations.len() && (#[trigger] locations[i]).name == name
}

/// Whether `index` is where the first location called `name` stands.
pub open spec fn first_location_at(locations: Seq<LocationView>, name: Seq<char>, index: int) -> bool {
    &&& 0 <= index < locations.len()
    &&& locations[index].name == name
    &&& forall|j: int| 0 <= j < index ==> (#[trigger] locations[j]).name != name
}

/// Where the first location called `name` stands; meaningful where there is one.
pub open spec fn first_location(locations: Seq<LocationView>, name: Seq<char>) -> int {
    choose|index: int| first_location_at(locations, name, index)
}

/// Whether some subscription in `watched` has the key `key`.
pub open spec fn has_watch_key(watched: Seq<WatchedSatelliteView>, key: WatchKey) -> bool {
    exists|i: int| 0 <= i < watched.len() && (#[trigger] watched[i]).key() == key
}

/// Whether `index` is where the first subscription with the key `key` stands.
pub open spec fn first_watch_key_at(
    watched: Seq<WatchedSatelliteView>,
    key: WatchKey,
    index: int,
) -> bool {
    &&& 0 <= index < watched.len()
    &&& watched[index].key() == key
    &&& forall|j: int| 0 <= j < index ==> (#[trigger] watched[j]).key() != key
}

/// Whether the subscription `watch` is the one that a removal names by
/// satellite, channel and location.
pub open spec fn watch_matches(
    watch: WatchedSatelliteView,
    satellite_id: usize,
    channel: u64,
    location: Seq<char>,
) -> bool {
    watch.satellite_id == satellite_id && watch.channel == channel && watch.location == location
}

/// Whether some subscription in `watched` is named by satellite, channel and location.
pub open spec fn has_watch(
    watched: Seq<WatchedSatelliteView>,
    satellite_id: usize,
    channel: u64,
    location: Seq<char>,
) -> bool {
    exists|i: int|
        0 <= i < watched.len() && watch_matches(#[trigger] watched[i], satellite_id, channel, location)
}

/// Whether `index` is where the first subscription named by satellite,
/// channel and location stands.
pub open spec fn first_watch_at(
    watched: Seq<WatchedSatelliteView>,
    satellite_id: usize,
    channel: u64,
    location: Seq<char>,
    index: int,
) -> bool {
    &&& 0 <= index < watched.len()
    &&& watch_matches(watched[index], satellite_id, channel, location)
    &&& forall|j: int|
        0 <= j < index ==> !watch_matches(#[trigger] watched[j], satellite_id, channel, location)
}

impl DatabaseContentsView {
    /// The invariant of a snapshot that only this library's operations made:
    /// location names differ, subscription keys differ, and every threshold
    /// lies above the horizon and at most at the zenith.
    pub open spec fn well_formed(self) -> bool {
        &&& forall|i: int, j: int|
            0 <= i < j < self.locations.len() ==> (#[trigger] self.locations[i]).name != (
            #[trigger] self.locations[j]).name
        &&& forall|i: int, j: int|
            0 <= i < j < self.watched_satellites.len() ==> (#[trigger] self.watched_satellites[i]).key()
                != (#[trigger] self.watched_satellites[j]).key()
        &&& forall|i: int|
            0 <= i < self.watched_satellites.len() ==> valid_elevation(
                (#[trigger] self.watched_satellites[i]).min_max_elevation,
            )
    }
}

impl DatabaseContentsView {
    /// A location whose name is new keeps a snapshot well formed.
    pub proof fn lemma_new_location_keeps_well_formed(self, location: LocationView)
        requires
            self.well_formed(),
            !has_location(self.locations, location.name),
        ensures
            (DatabaseContentsView { locations: self.locations.push(location), ..self }).well_formed(),
    {
    }

    /// Without one of its locations a snapshot stays well formed.
    pub proof fn lemma_fewer_locations_keep_well_formed(self, index: int)
        requires
            self.well_formed(),
            0 <= index < self.locations.len(),
        ensures
            (DatabaseContentsView { locations: self.locations.remove(index), ..self }).well_formed(),
    {
    }

    /// A subscription whose key is new and whose threshold is a valid
    /// elevation keeps a snapshot well formed.
    pub proof fn lemma_new_watch_keeps_well_formed(self, watch: WatchedSatelliteView)
        requires
            self.well_formed(),
            !has_watch_key(self.watched_satellites, watch.key()),
            valid_elevation(watch.min_max_elevation),
        ensures
            (DatabaseContentsView {
                watched_satellites: self.watched_satellites.push(watch),
                ..self
            }).well_formed(),
    {
    }

    /// Without one of its subscriptions a snapshot stays well formed.
    pub proof fn lemma_fewer_watches_keep_well_formed(self, index: int)
        requires
            self.well_formed(),
            0 <= index < self.watched_satellites.len(),
        ensures
            (DatabaseContentsView {
                watched_satellites: self.watched_satellites.remove(index),
                ..self
            }).well_formed(),
    {
    }
}

impl DatabaseContents {
    /// The snapshot of a store that holds nothing yet.
    pub fn new() -> (contents: DatabaseContents)
        ensures
            contents@.locations.len() == 0,
            contents@.watched_satellites.len() == 0,
            contents@.well_formed(),
    {
        DatabaseContents { locations: Vec::new(), watched_satellites: Vec::new() }
    }

    /// Where the first location called `name` stands, if there is one.
    pub fn find_location(&self, name: &String) -> (found: Option<usize>)
        ensures
            match found {
                Some(index) => first_location_at(self@.locations, name@, index as int),
                None => !has_location(self@.locations, name@),
            },
    {
        let mut i: usize = 0;
        while i < self.locations.len()
            invariant
                i <= self.locations.len(),
                forall|j: int| 0 <= j < i ==> (#[trigger] self@.locations[j]).name != name@,
            decreases self.locations.len() - i,
        {
            if self.locations[i].name.0 == *name {
                return Some(i);
            }
            i += 1;
        }
        None
    }

    /// Where the first subscription with this key stands, if there is one.
    pub fn find_watch_key(
        &self,
        satellite_id: usize,
        location: &String,
        min_max_elevation: u32,
        channel: u64,
    ) -> (found: Option<usize>)
        ensures
            match found {
                Some(index) => first_watch_key_at(
                    self@.watched_satellites,
                    WatchKey { satellite_id, location: location@, min_max_elevation, channel },
                    index as int,
                ),
                None => !has_watch_key(
                    self@.watched_satellites,
                    WatchKey { satellite_id, location: location@, min_max_elevation, channel },
                ),
            },
    {
        let ghost key = WatchKey { satellite_id, location: location@, min_max_elevation, channel };
        let mut i: usize = 0;
        while i < self.watched_satellites.len()
            invariant
                i <= self.watched_satellites.len(),
                key == (WatchKey { satellite_id, location: location@, min_max_elevation, channel }),
                forall|j: int| 0 <= j < i ==> (#[trigger] self@.watched_satellites[j]).key() != key,
            decreases self.watched_satellites.len() - i,
        {
            let watch = &self.watched_satellites[i];
            if watch.satellite_id.0 == satellite_id && watch.location.0 == *location
                && watch.min_max_elevation == min_max_elevation && watch.channel.0 == channel {
                return Some(i);
            }
            i += 1;
        }
        None
    }

    /// Where the first subscription named by satellite, channel and location
    /// stands, if there is one.
    pub fn find_watch(&self, satellite_id: usize, channel: u64, location: &String) -> (found: Option<
        usize,
    >)
        ensures
            match found {
                Some(index) => first_watch_at(
                    self@.watched_satellites,
                    satellite_id,
                    channel,
                    location@,
                    index as int,
                ),
                None => !has_watch(self@.watched_satellites, satellite_id, channel, location@),
            },
    {
        let mut i: usize = 0;
        while i < self.watched_satellites.len()
            invariant
                i <= self.watched_satellites.len(),
                forall|j: int|
                    0 <= j < i ==> !watch_matches(
                        #[trigger] self@.watched_satellites[j],
                        satellite_id,
                        channel,
                        location@,
                    ),
            decreases self.watched_satellites.len() - i,
        {
            let watch = &self.watched_satellites[i];
            if watch.satellite_id.0 == satellite_id && watch.channel.0 == channel && watch.location.0
                == *location {
                return Some(i);
            }
            i += 1;
        }
        None
    }
}

} // verus!
