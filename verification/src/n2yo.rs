//! What the pass prediction source is asked and what it answers.

use vstd::prelude::*;

verus! {

/// The heading of an answer: which satellite it is about.
#[derive(Debug, PartialEq, Eq)]
pub struct SatellitePassInfo {
    pub id: usize,
    pub name: String,
    pub transaction_count: usize,
    pub passes_count: usize,
}

/// One predicted pass: a window of visibility and the highest elevation in it.
#[derive(Debug, Clone, Copy, PartialEq, Eq, Structural)]
pub struct SatellitePass {
    pub start_utc: usize,
    pub max_utc: usize,
    pub end_utc: usize,
    /// Millionths of a degree.
    pub max_elevation: u32,
}

impl SatellitePass {
    /// The window of the pass, as the notification history records it.
    pub open spec fn window(self) -> (usize, usize) {
        (self.start_utc, self.end_utc)
    }
}

/// An answer as it arrives: the list of passes is missing where there is none.
#[derive(Debug, PartialEq, Eq)]
pub struct JsonSatellitePasses {
    pub info: SatellitePassInfo,
    pub passes: Option<Vec<SatellitePass>>,
}

/// An answer of the prediction source.
#[derive(Debug, PartialEq, Eq)]
pub struct SatellitePasses {
    pub info: SatellitePassInfo,
    pub passes: Vec<SatellitePass>,
}

impl SatellitePasses {
    /// The answer with a missing list of passes read as the empty list.
    pub fn from(json: JsonSatellitePasses) -> (answer: SatellitePasses)
        ensures
            answer.info == json.info,
            answer.passes@ == match json.passes {
                Some(passes) => passes@,
                None => Seq::empty(),
            },
    {
        let JsonSatellitePasses { info, passes } = json;
        match passes {
            Some(passes) => SatellitePasses { info, passes },
            None => SatellitePasses { info, passes: Vec::new() },
        }
    }
}

/// What the prediction source is asked: the passes of one satellite over one
/// place in the coming days that rise to a given elevation.
#[derive(Debug, Clone, Copy, PartialEq, Eq, Structural)]
pub struct PassRequest {
    pub satellite_id: usize,
    /// Millionths of a degree, north positive.
    pub latitude: i32,
    /// Millionths of a degree, east positive.
    pub longitude: i32,
    /// Millimetres above sea level.
    pub altitude: i64,
    pub days: usize,
    /// Millionths of a degree.
    pub min_max_elevation: u32,
}

} // verus!
