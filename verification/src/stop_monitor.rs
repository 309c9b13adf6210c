//! What the stop-monitoring feed reports: one record per vehicle journey that
//! approaches a stop, under the line and stop it was reported for.

use vstd::prelude::*;

verus! {

/// One vehicle's predicted arrival, as contracts see it.
pub struct ArrivalRecord {
    /// The line that operates the vehicle; may be a rapid variant such as "14R".
    pub line_ref: Seq<char>,
    /// Minutes until the vehicle arrives; `None` when the feed has no prediction.
    pub time_to_arrival: Option<u64>,
    /// Whether a live vehicle position backs the prediction.
    pub has_location: bool,
}

/// One vehicle's predicted arrival at a stop, as the feed reports it.
#[derive(Debug, PartialEq, Eq)]
pub struct MonitoredVehicleJourney {
    pub line_ref: String,
    pub time_to_arrival: Option<u64>,
    pub has_location: bool,
}

impl View for MonitoredVehicleJourney {
    type V = ArrivalRecord;

    open spec fn view(&self) -> ArrivalRecord {
        ArrivalRecord {
            line_ref: self.line_ref@,
            time_to_arrival: self.time_to_arrival,
            has_location: self.has_location,
        }
    }
}

impl DeepView for MonitoredVehicleJourney {
    type V = ArrivalRecord;

    open spec fn deep_view(&self) -> ArrivalRecord {
        self@
    }
}

impl Clone for MonitoredVehicleJourney {
    fn clone(&self) -> (r: Self)
        ensures
            r@ == self@,
    {
        MonitoredVehicleJourney {
            line_ref: self.line_ref.clone(),
            time_to_arrival: self.time_to_arrival,
            has_location: self.has_location,
        }
    }
}

impl MonitoredVehicleJourney {
    pub fn new(line_ref: String, time_to_arrival: Option<u64>, has_location: bool) -> (r: Self)
        ensures
            r.line_ref == line_ref,
            r.time_to_arrival == time_to_arrival,
            r.has_location == has_location,
    {
        MonitoredVehicleJourney { line_ref, time_to_arrival, has_location }
    }

    /// Minutes until arrival, if the feed predicts any.
    pub fn time_to_arrival(&self) -> (r: Option<u64>)
        ensures
            r == self.time_to_arrival,
    {
        self.time_to_arrival
    }

    /// Whether a live vehicle position backs the prediction.
    pub fn has_location(&self) -> (r: bool)
        ensures
            r == self.has_location,
    {
        self.has_location
    }
}

/// A line at a stop, as contracts see it.
pub struct StopKey {
    pub line_ref: Seq<char>,
    pub stop_label: Seq<char>,
}

/// The line and stop that a list of journeys was reported for.
#[derive(Debug, PartialEq, Eq)]
pub struct LineStop {
    pub line_ref: String,
    /// The stop's label as shown to riders.
    pub stop_label: String,
}

impl View for LineStop {
    type V = StopKey;

    open spec fn view(&self) -> StopKey {
        StopKey { line_ref: self.line_ref@, stop_label: self.stop_label@ }
    }
}

impl DeepView for LineStop {
    type V = StopKey;

    open spec fn deep_view(&self) -> StopKey {
        self@
    }
}

impl Clone for LineStop {
    fn clone(&self) -> (r: Self)
        ensures
            r@ == self@,
    {
        LineStop { line_ref: self.line_ref.clone(), stop_label: self.stop_label.clone() }
    }
}

impl LineStop {
    pub fn new(line_ref: String, stop_label: String) -> (r: Self)
        ensures
            r.line_ref == line_ref,
            r.stop_label == stop_label,
    {
        LineStop { line_ref, stop_label }
    }

    /// The label under which this stop is shown on a board.
    pub fn screen_display(&self) -> (r: String)
        ensures
            r@ == self.stop_label@,
    {
        self.stop_label.clone()
    }
}

/// A feed result, as contracts see it: the entries in their order, each with
/// the journeys reported for it.
pub type Feed = Seq<(StopKey, Seq<ArrivalRecord>)>;

/// Why a poll of the feed produced no data.
#[derive(Clone, Debug, PartialEq, Eq)]
pub enum FetchError {
    /// The request did not complete.
    Transport(String),
    /// The response could not be read as a feed.
    Parse(String),
}

} // verus!
