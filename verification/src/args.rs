//! Structured arguments for the place-suggestion and route-search calls,
//! with their protocol codes and defaults.

use vstd::prelude::*;

use crate::datetime::DateTimeMinute;

verus! {

/// Arguments for place suggestions.
#[derive(Debug, Clone)]
pub struct SuggestPlaceArgs {
    /// Free-form query string (station name, facility, etc.).
    pub query: String,
}

/// Ticket preference for route search.
#[derive(Debug, Clone, Copy, PartialEq, Eq, Structural, Hash)]
#[non_exhaustive]
pub enum TransitTicketPreference {
    /// IC card priority.
    IC,
    /// Cash / ticket priority.
    Normal,
}

impl TransitTicketPreference {
    /// The protocol code of this preference.
    pub fn as_str(&self) -> (r: &'static str)
        ensures
            *self is Normal ==> r@ == "normal"@,
            *self is IC ==> r@ == "ic"@,
    {
        match self {
            TransitTicketPreference::Normal => "normal",
            TransitTicketPreference::IC => "ic",
        }
    }
}

impl Default for TransitTicketPreference {
    fn default() -> (r: Self)
        ensures
            r == TransitTicketPreference::Normal,
    {
        TransitTicketPreference::Normal
    }
}

/// Seat preference for limited express / reserved seat services.
#[derive(Debug, Clone, Copy, PartialEq, Eq, Structural, Hash)]
#[non_exhaustive]
pub enum SeatPreference {
    NonReserved,
    Reserved,
    GreenCar,
}

impl SeatPreference {
    /// The protocol code of this preference.
    pub fn as_u32(&self) -> (r: u32)
        ensures
            r == self.spec_code(),
    {
        match self {
            SeatPreference::NonReserved => 1,
            SeatPreference::Reserved => 2,
            SeatPreference::GreenCar => 3,
        }
    }

    /// The protocol code of this preference.
    pub open spec fn spec_code(self) -> u32 {
        match self {
            SeatPreference::NonReserved => 1,
            SeatPreference::Reserved => 2,
            SeatPreference::GreenCar => 3,
        }
    }
}

impl Default for SeatPreference {
    fn default() -> (r: Self)
        ensures
            r == SeatPreference::NonReserved,
    {
        SeatPreference::NonReserved
    }
}

/// Walking speed when transferring.
#[derive(Debug, Clone, Copy, PartialEq, Eq, Structural, Hash)]
#[non_exhaustive]
pub enum WalkingSpeed {
    Fast,
    Brisk,
    Leisurely,
    Slow,
}

impl WalkingSpeed {
    /// The protocol code of this speed.
    pub fn as_u32(&self) -> (r: u32)
        ensures
            r == self.spec_code(),
    {
        match self {
            WalkingSpeed::Fast => 1,
            WalkingSpeed::Brisk => 2,
            WalkingSpeed::Leisurely => 3,
            WalkingSpeed::Slow => 4,
        }
    }

    /// The protocol code of this speed.
    pub open spec fn spec_code(self) -> u32 {
        match self {
            WalkingSpeed::Fast => 1,
            WalkingSpeed::Brisk => 2,
            WalkingSpeed::Leisurely => 3,
            WalkingSpeed::Slow => 4,
        }
    }
}

impl Default for WalkingSpeed {
    fn default() -> (r: Self)
        ensures
            r == WalkingSpeed::Leisurely,
    {
        WalkingSpeed::Leisurely
    }
}

/// Available means of transportation for route search.
#[derive(Debug, Clone, Copy, PartialEq, Eq, Structural, Hash)]
#[non_exhaustive]
pub enum AvailableMeans {
    Airlane,
    Shinkansen,
    /// Limited express train.
    PaidExpress,
    HighwayBus,
    /// Public bus / articulated bus.
    Bus,
    Ferry,
}

impl AvailableMeans {
    /// The protocol key of this transport mean.
    pub fn as_str(&self) -> (r: &'static str)
        ensures
            r@ == self.spec_key(),
    {
        match self {
            AvailableMeans::Airlane => "al",
            AvailableMeans::Shinkansen => "shin",
            AvailableMeans::PaidExpress => "ex",
            AvailableMeans::HighwayBus => "hb",
            AvailableMeans::Bus => "lb",
            AvailableMeans::Ferry => "sr",
        }
    }

    /// The protocol key of this transport mean.
    pub open spec fn spec_key(self) -> Seq<char> {
        match self {
            AvailableMeans::Airlane => "al"@,
            AvailableMeans::Shinkansen => "shin"@,
            AvailableMeans::PaidExpress => "ex"@,
            AvailableMeans::HighwayBus => "hb"@,
            AvailableMeans::Bus => "lb"@,
            AvailableMeans::Ferry => "sr"@,
        }
    }
}

/// All six transport means, in protocol order.
pub open spec fn spec_all_means() -> Seq<AvailableMeans> {
    seq![
        AvailableMeans::Airlane,
        AvailableMeans::Shinkansen,
        AvailableMeans::PaidExpress,
        AvailableMeans::HighwayBus,
        AvailableMeans::Bus,
        AvailableMeans::Ferry,
    ]
}

/// The default allowed-means set: every transport mean.
pub fn default_available_means() -> (r: Vec<AvailableMeans>)
    ensures
        r@ == spec_all_means(),
{
    let mut r: Vec<AvailableMeans> = Vec::new();
    r.push(AvailableMeans::Airlane);
    r.push(AvailableMeans::Shinkansen);
    r.push(AvailableMeans::PaidExpress);
    r.push(AvailableMeans::HighwayBus);
    r.push(AvailableMeans::Bus);
    r.push(AvailableMeans::Ferry);
    proof {
        assert(r@ =~= spec_all_means());
    }
    r
}

/// Optional route search options.
#[derive(Debug, Clone)]
pub struct TransitOptions {
    /// IC card priority (IC) or cash/ticket priority (Normal).
    pub ticket_preference: TransitTicketPreference,
    /// Seat preference: non-reserved, reserved, or green car (if applicable).
    pub seat_preference: SeatPreference,
    /// Walking speed when transferring (default: Leisurely).
    pub walking_speed: WalkingSpeed,
    /// Available means of transportation (default: all).
    pub available_means: Vec<AvailableMeans>,
}

impl Default for TransitOptions {
    fn default() -> (r: Self)
        ensures
            r.ticket_preference == TransitTicketPreference::Normal,
            r.seat_preference == SeatPreference::NonReserved,
            r.walking_speed == WalkingSpeed::Leisurely,
            r.available_means@ == spec_all_means(),
    {
        TransitOptions {
            ticket_preference: TransitTicketPreference::Normal,
            seat_preference: SeatPreference::NonReserved,
            walking_speed: WalkingSpeed::Leisurely,
            available_means: default_available_means(),
        }
    }
}

/// Date type for route search.
#[derive(Debug, Clone, Copy, PartialEq, Eq, Structural, Hash)]
#[non_exhaustive]
pub enum DateKind {
    DepartureTime,
    LastTrain,
    FirstTrain,
    ArrivalTime,
    NotSpecified,
}

impl DateKind {
    /// The protocol code of this date interpretation.
    pub fn as_u32(&self) -> (r: u32)
        ensures
            r == self.spec_code(),
    {
        match self {
            DateKind::DepartureTime => 1,
            DateKind::LastTrain => 2,
            DateKind::FirstTrain => 3,
            DateKind::ArrivalTime => 4,
            DateKind::NotSpecified => 5,
        }
    }

    /// The protocol code of this date interpretation.
    pub open spec fn spec_code(self) -> u32 {
        match self {
            DateKind::DepartureTime => 1,
            DateKind::LastTrain => 2,
            DateKind::FirstTrain => 3,
            DateKind::ArrivalTime => 4,
            DateKind::NotSpecified => 5,
        }
    }
}

impl Default for DateKind {
    fn default() -> (r: Self)
        ensures
            r == DateKind::DepartureTime,
    {
        DateKind::DepartureTime
    }
}

/// Criteria to rank routes.
#[derive(Debug, Clone, Copy, PartialEq, Eq, Structural, Hash)]
#[non_exhaustive]
pub enum TransitCriteria {
    EarliestArrival,
    LowestCost,
    FewestTransfers,
}

impl TransitCriteria {
    /// The protocol code of this ranking criteria.
    pub fn as_u32(&self) -> (r: u32)
        ensures
            r == self.spec_code(),
    {
        match self {
            TransitCriteria::EarliestArrival => 0,
            TransitCriteria::LowestCost => 1,
            TransitCriteria::FewestTransfers => 2,
        }
    }

    /// The protocol code of this ranking criteria.
    pub open spec fn spec_code(self) -> u32 {
        match self {
            TransitCriteria::EarliestArrival => 0,
            TransitCriteria::LowestCost => 1,
            TransitCriteria::FewestTransfers => 2,
        }
    }
}

impl Default for TransitCriteria {
    fn default() -> (r: Self)
        ensures
            r == TransitCriteria::EarliestArrival,
    {
        TransitCriteria::EarliestArrival
    }
}

/// The default requested rank.
pub fn default_rank() -> (r: u32)
    ensures
        r == 1,
{
    1
}

/// Arguments for transit route search.
#[derive(Debug, Clone)]
pub struct TransitArgs {
    /// Origin name (station / place).
    pub from: String,
    /// Destination name (station / place).
    pub to: String,
    /// Date/time with explicit offset, minute precision.
    pub date: DateTimeMinute,
    /// Interpretation of `date` (departure/arrival/first/last).
    pub date_kind: DateKind,
    /// Criteria for ranking routes; earliest arrival when omitted.
    pub criteria: Option<TransitCriteria>,
    /// The requested rank under the criteria; the default is 1.
    pub rank: u32,
    /// Optional route search options; all defaults when omitted.
    pub options: Option<TransitOptions>,
}

} // verus!
