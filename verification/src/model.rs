//! The canonical OpenMensa v2 feed model: one document holds exactly one
//! canteen, whose days each carry either meal categories or a closed marker.
//! Numeric wire values that the feed only passes through (prices, coordinates)
//! are held as their decimal text.
use vstd::prelude::*;

verus! {

/// Root of an OpenMensa document.
pub struct OpenMensa {
    /// Schema version of the document, "2.0" or "2.1".
    pub version: String,
    /// Version of the producing parser, informational; omitted when absent.
    pub parser_version: Option<String>,
    pub canteen: Canteen,
}

pub struct Canteen {
    pub name: Option<String>,
    pub address: Option<String>,
    pub city: Option<String>,
    pub phone: Option<String>,
    pub email: Option<String>,
    pub location: Option<Location>,
    pub availability: Option<Availability>,
    pub times: Option<Times>,
    pub feeds: Vec<Feed>,
    pub days: Vec<Day>,
}

impl Canteen {
    /// A canteen with every optional field absent and no feeds or days.
    pub fn empty() -> (r: Canteen)
        ensures
            r.name is None,
            r.address is None,
            r.city is None,
            r.phone is None,
            r.email is None,
            r.location is None,
            r.availability is None,
            r.times is None,
            r.feeds@ == Seq::<Feed>::empty(),
            r.days@ == Seq::<Day>::empty(),
    {
        Canteen {
            name: None,
            address: None,
            city: None,
            phone: None,
            email: None,
            location: None,
            availability: None,
            times: None,
            feeds: Vec::new(),
            days: Vec::new(),
        }
    }
}

/// Geographic position, each coordinate as its decimal text.
pub struct Location {
    pub latitude: String,
    pub longitude: String,
}

#[derive(Clone, Copy, PartialEq, Eq, Structural, Debug)]
pub enum Availability {
    Public,
    Restricted,
}

/// Opening hours: the `type="opening"` table with one optional entry per
/// weekday.
pub struct Times {
    /// Kind of the times table; the wire format asks for "opening".
    pub kind: String,
    pub monday: Option<Weekday>,
    pub tuesday: Option<Weekday>,
    pub wednesday: Option<Weekday>,
    pub thursday: Option<Weekday>,
    pub friday: Option<Weekday>,
    pub saturday: Option<Weekday>,
    pub sunday: Option<Weekday>,
}

/// Opening information of a single weekday. Either field may be absent; an
/// absent field is omitted from the output entirely.
pub struct Weekday {
    /// Opening hours as "HH:mm-HH:mm".
    pub open: Option<String>,
    pub closed: Option<bool>,
}

/// A link to another feed variant with its refresh policy.
#[derive(Clone)]
pub struct Feed {
    pub name: String,
    pub priority: Option<i32>,
    pub url: String,
    pub source: Option<String>,
    pub schedule: Option<Schedule>,
}

/// Cron-like refresh policy; all fields are opaque pass-through text.
#[derive(Clone)]
pub struct Schedule {
    pub hour: String,
    pub minute: Option<String>,
    pub day_of_week: Option<String>,
    pub day_of_month: Option<String>,
    pub month: Option<String>,
    pub retry: Option<String>,
}

/// One calendar day of a canteen, dated "YYYY-MM-DD".
pub struct Day {
    pub date: String,
    pub content: DayContent,
}

/// A day is exactly one of open (with categories) or closed; the enum itself
/// rules out a day that is both or neither.
pub enum DayContent {
    Open { category: Vec<Category> },
    Closed { closed: Empty },
}

/// Marker for the empty `closed` element.
pub struct Empty {}

pub struct Category {
    pub name: String,
    pub meal: Vec<Meal>,
}

pub struct Meal {
    pub name: String,
    pub notes: Vec<String>,
    pub prices: Vec<Price>,
}

/// A price, its amount held as decimal text exactly as it is written out.
pub struct Price {
    pub value: String,
    pub role: PriceRole,
}

#[derive(Clone, Copy, PartialEq, Eq, Structural, Debug)]
pub enum PriceRole {
    Pupil,
    Student,
    Employee,
    Other,
}

/// The lowercase wire text of an availability value.
pub open spec fn spec_availability_str(a: Availability) -> Seq<char> {
    match a {
        Availability::Public => "public"@,
        Availability::Restricted => "restricted"@,
    }
}

/// The lowercase wire text of a price role.
pub open spec fn spec_price_role_str(r: PriceRole) -> Seq<char> {
    match r {
        PriceRole::Pupil => "pupil"@,
        PriceRole::Student => "student"@,
        PriceRole::Employee => "employee"@,
        PriceRole::Other => "other"@,
    }
}

impl Availability {
    pub fn as_str(&self) -> (r: &str)
        ensures
            r@ == spec_availability_str(*self),
    {
        match self {
            Availability::Public => "public",
            Availability::Restricted => "restricted",
        }
    }
}

impl PriceRole {
    pub fn as_str(&self) -> (r: &str)
        ensures
            r@ == spec_price_role_str(*self),
    {
        match self {
            PriceRole::Pupil => "pupil",
            PriceRole::Student => "student",
            PriceRole::Employee => "employee",
            PriceRole::Other => "other",
        }
    }
}

} // verus!
