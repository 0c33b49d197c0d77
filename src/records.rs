use vstd::prelude::*;

verus! {

/// Which daylight saving rules apply to a user, if any.
#[derive(Clone, Copy, Debug, PartialEq, Eq, Structural)]
pub enum DaylightSavingsRegion {
    NotAvailable,
    NorthAmerica,
    Europe,
    SouthernHemisphere,
}

/// The region that a stored code stands for; unknown codes mean none.
pub open spec fn region_of(code: i8) -> DaylightSavingsRegion {
    if code == 1 {
        DaylightSavingsRegion::NorthAmerica
    } else if code == 2 {
        DaylightSavingsRegion::Europe
    } else if code == 3 {
        DaylightSavingsRegion::SouthernHemisphere
    } else {
        DaylightSavingsRegion::NotAvailable
    }
}

/// The code under which a region is stored.
pub open spec fn code_of(region: DaylightSavingsRegion) -> i8 {
    match region {
        DaylightSavingsRegion::NotAvailable => 0,
        DaylightSavingsRegion::NorthAmerica => 1,
        DaylightSavingsRegion::Europe => 2,
        DaylightSavingsRegion::SouthernHemisphere => 3,
    }
}

impl DaylightSavingsRegion {
    /// Reads a stored region code.
    pub fn from_code(code: i8) -> (r: DaylightSavingsRegion)
        ensures
            r == region_of(code),
    {
        if code == 1 {
            DaylightSavingsRegion::NorthAmerica
        } else if code == 2 {
            DaylightSavingsRegion::Europe
        } else if code == 3 {
            DaylightSavingsRegion::SouthernHemisphere
        } else {
            DaylightSavingsRegion::NotAvailable
        }
    }

    /// The code under which this region is stored.
    pub fn code(&self) -> (r: i8)
        ensures
            r == code_of(*self),
            region_of(r) == *self,
    {
        match self {
            DaylightSavingsRegion::NotAvailable => 0,
            DaylightSavingsRegion::NorthAmerica => 1,
            DaylightSavingsRegion::Europe => 2,
            DaylightSavingsRegion::SouthernHemisphere => 3,
        }
    }
}

/// The stored settings of a guild.
#[derive(Clone, Copy, Debug, PartialEq, Eq, Structural)]
pub struct Guild {
    pub id: u64,
    pub streaming_channel: Option<u64>,
}

impl Guild {
    /// The settings of a guild that has stored nothing.
    pub fn new(id: u64) -> (r: Guild)
        ensures
            r.id == id,
            r.streaming_channel is None,
    {
        Guild { id, streaming_channel: None }
    }

    /// The settings of a guild: what was found in the store, else the defaults.
    pub fn from_lookup(id: u64, found: Option<Guild>) -> (r: Guild)
        ensures
            found matches Some(g) ==> r == g,
            found is None ==> r == (Guild { id, streaming_channel: None }),
    {
        match found {
            Some(g) => g,
            None => Guild::new(id),
        }
    }
}

/// The stored settings of a user.
#[derive(Clone, Copy, Debug, PartialEq, Eq, Structural)]
pub struct User {
    pub id: u64,
    /// Hours from UTC.
    pub timezone_offset: Option<i8>,
    pub daylight_savings_region: DaylightSavingsRegion,
}

impl User {
    /// The settings of a user who has stored nothing.
    pub fn new(id: u64) -> (r: User)
        ensures
            r.id == id,
            r.timezone_offset is None,
            r.daylight_savings_region == DaylightSavingsRegion::NotAvailable,
    {
        User { id, timezone_offset: None, daylight_savings_region: DaylightSavingsRegion::NotAvailable }
    }

    /// Builds a user from the columns of a stored row.
    pub fn from_row(id: u64, timezone_offset: Option<i8>, region_code: i8) -> (r: User)
        ensures
            r.id == id,
            r.timezone_offset == timezone_offset,
            r.daylight_savings_region == region_of(region_code),
    {
        User { id, timezone_offset, daylight_savings_region: DaylightSavingsRegion::from_code(region_code) }
    }

    /// The settings of a user: what was found in the store, else the defaults.
    pub fn from_lookup(id: u64, found: Option<User>) -> (r: User)
        ensures
            found matches Some(u) ==> r == u,
            found is None ==> r == (User {
                id,
                timezone_offset: None,
                daylight_savings_region: DaylightSavingsRegion::NotAvailable,
            }),
    {
        match found {
            Some(u) => u,
            None => User::new(id),
        }
    }
}

/// An emote that a user registered with the bot.
pub struct EmoteRegistry {
    pub user_id: u64,
    pub emote_id: u64,
    pub emote_name: String,
    pub is_animated: bool,
}

} // verus!
