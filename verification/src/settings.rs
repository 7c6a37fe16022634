//! Deployment settings, handed in at startup instead of living in globals:
//! the administrator allow-list, the contact line shown to would-be caterers,
//! the text unit prices are shown in, and the zone the bot tells the time
//! in.

use vstd::prelude::*;
use chrono::{Offset, Timelike};

verus! {

/// The bot's startup configuration. Up to three administrator ids; a zero
/// slot is unused and never grants rights.
pub struct Settings {
    pub admin_id1: i32,
    pub admin_id2: i32,
    pub admin_id3: i32,
    pub contact_info: String,
    pub price_unit: String,
    pub time_zone_hours: i32,
}

impl Settings {
    /// Whether the id is on the administrator allow-list.
    pub open spec fn spec_is_admin(self, user_id: i32) -> bool {
        user_id != 0 && (user_id == self.admin_id1 || user_id == self.admin_id2 || user_id
            == self.admin_id3)
    }

    /// Whether the user may run administrator commands.
    pub fn is_admin(&self, user_id: i32) -> (r: bool)
        ensures
            r == self.spec_is_admin(user_id),
    {
        user_id != 0 && (user_id == self.admin_id1 || user_id == self.admin_id2 || user_id
            == self.admin_id3)
    }

    /// Whom to ask for caterer access.
    pub fn admin_contact_info(&self) -> (r: String)
        ensures
            r@ == self.contact_info@,
    {
        self.contact_info.clone()
    }
}

/// Relies on chrono's `Utc::now`, `FixedOffset::east_opt` and the `Timelike`
/// hour and minute accessors: the wall clock's hour and minute in the zone
/// the offset names. The clock decides the values; only their documented
/// bounds — an hour below twenty-four, a minute below sixty — are assumed.
#[verifier::external_body]
fn clock_fields(offset_secs: i32) -> (r: (u8, u8))
    requires
        -86400 < offset_secs < 86400,
    ensures
        r.0 < 24,
        r.1 < 60,
{
    let zone = match chrono::FixedOffset::east_opt(offset_secs) {
        Some(z) => z,
        None => chrono::Utc.fix(),
    };
    let t = chrono::Utc::now().with_timezone(&zone).time();
    (t.hour() as u8, t.minute() as u8)
}

/// The current minute of the day in the zone `hours` east of UTC, an
/// out-of-range zone clamped to a whole day's offset.
pub fn current_minute_of_day(hours: i32) -> (r: u16)
    ensures
        r < 1440,
{
    let clamped: i32 = if hours < -23 {
        -23
    } else if hours > 23 {
        23
    } else {
        hours
    };
    let (h, m) = clock_fields(clamped * 3600);
    (h as u16) * 60 + (m as u16)
}

} // verus!
