//! Taking an event in. The lookup of its location is a request that the
//! caller makes: `lookup_request` says what to ask for, and `normalize`
//! takes the answer, whatever it is, and shapes the record to store.
//!
//! Address policy: an address that the sender states in its payload, where
//! it is not empty, goes before the one that the connection gave; with
//! neither, the lookup is made for the text `Unknown`.

use crate::event::{slice_text, EventData, EventView, Location, LocationView};
use crate::event::{StoredEventData, StoredEventView};
use crate::geo::{locate, located, lookup_url, lookup_url_of, unknown_text};
use vstd::prelude::*;
use vstd::string::StringExecFns;

verus! {

/// The time `secs` seconds and `nanos` nanoseconds after the start of 1970
/// (UTC), as a date and time in US Eastern time with its offset from UTC, in
/// the form of RFC 3339; `None` where the calendar cannot hold that time.
pub uninterp spec fn eastern_time(secs: int, nanos: int) -> Option<Seq<char>>;

/// `chrono::DateTime::from_timestamp`, then `DateTime::with_timezone` to
/// `chrono_tz::US::Eastern` and `DateTime::to_rfc3339`. The contract claims
/// only that the text, and whether there is one, is a function of the two
/// numbers.
#[verifier::external_body]
fn eastern_rfc3339(secs: i64, nanos: u32) -> (stamp: Option<String>)
    ensures
        crate::event::text_of(stamp) == eastern_time(secs as int, nanos as int),
{
    match chrono::DateTime::from_timestamp(secs, nanos) {
        Some(utc) => Some(utc.with_timezone(&chrono_tz::US::Eastern).to_rfc3339()),
        None => None,
    }
}

/// The address that an event is looked up by: the one the sender states,
/// where it states one that is not empty; else the one the connection gave;
/// else the text `Unknown`.
pub open spec fn chosen_ip(stated: Option<Seq<char>>, source: Option<Seq<char>>) -> Seq<char> {
    if stated is Some && stated->0.len() > 0 {
        stated->0
    } else if source is Some {
        source->0
    } else {
        unknown_text()
    }
}

/// The address to look an event up by. An address that the sender states
/// goes before the one that the connection gave.
pub fn client_ip(stated: Option<&str>, source: Option<&str>) -> (ip: String)
    ensures
        ip@ == chosen_ip(slice_text(stated), slice_text(source)),
{
    if let Some(ip) = stated {
        if !ip.is_empty() {
            return String::from_str(ip);
        }
    }
    match source {
        Some(ip) => String::from_str(ip),
        None => String::from_str("Unknown"),
    }
}

/// The request to make for an event's location. It is made for every event,
/// also for one whose address is not known.
pub fn lookup_request(raw: &EventData, source_ip: Option<&str>) -> (url: String)
    ensures
        url@ == lookup_url_of(chosen_ip(raw@.client_ip, slice_text(source_ip))),
{
    let stated = match &raw.client_ip {
        Some(ip) => Some(ip.as_str()),
        None => None,
    };
    let ip = client_ip(stated, source_ip);
    lookup_url(ip.as_str())
}

/// The stored form of an event: its texts as they came, the location and
/// the time attached, and no identity yet.
pub open spec fn normalized(
    raw: EventView,
    location: LocationView,
    timestamp: Seq<char>,
) -> StoredEventView {
    StoredEventView {
        id: None,
        domain: raw.domain,
        url: raw.url,
        referrer: raw.referrer,
        user_agent: raw.user_agent,
        location: location,
        timestamp: timestamp,
    }
}

impl StoredEventData {
    /// The event to store for `raw`, given its location and the time of its
    /// arrival. Nothing in `raw` is checked or changed.
    pub fn assemble(raw: EventData, location: Location, timestamp: String) -> (event:
        StoredEventData)
        ensures
            event@ == normalized(raw@, location@, timestamp@),
    {
        StoredEventData {
            id: None,
            domain: raw.domain,
            url: raw.url,
            referrer: raw.referrer,
            user_agent: raw.device.user_agent,
            location,
            timestamp,
        }
    }
}

/// Shapes an event for the store. `reply` is what the location lookup came
/// back with, `None` where it failed; `secs` and `nanos` give the time of
/// arrival, counted from the start of 1970 (UTC). The lookup's outcome never
/// stops an event: what it does not tell is stored as `Unknown`. The result
/// is `None` only for a time that the calendar cannot hold, which no clock
/// reads.
pub fn normalize(raw: EventData, reply: Option<&str>, secs: i64, nanos: u32) -> (event: Option<
    StoredEventData,
>)
    ensures
        match event {
            Some(event) => eastern_time(secs as int, nanos as int) == Some(event@.timestamp)
                && event@ == normalized(raw@, located(slice_text(reply)), event@.timestamp),
            None => eastern_time(secs as int, nanos as int) is None,
        },
{
    match eastern_rfc3339(secs, nanos) {
        Some(timestamp) => Some(StoredEventData::assemble(raw, locate(reply), timestamp)),
        None => None,
    }
}

} // verus!
