//! The records that flow through the collector: the payload a page sends,
//! the location attached to it, and the event as it is stored.

use vstd::prelude::*;

verus! {

/// What a location's three fields hold.
pub struct LocationView {
    pub country: Seq<char>,
    pub region: Seq<char>,
    pub city: Seq<char>,
}

/// Where a visitor is, as far as the lookup could tell. A field that could
/// not be resolved holds the text `Unknown`.
#[derive(Debug)]
pub struct Location {
    pub country: String,
    pub region: String,
    pub city: String,
}

impl View for Location {
    type V = LocationView;

    open spec fn view(&self) -> LocationView {
        LocationView { country: self.country@, region: self.region@, city: self.city@ }
    }
}

/// The browser details sent along with an event.
#[derive(Debug)]
pub struct Device {
    pub user_agent: String,
}

/// What an inbound event holds.
pub struct EventView {
    pub domain: Seq<char>,
    pub url: Seq<char>,
    pub referrer: Seq<char>,
    pub user_agent: Seq<char>,
    pub client_ip: Option<Seq<char>>,
}

/// An event as a tracked page submits it. Nothing is asked of its texts:
/// empty strings are stored as they come.
#[derive(Debug)]
pub struct EventData {
    pub domain: String,
    pub url: String,
    pub referrer: String,
    pub device: Device,
    /// The address the sender states for itself, where it states one.
    pub client_ip: Option<String>,
}

/// The text behind an optional string.
pub open spec fn text_of(value: Option<String>) -> Option<Seq<char>> {
    match value {
        Some(text) => Some(text@),
        None => None,
    }
}

/// The text behind an optional string slice.
pub open spec fn slice_text(value: Option<&str>) -> Option<Seq<char>> {
    match value {
        Some(text) => Some(text@),
        None => None,
    }
}

impl View for EventData {
    type V = EventView;

    open spec fn view(&self) -> EventView {
        EventView {
            domain: self.domain@,
            url: self.url@,
            referrer: self.referrer@,
            user_agent: self.device.user_agent@,
            client_ip: text_of(self.client_ip),
        }
    }
}

/// What a stored event holds.
pub struct StoredEventView {
    pub id: Option<Seq<char>>,
    pub domain: Seq<char>,
    pub url: Seq<char>,
    pub referrer: Seq<char>,
    pub user_agent: Seq<char>,
    pub location: LocationView,
    pub timestamp: Seq<char>,
}

/// An event with its location and the time of its arrival, as the store keeps
/// it. The identity is the store's to assign: an event that was not stored yet
/// has none.
#[derive(Debug)]
pub struct StoredEventData {
    pub id: Option<String>,
    pub domain: String,
    pub url: String,
    pub referrer: String,
    pub user_agent: String,
    pub location: Location,
    pub timestamp: String,
}

impl View for StoredEventData {
    type V = StoredEventView;

    open spec fn view(&self) -> StoredEventView {
        StoredEventView {
            id: text_of(self.id),
            domain: self.domain@,
            url: self.url@,
            referrer: self.referrer@,
            user_agent: self.user_agent@,
            location: self.location@,
            timestamp: self.timestamp@,
        }
    }
}

} // verus!
