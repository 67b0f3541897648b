//! Resolving an address to a location through a lookup service that answers
//! in JSON. The request itself is the caller's to make; what to ask for and
//! what to make of the answer is decided here.

use crate::event::{slice_text, text_of, Location, LocationView};
use vstd::prelude::*;
use vstd::string::StringExecFns;

verus! {

/// `serde_json::Value`: a parsed JSON document. Nothing inside it is
/// visible here; it is read through `string_member` alone.
#[verifier::external_type_specification]
#[verifier::external_body]
pub struct ExJsonValue(serde_json::Value);

/// `serde_json::Error`: why a text is no JSON document. It is carried, never
/// read.
#[verifier::external_type_specification]
#[verifier::external_body]
pub struct ExJsonError(serde_json::Error);

/// The string-valued members at the top level of the JSON document that
/// `text` spells, by name; `None` where `text` is not a JSON document. A
/// document that is no object has no members.
pub uninterp spec fn json_members(text: Seq<char>) -> Option<Map<Seq<char>, Seq<char>>>;

/// The string-valued members that a parsed document holds at its top level,
/// by name.
pub uninterp spec fn string_members(doc: serde_json::Value) -> Map<Seq<char>, Seq<char>>;

/// `serde_json::from_str` into a `serde_json::Value`. The contract claims
/// that it fails exactly on the texts that `json_members` has no document
/// for, and that the document it returns holds the members that
/// `json_members` names for the text.
#[verifier::external_body]
fn parse_json(text: &str) -> (parsed: Result<serde_json::Value, serde_json::Error>)
    ensures
        match parsed {
            Ok(doc) => json_members(text@) == Some(string_members(doc)),
            Err(_) => json_members(text@) is None,
        },
{
    serde_json::from_str::<serde_json::Value>(text)
}

/// Indexing a `serde_json::Value` by a name, then `Value::as_str`. The
/// contract claims that the result is the text of the member of that name
/// where the document is an object that has one and its value is a string,
/// and `None` in every other case.
#[verifier::external_body]
fn string_member(doc: &serde_json::Value, name: &str) -> (member: Option<String>)
    ensures
        match member {
            Some(text) => string_members(*doc).contains_key(name@) && string_members(*doc)[name@]
                == text@,
            None => !string_members(*doc).contains_key(name@),
        },
{
    match doc[name].as_str() {
        Some(text) => Some(text.to_owned()),
        None => None,
    }
}

/// The text that stands for a field that could not be resolved.
pub open spec fn unknown_text() -> Seq<char> {
    "Unknown"@
}

/// The location of which nothing is known.
pub open spec fn unknown_location() -> LocationView {
    LocationView { country: unknown_text(), region: unknown_text(), city: unknown_text() }
}

/// A field as it was resolved, or `Unknown` in its place.
pub open spec fn resolved(field: Option<Seq<char>>) -> Seq<char> {
    match field {
        Some(text) => text,
        None => unknown_text(),
    }
}

/// The member of the given name, where there is one.
pub open spec fn member(members: Map<Seq<char>, Seq<char>>, name: Seq<char>) -> Option<
    Seq<char>,
> {
    if members.contains_key(name) {
        Some(members[name])
    } else {
        None
    }
}

/// The location that a lookup answer with these members states.
pub open spec fn location_in(members: Map<Seq<char>, Seq<char>>) -> LocationView {
    LocationView {
        country: resolved(member(members, "country"@)),
        region: resolved(member(members, "region"@)),
        city: resolved(member(members, "city"@)),
    }
}

/// What a lookup's outcome states: the string-valued members of the answer,
/// and nothing where no answer came or the answer is not JSON.
pub open spec fn answered(reply: Option<Seq<char>>) -> Map<Seq<char>, Seq<char>> {
    match reply {
        Some(text) => match json_members(text) {
            Some(members) => members,
            None => Map::empty(),
        },
        None => Map::empty(),
    }
}

/// The location that a lookup yields: what the answer states as `country`,
/// `region` and `city`, with `Unknown` for each of them that it does not
/// state as a string. So all three are `Unknown` where no answer came or the
/// answer is not JSON.
pub open spec fn located(reply: Option<Seq<char>>) -> LocationView {
    location_in(answered(reply))
}

/// The address that a lookup for `ip` is requested from.
pub open spec fn lookup_url_of(ip: Seq<char>) -> Seq<char> {
    "http://ip-api.com/json/"@ + ip
}

/// The address to request a lookup for `ip` from. One request is made for
/// each event; nothing is kept between lookups.
pub fn lookup_url(ip: &str) -> (url: String)
    ensures
        url@ == lookup_url_of(ip@),
{
    String::from_str("http://ip-api.com/json/").concat(ip)
}

fn or_unknown(field: Option<String>) -> (text: String)
    ensures
        text@ == resolved(text_of(field)),
{
    match field {
        Some(text) => text,
        None => String::from_str("Unknown"),
    }
}

impl Location {
    /// The location of which nothing is known.
    pub fn unknown() -> (location: Location)
        ensures
            location@ == unknown_location(),
    {
        Location::from_fields(None, None, None)
    }

    /// The location with the given fields, with `Unknown` in place of each
    /// that is missing. What was resolved is kept when other fields are not.
    pub fn from_fields(
        country: Option<String>,
        region: Option<String>,
        city: Option<String>,
    ) -> (location: Location)
        ensures
            location@ == (LocationView {
                country: resolved(text_of(country)),
                region: resolved(text_of(region)),
                city: resolved(text_of(city)),
            }),
    {
        Location {
            country: or_unknown(country),
            region: or_unknown(region),
            city: or_unknown(city),
        }
    }
}

/// Resolves a lookup's outcome to a location: `reply` is the body that the
/// service answered with, or `None` where the request failed or timed out.
/// No outcome is an error: what cannot be read is `Unknown`.
pub fn locate(reply: Option<&str>) -> (location: Location)
    ensures
        location@ == located(slice_text(reply)),
{
    match reply {
        Some(text) => match parse_json(text) {
            Ok(doc) => {
                let country = string_member(&doc, "country");
                let region = string_member(&doc, "region");
                let city = string_member(&doc, "city");
                Location::from_fields(country, region, city)
            },
            Err(_) => Location::unknown(),
        },
        None => Location::unknown(),
    }
}

} // verus!
