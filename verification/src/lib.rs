//! Web-analytics event collection: shaping inbound pageview events, attaching
//! a best-effort location, and folding a domain's stored events into visitor,
//! pageview, referrer and location summaries.

pub mod event;
pub mod geo;
pub mod ingest;
pub mod places;
pub mod present;
pub mod reply;
pub mod scan;
pub mod stats;
pub mod tally;
