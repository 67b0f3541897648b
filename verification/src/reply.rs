//! How a request ends: what went wrong, if anything, and the status that
//! the caller is answered with.

use crate::scan::{fault_of, first_fault, ScanError, ScanRecord};
use vstd::prelude::*;

verus! {

/// Why a request failed.
#[derive(Debug, Clone, Copy, PartialEq, Eq, Structural)]
pub enum Failure {
    /// The payload does not have the shape of an event.
    ClientInput,
    /// The store did not take the event.
    StoreWrite,
    /// The store could not be read.
    StoreRead,
    /// The store returned a record that is no event.
    Decode,
}

/// The status that an outcome is answered with: 200 for success, 422 for a
/// payload that is no event, 500 for every failure of the store.
pub open spec fn status_of(outcome: Result<(), Failure>) -> u16 {
    match outcome {
        Ok(_) => 200,
        Err(Failure::ClientInput) => 422,
        Err(_) => 500,
    }
}

/// Whether a failure is the server's, not the sender's.
pub open spec fn server_side(failure: Failure) -> bool {
    !(failure is ClientInput)
}

/// The failure of a request whose scan was given up for `fault`.
pub open spec fn failure_of(fault: ScanError) -> Failure {
    match fault {
        ScanError::Decode => Failure::Decode,
        ScanError::Read => Failure::StoreRead,
    }
}

/// A scan in which any record is no event, wherever it stands, has a fault,
/// and the request that made the scan is answered with status 500.
pub proof fn lemma_fault_is_server_error(records: Seq<ScanRecord>, at: int)
    requires
        0 <= at < records.len(),
        !(records[at] is Event),
    ensures
        first_fault(records) is Some,
        status_of(Err(failure_of(first_fault(records)->0))) == 500,
    decreases records.len(),
{
    if fault_of(records.first()) is None {
        assert(at > 0);
        assert(records.drop_first()[at - 1] == records[at]);
        lemma_fault_is_server_error(records.drop_first(), at - 1);
    }
}

impl Failure {
    /// The failure of a request whose scan was given up.
    pub fn from_scan(fault: ScanError) -> (failure: Failure)
        ensures
            failure == failure_of(fault),
            server_side(failure),
    {
        match fault {
            ScanError::Decode => Failure::Decode,
            ScanError::Read => Failure::StoreRead,
        }
    }
}

/// The status to answer a request with.
pub fn status(outcome: Result<(), Failure>) -> (code: u16)
    ensures
        code == status_of(outcome),
        outcome is Ok <==> code == 200,
        outcome matches Err(failure) && server_side(failure) <==> code == 500,
{
    match outcome {
        Ok(_) => 200,
        Err(Failure::ClientInput) => 422,
        Err(_) => 500,
    }
}

} // verus!
