//! The one reading the ledger takes from its environment: the wall clock
//! at the moment mining begins. Nothing can be promised of its value.

use vstd::prelude::*;
use crate::errors::Error;

verus! {

/// Relies on `std::time::SystemTime::now` and `duration_since`:
/// milliseconds since the Unix epoch, or `ClockError` when the system
/// clock reports a time before the epoch.
#[verifier::external_body]
pub(crate) fn now_millis() -> (r: Result<u128, Error>)
    ensures
        match r {
            Ok(_) => true,
            Err(e) => e == Error::ClockError,
        },
{
    match std::time::SystemTime::now().duration_since(std::time::SystemTime::UNIX_EPOCH) {
        Ok(d) => Ok(d.as_millis()),
        Err(_) => Err(Error::ClockError),
    }
}

} // verus!
