//! The ledger's source of timestamps.

use vstd::prelude::*;

verus! {

/// Relies on `time::OffsetDateTime::now_utc` and `unix_timestamp`: the current
/// wall-clock time as whole seconds since the Unix epoch. Nothing is promised
/// of the value: it depends on the machine's clock at the moment of the call.
#[verifier::external_body]
pub(crate) fn now_unix_timestamp() -> i64 {
    time::OffsetDateTime::now_utc().unix_timestamp()
}

} // verus!
