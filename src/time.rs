use vstd::prelude::*;

verus! {

/// A point in UTC time: whole seconds since the Unix epoch and the nanoseconds
/// past that second.
#[derive(Clone, Copy, PartialEq, Eq, Debug, Structural)]
pub struct Timestamp {
    pub secs: i64,
    pub nanos: u32,
}

impl Timestamp {
    /// The instant in nanoseconds since the epoch.
    pub open spec fn total_nanos(self) -> int {
        self.secs * 1_000_000_000 + self.nanos
    }
}

/// Relies on chrono's `From<SystemTime> for DateTime<Utc>` (applied to
/// `SystemTime::now()`): the current UTC time, also where the system clock reads
/// earlier than the Unix epoch.
#[verifier::external_body]
pub(crate) fn now_utc() -> (r: Timestamp)
{
    let t = chrono::DateTime::<chrono::Utc>::from(std::time::SystemTime::now());
    Timestamp { secs: t.timestamp(), nanos: t.timestamp_subsec_nanos() }
}

} // verus!
