use vstd::prelude::*;

verus! {

/// Report line for one service.
#[derive(Debug, Clone)]
pub struct ServiceStatus {
    pub name: String,
    pub status: String,
    pub pid: Option<u32>,
    pub uptime: Option<u64>,
    pub last_check: String,
}

/// Point-in-time report over all services.
#[derive(Debug, Clone)]
pub struct SystemStatus {
    pub services: Vec<ServiceStatus>,
    pub overall_health: String,
    pub timestamp: String,
}

/// RFC 3339 rendering, in UTC, of a whole number of seconds since the Unix epoch.
pub uninterp spec fn rfc3339_of(secs: nat) -> Seq<char>;

/// Last second of the year 9999, the latest instant rendered.
pub const MAX_TIMESTAMP_SECS: u64 = 253402300799;

/// Relies on chrono's `DateTime::<Utc>::from_timestamp`, which accepts every
/// second up to far beyond `MAX_TIMESTAMP_SECS`, and on `DateTime::to_rfc3339`,
/// whose text depends on the instant alone.
#[verifier::external_body]
pub(crate) fn rfc3339_utc(secs: u64) -> (r: String)
    requires
        secs <= MAX_TIMESTAMP_SECS,
    ensures
        r@ == rfc3339_of(secs as nat),
{
    match chrono::DateTime::<chrono::Utc>::from_timestamp(secs as i64, 0) {
        Some(t) => t.to_rfc3339(),
        None => String::new(),
    }
}

} // verus!
