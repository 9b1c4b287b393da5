//! Rendering of epoch timestamps as RFC 3339 strings.
use vstd::prelude::*;

verus! {

/// The largest epoch second this crate formats: 9999-12-31T23:59:59Z.
pub const MAX_FORMATTABLE_EPOCH: i64 = 253402300799;

/// The RFC 3339 rendering of an epoch second in UTC. Stands for what
/// `chrono` computes for a timestamp, which is a function of the timestamp
/// alone.
pub uninterp spec fn rfc3339_of(ts: int) -> Seq<char>;

/// Relies on `chrono::DateTime::from_timestamp` and
/// `DateTime::to_rfc3339`: for an in-range number of seconds the conversion
/// succeeds, and the rendering depends on the timestamp alone.
#[verifier::external_body]
pub(crate) fn epoch_to_rfc3339(ts: i64) -> (r: String)
    requires
        0 <= ts <= MAX_FORMATTABLE_EPOCH,
    ensures
        r@ == rfc3339_of(ts as int),
{
    match chrono::DateTime::from_timestamp(ts, 0) {
        Some(dt) => dt.to_rfc3339(),
        None => String::new(),
    }
}

/// `ts` forced into the formattable range.
pub open spec fn clamp_epoch(ts: i64) -> i64 {
    if ts < 0 {
        0
    } else if ts > MAX_FORMATTABLE_EPOCH {
        MAX_FORMATTABLE_EPOCH
    } else {
        ts
    }
}

/// Render any epoch second, clamping out-of-range values into the
/// formattable range first.
pub fn epoch_to_rfc3339_clamped(ts: i64) -> (r: String)
    ensures
        r@ == rfc3339_of(clamp_epoch(ts) as int),
{
    if ts < 0 {
        epoch_to_rfc3339(0)
    } else if ts > MAX_FORMATTABLE_EPOCH {
        epoch_to_rfc3339(MAX_FORMATTABLE_EPOCH)
    } else {
        epoch_to_rfc3339(ts)
    }
}

} // verus!
