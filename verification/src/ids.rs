use vstd::prelude::*;

verus! {

/// Relies on uuid's Uuid::new_v4: a freshly drawn random game id, carried
/// as its 128-bit value. Nothing is promised of a random draw.
#[verifier::external_body]
pub fn new_game_id() -> (r: u128) {
    uuid::Uuid::new_v4().as_u128()
}

/// Relies on chrono's Utc::now: the wall-clock time as seconds since the
/// epoch. Nothing is promised of the clock's reading.
#[verifier::external_body]
fn now_timestamp() -> (r: i64) {
    chrono::Utc::now().timestamp()
}

/// The wall-clock time as seconds, never negative.
pub fn now_seconds() -> (r: u64) {
    let t = now_timestamp();
    if t < 0 {
        0
    } else {
        t as u64
    }
}

} // verus!
