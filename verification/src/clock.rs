use vstd::prelude::*;
use crate::message::Timestamp;

verus! {

#[verifier::external_type_specification]
#[verifier::external_body]
pub struct ExHLC(uhlc::HLC);

/// Relies on uhlc::HLC::default: a fresh hybrid logical clock with a
/// random id and the system clock behind it.
#[verifier::external_body]
fn hlc_new() -> (r: uhlc::HLC) {
    uhlc::HLC::default()
}

/// Relies on uhlc::HLC::new_timestamp: the clock's next timestamp,
/// its NTP64 time taken as a plain integer. Nothing is assumed of the
/// value — it mixes wall-clock time in — so the caller enforces
/// monotonicity itself.
#[verifier::external_body]
fn hlc_time(h: &uhlc::HLC) -> (r: u64) {
    h.new_timestamp().get_time().as_u64()
}

/// The node's timestamp oracle: a hybrid logical clock, shadowed by
/// the last time handed out so that strict monotonicity holds in
/// verified code whatever the oracle returns.
pub struct Clock {
    pub hlc: uhlc::HLC,
    pub last: u64,
    pub clock_id: u64,
}

impl Clock {
    pub fn new(clock_id: u64) -> (r: Clock)
        ensures
            r.last == 0,
            r.clock_id == clock_id,
    {
        Clock { hlc: hlc_new(), last: 0, clock_id }
    }

    /// Mint the next timestamp: the oracle's reading, pushed up where
    /// needed so that it lies strictly above every one minted before.
    pub fn new_timestamp(&mut self) -> (r: Timestamp)
        requires
            old(self).last < u64::MAX,
        ensures
            r.time == final(self).last,
            final(self).last > old(self).last,
            r.clock_id == old(self).clock_id,
            final(self).clock_id == old(self).clock_id,
    {
        let now = hlc_time(&self.hlc);
        if now > self.last {
            self.last = now;
        } else {
            self.last = self.last + 1;
        }
        Timestamp { time: self.last, clock_id: self.clock_id }
    }
}

} // verus!
