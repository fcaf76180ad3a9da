//! Automatic self-update: when it is due, and how the time of the last one is
//! recorded.
use vstd::prelude::*;
use crate::config::TrunkConfig;
use crate::error::GError;
use crate::numbers::{decimal, decimal_u64, lemma_decimal_value, lemma_parse_decimal, parse_u64,
    parsed_integer, is_digit};
use crate::text::{lemma_leading_ws_is, lemma_trailing_ws_is, trim, trimmed, is_white_space};

verus! {

/// The current time.
pub trait Clock {
    /// Seconds since the Unix epoch.
    fn now_secs(&self) -> u64;
}

/// Where the time of the last update is kept.
pub trait LastUpdateStore {
    fn read(&self) -> Option<u64>;

    fn write(&self, timestamp: u64) -> Result<(), GError>;
}

/// Seconds from `prev` to `now` as `u64` subtraction computes them in a
/// release build, where a clock that went backwards wraps around.
pub open spec fn elapsed(now: u64, prev: u64) -> int {
    if prev <= now {
        now - prev
    } else {
        now - prev + 0x1_0000_0000_0000_0000
    }
}

/// Whether an update is due: updates are on (`period != 0`) and either none
/// was recorded or at least `period` seconds passed since the last one.
pub open spec fn update_due(period: u64, now: u64, last: Option<u64>) -> bool {
    period != 0 && match last {
        None => true,
        Some(prev) => elapsed(now, prev) >= period,
    }
}

pub fn should_update(period: u64, now: u64, last: Option<u64>) -> (r: bool)
    ensures
        r == update_due(period, now, last),
{
    if period == 0 {
        return false;
    }
    match last {
        None => true,
        Some(prev) => now.wrapping_sub(prev) >= period,
    }
}

/// Updates `g`.
pub trait Updater {
    /// The clock that tells when an update is due.
    type C: Clock;

    /// The store of the last update's time.
    type S: LastUpdateStore;

    /// Installs the latest version.
    fn update(&self) -> Result<(), GError>;

    /// Updates when an update is due, recording the time first: loads the
    /// settings; with updates on, reads the clock and the last update's time,
    /// and when an update is due records the time, then updates. Stops at
    /// the first failure, which it returns.
    fn auto_update<TC: TrunkConfig>(&self, config: &TC) -> (r: Result<(), GError>)
        ensures
            exists|cfg: crate::config::Config|
                #[trigger] call_ensures(TC::load, (config,), cfg) && if cfg.auto_update_period == 0 {
                    r is Ok
                } else {
                    exists|clock: &Self::C, now: u64, store: &Self::S, last: Option<u64>|
                        #![trigger call_ensures(Self::clock, (self,), clock), call_ensures(<Self::C as Clock>::now_secs, (clock,), now), call_ensures(Self::last_update_store, (self,), store), call_ensures(<Self::S as LastUpdateStore>::read, (store,), last)]
                        call_ensures(Self::clock, (self,), clock) && call_ensures(
                            <Self::C as Clock>::now_secs,
                            (clock,),
                            now,
                        ) && call_ensures(Self::last_update_store, (self,), store) && call_ensures(
                            <Self::S as LastUpdateStore>::read,
                            (store,),
                            last,
                        ) && if update_due(cfg.auto_update_period, now, last) {
                            exists|written: Result<(), GError>|
                                #[trigger] call_ensures(
                                    <Self::S as LastUpdateStore>::write,
                                    (store, now),
                                    written,
                                ) && match written {
                                    Err(e) => r == Err::<(), GError>(e),
                                    Ok(_) => exists|updated: Result<(), GError>|
                                        #[trigger] call_ensures(Self::update, (self,), updated)
                                            && match updated {
                                            Err(e) => r == Err::<(), GError>(e),
                                            Ok(_) => r is Ok,
                                        },
                                }
                        } else {
                            r is Ok
                        }
                },
    {
        let cfg = config.load();
        assert(call_ensures(TC::load, (config,), cfg));
        if cfg.auto_update_period == 0 {
            return Ok(());
        }
        let clock = self.clock();
        let now = clock.now_secs();
        let store = self.last_update_store();
        let last = store.read();
        assert(call_ensures(Self::clock, (self,), clock));
        assert(call_ensures(<Self::C as Clock>::now_secs, (clock,), now));
        assert(call_ensures(Self::last_update_store, (self,), store));
        assert(call_ensures(<Self::S as LastUpdateStore>::read, (store,), last));
        if should_update(cfg.auto_update_period, now, last) {
            let written = store.write(now);
            assert(call_ensures(<Self::S as LastUpdateStore>::write, (store, now), written));
            match written {
                Err(e) => {
                    return Err(e);
                },
                Ok(_) => {},
            }
            let updated = self.update();
            assert(call_ensures(Self::update, (self,), updated));
            match updated {
                Err(e) => {
                    return Err(e);
                },
                Ok(_) => {},
            }
        }
        Ok(())
    }

    fn clock(&self) -> &Self::C;

    fn last_update_store(&self) -> &Self::S;
}

/// The time a last-update record holds: its trimmed text as a `u64`.
pub open spec fn recorded_time(content: Seq<char>) -> Option<int> {
    parsed_integer(trim(content), false, 0, u64::MAX as int)
}

/// Reads a last-update record (`content.trim().parse().ok()`).
pub fn read_last_update(content: &str) -> (r: Option<u64>)
    ensures
        match r {
            Some(t) => recorded_time(content@) == Some(t as int),
            None => recorded_time(content@) is None,
        },
{
    let t = trimmed(content);
    parse_u64(t.as_str())
}

/// The record written for an update at `timestamp`.
pub fn last_update_record(timestamp: u64) -> (r: String)
    ensures
        r@ == decimal(timestamp as nat),
{
    decimal_u64(timestamp)
}

/// Law: what the last-update store reads back is the time it wrote:
/// `read_last_update` of the record `last_update_record(timestamp)` is
/// `Some(timestamp)`.
pub proof fn lemma_last_update_round_trip(timestamp: u64)
    ensures
        recorded_time(decimal(timestamp as nat)) == Some(timestamp as int),
{
    let s = decimal(timestamp as nat);
    lemma_decimal_value(timestamp as nat);
    assert(!is_white_space(s[0])) by {
        assert(is_digit(s[0]));
    }
    lemma_leading_ws_is(s, 0);
    assert(s.skip(0) =~= s);
    assert(!is_white_space(s[s.len() - 1])) by {
        assert(is_digit(s[s.len() - 1]));
    }
    lemma_trailing_ws_is(s, s.len() as int);
    assert(s.take(s.len() as int) =~= s);
    assert(trim(s) == s);
    lemma_parse_decimal(timestamp);
}

} // verus!
