//! Markets and what they pay.

use crate::decimal::Dec;
use crate::error::Error;
use crate::time::{TimeDelta, Timestamp};
use vstd::prelude::*;

verus! {

/// Token within a market.
#[derive(Debug, Clone)]
pub struct Token {
    pub token_id: String,
    pub outcome: String,
}

/// The daily reward rate of one asset.
#[derive(Debug, Clone)]
pub struct RewardsRates {
    pub asset_address: String,
    pub rewards_daily_rate: Dec,
}

/// Market rewards configuration.
#[derive(Debug, Clone)]
pub struct Rewards {
    pub rates: Option<Vec<RewardsRates>>,
    pub min_size: Dec,
    pub max_spread: Dec,
}

/// Full market information.
#[derive(Debug, Clone)]
pub struct Market {
    pub condition_id: String,
    pub tokens: [Token; 2],
    pub rewards: Rewards,
    pub min_incentive_size: Option<String>,
    pub max_incentive_spread: Option<String>,
    pub active: bool,
    pub closed: bool,
    pub enable_order_book: bool,
    pub archived: bool,
    pub accepting_orders: bool,
    pub accepting_order_timestamp: Option<Timestamp>,
    pub question_id: String,
    pub question: String,
    pub minimum_order_size: Dec,
    pub minimum_tick_size: Dec,
    pub description: String,
    pub category: Option<String>,
    pub end_date_iso: Option<Timestamp>,
    pub game_start_time: Option<Timestamp>,
    pub market_slug: String,
    pub icon: String,
    pub fpmm: String,
    pub neg_risk: bool,
    pub neg_risk_market_id: String,
    pub neg_risk_request_id: String,
}

impl Market {
    /// Whether the market ends no later than `time_delta` after `now`. A
    /// market without an end date is taken to end within any span.
    pub open spec fn ends_by(&self, now: Timestamp, time_delta: TimeDelta) -> bool {
        match self.end_date_iso {
            Some(end_date) => end_date.total_nanos() <= now.total_nanos()
                + time_delta.total_nanos(),
            None => true,
        }
    }

    /// Whether the market ends within `time_delta` of the instant `now`.
    pub fn ends_within_at(&self, now: &Timestamp, time_delta: &TimeDelta) -> (b: bool)
        ensures
            b == self.ends_by(*now, *time_delta),
    {
        match &self.end_date_iso {
            Some(end_date) => end_date.is_within(now, time_delta),
            None => true,
        }
    }

    /// Returns true if the market ends within the specified time period from
    /// now, and true if there is no end date. Fails with `Config` where the
    /// system clock cannot be read.
    ///
    /// The answer is that of [`Market::ends_by`] for the instant the clock
    /// gave, which is some instant at or after the epoch. So a market without
    /// an end date always gets `true`, without the clock being read; a market
    /// that ends within the span of the epoch itself never gets `false`; and
    /// a market that does not end within the span of any such instant never
    /// gets `true`.
    pub fn ends_within(&self, time_delta: TimeDelta) -> (r: Result<bool, Error>)
        ensures
            match r {
                Ok(b) => exists|now: Timestamp|
                    now.secs >= 0 && b == #[trigger] self.ends_by(now, time_delta),
                Err(e) => e matches Error::Config(_) && self.end_date_iso is Some,
            },
            self.end_date_iso is None ==> r == Ok::<bool, Error>(true),
    {
        if self.end_date_iso.is_none() {
            proof {
                let epoch = Timestamp { secs: 0, nanos: 0 };
                assert(epoch.secs >= 0 && self.ends_by(epoch, time_delta));
            }
            return Ok(true);
        }
        match Timestamp::now() {
            Ok(now) => {
                let b = self.ends_within_at(&now, &time_delta);
                proof {
                    assert(now.secs >= 0 && b == self.ends_by(now, time_delta));
                }
                Ok(b)
            },
            Err(e) => Err(e),
        }
    }
}

/// Negative risk response.
#[derive(Debug)]
pub struct NegRiskResponse {
    pub neg_risk: bool,
}

} // verus!
