//! The small closed vocabularies of the exchange.

use vstd::prelude::*;

verus! {

/// Asset type for balance and allowance operations.
#[derive(Debug, Clone, Copy, PartialEq, Eq, Structural)]
pub enum AssetType {
    Collateral,
    Conditional,
}

/// Order side.
#[derive(Debug, Clone, Copy, PartialEq, Eq, Structural)]
pub enum Side {
    Buy,
    Sell,
}

impl Default for Side {
    fn default() -> (side: Side)
        ensures
            side == Side::Buy,
    {
        Side::Buy
    }
}

impl Side {
    /// The number the exchange contract uses for a side: 0 for a buy, 1 for
    /// a sell.
    pub open spec fn code(self) -> u8 {
        match self {
            Side::Buy => 0,
            Side::Sell => 1,
        }
    }

    /// The word the submission endpoint uses for a side.
    pub open spec fn word(self) -> Seq<char> {
        match self {
            Side::Buy => "BUY"@,
            Side::Sell => "SELL"@,
        }
    }

    /// The side as a number.
    pub fn to_u8(self) -> (code: u8)
        ensures
            code == self.code(),
    {
        match self {
            Side::Buy => 0,
            Side::Sell => 1,
        }
    }

    /// The side as a word.
    pub fn as_str(&self) -> (word: &'static str)
        ensures
            word@ == self.word(),
    {
        match self {
            Side::Buy => "BUY",
            Side::Sell => "SELL",
        }
    }

    /// The side that a number stands for, if any.
    pub fn from_u8(value: u8) -> (side: Option<Side>)
        ensures
            side == (if value == 0 {
                Some(Side::Buy)
            } else if value == 1 {
                Some(Side::Sell)
            } else {
                None
            }),
    {
        match value {
            0 => Some(Side::Buy),
            1 => Some(Side::Sell),
            _ => None,
        }
    }
}

/// Order type.
#[derive(Debug, Clone, Copy, PartialEq, Eq, Structural)]
pub enum OrderType {
    /// Good till canceled.
    Gtc,
    /// Fill or kill.
    Fok,
    /// Good till date.
    Gtd,
}

/// How an order's signature is to be checked on chain.
#[derive(Debug, Clone, Copy, PartialEq, Eq, Structural)]
pub enum SignatureType {
    /// Signed by an externally owned account.
    Eoa,
    /// Signed for a proxy wallet.
    PolyProxy,
    /// Signed for a Gnosis Safe.
    PolyGnosisSafe,
}

impl SignatureType {
    /// The fixed number of each signature type.
    pub open spec fn code(self) -> u8 {
        match self {
            SignatureType::Eoa => 0,
            SignatureType::PolyProxy => 1,
            SignatureType::PolyGnosisSafe => 2,
        }
    }

    /// The signature type as a number.
    pub fn to_u8(self) -> (code: u8)
        ensures
            code == self.code(),
    {
        match self {
            SignatureType::Eoa => 0,
            SignatureType::PolyProxy => 1,
            SignatureType::PolyGnosisSafe => 2,
        }
    }

    /// The signature type that a number stands for, if any.
    pub fn from_u8(value: u8) -> (kind: Option<SignatureType>)
        ensures
            match kind {
                Some(k) => k.code() == value,
                None => value > 2,
            },
    {
        match value {
            0 => Some(SignatureType::Eoa),
            1 => Some(SignatureType::PolyProxy),
            2 => Some(SignatureType::PolyGnosisSafe),
            _ => None,
        }
    }
}

/// Market status.
#[derive(Debug, Clone, Copy, PartialEq, Eq, Structural)]
pub enum MarketStatus {
    Active,
    Closed,
    Archived,
}

/// Order status.
#[derive(Debug, Clone, Copy, PartialEq, Eq, Structural)]
pub enum OrderStatus {
    Live,
    Matched,
    Canceled,
    Expired,
}

/// Notification type.
#[derive(Debug, Clone, PartialEq, Eq)]
pub enum NotificationType {
    OrderMatched,
    OrderCanceled,
    OrderExpired,
    BalanceUpdate,
    Other(String),
}

/// Activity type.
#[derive(Debug, Clone, Copy, PartialEq, Eq, Structural)]
pub enum ActivityType {
    Trade,
}

impl Default for ActivityType {
    fn default() -> (kind: ActivityType)
        ensures
            kind == ActivityType::Trade,
    {
        ActivityType::Trade
    }
}

/// No two sides share a number, and no two signature types do.
pub proof fn lemma_codes_are_distinct(a: Side, b: Side, c: SignatureType, d: SignatureType)
    ensures
        a.code() == b.code() ==> a == b,
        c.code() == d.code() ==> c == d,
{
}

} // verus!
