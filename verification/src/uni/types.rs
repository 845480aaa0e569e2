//! Plain records of the binding layer.

use vstd::prelude::*;

verus! {

/// The direction of a trade.
#[derive(Debug, Clone, Copy, PartialEq, Eq, Structural)]
pub enum Action {
    /// A bet that the price rises.
    Call,
    /// A bet that the price falls.
    Put,
}

/// The kind of an asset.
#[derive(Debug, Clone, Copy, PartialEq, Eq, Structural)]
pub enum AssetType {
    Stock,
    Currency,
    Commodity,
    Cryptocurrency,
    Index,
}

/// A candle length that an asset allows, in seconds.
#[derive(Debug, Clone, Copy, PartialEq, Eq, Structural)]
pub struct CandleLength {
    pub time: u32,
}

/// A tradable asset.
#[derive(Debug, Clone)]
pub struct Asset {
    pub id: i32,
    pub name: String,
    pub symbol: String,
    pub is_otc: bool,
    pub is_active: bool,
    pub payout: i32,
    pub allowed_candles: Vec<CandleLength>,
    pub asset_type: AssetType,
}

} // verus!
