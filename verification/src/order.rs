//! The order snapshot that a trade session keeps.

use vstd::prelude::*;

verus! {

/// Which side of the trade this client is on.
#[derive(Debug, Clone, Copy, PartialEq, Eq, Structural)]
pub enum TradeRole {
    Buyer,
    Seller,
}

/// Whether the order buys or sells bitcoin.
#[derive(Debug, Clone, Copy, PartialEq, Eq, Structural)]
pub enum OrderKind {
    Buy,
    Sell,
}

/// Life-cycle status of an order as the daemon reports it.
#[derive(Debug, Clone, Copy, PartialEq, Eq, Structural)]
pub enum OrderStatus {
    Active,
    Canceled,
    CanceledByAdmin,
    SettledByAdmin,
    CompletedByAdmin,
    Dispute,
    Expired,
    FiatSent,
    SettledHoldInvoice,
    Pending,
    Success,
    WaitingBuyerInvoice,
    WaitingPayment,
    CooperativelyCanceled,
    InProgress,
}

/// An order as listed by the daemon.
///
/// The amounts that the daemon publishes as decimal numbers (`fiat_amount`,
/// its bounds, `premium` and `rating`) are held as the IEEE-754 bit patterns
/// of their `f64` values (`f64::to_bits`); nothing in this crate computes on
/// them, they are only carried along with the snapshot.
#[derive(Debug, Clone)]
pub struct OrderInfo {
    pub id: String,
    pub kind: OrderKind,
    pub status: OrderStatus,
    pub fiat_code: String,
    pub fiat_amount_bits: Option<u64>,
    pub fiat_amount_min_bits: Option<u64>,
    pub fiat_amount_max_bits: Option<u64>,
    pub payment_method: String,
    pub premium_bits: u64,
    pub is_mine: bool,
    pub created_at: i64,
    pub expires_at: Option<i64>,
    pub amount_sats: Option<i64>,
    pub creator_pubkey: String,
    pub rating_bits: u64,
    pub total_reviews: u32,
    pub days_active: u32,
}

impl OrderInfo {
    /// A field-by-field copy, equal to the original.
    pub fn duplicate(&self) -> (r: Self)
        ensures
            r == *self,
    {
        OrderInfo {
            id: self.id.clone(),
            kind: self.kind,
            status: self.status,
            fiat_code: self.fiat_code.clone(),
            fiat_amount_bits: self.fiat_amount_bits,
            fiat_amount_min_bits: self.fiat_amount_min_bits,
            fiat_amount_max_bits: self.fiat_amount_max_bits,
            payment_method: self.payment_method.clone(),
            premium_bits: self.premium_bits,
            is_mine: self.is_mine,
            created_at: self.created_at,
            expires_at: self.expires_at,
            amount_sats: self.amount_sats,
            creator_pubkey: self.creator_pubkey.clone(),
            rating_bits: self.rating_bits,
            total_reviews: self.total_reviews,
            days_active: self.days_active,
        }
    }
}

} // verus!
