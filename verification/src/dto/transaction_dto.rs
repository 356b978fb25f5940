//! Transactions as they leave.

use crate::entities::transaction::Transaction;
use crate::stamp::rfc3339_text;
use crate::ComparableFloat;
use vstd::prelude::*;

verus! {

/// A transaction as it is published: the identifiers of the fill and of its
/// two orders, the shares that changed hands, the price of each, and the
/// instant of the fill as RFC 3339 writes it. The total that goes on the wire
/// is the product of the shares and the price.
#[derive(Debug, PartialEq)]
pub struct TransactionDTO {
    pub id: String,
    pub buying_order_id: String,
    pub selling_order_id: String,
    pub traded_shares: u32,
    pub unit_price: ComparableFloat,
    pub traded_at: String,
}

impl TransactionDTO {
    /// The published form of a transaction, with the given text for the
    /// instant of the fill.
    pub fn assemble(value: &Transaction, traded_at: String) -> (dto: TransactionDTO)
        ensures
            dto.id@ == value@.id,
            dto.buying_order_id@ == value@.buying_order.id,
            dto.selling_order_id@ == value@.selling_order.id,
            dto.traded_shares == value@.traded_shares,
            dto.unit_price.bits() == value@.unit_price,
            dto.traded_at == traded_at,
    {
        TransactionDTO {
            id: value.id().to_owned(),
            buying_order_id: value.buying_order().get_order_id().to_owned(),
            selling_order_id: value.selling_order().get_order_id().to_owned(),
            traded_shares: value.traded_shares(),
            unit_price: value.unit_price(),
            traded_at,
        }
    }

    /// The published form of a transaction: the instant of the fill is
    /// written as RFC 3339 has it.
    pub fn from(value: &Transaction) -> (dto: TransactionDTO)
        ensures
            dto.id@ == value@.id,
            dto.buying_order_id@ == value@.buying_order.id,
            dto.selling_order_id@ == value@.selling_order.id,
            dto.traded_shares == value@.traded_shares,
            dto.unit_price.bits() == value@.unit_price,
            dto.traded_at@ == rfc3339_text(value@.traded_at),
    {
        TransactionDTO::assemble(value, value.traded_at().to_rfc3339())
    }
}

} // verus!
