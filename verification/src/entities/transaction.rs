//! The record of a fill.

use crate::entities::order::{Buy, OrderTransition, OrderView, Sell};
use crate::stamp::{fresh_uuid_text, is_uuid_v4_text, Timestamp};
use crate::ComparableFloat;
use vstd::prelude::*;

verus! {

/// What a transaction is, as mathematics.
pub struct TransactionView {
    pub id: Seq<char>,
    /// The buying order as the fill left it.
    pub buying_order: OrderView,
    /// Whether the buying order was left open.
    pub buying_open: bool,
    /// The selling order as the fill left it.
    pub selling_order: OrderView,
    /// Whether the selling order was left open.
    pub selling_open: bool,
    pub traded_shares: nat,
    /// The bit pattern of the price paid for each share.
    pub unit_price: u32,
    /// The instant of the fill, in nanoseconds since the epoch.
    pub traded_at: i64,
}

/// The record of one fill: the two orders as the fill left them, the shares
/// that changed hands and the price of each. The total is their product.
#[derive(Debug)]
pub struct Transaction {
    id: String,
    buying_order: OrderTransition<Buy>,
    selling_order: OrderTransition<Sell>,
    traded_shares: u32,
    unit_price: ComparableFloat,
    traded_at: Timestamp,
}

impl View for Transaction {
    type V = TransactionView;

    closed spec fn view(&self) -> TransactionView {
        TransactionView {
            id: self.id@,
            buying_order: self.buying_order.order(),
            buying_open: self.buying_order is Open,
            selling_order: self.selling_order.order(),
            selling_open: self.selling_order is Open,
            traded_shares: self.traded_shares as nat,
            unit_price: self.unit_price.bits(),
            traded_at: self.traded_at@,
        }
    }
}

impl Transaction {
    /// The record with the given identifier and instant.
    pub fn assemble(
        id: String,
        buying_order: OrderTransition<Buy>,
        selling_order: OrderTransition<Sell>,
        shares: u32,
        price: ComparableFloat,
        traded_at: Timestamp,
    ) -> (transaction: Transaction)
        ensures
            transaction@ == (TransactionView {
                id: id@,
                buying_order: buying_order.order(),
                buying_open: buying_order is Open,
                selling_order: selling_order.order(),
                selling_open: selling_order is Open,
                traded_shares: shares as nat,
                unit_price: price.bits(),
                traded_at: traded_at@,
            }),
    {
        Transaction {
            id,
            buying_order,
            selling_order,
            traded_shares: shares,
            unit_price: price,
            traded_at,
        }
    }

    /// The record of a fill that happens now, under a fresh identifier.
    pub fn new(
        buying_order: OrderTransition<Buy>,
        selling_order: OrderTransition<Sell>,
        shares: u32,
        price: ComparableFloat,
    ) -> (transaction: Transaction)
        ensures
            is_uuid_v4_text(transaction@.id),
            transaction@ == (TransactionView {
                id: transaction@.id,
                buying_order: buying_order.order(),
                buying_open: buying_order is Open,
                selling_order: selling_order.order(),
                selling_open: selling_order is Open,
                traded_shares: shares as nat,
                unit_price: price.bits(),
                traded_at: transaction@.traded_at,
            }),
    {
        Transaction::assemble(
            fresh_uuid_text(),
            buying_order,
            selling_order,
            shares,
            price,
            Timestamp::now(),
        )
    }

    /// The identifier.
    pub fn id(&self) -> (id: &str)
        ensures
            id@ == self@.id,
    {
        self.id.as_str()
    }

    /// The buying order as the fill left it.
    pub fn buying_order(&self) -> (order: &OrderTransition<Buy>)
        ensures
            order.order() == self@.buying_order,
            order is Open <==> self@.buying_open,
    {
        &self.buying_order
    }

    /// The selling order as the fill left it.
    pub fn selling_order(&self) -> (order: &OrderTransition<Sell>)
        ensures
            order.order() == self@.selling_order,
            order is Open <==> self@.selling_open,
    {
        &self.selling_order
    }

    /// The shares that changed hands.
    pub fn traded_shares(&self) -> (shares: u32)
        ensures
            shares == self@.traded_shares,
    {
        self.traded_shares
    }

    /// The price paid for each share.
    pub fn unit_price(&self) -> (price: ComparableFloat)
        ensures
            price.bits() == self@.unit_price,
    {
        self.unit_price
    }

    /// The instant of the fill.
    pub fn traded_at(&self) -> (at: Timestamp)
        ensures
            at@ == self@.traded_at,
    {
        self.traded_at
    }
}

} // verus!
