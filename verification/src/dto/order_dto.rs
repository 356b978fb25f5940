//! Orders as they arrive.

use crate::ComparableFloat;
use vstd::prelude::*;

verus! {

/// An arriving order, by its side.
#[derive(Debug, PartialEq)]
pub enum IncomingOrderDTO<'a> {
    Buy(OrderDTO<'a>),
    Sell(OrderDTO<'a>),
}

/// The fields of an arriving order.
#[derive(Debug, PartialEq)]
pub struct OrderDTO<'a> {
    pub id: &'a str,
    pub investor_id: &'a str,
    pub investor_name: &'a str,
    pub asset_id: &'a str,
    pub price: ComparableFloat,
    pub quantity: u32,
}

} // verus!
