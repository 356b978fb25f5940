//! Orders and their life cycle.
//!
//! An order is open while shares of it are pending and closed once none are.
//! The side of an order and the state it was last seen in are carried in its
//! type; whether an order may still rest in a book is decided by its pending
//! shares, whatever its type says.

use crate::dto::order_dto::{IncomingOrderDTO, OrderDTO};
use crate::entities::asset::Asset;
use crate::entities::investor::{
    can_debit, credited, debited, held, holdings_of, Investor, InvestorView,
};
use crate::{order_of, ComparableFloat};
use std::cmp::Ordering;
use std::marker::PhantomData;
use vstd::prelude::*;

verus! {

/// The two sides of the market.
#[derive(Debug, Clone, Copy, PartialEq, Eq, Structural)]
pub enum Side {
    Buy,
    Sell,
}

/// A side of the market, as a type.
pub trait OrderType: Sync + Send + PartialEq + Eq {
    /// The side that the type stands for.
    spec fn side() -> Side;

    /// The side that the type stands for.
    fn on_side() -> (side: Side)
        ensures
            side == Self::side(),
    ;
}

/// A state of an order, as a type.
pub trait OrderState: Sync + Send + PartialEq + Eq {

}

/// The buying side.
#[derive(Debug, PartialEq, Eq, Ord, PartialOrd)]
pub struct Buy;

impl OrderType for Buy {
    open spec fn side() -> Side {
        Side::Buy
    }

    fn on_side() -> (side: Side) {
        Side::Buy
    }
}

/// The selling side.
#[derive(Debug, PartialEq, Eq, Ord, PartialOrd)]
pub struct Sell;

impl OrderType for Sell {
    open spec fn side() -> Side {
        Side::Sell
    }

    fn on_side() -> (side: Side) {
        Side::Sell
    }
}

/// The state of an order of which shares are pending.
#[derive(Debug, PartialEq, Eq, Ord, PartialOrd)]
pub struct Open;

impl OrderState for Open {

}

/// The state of an order that is filled.
#[derive(Debug, PartialEq, Eq, Ord, PartialOrd)]
pub struct Closed;

impl OrderState for Closed {

}

/// What an order is, as mathematics.
pub struct OrderView {
    pub id: Seq<char>,
    /// The bit pattern of the limit price.
    pub price: u32,
    /// The shares the order was placed for.
    pub shares: nat,
    /// The shares that are not filled yet.
    pub pending_shares: nat,
    pub asset_id: Seq<char>,
    /// The party that placed the order, with its holdings as this order has
    /// changed them.
    pub investor: InvestorView,
}

/// A buying order after `count` of its pending shares were filled: so many
/// fewer are pending, and its investor holds so many more of the asset.
pub open spec fn bought(order: OrderView, count: nat) -> OrderView
    recommends
        count <= order.pending_shares,
{
    OrderView {
        pending_shares: (order.pending_shares - count) as nat,
        investor: InvestorView {
            holdings: credited(order.investor.holdings, order.asset_id, count),
            ..order.investor
        },
        ..order
    }
}

/// Whether `count` shares of a selling order can be filled: so many are
/// pending, and its investor holds so many of the asset.
pub open spec fn can_sell(order: OrderView, count: nat) -> bool {
    count <= order.pending_shares && can_debit(order.investor.holdings, order.asset_id, count)
}

/// A selling order after `count` of its pending shares were filled: so many
/// fewer are pending, and its investor holds so many fewer of the asset.
pub open spec fn sold(order: OrderView, count: nat) -> OrderView
    recommends
        can_sell(order, count),
{
    OrderView {
        pending_shares: (order.pending_shares - count) as nat,
        investor: InvestorView {
            holdings: debited(order.investor.holdings, order.asset_id, count),
            ..order.investor
        },
        ..order
    }
}

/// The investor's holding of the asset can take every pending share of the
/// order without leaving 32 bits.
pub open spec fn has_room(order: OrderView) -> bool {
    held(order.investor.holdings, order.asset_id) + order.pending_shares <= u32::MAX
}

/// A fill never gives shares back: after it no more are pending than before,
/// an order with none pending is left with none, and nothing else of the
/// order changes but the holdings of its investor.
pub proof fn lemma_fill_is_monotone(order: OrderView, count: nat)
    requires
        count <= order.pending_shares,
    ensures
        bought(order, count).pending_shares <= order.pending_shares,
        sold(order, count).pending_shares <= order.pending_shares,
        order.pending_shares == 0 ==> bought(order, count).pending_shares == 0 && sold(
            order,
            count,
        ).pending_shares == 0,
        bought(order, count) == (OrderView {
            pending_shares: bought(order, count).pending_shares,
            investor: InvestorView {
                holdings: bought(order, count).investor.holdings,
                ..order.investor
            },
            ..order
        }),
        sold(order, count) == (OrderView {
            pending_shares: sold(order, count).pending_shares,
            investor: InvestorView {
                holdings: sold(order, count).investor.holdings,
                ..order.investor
            },
            ..order
        }),
{
}

/// An order on side `T`, last seen in state `S`.
#[derive(Debug, PartialEq, Eq)]
pub struct Order<T: OrderType, S: OrderState> {
    id: String,
    price: ComparableFloat,
    shares: u32,
    pending_shares: u32,
    asset: Asset,
    investor: Investor,
    state: PhantomData<S>,
    order_type: PhantomData<T>,
}

/// Why an order refused a fill.
#[derive(Debug, Clone, Copy, PartialEq, Eq, Structural)]
pub enum OrderError {
    /// More shares were asked for than the order has pending, or than the
    /// seller holds.
    OutRangeShareCount,
}

/// An order together with the state it was found in.
#[derive(Debug, PartialEq)]
pub enum OrderTransition<T: OrderType> {
    Open(Order<T, Open>),
    Closed(Order<T, Closed>),
}

/// An order together with the side it is on.
#[derive(Debug, PartialEq)]
pub enum OrderResolution {
    Sell(OrderTransition<Sell>),
    Buy(OrderTransition<Buy>),
}

/// Anything that can be handed to a book as an order.
pub trait OrderItem: Sync + Send {
    /// The side the item is on.
    spec fn item_side(&self) -> Side;

    /// The order the item holds.
    spec fn item_order(&self) -> OrderView;

    /// Whether the item is a valid value of its type.
    spec fn item_wf(&self) -> bool;

    /// The item as an order on its side, in the state that its pending shares
    /// put it in.
    fn resolve_type(&self) -> (resolution: OrderResolution)
        ensures
            resolution.side() == self.item_side(),
            resolution.order() == self.item_order(),
            resolution.tagged_open() <==> self.item_order().pending_shares > 0,
            self.item_wf() ==> resolution.wf(),
    ;

    /// The identifier of the asset that the item is an order for.
    fn asset_id(&self) -> (id: &str)
        ensures
            id@ == self.item_order().asset_id,
    ;
}

impl<T: OrderType, S: OrderState> View for Order<T, S> {
    type V = OrderView;

    closed spec fn view(&self) -> OrderView {
        OrderView {
            id: self.id@,
            price: self.price.bits(),
            shares: self.shares as nat,
            pending_shares: self.pending_shares as nat,
            asset_id: self.asset@,
            investor: self.investor@,
        }
    }
}

impl<T: OrderType, S: OrderState> Order<T, S> {
    /// No more shares are pending than the order was placed for, and the
    /// investor is valid.
    pub closed spec fn wf(&self) -> bool {
        &&& self.pending_shares <= self.shares
        &&& self.investor.wf()
    }

    /// Of a valid order no more shares are pending than it was placed for.
    pub proof fn lemma_wf(&self)
        requires
            self.wf(),
        ensures
            self@.pending_shares <= self@.shares,
    {
    }

    /// An order for `shares` shares, all of them pending.
    pub fn new(
        asset: Asset,
        investor: Investor,
        id: &str,
        price: ComparableFloat,
        shares: u32,
    ) -> (order: Order<T, S>)
        requires
            investor.wf(),
        ensures
            order.wf(),
            order@ == (OrderView {
                id: id@,
                price: price.bits(),
                shares: shares as nat,
                pending_shares: shares as nat,
                asset_id: asset@,
                investor: investor@,
            }),
    {
        Order::<T, S> {
            id: id.to_owned(),
            price,
            shares,
            pending_shares: shares,
            asset,
            investor,
            state: PhantomData,
            order_type: PhantomData,
        }
    }

    /// The same order, seen in another state.
    pub fn copy<TState: OrderState>(&self) -> (copy: Order<T, TState>)
        ensures
            copy@ == self@,
            self.wf() ==> copy.wf(),
    {
        Order::<T, TState> {
            id: self.id.clone(),
            price: self.price,
            shares: self.shares,
            pending_shares: self.pending_shares,
            asset: self.asset.clone(),
            investor: self.investor.clone(),
            state: PhantomData,
            order_type: PhantomData,
        }
    }

    /// The same order, put on another side.
    fn change_type<TType: OrderType>(&self) -> (copy: Order<TType, S>)
        ensures
            copy@ == self@,
            self.wf() ==> copy.wf(),
    {
        Order::<TType, S> {
            id: self.id.clone(),
            price: self.price,
            shares: self.shares,
            pending_shares: self.pending_shares,
            asset: self.asset.clone(),
            investor: self.investor.clone(),
            state: PhantomData,
            order_type: PhantomData,
        }
    }

    /// The order in the state that its pending shares put it in: open while
    /// any are pending, closed once none are.
    pub fn check_order(&self) -> (transition: OrderTransition<T>)
        ensures
            transition.order() == self@,
            transition is Open <==> self@.pending_shares > 0,
            self.wf() ==> transition.wf(),
    {
        if self.pending_shares > 0 {
            return OrderTransition::Open(self.copy());
        }
        OrderTransition::Closed(self.copy())
    }

    /// The identifier.
    pub fn id(&self) -> (id: &str)
        ensures
            id@ == self@.id,
    {
        self.id.as_str()
    }

    /// The limit price.
    pub fn price(&self) -> (price: &ComparableFloat)
        ensures
            price.bits() == self@.price,
    {
        &self.price
    }

    /// The party that placed the order.
    pub fn investor(&self) -> (investor: &Investor)
        ensures
            investor@ == self@.investor,
            self.wf() ==> investor.wf(),
    {
        &self.investor
    }

    /// The asset that the order is for.
    pub fn asset(&self) -> (asset: &Asset)
        ensures
            asset@ == self@.asset_id,
    {
        &self.asset
    }

    /// Whether the investor's holding of the asset can take every pending
    /// share.
    pub fn has_room(&self) -> (room: bool)
        requires
            self.wf(),
        ensures
            room == has_room(self@),
    {
        let held: u32 = match self.investor.quantity_of(self.asset.id()) {
            Some(quantity) => quantity,
            None => 0,
        };
        held <= u32::MAX - self.pending_shares
    }

    /// The shares the order was placed for.
    pub fn shares(&self) -> (shares: u32)
        ensures
            shares == self@.shares,
    {
        self.shares
    }

    /// How the prices of two orders compare. Orders compare by price alone.
    pub fn cmp(&self, other: &Order<T, S>) -> (r: Ordering)
        ensures
            r == order_of(self@.price, other@.price),
    {
        self.price.cmp(&other.price)
    }
}

impl<T: OrderType, S: OrderState> PartialOrd for Order<T, S> {
    /// Orders compare by price alone.
    fn partial_cmp(&self, other: &Order<T, S>) -> (r: Option<Ordering>) {
        Some(self.cmp(other))
    }
}

impl<T: OrderType, S: OrderState> vstd::std_specs::cmp::PartialOrdSpecImpl for Order<T, S> {
    open spec fn obeys_partial_cmp_spec() -> bool {
        true
    }

    open spec fn partial_cmp_spec(&self, other: &Order<T, S>) -> Option<Ordering> {
        Some(order_of(self@.price, other@.price))
    }
}

impl<T: OrderType> Order<T, Open> {
    /// The shares that are not filled yet.
    pub fn pending_shares(&self) -> (pending: &u32)
        ensures
            *pending == self@.pending_shares,
    {
        &self.pending_shares
    }
}

impl Order<Buy, Open> {
    /// Fills `share_count` of the pending shares: the investor is credited
    /// with them. Fails, and changes nothing, where fewer are pending.
    pub fn buy(&mut self, share_count: u32) -> (r: Result<OrderTransition<Buy>, OrderError>)
        requires
            old(self).wf(),
            share_count <= old(self)@.pending_shares ==> held(
                old(self)@.investor.holdings,
                old(self)@.asset_id,
            ) + share_count <= u32::MAX,
        ensures
            final(self).wf(),
            final(self)@.pending_shares <= old(self)@.pending_shares,
            share_count > old(self)@.pending_shares ==> *final(self) == *old(self) && (
            r matches Err(e) && e == OrderError::OutRangeShareCount),
            share_count <= old(self)@.pending_shares ==> final(self)@ == bought(
                old(self)@,
                share_count as nat,
            ) && (r matches Ok(t) && t.wf() && t.order() == final(self)@ && (t is Open
                <==> final(self)@.pending_shares > 0)),
    {
        if self.pending_shares < share_count {
            return Err(OrderError::OutRangeShareCount);
        }
        self.investor.increment_asset(self.asset.id().to_owned(), share_count);
        self.pending_shares -= share_count;
        Ok(self.check_order())
    }
}

impl Order<Sell, Open> {
    /// Whether `share_count` shares can be filled: so many are pending, and
    /// the investor holds so many of the asset.
    pub fn covers(&self, share_count: u32) -> (covered: bool)
        requires
            self.wf(),
        ensures
            covered == can_sell(self@, share_count as nat),
    {
        if self.pending_shares < share_count {
            return false;
        }
        match self.investor.quantity_of(self.asset.id()) {
            Some(quantity) => quantity >= share_count,
            None => false,
        }
    }

    /// Fills `share_count` of the pending shares: they are taken out of the
    /// investor's holdings. Fails, and changes nothing, where fewer are
    /// pending or the investor holds fewer.
    pub fn sell(&mut self, share_count: u32) -> (r: Result<OrderTransition<Sell>, OrderError>)
        requires
            old(self).wf(),
        ensures
            final(self).wf(),
            final(self)@.pending_shares <= old(self)@.pending_shares,
            !can_sell(old(self)@, share_count as nat) ==> *final(self) == *old(self) && (
            r matches Err(e) && e == OrderError::OutRangeShareCount),
            can_sell(old(self)@, share_count as nat) ==> final(self)@ == sold(
                old(self)@,
                share_count as nat,
            ) && (r matches Ok(t) && t.wf() && t.order() == final(self)@ && (t is Open
                <==> final(self)@.pending_shares > 0)),
    {
        if self.pending_shares < share_count {
            return Err(OrderError::OutRangeShareCount);
        }
        if let Err(_) = self.investor.decrement_asset(self.asset.id().to_owned(), share_count) {
            return Err(OrderError::OutRangeShareCount);
        }
        self.pending_shares -= share_count;
        Ok(self.check_order())
    }
}

impl<T: OrderType, S: OrderState> OrderItem for Order<T, S> {
    open spec fn item_side(&self) -> Side {
        T::side()
    }

    open spec fn item_order(&self) -> OrderView {
        self@
    }

    open spec fn item_wf(&self) -> bool {
        self.wf()
    }

    fn resolve_type(&self) -> (resolution: OrderResolution) {
        match T::on_side() {
            Side::Buy => OrderResolution::Buy(self.change_type().check_order()),
            Side::Sell => OrderResolution::Sell(self.change_type().check_order()),
        }
    }

    fn asset_id(&self) -> (id: &str) {
        self.asset.id()
    }
}

impl<T: OrderType> OrderTransition<T> {
    /// The order, whatever state it was found in.
    pub open spec fn order(&self) -> OrderView {
        match self {
            OrderTransition::Open(order) => order@,
            OrderTransition::Closed(order) => order@,
        }
    }

    /// The order is valid.
    pub open spec fn wf(&self) -> bool {
        match self {
            OrderTransition::Open(order) => order.wf(),
            OrderTransition::Closed(order) => order.wf(),
        }
    }

    /// Whether the order can rest in a book: it was found open, and shares of
    /// it are pending.
    pub open spec fn is_open(&self) -> bool {
        self is Open && self.order().pending_shares > 0
    }

    /// The identifier of the asset that the order is for.
    pub fn get_asset_id(&self) -> (id: &str)
        ensures
            id@ == self.order().asset_id,
    {
        match self {
            OrderTransition::Open(order) => order.asset().id(),
            OrderTransition::Closed(order) => order.asset().id(),
        }
    }

    /// The identifier of the order.
    pub fn get_order_id(&self) -> (id: &str)
        ensures
            id@ == self.order().id,
    {
        match self {
            OrderTransition::Open(order) => order.id(),
            OrderTransition::Closed(order) => order.id(),
        }
    }
}

/// What an arriving order is taken to be: all its shares are pending, and
/// its investor holds nothing where it buys, and exactly the shares on offer
/// where it sells.
pub open spec fn arriving(side: Side, fields: OrderDTO) -> OrderView {
    OrderView {
        id: fields.id@,
        price: fields.price.bits(),
        shares: fields.quantity as nat,
        pending_shares: fields.quantity as nat,
        asset_id: fields.asset_id@,
        investor: InvestorView {
            id: fields.investor_id@,
            name: fields.investor_name@,
            holdings: match side {
                Side::Buy => Map::empty(),
                Side::Sell => Map::empty().insert(fields.asset_id@, fields.quantity as nat),
            },
        },
    }
}

impl<T: OrderType> OrderTransition<T> {
    /// An arriving order on side `T`: open where it offers any shares, closed
    /// where it offers none.
    fn arrive(fields: OrderDTO, holdings: Vec<(String, u32)>) -> (transition: OrderTransition<T>)
        ensures
            transition.wf(),
            transition is Open <==> fields.quantity > 0,
            transition.order() == (OrderView {
                id: fields.id@,
                price: fields.price.bits(),
                shares: fields.quantity as nat,
                pending_shares: fields.quantity as nat,
                asset_id: fields.asset_id@,
                investor: InvestorView {
                    id: fields.investor_id@,
                    name: fields.investor_name@,
                    holdings: holdings_of(holdings@),
                },
            }),
    {
        let asset = Asset::new(fields.asset_id);
        let investor = Investor::new(
            fields.investor_id.to_owned(),
            fields.investor_name.to_owned(),
            holdings,
        );
        if fields.quantity > 0 {
            OrderTransition::Open(
                Order::new(asset, investor, fields.id, fields.price, fields.quantity),
            )
        } else {
            OrderTransition::Closed(
                Order::new(asset, investor, fields.id, fields.price, fields.quantity),
            )
        }
    }
}

impl OrderResolution {
    /// The order that an arriving one is taken to be. It is open where it
    /// offers any shares. A buyer arrives holding nothing; a seller arrives
    /// holding exactly the shares on offer.
    pub fn from(value: IncomingOrderDTO) -> (resolution: OrderResolution)
        ensures
            resolution.wf(),
            match value {
                IncomingOrderDTO::Buy(fields) => resolution.side() == Side::Buy
                    && resolution.order() == arriving(Side::Buy, fields)
                    && (resolution.tagged_open() <==> fields.quantity > 0),
                IncomingOrderDTO::Sell(fields) => resolution.side() == Side::Sell
                    && resolution.order() == arriving(Side::Sell, fields)
                    && (resolution.tagged_open() <==> fields.quantity > 0),
            },
    {
        match value {
            IncomingOrderDTO::Buy(order) => {
                let holdings: Vec<(String, u32)> = Vec::new();
                OrderResolution::Buy(OrderTransition::arrive(order, holdings))
            },
            IncomingOrderDTO::Sell(order) => {
                let mut holdings: Vec<(String, u32)> = Vec::new();
                holdings.push((order.asset_id.to_owned(), order.quantity));
                proof {
                    reveal_with_fuel(holdings_of, 2);
                    assert(holdings@.drop_last() =~= Seq::empty());
                    assert(holdings_of(holdings@) == Map::<Seq<char>, nat>::empty().insert(
                        order.asset_id@,
                        order.quantity as nat,
                    ));
                }
                OrderResolution::Sell(OrderTransition::arrive(order, holdings))
            },
        }
    }

    /// The side the order is on.
    pub open spec fn side(&self) -> Side {
        match self {
            OrderResolution::Sell(_) => Side::Sell,
            OrderResolution::Buy(_) => Side::Buy,
        }
    }

    /// The order, whatever its side and state.
    pub open spec fn order(&self) -> OrderView {
        match self {
            OrderResolution::Sell(transition) => transition.order(),
            OrderResolution::Buy(transition) => transition.order(),
        }
    }

    /// Whether the order was found open.
    pub open spec fn tagged_open(&self) -> bool {
        match self {
            OrderResolution::Sell(transition) => transition is Open,
            OrderResolution::Buy(transition) => transition is Open,
        }
    }

    /// Whether the order can rest in a book: it was found open, and shares of
    /// it are pending.
    pub open spec fn is_open(&self) -> bool {
        self.tagged_open() && self.order().pending_shares > 0
    }

    /// The order is valid.
    pub open spec fn wf(&self) -> bool {
        match self {
            OrderResolution::Sell(transition) => transition.wf(),
            OrderResolution::Buy(transition) => transition.wf(),
        }
    }

    /// Whether a book can take the order without a holding leaving 32 bits:
    /// it sells, or its buyer has room for every pending share.
    pub fn has_room(&self) -> (room: bool)
        requires
            self.wf(),
        ensures
            room == (self.side() == Side::Buy ==> has_room(self.order())),
    {
        match self {
            OrderResolution::Sell(_) => true,
            OrderResolution::Buy(OrderTransition::Open(order)) => order.has_room(),
            OrderResolution::Buy(OrderTransition::Closed(order)) => order.has_room(),
        }
    }

    /// The identifier of the asset that the order is for.
    pub fn asset_id(&self) -> (id: &str)
        ensures
            id@ == self.order().asset_id,
    {
        match self {
            OrderResolution::Sell(transition) => transition.get_asset_id(),
            OrderResolution::Buy(transition) => transition.get_asset_id(),
        }
    }
}

} // verus!
