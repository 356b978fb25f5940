//! The book of one asset: its open buying and selling orders, and the fills
//! it has made.
//!
//! The best buying order is the one with the highest price, the best selling
//! order the one with the lowest. A fill matches the two when the buyer bids
//! at least what the seller asks, for as many shares as both have pending, at
//! the buyer's price.

use crate::entities::investor::held;
use crate::entities::order::{
    bought, can_sell, has_room, sold, Buy, Open, Order, OrderError, OrderResolution,
    OrderTransition, OrderType, OrderView, Sell, Side,
};
use crate::entities::transaction::{Transaction, TransactionView};
use crate::order_queue::{
    enqueued, lemma_enqueued_ranked, lemma_head_has_priority, outranked_prefix, outranks, ranked,
    OrderQueue,
};
use crate::stamp::is_uuid_v4_text;
use std::sync::Arc;
use vstd::pervasive::unreached;
use vstd::prelude::*;

verus! {

/// What a book is, as mathematics. Each queue is in ascending priority: its
/// last entry is its head.
pub struct OrderBookView {
    pub asset_id: Seq<char>,
    pub buy_orders: Seq<OrderView>,
    pub sell_orders: Seq<OrderView>,
    /// The fills made so far, oldest first.
    pub transactions: Seq<TransactionView>,
}

/// Why a book refused an order or made no fill.
#[derive(Debug, PartialEq)]
pub enum OrderBookError {
    /// The order is for another asset.
    InvalidOrderAssetId,
    /// The order is closed.
    InvalidOrderState,
    /// A queue is empty, or the best buyer bids less than the best seller
    /// asks.
    NoMatchingOrderAvailable,
    /// An order refused the fill; the text names its reason.
    MatchingError(String),
}

/// An order that may rest in the book of `asset_id`: shares of it are pending
/// and it is for that asset.
pub open spec fn rests(order: OrderView, asset_id: Seq<char>) -> bool {
    order.pending_shares > 0 && order.asset_id == asset_id
}

/// What holds of every book: both queues are ranked, the buying one with the
/// highest price at its head and the selling one with the lowest; every
/// resting order is open and for the book's asset; and every buyer has room
/// for the shares it waits for.
pub open spec fn book_inv(book: OrderBookView) -> bool {
    &&& ranked(book.buy_orders, true)
    &&& ranked(book.sell_orders, false)
    &&& forall|i: int|
        0 <= i < book.buy_orders.len() ==> rests(#[trigger] book.buy_orders[i], book.asset_id)
            && has_room(book.buy_orders[i])
    &&& forall|i: int|
        0 <= i < book.sell_orders.len() ==> rests(#[trigger] book.sell_orders[i], book.asset_id)
}

/// The book after an open order for its asset has joined its side.
pub open spec fn appended(book: OrderBookView, side: Side, order: OrderView) -> OrderBookView {
    match side {
        Side::Buy => OrderBookView {
            buy_orders: enqueued(book.buy_orders, true, order),
            ..book
        },
        Side::Sell => OrderBookView {
            sell_orders: enqueued(book.sell_orders, false, order),
            ..book
        },
    }
}

/// Both queues have a head, and the best buyer bids at least what the best
/// seller asks.
pub open spec fn crosses(book: OrderBookView) -> bool {
    &&& book.buy_orders.len() > 0
    &&& book.sell_orders.len() > 0
    &&& book.buy_orders.last().price >= book.sell_orders.last().price
}

/// The shares that a fill moves: as many as both heads have pending.
pub open spec fn fill_size(book: OrderBookView) -> nat
    recommends
        crosses(book),
{
    if book.buy_orders.last().pending_shares <= book.sell_orders.last().pending_shares {
        book.buy_orders.last().pending_shares
    } else {
        book.sell_orders.last().pending_shares
    }
}

/// The heads cross and the seller holds the shares that the fill moves.
pub open spec fn can_fill(book: OrderBookView) -> bool {
    crosses(book) && can_sell(book.sell_orders.last(), fill_size(book))
}

/// The buying head as the fill leaves it.
pub open spec fn buyer_after(book: OrderBookView) -> OrderView
    recommends
        crosses(book),
{
    bought(book.buy_orders.last(), fill_size(book))
}

/// The selling head as the fill leaves it.
pub open spec fn seller_after(book: OrderBookView) -> OrderView
    recommends
        can_fill(book),
{
    sold(book.sell_orders.last(), fill_size(book))
}

/// A queue after its head was filled: the head stays, as the fill left it,
/// while shares of it are pending, and leaves once none are.
pub open spec fn settled(queue: Seq<OrderView>, head: OrderView) -> Seq<OrderView>
    recommends
        queue.len() > 0,
{
    if head.pending_shares > 0 {
        queue.drop_last().push(head)
    } else {
        queue.drop_last()
    }
}

/// Whether `transaction` is a record of the fill that `book` can make: the
/// two heads as the fill leaves them, each marked open while shares of it
/// are pending; the shares moved; and the buyer's price.
pub open spec fn records_fill(book: OrderBookView, transaction: TransactionView) -> bool
    recommends
        can_fill(book),
{
    &&& transaction.buying_order == buyer_after(book)
    &&& transaction.buying_open == (buyer_after(book).pending_shares > 0)
    &&& transaction.selling_order == seller_after(book)
    &&& transaction.selling_open == (seller_after(book).pending_shares > 0)
    &&& transaction.traded_shares == fill_size(book)
    &&& transaction.unit_price == book.buy_orders.last().price
}

/// The book after the fill that `transaction` records.
pub open spec fn filled(book: OrderBookView, transaction: TransactionView) -> OrderBookView
    recommends
        can_fill(book),
{
    OrderBookView {
        asset_id: book.asset_id,
        buy_orders: settled(book.buy_orders, buyer_after(book)),
        sell_orders: settled(book.sell_orders, seller_after(book)),
        transactions: book.transactions.push(transaction),
    }
}

/// The book after the fills that `transactions` record, oldest first.
pub open spec fn after_fills(book: OrderBookView, transactions: Seq<TransactionView>) -> OrderBookView
    decreases transactions.len(),
{
    if transactions.len() == 0 {
        book
    } else {
        filled(after_fills(book, transactions.drop_last()), transactions.last())
    }
}

/// Whether `transactions` record, oldest first, fills that the book can make
/// one after another.
pub open spec fn records_fills(book: OrderBookView, transactions: Seq<TransactionView>) -> bool
    decreases transactions.len(),
{
    transactions.len() == 0 || {
        let before = after_fills(book, transactions.drop_last());
        &&& records_fills(book, transactions.drop_last())
        &&& can_fill(before)
        &&& records_fill(before, transactions.last())
    }
}

/// Fills leave a book with its asset.
pub proof fn lemma_after_fills_asset(book: OrderBookView, transactions: Seq<TransactionView>)
    ensures
        after_fills(book, transactions).asset_id == book.asset_id,
    decreases transactions.len(),
{
    if transactions.len() > 0 {
        lemma_after_fills_asset(book, transactions.drop_last());
    }
}

/// What each of the transactions is, as mathematics.
pub open spec fn transaction_views(transactions: Seq<Arc<Transaction>>) -> Seq<TransactionView> {
    transactions.map_values(|t: Arc<Transaction>| t@)
}

/// A fill leaves a book what a book has to be.
pub proof fn lemma_filled_inv(book: OrderBookView, transaction: TransactionView)
    requires
        book_inv(book),
        can_fill(book),
    ensures
        book_inv(filled(book, transaction)),
        fill_size(book) > 0,
        filled(book, transaction).buy_orders.len() + filled(book, transaction).sell_orders.len()
            < book.buy_orders.len() + book.sell_orders.len(),
{
    let after = filled(book, transaction);
    let buy_head = book.buy_orders.last();
    let sell_head = book.sell_orders.last();
    assert(rests(buy_head, book.asset_id) && has_room(buy_head));
    assert(rests(sell_head, book.asset_id));
    assert forall|i: int| 0 <= i < after.buy_orders.len() implies rests(
        #[trigger] after.buy_orders[i],
        after.asset_id,
    ) && has_room(after.buy_orders[i]) by {
        if i < book.buy_orders.len() - 1 {
            assert(after.buy_orders[i] == book.buy_orders[i]);
        }
    }
    assert forall|i: int| 0 <= i < after.sell_orders.len() implies rests(
        #[trigger] after.sell_orders[i],
        after.asset_id,
    ) by {
        if i < book.sell_orders.len() - 1 {
            assert(after.sell_orders[i] == book.sell_orders[i]);
        }
    }
    assert forall|i: int, j: int| 0 <= i < j < after.buy_orders.len() implies !outranks(
        true,
        after.buy_orders[i].price,
        after.buy_orders[j].price,
    ) by {
        assert(after.buy_orders[i] == book.buy_orders[i]);
        assert(after.buy_orders[j].price == book.buy_orders[j].price);
    }
    assert forall|i: int, j: int| 0 <= i < j < after.sell_orders.len() implies !outranks(
        false,
        after.sell_orders[i].price,
        after.sell_orders[j].price,
    ) by {
        assert(after.sell_orders[i] == book.sell_orders[i]);
        assert(after.sell_orders[j].price == book.sell_orders[j].price);
    }
}

/// A fill conserves shares: each of the two orders is left with as many
/// fewer pending shares as the record says were traded, the buyer holds so
/// many more of the asset and the seller so many fewer. At least one share is
/// traded.
pub proof fn lemma_fill_conserves_shares(book: OrderBookView, transaction: TransactionView)
    requires
        book_inv(book),
        can_fill(book),
        records_fill(book, transaction),
    ensures
        transaction.traded_shares > 0,
        book.buy_orders.last().pending_shares - transaction.buying_order.pending_shares
            == transaction.traded_shares,
        book.sell_orders.last().pending_shares - transaction.selling_order.pending_shares
            == transaction.traded_shares,
        held(transaction.buying_order.investor.holdings, book.asset_id) - held(
            book.buy_orders.last().investor.holdings,
            book.asset_id,
        ) == transaction.traded_shares,
        held(book.sell_orders.last().investor.holdings, book.asset_id) - held(
            transaction.selling_order.investor.holdings,
            book.asset_id,
        ) == transaction.traded_shares,
{
    lemma_filled_inv(book, transaction);
    assert(rests(book.buy_orders.last(), book.asset_id));
    assert(rests(book.sell_orders.last(), book.asset_id));
}

/// A fill gives no order more pending shares and takes no order in: every
/// order that rests after it rested before it, in the same place, with the
/// same identifier, price and size, and with no more shares pending.
pub proof fn lemma_fill_keeps_the_rest(book: OrderBookView, transaction: TransactionView)
    requires
        book_inv(book),
        can_fill(book),
    ensures
        filled(book, transaction).buy_orders.len() <= book.buy_orders.len(),
        filled(book, transaction).sell_orders.len() <= book.sell_orders.len(),
        forall|i: int|
            0 <= i < filled(book, transaction).buy_orders.len() ==> {
                let after = #[trigger] filled(book, transaction).buy_orders[i];
                let before = book.buy_orders[i];
                &&& after.id == before.id
                &&& after.price == before.price
                &&& after.shares == before.shares
                &&& 0 < after.pending_shares <= before.pending_shares
            },
        forall|i: int|
            0 <= i < filled(book, transaction).sell_orders.len() ==> {
                let after = #[trigger] filled(book, transaction).sell_orders[i];
                let before = book.sell_orders[i];
                &&& after.id == before.id
                &&& after.price == before.price
                &&& after.shares == before.shares
                &&& 0 < after.pending_shares <= before.pending_shares
            },
{
    lemma_filled_inv(book, transaction);
    let after = filled(book, transaction);
    assert forall|i: int| 0 <= i < after.buy_orders.len() implies {
        let a = #[trigger] after.buy_orders[i];
        let b = book.buy_orders[i];
        &&& a.id == b.id
        &&& a.price == b.price
        &&& a.shares == b.shares
        &&& 0 < a.pending_shares <= b.pending_shares
    } by {
        assert(rests(after.buy_orders[i], after.asset_id));
        if i < book.buy_orders.len() - 1 {
            assert(after.buy_orders[i] == book.buy_orders[i]);
        }
    }
    assert forall|i: int| 0 <= i < after.sell_orders.len() implies {
        let a = #[trigger] after.sell_orders[i];
        let b = book.sell_orders[i];
        &&& a.id == b.id
        &&& a.price == b.price
        &&& a.shares == b.shares
        &&& 0 < a.pending_shares <= b.pending_shares
    } by {
        assert(rests(after.sell_orders[i], after.asset_id));
        if i < book.sell_orders.len() - 1 {
            assert(after.sell_orders[i] == book.sell_orders[i]);
        }
    }
}

/// Price has priority: no resting buying order bids more than the head of
/// the buying queue, and no resting selling order asks less than the head of
/// the selling queue.
pub proof fn lemma_price_priority(book: OrderBookView)
    requires
        book_inv(book),
    ensures
        forall|i: int|
            0 <= i < book.buy_orders.len() ==> (#[trigger] book.buy_orders[i]).price
                <= book.buy_orders.last().price,
        forall|i: int|
            0 <= i < book.sell_orders.len() ==> (#[trigger] book.sell_orders[i]).price
                >= book.sell_orders.last().price,
{
    if book.buy_orders.len() > 0 {
        lemma_head_has_priority(book.buy_orders, true);
    }
    if book.sell_orders.len() > 0 {
        lemma_head_has_priority(book.sell_orders, false);
    }
}

/// A fill is made at a price that both heads accept: not below what the
/// seller asks and not above what the buyer bids.
pub proof fn lemma_fill_price_is_accepted(book: OrderBookView, transaction: TransactionView)
    requires
        can_fill(book),
        records_fill(book, transaction),
    ensures
        transaction.unit_price >= book.sell_orders.last().price,
        transaction.unit_price <= book.buy_orders.last().price,
{
}

/// The heads decide: they cross exactly when some resting buying order bids
/// at least what some resting selling order asks.
pub proof fn lemma_heads_decide(book: OrderBookView)
    requires
        book_inv(book),
    ensures
        crosses(book) <==> exists|i: int, j: int|
            0 <= i < book.buy_orders.len() && 0 <= j < book.sell_orders.len() && (
            #[trigger] book.buy_orders[i]).price >= (#[trigger] book.sell_orders[j]).price,
{
    lemma_price_priority(book);
    if crosses(book) {
        let i = book.buy_orders.len() - 1;
        let j = book.sell_orders.len() - 1;
        assert(book.buy_orders[i].price >= book.sell_orders[j].price);
    }
}

/// Calls `Arc::clone`, which hands out another pointer to the same value.
#[verifier::external_body]
fn share(transaction: &Arc<Transaction>) -> (shared: Arc<Transaction>)
    ensures
        shared == *transaction,
{
    Arc::clone(transaction)
}

impl OrderBookError {
    /// The refusal of a fill by an order, as the book reports it: a matching
    /// error whose text names the order's reason.
    pub fn from(value: OrderError) -> (error: OrderBookError)
        ensures
            error matches OrderBookError::MatchingError(text) && text@ == "OutRangeShareCount"@,
    {
        match value {
            OrderError::OutRangeShareCount => OrderBookError::MatchingError(
                "OutRangeShareCount".to_owned(),
            ),
        }
    }
}

/// The book of one asset.
#[derive(Debug)]
pub struct OrderBook {
    asset_id: String,
    buy_orders: OrderQueue<Buy>,
    sell_orders: OrderQueue<Sell>,
    transactions: Vec<Arc<Transaction>>,
}

impl View for OrderBook {
    type V = OrderBookView;

    closed spec fn view(&self) -> OrderBookView {
        OrderBookView {
            asset_id: self.asset_id@,
            buy_orders: self.buy_orders@,
            sell_orders: self.sell_orders@,
            transactions: transaction_views(self.transactions@),
        }
    }
}

impl Default for OrderBook {
    /// An empty book for the asset without a name.
    fn default() -> (book: OrderBook)
        ensures
            book.wf(),
            book@ == (OrderBookView {
                asset_id: Seq::empty(),
                buy_orders: Seq::empty(),
                sell_orders: Seq::empty(),
                transactions: Seq::empty(),
            }),
    {
        OrderBook::new(String::new())
    }
}

impl OrderBook {
    /// The queues are valid, the buying one serves the highest price first
    /// and the selling one the lowest, and the book is what a book has to be.
    pub closed spec fn wf(&self) -> bool {
        &&& self.buy_orders.wf()
        &&& self.buy_orders.highest_first()
        &&& self.sell_orders.wf()
        &&& !self.sell_orders.highest_first()
        &&& book_inv(self@)
    }

    /// A valid book is what a book has to be.
    pub proof fn lemma_wf(&self)
        requires
            self.wf(),
        ensures
            book_inv(self@),
    {
    }

    /// An empty book for the asset.
    pub fn new(asset_id: String) -> (book: OrderBook)
        ensures
            book.wf(),
            book@ == (OrderBookView {
                asset_id: asset_id@,
                buy_orders: Seq::empty(),
                sell_orders: Seq::empty(),
                transactions: Seq::empty(),
            }),
    {
        let book = OrderBook {
            asset_id,
            buy_orders: OrderQueue::new(true),
            sell_orders: OrderQueue::new(false),
            transactions: Vec::new(),
        };
        assert(book@.transactions =~= Seq::empty());
        book
    }

    /// The identifier of the book's asset.
    pub fn asset_id(&self) -> (id: &str)
        ensures
            id@ == self@.asset_id,
    {
        self.asset_id.as_str()
    }

    /// The open buying orders.
    pub fn buy_orders(&self) -> (queue: &OrderQueue<Buy>)
        requires
            self.wf(),
        ensures
            queue@ == self@.buy_orders,
            queue.highest_first(),
            queue.wf(),
    {
        &self.buy_orders
    }

    /// The open selling orders.
    pub fn sell_orders(&self) -> (queue: &OrderQueue<Sell>)
        requires
            self.wf(),
        ensures
            queue@ == self@.sell_orders,
            !queue.highest_first(),
            queue.wf(),
    {
        &self.sell_orders
    }

    /// The fills made so far, oldest first.
    pub fn transactions(&self) -> (log: &Vec<Arc<Transaction>>)
        ensures
            transaction_views(log@) == self@.transactions,
    {
        &self.transactions
    }

    /// Takes an order into the book. An order for another asset is refused,
    /// then one that is closed; a refusal leaves the book as it was. An open
    /// order for the book's asset joins the queue of its side. The holding of
    /// a buyer must have room for the shares that the order waits for, so
    /// that no fill can take it out of 32 bits.
    pub fn append(&mut self, order: OrderResolution) -> (r: Result<(), OrderBookError>)
        requires
            old(self).wf(),
            order.wf(),
            order.side() == Side::Buy ==> has_room(order.order()),
        ensures
            final(self).wf(),
            order.order().asset_id != old(self)@.asset_id ==> r == Err::<(), OrderBookError>(
                OrderBookError::InvalidOrderAssetId,
            ) && *final(self) == *old(self),
            order.order().asset_id == old(self)@.asset_id && !order.is_open() ==> r == Err::<
                (),
                OrderBookError,
            >(OrderBookError::InvalidOrderState) && *final(self) == *old(self),
            order.order().asset_id == old(self)@.asset_id && order.is_open() ==> r is Ok
                && final(self)@ == appended(old(self)@, order.side(), order.order()),
    {
        match order {
            OrderResolution::Sell(order) => {
                let order = self.check_is_order_valid(order)?;
                proof {
                    lemma_appended_inv(self@, Side::Sell, order@);
                }
                self.sell_orders.push(order);
            },
            OrderResolution::Buy(order) => {
                let order = self.check_is_order_valid(order)?;
                proof {
                    lemma_appended_inv(self@, Side::Buy, order@);
                }
                self.buy_orders.push(order);
            },
        }
        Ok(())
    }

    /// Makes one fill, if the book can make one.
    ///
    /// There is none to make where a queue is empty or the best buyer bids
    /// less than the best seller asks. Otherwise the two heads are filled for
    /// as many shares as both have pending, at the buyer's price: the seller's
    /// holding is debited and the buyer's credited, a head that is left with
    /// no pending shares leaves its queue, and the fill is recorded in the
    /// log. Where the seller does not hold the shares, the fill is refused
    /// and nothing changes.
    pub fn try_match(&mut self) -> (r: Result<Arc<Transaction>, OrderBookError>)
        requires
            old(self).wf(),
        ensures
            final(self).wf(),
            !crosses(old(self)@) ==> *final(self) == *old(self) && (r matches Err(e) && e
                == OrderBookError::NoMatchingOrderAvailable),
            crosses(old(self)@) && !can_fill(old(self)@) ==> *final(self) == *old(self) && (
            r matches Err(OrderBookError::MatchingError(text)) && text@
                == "OutRangeShareCount"@),
            can_fill(old(self)@) ==> (r matches Ok(transaction) && is_uuid_v4_text(
                transaction@.id,
            ) && records_fill(old(self)@, transaction@) && final(self)@ == filled(
                old(self)@,
                transaction@,
            )),
    {
        let Some(sell_head) = self.sell_orders.peek() else {
            return Err(OrderBookError::NoMatchingOrderAvailable);
        };
        let Some(buy_head) = self.buy_orders.peek() else {
            return Err(OrderBookError::NoMatchingOrderAvailable);
        };
        let traded_price = *buy_head.price();
        if traded_price.to_bits() < sell_head.price().to_bits() {
            return Err(OrderBookError::NoMatchingOrderAvailable);
        }
        let sell_pending = *sell_head.pending_shares();
        let buy_pending = *buy_head.pending_shares();
        let common_shares_count = if buy_pending <= sell_pending {
            buy_pending
        } else {
            sell_pending
        };
        if !sell_head.covers(common_shares_count) {
            return Err(OrderBookError::from(OrderError::OutRangeShareCount));
        }
        proof {
            assert(rests(self@.buy_orders.last(), self@.asset_id) && has_room(
                self@.buy_orders.last(),
            ));
            assert(rests(self@.sell_orders.last(), self@.asset_id));
        }
        let Some(mut sell_order) = self.sell_orders.pop() else {
            return unreached();
        };
        let Ok(sell_order_after) = sell_order.sell(common_shares_count) else {
            return unreached();
        };
        if let OrderTransition::Open(_) = &sell_order_after {
            proof {
                lemma_head_has_priority(old(self)@.sell_orders, false);
                assert forall|i: int| 0 <= i < self.sell_orders@.len() implies !outranks(
                    false,
                    #[trigger] self.sell_orders@[i].price,
                    sell_order@.price,
                ) by {
                    assert(self.sell_orders@[i] == old(self)@.sell_orders[i]);
                }
            }
            self.sell_orders.push_head(sell_order);
        }
        let Some(mut buy_order) = self.buy_orders.pop() else {
            return unreached();
        };
        let Ok(buy_order_after) = buy_order.buy(common_shares_count) else {
            return unreached();
        };
        if let OrderTransition::Open(_) = &buy_order_after {
            proof {
                lemma_head_has_priority(old(self)@.buy_orders, true);
                assert forall|i: int| 0 <= i < self.buy_orders@.len() implies !outranks(
                    true,
                    #[trigger] self.buy_orders@[i].price,
                    buy_order@.price,
                ) by {
                    assert(self.buy_orders@[i] == old(self)@.buy_orders[i]);
                }
            }
            self.buy_orders.push_head(buy_order);
        }
        let transaction = Arc::new(
            Transaction::new(buy_order_after, sell_order_after, common_shares_count, traded_price),
        );
        self.transactions.push(share(&transaction));
        proof {
            assert(self@.transactions =~= old(self)@.transactions.push(transaction@));
            assert(self@ == filled(old(self)@, transaction@));
            lemma_filled_inv(old(self)@, transaction@);
        }
        Ok(transaction)
    }

    /// Makes fills until the book can make no more, and hands out their
    /// records, oldest first, with the reason for which it stopped: the heads
    /// no longer cross, or the seller at the head does not hold the shares.
    pub fn settle(&mut self) -> (outcome: (Vec<Arc<Transaction>>, OrderBookError))
        requires
            old(self).wf(),
        ensures
            final(self).wf(),
            records_fills(old(self)@, transaction_views(outcome.0@)),
            final(self)@ == after_fills(old(self)@, transaction_views(outcome.0@)),
            !can_fill(final(self)@),
            !crosses(final(self)@) ==> outcome.1 == OrderBookError::NoMatchingOrderAvailable,
            crosses(final(self)@) ==> (outcome.1 matches OrderBookError::MatchingError(text)
                && text@ == "OutRangeShareCount"@),
    {
        let ghost start = self@;
        let mut transactions: Vec<Arc<Transaction>> = Vec::new();
        loop
            invariant
                self.wf(),
                start == old(self)@,
                records_fills(start, transaction_views(transactions@)),
                self@ == after_fills(start, transaction_views(transactions@)),
            decreases self@.buy_orders.len() + self@.sell_orders.len(),
        {
            let ghost before = self@;
            match self.try_match() {
                Ok(transaction) => {
                    proof {
                        lemma_filled_inv(before, transaction@);
                        let sofar = transaction_views(transactions@);
                        let next = transaction_views(transactions@.push(transaction));
                        assert(next.drop_last() =~= sofar);
                        assert(next.last() == transaction@);
                    }
                    transactions.push(transaction);
                },
                Err(reason) => {
                    return (transactions, reason);
                },
            }
        }
    }

    /// Whether the book is for the asset with the given identifier.
    pub fn is_for(&self, asset_id: &String) -> (same: bool)
        ensures
            same == (self@.asset_id == asset_id@),
    {
        self.asset_id == *asset_id
    }

    /// The order, if it is open and for the book's asset.
    fn check_is_order_valid<T: OrderType>(&self, order: OrderTransition<T>) -> (r: Result<
        Order<T, Open>,
        OrderBookError,
    >)
        ensures
            order.order().asset_id != self@.asset_id ==> (r matches Err(e) && e
                == OrderBookError::InvalidOrderAssetId),
            order.order().asset_id == self@.asset_id && !order.is_open() ==> (r matches Err(e)
                && e == OrderBookError::InvalidOrderState),
            order.order().asset_id == self@.asset_id && order.is_open() ==> (r matches Ok(open)
                && open@ == order.order() && (order.wf() ==> open.wf())),
    {
        match order {
            OrderTransition::Open(order) => {
                if !order.asset().has_id(&self.asset_id) {
                    return Err(OrderBookError::InvalidOrderAssetId);
                }
                if *order.pending_shares() == 0 {
                    return Err(OrderBookError::InvalidOrderState);
                }
                Ok(order)
            },
            OrderTransition::Closed(order) => {
                if !order.asset().has_id(&self.asset_id) {
                    return Err(OrderBookError::InvalidOrderAssetId);
                }
                Err(OrderBookError::InvalidOrderState)
            },
        }
    }
}

/// An open order for the book's asset, with room where it buys, leaves the
/// book what a book has to be.
pub proof fn lemma_appended_inv(book: OrderBookView, side: Side, order: OrderView)
    requires
        book_inv(book),
        rests(order, book.asset_id),
        side == Side::Buy ==> has_room(order),
    ensures
        book_inv(appended(book, side, order)),
{
    let after = appended(book, side, order);
    match side {
        Side::Buy => {
            lemma_enqueued_ranked(book.buy_orders, true, order);
            let at = outranked_prefix(book.buy_orders, true, order.price);
            assert forall|i: int| 0 <= i < after.buy_orders.len() implies rests(
                #[trigger] after.buy_orders[i],
                after.asset_id,
            ) && has_room(after.buy_orders[i]) by {
                if i < at {
                    assert(after.buy_orders[i] == book.buy_orders[i]);
                } else if i > at {
                    assert(after.buy_orders[i] == book.buy_orders[i - 1]);
                }
            }
        },
        Side::Sell => {
            lemma_enqueued_ranked(book.sell_orders, false, order);
            let at = outranked_prefix(book.sell_orders, false, order.price);
            assert forall|i: int| 0 <= i < after.sell_orders.len() implies rests(
                #[trigger] after.sell_orders[i],
                after.asset_id,
            ) by {
                if i < at {
                    assert(after.sell_orders[i] == book.sell_orders[i]);
                } else if i > at {
                    assert(after.sell_orders[i] == book.sell_orders[i - 1]);
                }
            }
        },
    }
}

} // verus!
