//! The books of all assets, one for each, made when an asset is first seen.

use crate::entities::order::{has_room, OrderResolution, Side};
use crate::entities::transaction::Transaction;
use crate::order_book::{
    after_fills, appended, can_fill, crosses, lemma_after_fills_asset, records_fills,
    transaction_views, OrderBook, OrderBookError, OrderBookView,
};
use std::sync::Arc;
use vstd::prelude::*;

verus! {

/// The book that is made for an asset when it is first seen.
pub open spec fn empty_book(asset_id: Seq<char>) -> OrderBookView {
    OrderBookView {
        asset_id,
        buy_orders: Seq::empty(),
        sell_orders: Seq::empty(),
        transactions: Seq::empty(),
    }
}

/// Whether one of the books is for the asset.
pub open spec fn has_book(books: Seq<OrderBookView>, asset_id: Seq<char>) -> bool {
    exists|i: int| 0 <= i < books.len() && #[trigger] books[i].asset_id == asset_id
}

/// Where the book for the asset stands, where one of the books is for it.
pub open spec fn index_of(books: Seq<OrderBookView>, asset_id: Seq<char>) -> int
    recommends
        has_book(books, asset_id),
{
    choose|i: int| 0 <= i < books.len() && #[trigger] books[i].asset_id == asset_id
}

/// The book for the asset: the one among `books`, or an empty one where none
/// of them is for it.
pub open spec fn book_for(books: Seq<OrderBookView>, asset_id: Seq<char>) -> OrderBookView {
    if has_book(books, asset_id) {
        books[index_of(books, asset_id)]
    } else {
        empty_book(asset_id)
    }
}

/// The books with `book` in the place of the one for the asset, or behind
/// them all where none of them is for it.
pub open spec fn with_book(
    books: Seq<OrderBookView>,
    asset_id: Seq<char>,
    book: OrderBookView,
) -> Seq<OrderBookView> {
    if has_book(books, asset_id) {
        books.update(index_of(books, asset_id), book)
    } else {
        books.push(book)
    }
}

/// No two books are for one asset.
pub open spec fn one_book_each(books: Seq<OrderBookView>) -> bool {
    forall|i: int, j: int| 0 <= i < j < books.len() ==> books[i].asset_id != books[j].asset_id
}

/// The books of all assets, in the order in which the assets were first
/// seen.
#[derive(Debug)]
pub struct BookRegistry {
    books: Vec<OrderBook>,
}

impl View for BookRegistry {
    type V = Seq<OrderBookView>;

    closed spec fn view(&self) -> Seq<OrderBookView> {
        self.books@.map_values(|book: OrderBook| book@)
    }
}

impl BookRegistry {
    /// Every book is valid.
    pub closed spec fn books_wf(&self) -> bool {
        forall|i: int| 0 <= i < self.books@.len() ==> (#[trigger] self.books@[i]).wf()
    }

    /// Every book is valid, and no two are for one asset.
    pub open spec fn wf(&self) -> bool {
        &&& self.books_wf()
        &&& one_book_each(self@)
    }

    /// A registry without books.
    pub fn new() -> (registry: BookRegistry)
        ensures
            registry.wf(),
            registry@ == Seq::<OrderBookView>::empty(),
    {
        let registry = BookRegistry { books: Vec::new() };
        assert(registry@ =~= Seq::<OrderBookView>::empty());
        registry
    }

    /// The number of books.
    pub fn len(&self) -> (len: usize)
        ensures
            len == self@.len(),
    {
        self.books.len()
    }

    /// Where the book for the asset stands.
    fn position(&self, asset_id: &String) -> (found: Option<usize>)
        ensures
            found is Some <==> has_book(self@, asset_id@),
            found matches Some(i) ==> i < self@.len() && self@[i as int].asset_id == asset_id@,
    {
        let mut i: usize = 0;
        while i < self.books.len()
            invariant
                i <= self.books.len(),
                forall|k: int| 0 <= k < i ==> (#[trigger] self@[k]).asset_id != asset_id@,
            decreases self.books.len() - i,
        {
            if self.books[i].is_for(asset_id) {
                assert(self@[i as int].asset_id == asset_id@);
                return Some(i);
            }
            i += 1;
        }
        None
    }

    /// The book for the asset, if there is one.
    pub fn get(&self, asset_id: &str) -> (book: Option<&OrderBook>)
        requires
            self.wf(),
        ensures
            book is Some <==> has_book(self@, asset_id@),
            book matches Some(found) ==> found.wf() && found@ == book_for(self@, asset_id@),
    {
        match self.position(&asset_id.to_owned()) {
            Some(i) => {
                assert(self@[i as int] == self.books@[i as int]@);
                Some(&self.books[i])
            },
            None => None,
        }
    }

    /// The book for the asset. Where there is none yet, an empty one is made,
    /// behind the others. What is done to the book through the reference is
    /// done to the registry's book.
    pub fn get_or_create(&mut self, asset_id: &str) -> (book: &mut OrderBook)
        requires
            old(self).wf(),
        ensures
            book.wf(),
            book@ == book_for(old(self)@, asset_id@),
            final(self)@ == with_book(old(self)@, asset_id@, final(book)@),
            final(book).wf() && final(book)@.asset_id == asset_id@ ==> final(self).wf(),
    {
        let id = asset_id.to_owned();
        let at = match self.position(&id) {
            Some(i) => i,
            None => {
                self.books.push(OrderBook::new(id));
                self.books.len() - 1
            },
        };
        &mut self.books[at]
    }

    /// Takes an order into the book of its asset, which is made where the
    /// asset is seen for the first time, and then makes every fill that the
    /// book can make. A closed order is refused. Otherwise the records of the
    /// fills are handed out, oldest first, with the reason for which the book
    /// stopped. The holding of a buyer must have room for the shares that
    /// the order waits for.
    pub fn submit(&mut self, order: OrderResolution) -> (r: Result<
        (Vec<Arc<Transaction>>, OrderBookError),
        OrderBookError,
    >)
        requires
            old(self).wf(),
            order.wf(),
            order.side() == Side::Buy ==> has_room(order.order()),
        ensures
            final(self).wf(),
            !order.is_open() ==> final(self)@ == with_book(
                old(self)@,
                order.order().asset_id,
                book_for(old(self)@, order.order().asset_id),
            ) && (r matches Err(e) && e == OrderBookError::InvalidOrderState),
            order.is_open() ==> (r matches Ok(outcome) && {
                let taken = appended(
                    book_for(old(self)@, order.order().asset_id),
                    order.side(),
                    order.order(),
                );
                let fills = transaction_views(outcome.0@);
                let settled = after_fills(taken, fills);
                &&& records_fills(taken, fills)
                &&& final(self)@ == with_book(old(self)@, order.order().asset_id, settled)
                &&& !can_fill(settled)
                &&& !crosses(settled) ==> outcome.1 == OrderBookError::NoMatchingOrderAvailable
                &&& crosses(settled) ==> (outcome.1 matches OrderBookError::MatchingError(text)
                    && text@ == "OutRangeShareCount"@)
            }),
    {
        let book = self.get_or_create(order.asset_id());
        if let Err(refusal) = book.append(order) {
            return Err(refusal);
        }
        let ghost taken = book@;
        let outcome = book.settle();
        proof {
            lemma_after_fills_asset(taken, transaction_views(outcome.0@));
        }
        Ok(outcome)
    }
}

} // verus!
