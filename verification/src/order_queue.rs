//! A queue of open orders in order of price.
//!
//! The queue is a sequence in ascending priority: its last entry is its head,
//! the order that is served first. Among orders of one price the one that
//! came first is nearest the head.

use crate::entities::order::{Open, Order, OrderType, OrderView};
use vstd::prelude::*;

verus! {

/// Whether an order at price `a` is served before one at price `b`: with the
/// highest price first, when `a` is higher; with the lowest first, when `a`
/// is lower. Prices are given by their bit patterns.
pub open spec fn outranks(highest_first: bool, a: u32, b: u32) -> bool {
    if highest_first {
        a > b
    } else {
        a < b
    }
}

/// The entries are in ascending priority: none outranks one behind it.
pub open spec fn ranked(entries: Seq<OrderView>, highest_first: bool) -> bool {
    forall|i: int, j: int|
        0 <= i < j < entries.len() ==> !outranks(highest_first, entries[i].price, entries[j].price)
}

/// Every entry is open: shares of it are pending.
pub open spec fn all_open(entries: Seq<OrderView>) -> bool {
    forall|i: int| 0 <= i < entries.len() ==> (#[trigger] entries[i]).pending_shares > 0
}

/// How many entries, counted from the front, an order at `price` outranks.
/// In a ranked sequence these are all the entries that it outranks.
pub open spec fn outranked_prefix(entries: Seq<OrderView>, highest_first: bool, price: u32) -> int
    decreases entries.len(),
{
    if entries.len() == 0 || !outranks(highest_first, price, entries[0].price) {
        0
    } else {
        1 + outranked_prefix(entries.drop_first(), highest_first, price)
    }
}

/// The sequence after an order has joined it: behind the entries that it
/// outranks, and before those of its own price or a better one.
pub open spec fn enqueued(entries: Seq<OrderView>, highest_first: bool, order: OrderView) -> Seq<
    OrderView,
> {
    entries.insert(outranked_prefix(entries, highest_first, order.price), order)
}

/// The prefix that an order outranks ends at the first entry that it does not
/// outrank.
pub proof fn lemma_outranked_prefix(
    entries: Seq<OrderView>,
    highest_first: bool,
    price: u32,
    end: int,
)
    requires
        0 <= end <= entries.len(),
        forall|k: int| 0 <= k < end ==> outranks(highest_first, price, entries[k].price),
        end == entries.len() || !outranks(highest_first, price, entries[end].price),
    ensures
        outranked_prefix(entries, highest_first, price) == end,
    decreases end,
{
    if end > 0 {
        let rest = entries.drop_first();
        assert forall|k: int| 0 <= k < end - 1 implies outranks(
            highest_first,
            price,
            rest[k].price,
        ) by {
            assert(rest[k] == entries[k + 1]);
        }
        if end < entries.len() {
            assert(rest[end - 1] == entries[end]);
        }
        lemma_outranked_prefix(rest, highest_first, price, end - 1);
    }
}

/// An order that joins a ranked sequence leaves it ranked.
pub proof fn lemma_enqueued_ranked(entries: Seq<OrderView>, highest_first: bool, order: OrderView)
    requires
        ranked(entries, highest_first),
    ensures
        ranked(enqueued(entries, highest_first, order), highest_first),
        0 <= outranked_prefix(entries, highest_first, order.price) <= entries.len(),
        forall|k: int|
            0 <= k < outranked_prefix(entries, highest_first, order.price) ==> outranks(
                highest_first,
                order.price,
                entries[k].price,
            ),
        forall|k: int|
            outranked_prefix(entries, highest_first, order.price) <= k < entries.len()
                ==> !outranks(highest_first, order.price, entries[k].price),
    decreases entries.len(),
{
    let at = outranked_prefix(entries, highest_first, order.price);
    if entries.len() > 0 && outranks(highest_first, order.price, entries[0].price) {
        let rest = entries.drop_first();
        assert(ranked(rest, highest_first)) by {
            assert forall|i: int, j: int| 0 <= i < j < rest.len() implies !outranks(
                highest_first,
                rest[i].price,
                rest[j].price,
            ) by {
                assert(rest[i] == entries[i + 1]);
                assert(rest[j] == entries[j + 1]);
            }
        }
        lemma_enqueued_ranked(rest, highest_first, order);
        assert forall|k: int| 0 <= k < at implies outranks(
            highest_first,
            order.price,
            entries[k].price,
        ) by {
            if k > 0 {
                assert(rest[k - 1] == entries[k]);
            }
        }
        assert forall|k: int| at <= k < entries.len() implies !outranks(
            highest_first,
            order.price,
            entries[k].price,
        ) by {
            assert(rest[k - 1] == entries[k]);
        }
    } else {
        assert forall|k: int| at <= k < entries.len() implies !outranks(
            highest_first,
            order.price,
            entries[k].price,
        ) by {
            if k > 0 {
                assert(!outranks(highest_first, entries[0].price, entries[k].price));
            }
        }
    }
    let joined = enqueued(entries, highest_first, order);
    assert forall|i: int, j: int| 0 <= i < j < joined.len() implies !outranks(
        highest_first,
        joined[i].price,
        joined[j].price,
    ) by {
        if i < at && j > at {
            assert(joined[i] == entries[i]);
            assert(joined[j] == entries[j - 1]);
        } else if i > at {
            assert(joined[i] == entries[i - 1]);
            assert(joined[j] == entries[j - 1]);
        } else if j < at {
            assert(joined[i] == entries[i]);
            assert(joined[j] == entries[j]);
        } else if i == at {
            assert(joined[j] == entries[j - 1]);
        } else {
            assert(joined[i] == entries[i]);
        }
    }
}

/// The head of a ranked sequence is outranked by no entry: with the highest
/// price first, no resting price is above the head's; with the lowest first,
/// none is below it.
pub proof fn lemma_head_has_priority(entries: Seq<OrderView>, highest_first: bool)
    requires
        ranked(entries, highest_first),
        entries.len() > 0,
    ensures
        forall|i: int|
            0 <= i < entries.len() ==> !outranks(
                highest_first,
                #[trigger] entries[i].price,
                entries.last().price,
            ),
        highest_first ==> forall|i: int|
            0 <= i < entries.len() ==> (#[trigger] entries[i]).price <= entries.last().price,
        !highest_first ==> forall|i: int|
            0 <= i < entries.len() ==> (#[trigger] entries[i]).price >= entries.last().price,
{
    assert forall|i: int| 0 <= i < entries.len() implies !outranks(
        highest_first,
        #[trigger] entries[i].price,
        entries.last().price,
    ) by {
        if i < entries.len() - 1 {
            assert(!outranks(highest_first, entries[i].price, entries[entries.len() - 1].price));
        }
    }
}

/// Open orders of one side, queued by price: either the highest price is
/// served first, or the lowest.
#[derive(Debug)]
pub struct OrderQueue<T: OrderType> {
    orders: Vec<Order<T, Open>>,
    highest_first: bool,
}

impl<T: OrderType> View for OrderQueue<T> {
    type V = Seq<OrderView>;

    /// The queued orders in ascending priority; the head is last.
    closed spec fn view(&self) -> Seq<OrderView> {
        self.orders@.map_values(|order: Order<T, Open>| order@)
    }
}

impl<T: OrderType> OrderQueue<T> {
    /// Whether the highest price is served first.
    pub closed spec fn highest_first(&self) -> bool {
        self.highest_first
    }

    /// Every queued order is valid.
    pub closed spec fn entries_wf(&self) -> bool {
        forall|i: int| 0 <= i < self.orders@.len() ==> (#[trigger] self.orders@[i]).wf()
    }

    /// The orders are valid, open and in ascending priority.
    pub open spec fn wf(&self) -> bool {
        &&& self.entries_wf()
        &&& all_open(self@)
        &&& ranked(self@, self.highest_first())
    }

    /// An empty queue.
    pub fn new(highest_first: bool) -> (queue: OrderQueue<T>)
        ensures
            queue.wf(),
            queue@ == Seq::<OrderView>::empty(),
            queue.highest_first() == highest_first,
    {
        let queue = OrderQueue { orders: Vec::new(), highest_first };
        assert(queue@ =~= Seq::<OrderView>::empty());
        queue
    }

    /// The number of queued orders.
    pub fn len(&self) -> (len: usize)
        ensures
            len == self@.len(),
    {
        self.orders.len()
    }

    /// Whether no order is queued.
    pub fn is_empty(&self) -> (empty: bool)
        ensures
            empty == (self@.len() == 0),
    {
        self.orders.len() == 0
    }

    /// The head: the order that is served first.
    pub fn peek(&self) -> (head: Option<&Order<T, Open>>)
        ensures
            head is Some <==> self@.len() > 0,
            head matches Some(order) ==> order@ == self@.last() && (self.wf() ==> order.wf()
                && order@.pending_shares > 0),
    {
        let len = self.orders.len();
        if len == 0 {
            None
        } else {
            assert(self@[len - 1] == self.orders@[len - 1]@);
            Some(&self.orders[len - 1])
        }
    }

    /// Takes the head out of the queue.
    pub fn pop(&mut self) -> (head: Option<Order<T, Open>>)
        ensures
            final(self).highest_first() == old(self).highest_first(),
            old(self).wf() ==> final(self).wf(),
            old(self)@.len() == 0 ==> head is None && final(self)@ == old(self)@,
            old(self)@.len() > 0 ==> final(self)@ == old(self)@.drop_last() && (
            head matches Some(order) && order@ == old(self)@.last() && (old(self).wf()
                ==> order.wf() && order@.pending_shares > 0)),
    {
        let head = self.orders.pop();
        proof {
            if old(self)@.len() > 0 {
                assert(self@ =~= old(self)@.drop_last());
                assert(head.unwrap() == old(self).orders@[old(self).orders@.len() - 1]);
                assert(old(self)@[old(self)@.len() - 1] == head.unwrap()@);
            } else {
                assert(self@ =~= old(self)@);
            }
            if old(self).wf() {
                assert forall|i: int| 0 <= i < self.orders@.len() implies (
                #[trigger] self.orders@[i]).wf() by {
                    assert(self.orders@[i] == old(self).orders@[i]);
                }
                assert forall|i: int, j: int| 0 <= i < j < self@.len() implies !outranks(
                    self.highest_first,
                    self@[i].price,
                    self@[j].price,
                ) by {
                    assert(self@[i] == old(self)@[i]);
                    assert(self@[j] == old(self)@[j]);
                }
                assert forall|i: int| 0 <= i < self@.len() implies (
                #[trigger] self@[i]).pending_shares > 0 by {
                    assert(self@[i] == old(self)@[i]);
                }
            }
        }
        head
    }

    /// Puts an open order into the queue: behind the orders that it
    /// outranks, and before those of its own price or a better one.
    pub fn push(&mut self, order: Order<T, Open>)
        requires
            old(self).wf(),
            order.wf(),
            order@.pending_shares > 0,
        ensures
            final(self).wf(),
            final(self).highest_first() == old(self).highest_first(),
            final(self)@ == enqueued(old(self)@, old(self).highest_first(), order@),
    {
        let price = order.price().to_bits();
        let mut at: usize = 0;
        while at < self.orders.len() && exec_outranks(
            self.highest_first,
            price,
            self.orders[at].price().to_bits(),
        )
            invariant
                at <= self.orders.len(),
                *self == *old(self),
                price == order@.price,
                forall|k: int| 0 <= k < at ==> outranks(self.highest_first, price, self@[k].price),
            decreases self.orders.len() - at,
        {
            at += 1;
        }
        proof {
            lemma_outranked_prefix(self@, self.highest_first, price, at as int);
            lemma_enqueued_ranked(self@, self.highest_first, order@);
        }
        self.orders.insert(at, order);
        proof {
            assert(self@ =~= enqueued(old(self)@, old(self).highest_first, order@));
            assert forall|i: int| 0 <= i < self.orders@.len() implies (
            #[trigger] self.orders@[i]).wf() by {
                if i < at {
                    assert(self.orders@[i] == old(self).orders@[i]);
                } else if i > at {
                    assert(self.orders@[i] == old(self).orders@[i - 1]);
                }
            }
            assert forall|i: int| 0 <= i < self@.len() implies (
            #[trigger] self@[i]).pending_shares > 0 by {
                if i < at {
                    assert(self@[i] == old(self)@[i]);
                } else if i > at {
                    assert(self@[i] == old(self)@[i - 1]);
                }
            }
        }
    }

    /// Puts an open order at the head of the queue. No queued order may
    /// outrank it.
    pub(crate) fn push_head(&mut self, order: Order<T, Open>)
        requires
            old(self).wf(),
            order.wf(),
            order@.pending_shares > 0,
            forall|i: int|
                0 <= i < old(self)@.len() ==> !outranks(
                    old(self).highest_first(),
                    #[trigger] old(self)@[i].price,
                    order@.price,
                ),
        ensures
            final(self).wf(),
            final(self).highest_first() == old(self).highest_first(),
            final(self)@ == old(self)@.push(order@),
    {
        self.orders.push(order);
        proof {
            assert(self@ =~= old(self)@.push(order@));
            assert forall|i: int| 0 <= i < self.orders@.len() implies (
            #[trigger] self.orders@[i]).wf() by {
                if i < old(self).orders@.len() {
                    assert(self.orders@[i] == old(self).orders@[i]);
                }
            }
            assert forall|i: int, j: int| 0 <= i < j < self@.len() implies !outranks(
                self.highest_first,
                self@[i].price,
                self@[j].price,
            ) by {
                assert(self@[i] == old(self)@[i]);
                if j < old(self)@.len() {
                    assert(self@[j] == old(self)@[j]);
                }
            }
            assert forall|i: int| 0 <= i < self@.len() implies (
            #[trigger] self@[i]).pending_shares > 0 by {
                if i < old(self)@.len() {
                    assert(self@[i] == old(self)@[i]);
                }
            }
        }
    }
}

/// Whether an order at price `a` is served before one at price `b`.
fn exec_outranks(highest_first: bool, a: u32, b: u32) -> (r: bool)
    ensures
        r == outranks(highest_first, a, b),
{
    if highest_first {
        a > b
    } else {
        a < b
    }
}

} // verus!
