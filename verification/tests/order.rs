use std::cmp::Ordering;
use trade_wara::dto::order_dto::{IncomingOrderDTO, OrderDTO};
use trade_wara::entities::asset::Asset;
use trade_wara::entities::investor::Investor;
use trade_wara::entities::order::{
    Buy, Closed, Open, Order, OrderError, OrderItem, OrderResolution, OrderTransition, Sell,
};
use trade_wara::order_queue::OrderQueue;
use trade_wara::ComparableFloat;

fn price(value: f32) -> ComparableFloat {
    ComparableFloat::from_bits(value.to_bits()).unwrap()
}

fn number(price: &ComparableFloat) -> f32 {
    f32::from_bits(price.to_bits())
}

fn joe() -> Investor {
    Investor::new("123".into(), "Joe".into(), vec![("HGLG11".into(), 10)])
}

#[test]
fn cmp_order() {
    let asset = Asset::new("HGLG11");
    let investor = joe();

    let high_order =
        Order::<Sell, Open>::new(asset.to_owned(), investor.to_owned(), "321", price(7.0), 3);
    let small_order =
        Order::<Sell, Open>::new(asset.to_owned(), investor.to_owned(), "123", price(3.0), 5);

    assert_eq!(Ordering::Greater, high_order.cmp(&small_order));
    assert_eq!(Ordering::Equal, high_order.cmp(&high_order));
    assert_eq!(Ordering::Less, small_order.cmp(&high_order));
}

#[test]
fn heap_orders() {
    let asset = Asset::new("HGLG11");
    let investor = joe();

    let mut heap = OrderQueue::<Sell>::new(true);
    heap.push(Order::new(asset.to_owned(), investor.to_owned(), "1", price(5.0), 5));
    heap.push(Order::new(asset.to_owned(), investor.to_owned(), "2", price(7.0), 3));
    heap.push(Order::new(asset.to_owned(), investor.to_owned(), "3", price(3.75), 100));

    assert_eq!(3, heap.len());
    assert_eq!(7.0, number(heap.pop().unwrap().price()));
    assert_eq!(5.0, number(heap.pop().unwrap().price()));
    assert_eq!(3.75, number(heap.pop().unwrap().price()));
}

#[test]
fn check_order_state() {
    let asset = Asset::new("HGLG11");
    let investor = joe();

    let mut order =
        Order::<Sell, Open>::new(asset.to_owned(), investor.to_owned(), "123", price(7.0), 5);

    // With no pending shares an order is closed.
    assert!(order.sell(5).is_ok());
    assert_eq!(OrderTransition::Closed(order.copy()), order.check_order());

    // With pending shares an order stays open.
    let order = Order::<Sell, Open>::new(asset, investor, "123", price(7.0), 5);
    assert_eq!(5, *order.pending_shares());
    assert_eq!(OrderTransition::Open(order.copy()), order.check_order());
}

#[test]
fn check_sell() {
    let asset = Asset::new("HGLG11");
    let investor = joe();

    let mut order = Order::<Sell, Open>::new(asset, investor.to_owned(), "123", price(7.0), 5);

    // Selling more than is pending is refused.
    assert_eq!(Err(OrderError::OutRangeShareCount), order.sell(10));

    // Selling less than is pending keeps the order open.
    let sell_partial = order.sell(3);
    assert_eq!(Ok(OrderTransition::Open(order.copy())), sell_partial);
    assert_eq!(Some(7), order.investor().quantity_of("HGLG11"));

    // Selling all that is pending closes the order.
    let sell_remain = order.sell(2);
    assert_eq!(Ok(OrderTransition::Closed(order.copy())), sell_remain);
    assert_eq!(Some(5), order.investor().quantity_of("HGLG11"));
}

#[test]
fn check_buy() {
    let asset = Asset::new("HGLG11");
    let investor = joe();

    let mut order = Order::<Buy, Open>::new(asset, investor.to_owned(), "123", price(7.0), 5);

    // Buying more than is pending is refused.
    assert_eq!(Err(OrderError::OutRangeShareCount), order.buy(10));

    // Buying less than is pending keeps the order open.
    let buy_partial = order.buy(3);
    assert_eq!(Ok(OrderTransition::Open(order.copy())), buy_partial);
    assert_eq!(Some(13), order.investor().quantity_of("HGLG11"));

    // Buying all that is pending closes the order.
    let buy_remain = order.buy(2);
    assert_eq!(Ok(OrderTransition::Closed(order.copy())), buy_remain);
    assert_eq!(Some(15), order.investor().quantity_of("HGLG11"));
}

#[test]
fn a_refused_fill_leaves_the_order_as_it_was() {
    let asset = Asset::new("X");
    let poor = Investor::new("1".into(), "A".into(), vec![("X".into(), 3)]);
    let mut order = Order::<Sell, Open>::new(asset, poor, "A", price(5.0), 10);
    let before: Order<Sell, Open> = order.copy();

    // Ten are pending, but the seller holds three.
    assert_eq!(Err(OrderError::OutRangeShareCount), order.sell(10));
    assert_eq!(before, order);
    assert!(!order.covers(4));
    assert!(order.covers(3));

    // A seller without an entry for the asset cannot sell at all.
    let nobody = Investor::new("2".into(), "B".into(), vec![]);
    let mut order = Order::<Sell, Open>::new(Asset::new("X"), nobody, "B", price(5.0), 10);
    assert_eq!(Err(OrderError::OutRangeShareCount), order.sell(1));
    assert_eq!(10, *order.pending_shares());
}

#[test]
fn pending_shares_never_grow_and_a_closed_order_stays_closed() {
    let mut order =
        Order::<Buy, Open>::new(Asset::new("X"), Investor::new("1".into(), "A".into(), vec![]), "B", price(1.0), 4);

    let mut last = *order.pending_shares();
    for count in [1u32, 9, 0, 2, 1, 1, 0] {
        let _ = order.buy(count);
        assert!(*order.pending_shares() <= last);
        last = *order.pending_shares();
    }
    assert_eq!(0, last);
    assert_eq!(4, order.shares());
    assert_eq!(Err(OrderError::OutRangeShareCount), order.buy(1));
    assert_eq!(OrderTransition::Closed(order.copy()), order.check_order());
    assert_eq!(Some(4), order.investor().quantity_of("X"));
}

#[test]
fn getters_give_what_the_order_was_made_with() {
    let order = Order::<Buy, Closed>::new(Asset::new("X"), joe(), "order-1", price(2.5), 8);

    assert_eq!("order-1", order.id());
    assert_eq!(2.5, number(order.price()));
    assert_eq!(8, order.shares());
    assert_eq!("X", order.asset().id());
    assert_eq!("123", order.investor().id());
    assert_eq!("X", order.asset_id());
}

#[test]
fn resolve_type_finds_side_and_state() {
    let open_buy = Order::<Buy, Closed>::new(Asset::new("X"), joe(), "B", price(2.5), 8);
    match open_buy.resolve_type() {
        OrderResolution::Buy(OrderTransition::Open(order)) => {
            assert_eq!("B", order.id());
            assert_eq!(8, *order.pending_shares());
        }
        other => panic!("{:?}", other),
    }

    let closed_sell = Order::<Sell, Open>::new(Asset::new("X"), joe(), "S", price(2.5), 0);
    match closed_sell.resolve_type() {
        OrderResolution::Sell(OrderTransition::Closed(order)) => assert_eq!("S", order.id()),
        other => panic!("{:?}", other),
    }
}

#[test]
fn arriving_orders() {
    let fields = |quantity: u32| OrderDTO {
        id: "a16a766e-3373-457b-965a-6aee3c145b4f",
        investor_id: "394970b3-52aa-4dfb-8e7d-55e03251ff5c",
        investor_name: "Joe Doe",
        asset_id: "HGLG11",
        price: price(13.45),
        quantity,
    };

    // A buyer arrives holding nothing.
    let bought = OrderResolution::from(IncomingOrderDTO::Buy(fields(5)));
    assert_eq!("HGLG11", bought.asset_id());
    match bought {
        OrderResolution::Buy(OrderTransition::Open(order)) => {
            assert_eq!("a16a766e-3373-457b-965a-6aee3c145b4f", order.id());
            assert_eq!(13.45, number(order.price()));
            assert_eq!(5, order.shares());
            assert_eq!(5, *order.pending_shares());
            assert_eq!("394970b3-52aa-4dfb-8e7d-55e03251ff5c", order.investor().id());
            assert_eq!("Joe Doe", order.investor().name());
            assert_eq!(0, order.investor().assets().len());
        }
        other => panic!("{:?}", other),
    }

    // A seller arrives holding exactly the shares on offer.
    match OrderResolution::from(IncomingOrderDTO::Sell(fields(5))) {
        OrderResolution::Sell(OrderTransition::Open(order)) => {
            assert_eq!(Some(5), order.investor().quantity_of("HGLG11"));
            assert_eq!(1, order.investor().assets().len());
            assert!(order.covers(5));
        }
        other => panic!("{:?}", other),
    }

    // An order that offers no shares arrives closed.
    match OrderResolution::from(IncomingOrderDTO::Sell(fields(0))) {
        OrderResolution::Sell(OrderTransition::Closed(order)) => assert_eq!(0, order.shares()),
        other => panic!("{:?}", other),
    }
}

#[test]
fn prices_are_finite_and_not_negative() {
    assert!(ComparableFloat::from_bits(0.0f32.to_bits()).is_some());
    assert!(ComparableFloat::from_bits(f32::MAX.to_bits()).is_some());
    assert!(ComparableFloat::from_bits(f32::INFINITY.to_bits()).is_none());
    assert!(ComparableFloat::from_bits(f32::NAN.to_bits()).is_none());
    assert!(ComparableFloat::from_bits((-1.0f32).to_bits()).is_none());
    assert!(ComparableFloat::from_bits((-0.0f32).to_bits()).is_none());

    assert_eq!(Ordering::Less, price(5.0).cmp(&price(5.5)));
    assert_eq!(Ordering::Greater, price(1e-40).cmp(&price(0.0)));
    assert_eq!(Ordering::Equal, price(3.75).cmp(&price(3.75)));
    assert_eq!(price(3.75), price(3.75));
    assert_eq!(5.5f32.to_bits(), price(5.5).to_bits());
}

#[test]
fn queue_serves_equal_prices_in_order_of_arrival() {
    let asset = Asset::new("X");
    let mut lowest = OrderQueue::<Sell>::new(false);
    assert!(lowest.is_empty());
    assert!(lowest.peek().is_none());
    assert!(lowest.pop().is_none());

    for (id, p) in [("a", 5.0f32), ("b", 4.0), ("c", 5.0), ("d", 4.0), ("e", 6.0)] {
        lowest.push(Order::new(asset.to_owned(), joe(), id, price(p), 1));
    }
    assert_eq!(5, lowest.len());
    assert_eq!("b", lowest.peek().unwrap().id());

    let served: Vec<String> =
        std::iter::from_fn(|| lowest.pop()).map(|order| order.id().to_string()).collect();
    assert_eq!(vec!["b", "d", "a", "c", "e"], served);

    let mut highest = OrderQueue::<Buy>::new(true);
    for (id, p) in [("a", 5.0f32), ("b", 6.0), ("c", 5.0), ("d", 6.0)] {
        highest.push(Order::new(asset.to_owned(), joe(), id, price(p), 1));
    }
    let served: Vec<String> =
        std::iter::from_fn(|| highest.pop()).map(|order| order.id().to_string()).collect();
    assert_eq!(vec!["b", "d", "a", "c"], served);
}
