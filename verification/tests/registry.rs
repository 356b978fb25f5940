use trade_wara::book_registry::BookRegistry;
use trade_wara::dto::order_dto::{IncomingOrderDTO, OrderDTO};
use trade_wara::dto::transaction_dto::TransactionDTO;
use trade_wara::entities::asset::Asset;
use trade_wara::entities::investor::Investor;
use trade_wara::entities::order::{Buy, Open, Order, OrderItem, OrderResolution, OrderTransition, Sell};
use trade_wara::entities::transaction::Transaction;
use trade_wara::order_book::OrderBookError;
use trade_wara::stamp::Timestamp;
use trade_wara::ComparableFloat;

fn price(value: f32) -> ComparableFloat {
    ComparableFloat::from_bits(value.to_bits()).unwrap()
}

fn arriving<'a>(id: &'a str, asset: &'a str, p: f32, quantity: u32) -> OrderDTO<'a> {
    OrderDTO {
        id,
        investor_id: "I",
        investor_name: "Investor",
        asset_id: asset,
        price: price(p),
        quantity,
    }
}

#[test]
fn one_book_for_each_asset() {
    let mut registry = BookRegistry::new();
    assert_eq!(0, registry.len());
    assert!(registry.get("X").is_none());

    assert_eq!("X", registry.get_or_create("X").asset_id());
    assert_eq!("Y", registry.get_or_create("Y").asset_id());
    assert_eq!(2, registry.len());

    let order = Order::<Sell, Open>::new(
        Asset::new("X"),
        Investor::new("1".into(), "A".into(), vec![("X".into(), 1)]),
        "S",
        price(1.0),
        1,
    );
    assert!(registry.get_or_create("X").append(order.resolve_type()).is_ok());

    // The book that was made first is the one that is found again.
    assert_eq!(2, registry.len());
    assert_eq!(1, registry.get_or_create("X").sell_orders().len());
    assert_eq!(1, registry.get("X").unwrap().sell_orders().len());
    assert_eq!(0, registry.get("Y").unwrap().sell_orders().len());
}

#[test]
fn submit_routes_and_matches() {
    let mut registry = BookRegistry::new();

    let sell_x = OrderResolution::from(IncomingOrderDTO::Sell(arriving("A", "X", 5.0, 10)));
    let (transactions, reason) = registry.submit(sell_x).unwrap();
    assert!(transactions.is_empty());
    assert_eq!(OrderBookError::NoMatchingOrderAvailable, reason);

    let buy_y = OrderResolution::from(IncomingOrderDTO::Buy(arriving("B", "Y", 9.0, 10)));
    let (transactions, _) = registry.submit(buy_y).unwrap();
    assert!(transactions.is_empty());
    assert_eq!(2, registry.len());

    let buy_x = OrderResolution::from(IncomingOrderDTO::Buy(arriving("C", "X", 5.5, 4)));
    let (transactions, reason) = registry.submit(buy_x).unwrap();
    assert_eq!(OrderBookError::NoMatchingOrderAvailable, reason);
    assert_eq!(1, transactions.len());
    assert_eq!(4, transactions[0].traded_shares());
    assert_eq!("A", transactions[0].selling_order().get_order_id());
    assert_eq!("C", transactions[0].buying_order().get_order_id());

    let book = registry.get("X").unwrap();
    assert_eq!(6, *book.sell_orders().peek().unwrap().pending_shares());
    assert!(book.buy_orders().is_empty());
    assert_eq!(1, registry.get("Y").unwrap().buy_orders().len());
}

#[test]
fn submit_refuses_a_closed_order() {
    let mut registry = BookRegistry::new();
    let nothing = OrderResolution::from(IncomingOrderDTO::Buy(arriving("B", "X", 5.0, 0)));

    assert_eq!(
        Err(OrderBookError::InvalidOrderState),
        registry.submit(nothing).map(|_| ())
    );
    assert_eq!(1, registry.len());
    assert!(registry.get("X").unwrap().buy_orders().is_empty());
}

#[test]
fn submit_stops_at_a_seller_who_cannot_deliver() {
    let mut registry = BookRegistry::new();
    let short = Order::<Sell, Open>::new(
        Asset::new("X"),
        Investor::new("1".into(), "A".into(), vec![("X".into(), 3)]),
        "S",
        price(5.0),
        10,
    );
    let (transactions, _) = registry.submit(short.resolve_type()).unwrap();
    assert!(transactions.is_empty());

    let buyer = Order::<Buy, Open>::new(
        Asset::new("X"),
        Investor::new("2".into(), "B".into(), vec![]),
        "B",
        price(5.0),
        10,
    );
    let (transactions, reason) = registry.submit(buyer.resolve_type()).unwrap();
    assert!(transactions.is_empty());
    assert_eq!(OrderBookError::MatchingError("OutRangeShareCount".into()), reason);
    assert_eq!(1, registry.get("X").unwrap().buy_orders().len());
    assert_eq!(1, registry.get("X").unwrap().sell_orders().len());
}

fn is_uuid_v4(text: &str) -> bool {
    let bytes = text.as_bytes();
    bytes.len() == 36
        && bytes.iter().enumerate().all(|(i, b)| match i {
            8 | 13 | 18 | 23 => *b == b'-',
            _ => b.is_ascii_digit() || (b'a'..=b'f').contains(b),
        })
        && bytes[14] == b'4'
        && matches!(bytes[19], b'8' | b'9' | b'a' | b'b')
}

#[test]
fn a_transaction_is_stamped_with_a_fresh_identifier_and_the_present_instant() {
    let buying = Order::<Buy, Open>::new(
        Asset::new("X"),
        Investor::new("2".into(), "B".into(), vec![]),
        "B",
        price(5.0),
        1,
    );
    let selling = Order::<Sell, Open>::new(
        Asset::new("X"),
        Investor::new("1".into(), "A".into(), vec![]),
        "S",
        price(5.0),
        1,
    );
    let first = Transaction::new(buying.check_order(), selling.check_order(), 1, price(5.0));
    let second = Transaction::new(buying.check_order(), selling.check_order(), 1, price(5.0));

    assert!(is_uuid_v4(first.id()), "{}", first.id());
    assert!(is_uuid_v4(second.id()), "{}", second.id());
    assert_ne!(first.id(), second.id());

    // Some instant after 2020-01-01T00:00:00Z, and not before the first.
    assert!(first.traded_at().nanos() > 1_577_836_800_000_000_000);
    assert!(second.traded_at() >= first.traded_at());
    assert_eq!(1, first.traded_shares());
    assert_eq!(price(5.0), first.unit_price());
}

#[test]
fn instants_are_written_as_rfc_3339() {
    assert_eq!("1970-01-01T00:00:00+00:00", Timestamp::from_nanos(0).to_rfc3339());
    assert_eq!(
        "2022-09-11T18:34:48.000000001+00:00",
        Timestamp::from_nanos(1_662_921_288_000_000_001).to_rfc3339()
    );
    assert_eq!(
        "1969-12-31T23:59:59.500+00:00",
        Timestamp::from_nanos(-500_000_000).to_rfc3339()
    );
    assert_eq!(5, Timestamp::from_nanos(5).nanos());
    assert_eq!(Timestamp::from_nanos(7), Timestamp::from_reading(Some(7)));
    assert_eq!(Timestamp::from_nanos(i64::MAX), Timestamp::from_reading(None));
}

#[test]
fn the_published_form_of_a_transaction() {
    let buying = Order::<Buy, Open>::new(
        Asset::new("X"),
        Investor::new("2".into(), "B".into(), vec![]),
        "buy-1",
        price(5.5),
        0,
    );
    let selling = Order::<Sell, Open>::new(
        Asset::new("X"),
        Investor::new("1".into(), "A".into(), vec![]),
        "sell-1",
        price(5.0),
        5,
    );
    let transaction = Transaction::assemble(
        "7d8a7b0e-3f1c-4c53-9b0a-6f4f6f5f3a11".into(),
        buying.check_order(),
        selling.check_order(),
        5,
        price(5.5),
        Timestamp::from_nanos(1_431_648_000_000_000_000),
    );
    assert!(matches!(transaction.buying_order(), OrderTransition::Closed(_)));
    assert!(matches!(transaction.selling_order(), OrderTransition::Open(_)));

    let dto = TransactionDTO::from(&transaction);
    assert_eq!(
        TransactionDTO {
            id: "7d8a7b0e-3f1c-4c53-9b0a-6f4f6f5f3a11".into(),
            buying_order_id: "buy-1".into(),
            selling_order_id: "sell-1".into(),
            traded_shares: 5,
            unit_price: price(5.5),
            traded_at: "2015-05-15T00:00:00+00:00".into(),
        },
        dto
    );
    assert_eq!(27.5, dto.traded_shares as f32 * f32::from_bits(dto.unit_price.to_bits()));

    let worded = TransactionDTO::assemble(&transaction, "now".into());
    assert_eq!("now", worded.traded_at);
    assert_eq!(dto.id, worded.id);
    assert_eq!("sell-1", worded.selling_order_id);
}
