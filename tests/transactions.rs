use tastyworks::api::transactions::{Item, TradeAction, TransactionError, ValueEffect};
use tastyworks::common::Timestamp;
use tastyworks::csv::{self, Transaction};
use tastyworks::decimal::Decimal;

fn dec(s: &str) -> Decimal {
    Decimal::parse(s).unwrap()
}

fn record(trade_type: &str, description: &str) -> Transaction {
    Transaction {
        date: Timestamp { seconds: 1_600_000_000, nanoseconds: 0, offset_seconds: -14_400 },
        trade_type: trade_type.to_string(),
        action: Some(csv::TradeAction::SellToOpen),
        symbol: Some("SPXW  201218P03000000".to_string()),
        instrument_type: Some("Equity Option".to_string()),
        description: description.to_string(),
        value: dec("-150.25"),
        quantity: dec("1"),
        average_price: None,
        commissions: Some(dec("-1")),
        fees: dec("-0.1"),
        multiplier: Some(100),
        expiration_date: None,
        strike_price: None,
        call_or_put: None,
    }
}

#[test]
fn trade_record_maps_to_trade() {
    let item = Item::from_csv(record("Trade", "Sold 1 SPXW")).unwrap();
    let trade = match item {
        Item::Trade(t) => t,
        _ => panic!("expected a trade"),
    };
    assert_eq!(trade.id, 0);
    assert_eq!(trade.symbol, "SPXW  201218P03000000");
    assert_eq!(trade.underlying_symbol, "SPX");
    assert_eq!(trade.action, TradeAction::SellToOpen);
    assert_eq!(trade.value().to_string(), "-150.25");
    assert_eq!(trade.value_effect, ValueEffect::Debit);
    assert_eq!(trade.commission().to_string(), "1");
    assert_eq!(trade.fees().unwrap().to_string(), "-0.1");
    assert_eq!(trade.clearing_fees.to_string(), "0.0334");
    assert_eq!(trade.regulatory_fees.to_string(), "0.0333");
    assert_eq!(trade.ext_global_order_number, Some(0));
}

#[test]
fn trade_record_needs_commissions_and_action() {
    let mut r = record("Trade", "");
    r.commissions = None;
    assert_eq!(Item::from_csv(r).unwrap_err(), TransactionError::MissingCommissions);
    let mut r = record("Trade", "");
    r.action = None;
    assert_eq!(Item::from_csv(r).unwrap_err(), TransactionError::MissingAction);
}

#[test]
fn delivery_sub_types() {
    let kind = |d: &str| match Item::from_csv(record("Receive Deliver", d)).unwrap() {
        Item::ReceiveDeliver(t) => t.transaction_sub_type,
        _ => panic!("expected a delivery"),
    };
    assert_eq!(kind("Removal of option due to EXPIRATION"), "Expiration");
    assert_eq!(kind("Exercise of 1 contract"), "Exercise");
    assert_eq!(kind("Forward Split 2:1"), "Forward Split");
    assert_eq!(kind("Symbol Change"), "symbol change");
    let delivery = match Item::from_csv(record("Receive Deliver", "Assignment")).unwrap() {
        Item::ReceiveDeliver(t) => t,
        _ => panic!("expected a delivery"),
    };
    assert_eq!(delivery.fees().unwrap().to_string(), "-0.1");
    assert_eq!(delivery.action, Some(TradeAction::SellToOpen));
}

#[test]
fn other_records_and_ids() {
    let mut item = Item::from_csv(record("Money Movement", "Wire")).unwrap();
    match &item {
        Item::Other(o) => assert_eq!(o.value().to_string(), "-150.25"),
        _ => panic!("expected another item"),
    }
    item.set_id(7);
    assert_eq!(item.id(), 7);
    assert_eq!(item.executed_at().offset_seconds, -14_400);
}

#[test]
fn transaction_underlying() {
    let mut r = record("Trade", "");
    assert_eq!(r.underlying_symbol().unwrap(), "SPX");
    r.symbol = Some("   ".to_string());
    assert!(r.underlying_symbol().is_none());
    r.symbol = None;
    assert!(r.underlying_symbol().is_none());
}

#[test]
fn items_are_equal_by_identifier() {
    let a = match Item::from_csv(record("Trade", "")).unwrap() {
        Item::Trade(t) => t,
        _ => panic!("expected a trade"),
    };
    let mut b = a.clone();
    b.symbol = "OTHER".to_string();
    assert!(a == b);
    b.id = 1;
    assert!(a != b);
}

#[test]
fn transaction_expiration_is_a_date() {
    let d = csv::TransactionExpiration::from_str("12/1/21").unwrap();
    let date: tastyworks::common::ExpirationDate = d.into();
    assert_eq!((date.year, date.month, date.day), (2021, 12, 1));
}

#[test]
fn trade_items_read_their_option_symbol() {
    let trade = match Item::from_csv(record("Trade", "")).unwrap() {
        Item::Trade(t) => t,
        _ => panic!("expected a trade"),
    };
    assert_eq!(trade.underlying_symbol().unwrap(), "SPX");
    assert_eq!(trade.option_type().unwrap(), tastyworks::common::OptionType::Put);
    assert_eq!(trade.strike_price().unwrap().to_decimal().unwrap().to_string(), "3000");
    assert_eq!(trade.expiration_date().unwrap().day, 18);
    let delivery = match Item::from_csv(record("Receive Deliver", "Expiration")).unwrap() {
        Item::ReceiveDeliver(t) => t,
        _ => panic!("expected a delivery"),
    };
    assert_eq!(delivery.underlying_symbol().unwrap(), "SPX");
    assert_eq!(delivery.strike_price().unwrap().to_decimal().unwrap().units(), 30_000_000);
    assert_eq!(delivery.expiration_date().unwrap().month, 12);
    assert_eq!(delivery.option_type().unwrap(), tastyworks::common::OptionType::Put);
}
