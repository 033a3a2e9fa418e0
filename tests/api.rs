use std::cmp::Ordering;
use tastyworks::api::market_metrics::{Earnings, EarningsTimeOfDay};
use tastyworks::api::positions::{Item, QuantityDirection};
use tastyworks::api::transactions::{TradeAction, ValueEffect};
use tastyworks::api::Pagination;
use tastyworks::common::{ExpirationDate, OptionType};
use tastyworks::context::Context;
use tastyworks::csv::{self, OptionTypePascalCase, OptionTypeUpperCase, Position};
use tastyworks::decimal::Decimal;
use tastyworks::session::Session;

fn position(symbol: &str, instrument_type: &str, quantity: i32, days_open: &str) -> Position {
    Position {
        symbol: symbol.to_string(),
        instrument_type: instrument_type.to_string(),
        quantity,
        strike_price: Decimal::parse("17.5").unwrap(),
        call_or_put: OptionTypePascalCase::Put,
        days_open: days_open.to_string(),
        net_liq: Decimal::parse("-120").unwrap(),
    }
}

#[test]
fn trade_actions() {
    assert_eq!(TradeAction::SellToOpen.opposing_action(), TradeAction::BuyToClose);
    assert_eq!(TradeAction::Buy.opposing_action(), TradeAction::Sell);
    assert!(TradeAction::Sell.opens());
    assert!(TradeAction::BuyToClose.closes());
    assert!(!TradeAction::BuyToOpen.closes());
    assert_eq!(TradeAction::from(csv::TradeAction::SellToClose), TradeAction::SellToClose);
}

#[test]
fn value_effects() {
    let v = Decimal::parse("12.5").unwrap();
    assert_eq!(ValueEffect::Debit.apply(&v).to_string(), "-12.5");
    assert_eq!(ValueEffect::Credit.apply(&v).to_string(), "12.5");
    assert_eq!(ValueEffect::NoEffect.apply(&v).to_string(), "0");
    assert_eq!(ValueEffect::from_value(&v), ValueEffect::Credit);
    assert_eq!(ValueEffect::from_value(&v.neg()), ValueEffect::Debit);
    assert_eq!(ValueEffect::from_value(&Decimal::zero()), ValueEffect::NoEffect);
}

#[test]
fn quantity_direction() {
    assert_eq!(QuantityDirection::from_signed_quantity(3), QuantityDirection::Long);
    assert_eq!(QuantityDirection::from_signed_quantity(0), QuantityDirection::Short);
    assert_eq!(QuantityDirection::from_signed_quantity(-2), QuantityDirection::Short);
}

#[test]
fn csv_position_accessors() {
    let p = position("IQ 200918P00017500", "OPTION", -2, "12d");
    assert_eq!(p.days_open(), Some(12));
    assert_eq!(p.underlying_symbol().unwrap(), "IQ");
    assert_eq!(
        p.expiration_date().unwrap(),
        ExpirationDate { year: 2020, month: 9, day: 18 }
    );
    assert_eq!(position("X", "STOCK", 1, "0d").days_open(), Some(0));
    assert_eq!(position("X", "STOCK", 1, "12").days_open(), None);
    assert_eq!(position("X", "STOCK", 1, "d").days_open(), None);
    assert_eq!(position("X", "STOCK", 1, "1x2d").days_open(), None);
    assert_eq!(position("X", "STOCK", 1, "99999999999d").days_open(), None);
}

#[test]
fn position_from_csv() {
    let item = Item::from_csv(position("IQ 200918P00017500", "OPTION", -2, "1d")).unwrap();
    assert_eq!(item.quantity.to_string(), "2");
    assert_eq!(item.quantity_direction, QuantityDirection::Short);
    assert_eq!(item.instrument_type, "Equity Option");
    assert_eq!(item.quote_symbol().unwrap(), ".IQ200918P17.5");
    assert_eq!(item.option_type().unwrap(), OptionType::Put);
    assert_eq!(item.strike_price().unwrap().to_decimal().unwrap().to_string(), "17.5");
    let stock = Item::from_csv(position("SPY", "STOCK", 10, "1d")).unwrap();
    assert_eq!(stock.instrument_type, "Equity");
    assert_eq!(stock.quantity_direction, QuantityDirection::Long);
    assert!(Item::from_csv(position("/ES", "FUTURE", 1, "1d")).is_none());
}

#[test]
fn option_type_spellings() {
    assert_eq!(OptionType::from(OptionTypeUpperCase::Call), OptionType::Call);
    assert_eq!(OptionType::from(OptionTypePascalCase::Put), OptionType::Put);
}

#[test]
fn pagination() {
    let p = Pagination { page_offset: 0, total_pages: 2 };
    assert_eq!(p.next_page_offset(), Some(1));
    let p = Pagination { page_offset: 1, total_pages: 2 };
    assert_eq!(p.next_page_offset(), None);
}

#[test]
fn tokens() {
    assert_eq!(Session::from_token("abc").token(), "abc");
    assert_eq!(Context::from_token("xyz").token(), "xyz");
}

#[test]
fn test_trade_expiration_date_csv_from_str() {
    assert_eq!(
        csv::TransactionExpiration::from_str("7/31/20").unwrap(),
        csv::TransactionExpiration(ExpirationDate { year: 2020, month: 7, day: 31 })
    );
}

#[test]
fn unreadable_transaction_expiration() {
    assert!(csv::TransactionExpiration::from_str("2/30/21").is_err());
    assert!(csv::TransactionExpiration::from_str("July 31").is_err());
}

#[test]
fn earnings_order_by_date_then_time() {
    let day = |d: u32, t: Option<EarningsTimeOfDay>| Earnings {
        expected_report_date: ExpirationDate { year: 2021, month: 1, day: d },
        estimated: false,
        time_of_day: t,
    };
    assert_eq!(day(1, None).compare(&day(2, None)), Ordering::Less);
    assert_eq!(
        day(2, Some(EarningsTimeOfDay::AMC)).compare(&day(2, Some(EarningsTimeOfDay::BTO))),
        Ordering::Greater
    );
    assert_eq!(day(2, None).compare(&day(2, Some(EarningsTimeOfDay::BTO))), Ordering::Less);
    let mut estimated = day(3, None);
    estimated.estimated = true;
    assert_eq!(estimated.compare(&day(3, None)), Ordering::Equal);
}

#[test]
fn token_from_preferences_text() {
    let ok = tastyworks::context::token_from_preferences(r#"{"a":1,"session-id" : "abc123"}"#);
    assert_eq!(ok.unwrap(), "abc123");
    let empty = tastyworks::context::token_from_preferences(r#"{"session-id":""}"#).unwrap_err();
    assert_eq!(empty.kind, tastyworks::context::TokenErrorKind::TokenMissing);
    let missing = tastyworks::context::token_from_preferences("{\n\"other\": 1\n}").unwrap_err();
    assert_eq!(missing.kind, tastyworks::context::TokenErrorKind::SessionKeyMissing);
    let bad = tastyworks::context::token_from_preferences("{\n  \"session-id\": 42, \"x1\": 7\r\n}")
        .unwrap_err();
    assert_eq!(bad.kind, tastyworks::context::TokenErrorKind::FailedRegex);
    assert_eq!(bad.text, "  \"session-id\": **, \"**\": *");
}

#[test]
fn token_from_capture_without_regex() {
    let r = tastyworks::context::token_from_capture("ignored", Some("t0k".to_string()));
    assert_eq!(r.unwrap(), "t0k");
    let r = tastyworks::context::token_from_capture("x session-id y", None).unwrap_err();
    assert_eq!(r.kind, tastyworks::context::TokenErrorKind::FailedRegex);
    assert_eq!(r.text, "* session-id *");
}

#[test]
fn token_pattern_matches_like_the_regex() {
    let t = tastyworks::context::token_from_preferences("{\"session-id\"\u{A0}:\n \"tok\"}");
    assert_eq!(t.unwrap(), "tok");
    let t = tastyworks::context::token_from_preferences(
        "{\"session-id\": 5, \"session-id\":\"second\"}",
    );
    assert_eq!(t.unwrap(), "second");
    let t = tastyworks::context::token_from_preferences("\"session-id\":\"a\"b\"");
    assert_eq!(t.unwrap(), "a");
}
