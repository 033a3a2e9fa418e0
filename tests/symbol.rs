use num_rational::Rational64;
use tastyworks::common::{ExpirationDate, OptionType};
use tastyworks::symbol::StrikePrice;
use tastyworks::symbol::{strip_weekly, OptionSymbol, QuoteSymbol, SymbolPart};

#[test]
fn test_option_symbol_quote_symbol() {
    let quote_symbol = OptionSymbol::from("IQ 200918P00017500").quote_symbol().unwrap();
    assert_eq!(quote_symbol, ".IQ200918P17.5");
}

#[test]
fn test_option_symbol_option_type() {
    let option_type = OptionSymbol::from("IQ 200918P00017500").option_type().unwrap();
    assert_eq!(option_type, OptionType::Put);

    let option_type = OptionSymbol::from("IQ 200918C00017500").option_type().unwrap();
    assert_eq!(option_type, OptionType::Call);
}

#[test]
fn test_option_symbol_strike_price() {
    let strike_price = OptionSymbol::from("IQ 200918P00017500").strike_price().unwrap();
    assert_eq!(
        Rational64::new(strike_price.mantissa as i64, 10i64.pow(strike_price.scale)),
        Rational64::new(175, 10)
    );
}

#[test]
fn test_option_symbol_strike_price2() {
    let strike_price = OptionSymbol::from("PENN  200821C00040500").strike_price().unwrap();
    assert_eq!(
        Rational64::new(strike_price.mantissa as i64, 10i64.pow(strike_price.scale)),
        Rational64::new(405, 10)
    );
}

#[test]
fn test_quote_symbol_matches_underlying_symbol() {
    let quote_symbol = QuoteSymbol::from(".IQ200918P17.5");
    assert!(quote_symbol.matches_underlying_symbol("IQ"));
}

#[test]
fn equity_symbol_decomposes() {
    let symbol = OptionSymbol::from("IQ 200918P00017500");
    assert_eq!(symbol.underlying_symbol().unwrap(), "IQ");
    assert_eq!(
        symbol.expiration_date().unwrap(),
        ExpirationDate { year: 2020, month: 9, day: 18 }
    );
    assert_eq!(symbol.option_type().unwrap(), OptionType::Put);
    assert_eq!(symbol.strike_price().unwrap().to_decimal().unwrap().units(), 175_000);
    assert_eq!(symbol.strike_price().unwrap().to_decimal().unwrap().to_string(), "17.5");
}

#[test]
fn padded_equity_symbol_strike() {
    let symbol = OptionSymbol::from("PENN  200821C00040500");
    assert_eq!(symbol.strike_price().unwrap().to_decimal().unwrap().units(), 405_000);
    assert_eq!(symbol.underlying_symbol().unwrap(), "PENN");
    assert_eq!(symbol.quote_symbol().unwrap(), ".PENN200821C40.5");
}

#[test]
fn futures_symbol_quote() {
    let symbol = OptionSymbol::from("./NGZ0 LNEZ0 201124C4.5");
    assert_eq!(symbol.quote_symbol().unwrap(), "./LNEZ20C4.5:XNYM");
    assert_eq!(symbol.underlying_symbol().unwrap(), "NG");
    assert_eq!(symbol.option_type().unwrap(), OptionType::Call);
    assert_eq!(symbol.strike_price().unwrap().to_decimal().unwrap().units(), 45_000);
}

#[test]
fn futures_symbol_has_no_expiration_in_view() {
    let err = OptionSymbol::from("./NGZ0 LNEZ0 201124C4.5")
        .expiration_date()
        .unwrap_err();
    assert_eq!(err.part, SymbolPart::Expiration);
    assert_eq!(err.text, "./NGZ0 LNEZ0 201124C4.5");
}

#[test]
fn unknown_futures_root_is_named() {
    let err = OptionSymbol::from("./QQZ0 QQQZ0 201124C4.5")
        .quote_symbol()
        .unwrap_err();
    assert_eq!(err.part, SymbolPart::Exchange);
    assert_eq!(err.text, "QQ");
}

#[test]
fn whole_strike_drops_the_point() {
    assert_eq!(
        OptionSymbol::from("SPY 210115C00300000").quote_symbol().unwrap(),
        ".SPY210115C300"
    );
    assert_eq!(
        OptionSymbol::from("SPY 210115C00000500").quote_symbol().unwrap(),
        ".SPY210115C0.5"
    );
}

#[test]
fn weekly_index_symbol_reads_as_index() {
    assert_eq!(strip_weekly("SPXW"), "SPX");
    assert_eq!(strip_weekly("SPX"), "SPX");
    assert_eq!(strip_weekly("SPXWW"), "SPXWW");
    let symbol = OptionSymbol::from("SPXW  201218P03000000");
    assert_eq!(symbol.underlying_symbol().unwrap(), "SPX");
    assert_eq!(symbol.quote_symbol().unwrap(), ".SPX201218P3000");
}

#[test]
fn malformed_symbols_fail_by_part() {
    assert_eq!(
        OptionSymbol::from("IQ 200918X00017500").option_type().unwrap_err().part,
        SymbolPart::OptionType
    );
    assert_eq!(
        OptionSymbol::from("IQ").option_type().unwrap_err().part,
        SymbolPart::OptionType
    );
    assert_eq!(
        OptionSymbol::from("IQ 200918P0001750A").strike_price().unwrap_err().part,
        SymbolPart::Strike
    );
    assert_eq!(
        OptionSymbol::from("IQ 200918P000175").strike_price().unwrap_err().part,
        SymbolPart::Strike
    );
    assert_eq!(
        OptionSymbol::from("IQ 201318P00017500").expiration_date().unwrap_err().part,
        SymbolPart::Expiration
    );
    assert_eq!(
        OptionSymbol::from("").underlying_symbol().unwrap_err().part,
        SymbolPart::Underlying
    );
    assert_eq!(
        OptionSymbol::from("IQ 2009").quote_symbol().unwrap_err().part,
        SymbolPart::Expiration
    );
}

#[test]
fn leap_day_expiration() {
    assert_eq!(
        OptionSymbol::from("IQ 200229P00017500").expiration_date().unwrap(),
        ExpirationDate { year: 2020, month: 2, day: 29 }
    );
    assert!(OptionSymbol::from("IQ 210229P00017500").expiration_date().is_err());
    assert_eq!(
        OptionSymbol::from("IQ 991231P00017500").expiration_date().unwrap().year,
        1999
    );
}

#[test]
fn quote_symbol_underlying_match() {
    let quote_symbol = QuoteSymbol::from(".IQ200918P17.5");
    assert!(quote_symbol.matches_underlying_symbol("IQ"));
    assert!(!quote_symbol.matches_underlying_symbol("I"));
    assert!(!quote_symbol.matches_underlying_symbol("IQX"));
    assert!(QuoteSymbol::from(".IQ").matches_underlying_symbol("IQ"));
    assert!(!QuoteSymbol::from("").matches_underlying_symbol(""));
}

#[test]
fn futures_contract_code_needs_year_digit() {
    let err = OptionSymbol::from("./NGZ0 LNEZ 201124C4.5").quote_symbol().unwrap_err();
    assert_eq!(err.part, SymbolPart::ContractCode);
    assert_eq!(err.text, "./NGZ0 LNEZ 201124C4.5");
}

#[test]
fn symbols_display_as_written() {
    assert_eq!(OptionSymbol::from("IQ 200918P00017500").to_string(), "IQ 200918P00017500");
    assert_eq!(QuoteSymbol::from(".IQ200918P17.5").to_string(), ".IQ200918P17.5");
}

#[test]
fn unicode_whitespace_separates_tokens() {
    assert_eq!(OptionSymbol::from("A\u{A0}B").underlying_symbol().unwrap(), "A");
    assert_eq!(OptionSymbol::from("./NGZ0\u{A0}X").underlying_symbol().unwrap(), "NG");
    assert_eq!(
        OptionSymbol::from("A\u{A0}000000P").option_type().unwrap(),
        OptionType::Put
    );
    assert_eq!(
        OptionSymbol::from("A\u{A0}200918").expiration_date().unwrap(),
        ExpirationDate { year: 2020, month: 9, day: 18 }
    );
    assert_eq!(
        OptionSymbol::from("A\u{A0}200918P00017500").quote_symbol().unwrap(),
        ".A200918P17.5"
    );
    assert_eq!(
        OptionSymbol::from("IQ\u{3000}\u{2003}200918C00017500").strike_price().unwrap().to_decimal().unwrap().units(),
        175_000
    );
}

#[test]
fn unicode_digit_after_underlying_matches() {
    assert!(QuoteSymbol::from(".IQ\u{663}").matches_underlying_symbol("IQ"));
    assert!(!QuoteSymbol::from(".IQX").matches_underlying_symbol("IQ"));
}

#[test]
fn futures_strike_is_exact_at_any_width() {
    let strike = OptionSymbol::from("./6JZ0 JPUZ0 201204C0.006850").strike_price().unwrap();
    assert_eq!(strike, StrikePrice { mantissa: 6850, scale: 6 });
    assert!(strike.to_decimal().is_none());
    assert_eq!(
        OptionSymbol::from("./6JZ0 JPUZ0 201204C0.006850").quote_symbol().unwrap(),
        "./JPUZ20C0.00685:XCME"
    );
    let whole = OptionSymbol::from("./ESZ0 ESZ0 201218P3200").strike_price().unwrap();
    assert_eq!(whole, StrikePrice { mantissa: 3200, scale: 0 });
    let point = OptionSymbol::from("./ESZ0 ESZ0 201218P3200.").strike_price().unwrap();
    assert_eq!(point, StrikePrice { mantissa: 3200, scale: 0 });
}

#[test]
fn futures_strike_takes_digits_only() {
    for symbol in ["./NGZ0 LNEZ0 201124C-4.5", "./NGZ0 LNEZ0 201124C1,000.5", "./NGZ0 LNEZ0 201124C.5"] {
        assert_eq!(
            OptionSymbol::from(symbol).strike_price().unwrap_err().part,
            SymbolPart::Strike
        );
        assert_eq!(OptionSymbol::from(symbol).quote_symbol().unwrap_err().part, SymbolPart::Strike);
    }
}

#[test]
fn shorter_underlying_does_not_match() {
    let q = OptionSymbol::from("IQ 200918P00017500").quote_symbol().unwrap();
    assert!(!QuoteSymbol::from(&q).matches_underlying_symbol("I"));
    assert!(QuoteSymbol::from(&q).matches_underlying_symbol("IQ"));
}
