//! Records of the brokerage's exported position and transaction files.
use vstd::prelude::*;

use crate::common::{ExpirationDate, OptionType, Timestamp};
use crate::decimal::Decimal;
use crate::symbol::{
    expiration_spec, first_token, strip_weekly_chars, strip_weekly_spec, tokens, underlying_spec,
    OptionSymbol, SymbolError,
};
use crate::text::{all_digits, all_digits_in, chars_of, digits_in, digits_value, string_of};

verus! {

/// A row of an exported positions file.
#[derive(Clone, Debug)]
pub struct Position {
    pub symbol: String,
    pub instrument_type: String,
    pub quantity: i32,
    pub strike_price: Decimal,
    pub call_or_put: OptionTypePascalCase,
    /// The days the position has been open, written like `12d`.
    pub days_open: String,
    pub net_liq: Decimal,
}

/// The value of an optionally signed run of digits followed by `d`, when it fits an `i32`.
pub open spec fn days_open_spec(t: Seq<char>) -> Option<int> {
    if t.len() >= 2 && t.last() == 'd' {
        let n = t.drop_last();
        let signed = n[0] == '-' || n[0] == '+';
        let ds = if signed {
            n.drop_first()
        } else {
            n
        };
        let v = if n[0] == '-' {
            -digits_value(ds)
        } else {
            digits_value(ds) as int
        };
        if ds.len() > 0 && all_digits(ds) && i32::MIN <= v <= i32::MAX {
            Some(v)
        } else {
            None
        }
    } else {
        None
    }
}

impl Position {
    pub fn expiration_date(&self) -> (r: Result<ExpirationDate, SymbolError>)
        ensures
            match r {
                Ok(d) => expiration_spec(self.symbol@) == Some(
                    (d.year as int, d.month as int, d.day as int),
                ),
                Err(_) => expiration_spec(self.symbol@) is None,
            },
    {
        OptionSymbol::from(self.symbol.as_str()).expiration_date()
    }

    pub fn underlying_symbol(&self) -> (r: Result<String, SymbolError>)
        ensures
            match r {
                Ok(u) => underlying_spec(self.symbol@) == Some(u@),
                Err(_) => underlying_spec(self.symbol@) is None,
            },
    {
        OptionSymbol::from(self.symbol.as_str()).underlying_symbol()
    }

    /// The number of days open, read from text like `12d`; `None` when it is not in that form.
    pub fn days_open(&self) -> (r: Option<i32>)
        ensures
            match r {
                Some(v) => days_open_spec(self.days_open@) == Some(v as int),
                None => days_open_spec(self.days_open@) is None,
            },
    {
        let t = chars_of(self.days_open.as_str());
        if t.len() < 2 || t[t.len() - 1] != 'd' {
            return None;
        }
        let end = t.len() - 1;
        let ghost n = t@.drop_last();
        let negative = t[0] == '-';
        let start: usize = if t[0] == '-' || t[0] == '+' {
            1
        } else {
            0
        };
        assert(n[0] == t@[0]);
        assert(t@.subrange(start as int, end as int) =~= if start == 1 {
            n.drop_first()
        } else {
            n
        });
        if start >= end || !all_digits_in(&t, start, end) {
            return None;
        }
        let v = match digits_in(&t, start, end) {
            Some(v) => v,
            None => {
                return None;
            },
        };
        if negative {
            if v > 2147483648 {
                return None;
            }
            Some((-(v as i64)) as i32)
        } else {
            if v > 2147483647 {
                return None;
            }
            Some(v as i32)
        }
    }
}

/// A row of an exported transactions file.
#[derive(Clone, Debug)]
pub struct Transaction {
    pub date: Timestamp,
    pub trade_type: String,
    pub action: Option<TradeAction>,
    pub symbol: Option<String>,
    pub instrument_type: Option<String>,
    pub description: String,
    pub value: Decimal,
    pub quantity: Decimal,
    pub average_price: Option<Decimal>,
    pub commissions: Option<Decimal>,
    pub fees: Decimal,
    pub multiplier: Option<i32>,
    pub expiration_date: Option<TransactionExpiration>,
    pub strike_price: Option<Decimal>,
    pub call_or_put: Option<OptionTypeUpperCase>,
}

/// The underlying of a transaction's symbol: its first token, `SPXW` read as `SPX`.
pub open spec fn transaction_underlying(symbol: Option<String>) -> Option<Seq<char>> {
    match symbol {
        Some(s) => if tokens(s@).len() > 0 {
            Some(strip_weekly_spec(tokens(s@)[0]))
        } else {
            None
        },
        None => None,
    }
}

impl Transaction {
    /// The underlying symbol; `None` without a symbol, or when the symbol is blank.
    pub fn underlying_symbol(&self) -> (r: Option<String>)
        ensures
            match r {
                Some(u) => transaction_underlying(self.symbol) == Some(u@),
                None => transaction_underlying(self.symbol) is None,
            },
    {
        match &self.symbol {
            Some(s) => match first_token(s.as_str()) {
                Some(t) => Some(string_of(&strip_weekly_chars(t))),
                None => None,
            },
            None => None,
        }
    }
}

/// The date that chrono reads from a text in the form `%-m/%-d/%y`, as year, month and day.
pub uninterp spec fn month_day_year_of(s: Seq<char>) -> Option<(int, int, int)>;

/// Relies on `chrono::NaiveDate::parse_from_str` with the format `%-m/%-d/%y`: the date it
/// reads, if any, depends on the text alone.
#[verifier::external_body]
fn parse_month_day_year(s: &str) -> (r: Option<(i32, u32, u32)>)
    ensures
        match r {
            Some(t) => month_day_year_of(s@) == Some((t.0 as int, t.1 as int, t.2 as int)),
            None => month_day_year_of(s@) is None,
        },
{
    match chrono::NaiveDate::parse_from_str(s, "%-m/%-d/%y") {
        Ok(d) => Some(
            (chrono::Datelike::year(&d), chrono::Datelike::month(&d), chrono::Datelike::day(&d)),
        ),
        Err(_) => None,
    }
}

/// The expiration date of an exported transaction.
#[derive(Clone, Copy, Debug, PartialEq, Eq, Structural)]
pub struct TransactionExpiration(pub ExpirationDate);

impl From<TransactionExpiration> for ExpirationDate {
    fn from(d: TransactionExpiration) -> ExpirationDate {
        d.0
    }
}

impl vstd::std_specs::convert::FromSpecImpl<TransactionExpiration> for ExpirationDate {
    open spec fn obeys_from_spec() -> bool {
        true
    }

    open spec fn from_spec(d: TransactionExpiration) -> ExpirationDate {
        d.0
    }
}

/// A transaction's expiration date that could not be read.
#[derive(Clone, Copy, Debug, PartialEq, Eq, Structural)]
pub struct InvalidDate;

impl TransactionExpiration {
    /// Reads a date written like `7/31/20`.
    pub fn from_str(s: &str) -> (r: Result<TransactionExpiration, InvalidDate>)
        ensures
            match r {
                Ok(t) => month_day_year_of(s@) == Some(
                    (t.0.year as int, t.0.month as int, t.0.day as int),
                ),
                Err(_) => month_day_year_of(s@) is None,
            },
    {
        match parse_month_day_year(s) {
            Some((year, month, day)) => Ok(TransactionExpiration(ExpirationDate { year, month, day })),
            None => Err(InvalidDate),
        }
    }
}

/// The action of an exported transaction.
#[derive(Clone, Copy, Debug, PartialEq, Eq, Hash, Structural)]
pub enum TradeAction {
    SellToOpen,
    BuyToOpen,
    SellToClose,
    BuyToClose,
}

/// An option type written in capitals (`CALL`, `PUT`).
#[derive(Clone, Copy, Debug, PartialEq, Eq, Structural)]
pub enum OptionTypeUpperCase {
    Call,
    Put,
}

/// An option type written capitalised (`Call`, `Put`).
#[derive(Clone, Copy, Debug, PartialEq, Eq, Structural)]
pub enum OptionTypePascalCase {
    Call,
    Put,
}

impl From<OptionTypeUpperCase> for OptionType {
    fn from(t: OptionTypeUpperCase) -> OptionType {
        match t {
            OptionTypeUpperCase::Call => OptionType::Call,
            OptionTypeUpperCase::Put => OptionType::Put,
        }
    }
}

impl vstd::std_specs::convert::FromSpecImpl<OptionTypeUpperCase> for OptionType {
    open spec fn obeys_from_spec() -> bool {
        true
    }

    open spec fn from_spec(t: OptionTypeUpperCase) -> OptionType {
        match t {
            OptionTypeUpperCase::Call => OptionType::Call,
            OptionTypeUpperCase::Put => OptionType::Put,
        }
    }
}

impl From<OptionTypePascalCase> for OptionType {
    fn from(t: OptionTypePascalCase) -> OptionType {
        match t {
            OptionTypePascalCase::Call => OptionType::Call,
            OptionTypePascalCase::Put => OptionType::Put,
        }
    }
}

impl vstd::std_specs::convert::FromSpecImpl<OptionTypePascalCase> for OptionType {
    open spec fn obeys_from_spec() -> bool {
        true
    }

    open spec fn from_spec(t: OptionTypePascalCase) -> OptionType {
        match t {
            OptionTypePascalCase::Call => OptionType::Call,
            OptionTypePascalCase::Put => OptionType::Put,
        }
    }
}

} // verus!
