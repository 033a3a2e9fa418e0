//! Open positions.
use vstd::prelude::*;

use crate::common::{ExpirationDate, OptionType};
use crate::csv;
use crate::decimal::{Decimal, UNITS_PER_ONE};
use crate::symbol::StrikePrice;
use crate::symbol::{
    expiration_spec, option_type_spec, quote_outcome, strike_spec, underlying_spec, OptionSymbol,
    SymbolError,
};
use crate::text::same_text;

verus! {

#[derive(Clone, Copy, Debug, PartialEq, Eq, Hash, Structural)]
pub enum QuantityDirection {
    Short,
    Long,
}

impl QuantityDirection {
    /// A positive quantity is long, anything else short.
    pub fn from_signed_quantity(quantity: i32) -> (r: QuantityDirection)
        ensures
            r == if quantity > 0 {
                QuantityDirection::Long
            } else {
                QuantityDirection::Short
            },
    {
        if quantity > 0 {
            QuantityDirection::Long
        } else {
            QuantityDirection::Short
        }
    }
}

/// A position; its symbol is an option symbol when it holds options.
#[derive(Clone, Debug)]
pub struct Item {
    pub symbol: String,
    pub quantity: Decimal,
    pub quantity_direction: QuantityDirection,
    pub instrument_type: String,
}

impl Item {
    pub fn quote_symbol(&self) -> (r: Result<String, SymbolError>)
        ensures
            match r {
                Ok(q) => quote_outcome(self.symbol@) is Ok && q@ == quote_outcome(
                    self.symbol@,
                )->Ok_0,
                Err(e) => quote_outcome(self.symbol@) == Err::<
                    Seq<char>,
                    (crate::symbol::SymbolPart, Seq<char>),
                >((e.part, e.text@)),
            },
    {
        OptionSymbol::from(self.symbol.as_str()).quote_symbol()
    }

    pub fn expiration_date(&self) -> (r: Result<ExpirationDate, SymbolError>)
        ensures
            match r {
                Ok(d) => expiration_spec(self.symbol@) == Some(
                    (d.year as int, d.month as int, d.day as int),
                ),
                Err(_) => expiration_spec(self.symbol@) is None,
            },
    {
        OptionSymbol::from(self.symbol.as_str()).expiration_date()
    }

    pub fn underlying_symbol(&self) -> (r: Result<String, SymbolError>)
        ensures
            match r {
                Ok(u) => underlying_spec(self.symbol@) == Some(u@),
                Err(_) => underlying_spec(self.symbol@) is None,
            },
    {
        OptionSymbol::from(self.symbol.as_str()).underlying_symbol()
    }

    pub fn option_type(&self) -> (r: Result<OptionType, SymbolError>)
        ensures
            match r {
                Ok(t) => option_type_spec(self.symbol@) == Some(t),
                Err(_) => option_type_spec(self.symbol@) is None,
            },
    {
        OptionSymbol::from(self.symbol.as_str()).option_type()
    }

    pub fn strike_price(&self) -> (r: Result<StrikePrice, SymbolError>)
        ensures
            match r {
                Ok(p) => strike_spec(self.symbol@) == Some((p.mantissa as int, p.scale as int)),
                Err(_) => strike_spec(self.symbol@) is None,
            },
    {
        OptionSymbol::from(self.symbol.as_str()).strike_price()
    }

    /// The position of an exported position record: the quantity's magnitude and direction,
    /// and its instrument type named as the REST interface names it. `None` for an instrument
    /// type other than `OPTION` and `STOCK`.
    pub fn from_csv(record: csv::Position) -> (r: Option<Item>)
        ensures
            r is Some <==> (record.instrument_type@ == "OPTION"@ || record.instrument_type@
                == "STOCK"@),
            r matches Some(item) ==> item.symbol == record.symbol,
            r matches Some(item) ==> item.quantity@ == (if record.quantity < 0 {
                -record.quantity
            } else {
                record.quantity as int
            }) * UNITS_PER_ONE,
            r matches Some(item) ==> item.quantity_direction == if record.quantity > 0 {
                QuantityDirection::Long
            } else {
                QuantityDirection::Short
            },
            r matches Some(item) ==> (record.instrument_type@ == "OPTION"@
                ==> item.instrument_type@ == "Equity Option"@),
            r matches Some(item) ==> (record.instrument_type@ == "STOCK"@
                ==> item.instrument_type@ == "Equity"@),
    {
        proof {
            reveal_strlit("OPTION");
            reveal_strlit("STOCK");
            assert("OPTION"@[0] != "STOCK"@[0]);
        }
        let instrument_type = if same_text(&record.instrument_type, "OPTION") {
            crate::text::string_of(&crate::text::chars_of("Equity Option"))
        } else if same_text(&record.instrument_type, "STOCK") {
            crate::text::string_of(&crate::text::chars_of("Equity"))
        } else {
            return None;
        };
        let magnitude: i64 = if record.quantity < 0 {
            -(record.quantity as i64)
        } else {
            record.quantity as i64
        };
        let quantity = match Decimal::from_integer(magnitude) {
            Some(d) => d,
            None => {
                return None;
            },
        };
        let item = Item {
            symbol: record.symbol,
            quantity,
            quantity_direction: QuantityDirection::from_signed_quantity(record.quantity),
            instrument_type,
        };
        Some(item)
    }
}

} // verus!
