//! Trade actions and the sign of money movements.
use vstd::prelude::*;

use crate::common::{ExpirationDate, OptionType, Timestamp};
use crate::symbol::{
    expiration_spec, option_type_spec, strike_spec, underlying_spec, OptionSymbol, SymbolError,
};
use crate::csv;
use crate::decimal::{abs_units, Decimal, MAX_UNITS};
use crate::csv::transaction_underlying;
use crate::symbol::StrikePrice;
use crate::text::{chars_of, contains, contains_text, lower_ascii, same_text, string_of, to_lower_ascii};

verus! {

#[derive(Clone, Copy, Debug, PartialEq, Eq, Hash, Structural)]
pub enum TradeAction {
    Sell,
    Buy,
    /// Opens a position for a credit.
    SellToOpen,
    /// Opens a position for a debit.
    BuyToOpen,
    /// Closes a position for a credit.
    SellToClose,
    /// Closes a position for a debit.
    BuyToClose,
}

pub open spec fn opposing_spec(a: TradeAction) -> TradeAction {
    match a {
        TradeAction::Sell => TradeAction::Buy,
        TradeAction::Buy => TradeAction::Sell,
        TradeAction::SellToOpen => TradeAction::BuyToClose,
        TradeAction::BuyToOpen => TradeAction::SellToClose,
        TradeAction::SellToClose => TradeAction::BuyToOpen,
        TradeAction::BuyToClose => TradeAction::SellToOpen,
    }
}

/// Plain buys and sells count as opening.
pub open spec fn opens_spec(a: TradeAction) -> bool {
    !(a is SellToClose || a is BuyToClose)
}

impl TradeAction {
    /// The action that undoes this one.
    pub fn opposing_action(&self) -> (r: TradeAction)
        ensures
            r == opposing_spec(*self),
    {
        match self {
            TradeAction::Sell => TradeAction::Buy,
            TradeAction::Buy => TradeAction::Sell,
            TradeAction::SellToOpen => TradeAction::BuyToClose,
            TradeAction::BuyToOpen => TradeAction::SellToClose,
            TradeAction::SellToClose => TradeAction::BuyToOpen,
            TradeAction::BuyToClose => TradeAction::SellToOpen,
        }
    }

    pub fn opens(&self) -> (r: bool)
        ensures
            r == opens_spec(*self),
    {
        match self {
            TradeAction::Sell => true,
            TradeAction::Buy => true,
            TradeAction::SellToOpen => true,
            TradeAction::BuyToOpen => true,
            TradeAction::SellToClose => false,
            TradeAction::BuyToClose => false,
        }
    }

    pub fn closes(&self) -> (r: bool)
        ensures
            r == !opens_spec(*self),
    {
        !self.opens()
    }
}

pub open spec fn from_csv_action(a: csv::TradeAction) -> TradeAction {
    match a {
        csv::TradeAction::SellToOpen => TradeAction::SellToOpen,
        csv::TradeAction::BuyToOpen => TradeAction::BuyToOpen,
        csv::TradeAction::SellToClose => TradeAction::SellToClose,
        csv::TradeAction::BuyToClose => TradeAction::BuyToClose,
    }
}

impl From<csv::TradeAction> for TradeAction {
    fn from(a: csv::TradeAction) -> TradeAction {
        match a {
            csv::TradeAction::SellToOpen => TradeAction::SellToOpen,
            csv::TradeAction::BuyToOpen => TradeAction::BuyToOpen,
            csv::TradeAction::SellToClose => TradeAction::SellToClose,
            csv::TradeAction::BuyToClose => TradeAction::BuyToClose,
        }
    }
}

impl vstd::std_specs::convert::FromSpecImpl<csv::TradeAction> for TradeAction {
    open spec fn obeys_from_spec() -> bool {
        true
    }

    open spec fn from_spec(a: csv::TradeAction) -> TradeAction {
        from_csv_action(a)
    }
}

/// Whether an amount is paid, received, or neither.
#[derive(Clone, Copy, Debug, PartialEq, Eq, Hash, Structural)]
pub enum ValueEffect {
    NoEffect,
    Debit,
    Credit,
}

pub open spec fn effect_of(v: int) -> ValueEffect {
    if v > 0 {
        ValueEffect::Credit
    } else if v < 0 {
        ValueEffect::Debit
    } else {
        ValueEffect::NoEffect
    }
}

pub open spec fn applied(e: ValueEffect, v: int) -> int {
    match e {
        ValueEffect::NoEffect => 0,
        ValueEffect::Debit => -v,
        ValueEffect::Credit => v,
    }
}

impl ValueEffect {
    /// A positive amount is a credit, a negative one a debit.
    pub fn from_value(value: &Decimal) -> (r: ValueEffect)
        ensures
            r == effect_of(value@),
    {
        if value.is_positive() {
            ValueEffect::Credit
        } else if value.is_negative() {
            ValueEffect::Debit
        } else {
            ValueEffect::NoEffect
        }
    }

    /// The signed amount: negated for a debit, zero for no effect.
    pub fn apply(&self, v: &Decimal) -> (r: Decimal)
        ensures
            r@ == applied(*self, v@),
    {
        match self {
            ValueEffect::NoEffect => Decimal::zero(),
            ValueEffect::Debit => v.neg(),
            ValueEffect::Credit => *v,
        }
    }
}

/// The sum of three amounts, when it fits.
fn sum3(a: &Decimal, b: &Decimal, c: &Decimal) -> (r: Option<Decimal>)
    ensures
        r is Some <==> -MAX_UNITS <= a@ + b@ <= MAX_UNITS && -MAX_UNITS <= a@ + b@ + c@
            <= MAX_UNITS,
        r matches Some(d) ==> d@ == a@ + b@ + c@,
{
    match a.checked_add(b) {
        Some(ab) => ab.checked_add(c),
        None => None,
    }
}

/// A trade.
#[derive(Clone, Debug)]
pub struct TradeItem {
    pub id: u32,
    pub symbol: String,
    pub instrument_type: String,
    pub transaction_type: String,
    pub executed_at: Timestamp,
    pub action: TradeAction,
    pub underlying_symbol: String,
    pub value: Decimal,
    pub value_effect: ValueEffect,
    pub quantity: Decimal,
    pub commission: Decimal,
    pub commission_effect: ValueEffect,
    pub clearing_fees: Decimal,
    pub clearing_fees_effect: ValueEffect,
    pub regulatory_fees: Decimal,
    pub regulatory_fees_effect: ValueEffect,
    pub proprietary_index_option_fees: Decimal,
    pub proprietary_index_option_fees_effect: ValueEffect,
    /// Not present for crypto trades.
    pub ext_global_order_number: Option<u32>,
}

/// Two items are the same transaction when their identifiers agree.
impl PartialEq for TradeItem {
    fn eq(&self, other: &TradeItem) -> (r: bool) {
        self.id == other.id
    }
}

impl vstd::std_specs::cmp::PartialEqSpecImpl for TradeItem {
    open spec fn obeys_eq_spec() -> bool {
        true
    }

    open spec fn eq_spec(&self, other: &TradeItem) -> bool {
        self.id == other.id
    }
}

impl Eq for TradeItem {

}

impl TradeItem {
    /// The signed value.
    pub fn value(&self) -> (r: Decimal)
        ensures
            r@ == applied(self.value_effect, self.value@),
    {
        self.value_effect.apply(&self.value)
    }

    /// The expiration date read from the option symbol.
    pub fn expiration_date(&self) -> (r: Result<ExpirationDate, SymbolError>)
        ensures
            match r {
                Ok(d) => expiration_spec(self.symbol@) == Some(
                    (d.year as int, d.month as int, d.day as int),
                ),
                Err(_) => expiration_spec(self.symbol@) is None,
            },
    {
        OptionSymbol::from(self.symbol.as_str()).expiration_date()
    }

    /// The underlying read from the option symbol.
    pub fn underlying_symbol(&self) -> (r: Result<String, SymbolError>)
        ensures
            match r {
                Ok(u) => underlying_spec(self.symbol@) == Some(u@),
                Err(_) => underlying_spec(self.symbol@) is None,
            },
    {
        OptionSymbol::from(self.symbol.as_str()).underlying_symbol()
    }

    /// The option type read from the option symbol.
    pub fn option_type(&self) -> (r: Result<OptionType, SymbolError>)
        ensures
            match r {
                Ok(t) => option_type_spec(self.symbol@) == Some(t),
                Err(_) => option_type_spec(self.symbol@) is None,
            },
    {
        OptionSymbol::from(self.symbol.as_str()).option_type()
    }

    /// The strike read from the option symbol.
    pub fn strike_price(&self) -> (r: Result<StrikePrice, SymbolError>)
        ensures
            match r {
                Ok(p) => strike_spec(self.symbol@) == Some((p.mantissa as int, p.scale as int)),
                Err(_) => strike_spec(self.symbol@) is None,
            },
    {
        OptionSymbol::from(self.symbol.as_str()).strike_price()
    }

    /// The signed commission.
    pub fn commission(&self) -> (r: Decimal)
        ensures
            r@ == applied(self.commission_effect, self.commission@),
    {
        self.commission_effect.apply(&self.commission)
    }

    /// The signed sum of the clearing, regulatory and index option fees, when it fits.
    pub fn fees(&self) -> (r: Option<Decimal>)
        ensures
            r matches Some(d) ==> d@ == applied(self.clearing_fees_effect, self.clearing_fees@)
                + applied(self.regulatory_fees_effect, self.regulatory_fees@) + applied(
                self.proprietary_index_option_fees_effect,
                self.proprietary_index_option_fees@,
            ),
            r is None ==> !(-MAX_UNITS <= applied(self.clearing_fees_effect, self.clearing_fees@)
                + applied(self.regulatory_fees_effect, self.regulatory_fees@) <= MAX_UNITS
                && -MAX_UNITS <= applied(self.clearing_fees_effect, self.clearing_fees@)
                + applied(self.regulatory_fees_effect, self.regulatory_fees@) + applied(
                self.proprietary_index_option_fees_effect,
                self.proprietary_index_option_fees@,
            ) <= MAX_UNITS),
    {
        sum3(
            &self.clearing_fees_effect.apply(&self.clearing_fees),
            &self.regulatory_fees_effect.apply(&self.regulatory_fees),
            &self.proprietary_index_option_fees_effect.apply(&self.proprietary_index_option_fees),
        )
    }
}

/// An optional fee with its optional effect: zero without an effect, unknown when the effect
/// has no amount.
pub open spec fn optional_fee(effect: Option<ValueEffect>, fee: Option<Decimal>) -> Option<int> {
    match effect {
        None => Some(0),
        Some(e) => match fee {
            Some(f) => Some(applied(e, f@)),
            None => None,
        },
    }
}

fn optional_fee_of(effect: Option<ValueEffect>, fee: Option<Decimal>) -> (r: Option<Decimal>)
    ensures
        match r {
            Some(d) => optional_fee(effect, fee) == Some(d@),
            None => optional_fee(effect, fee) is None,
        },
{
    match effect {
        None => Some(Decimal::zero()),
        Some(e) => match fee {
            Some(f) => Some(e.apply(&f)),
            None => None,
        },
    }
}

/// A delivery: an exercise, an assignment, an expiration or a split.
#[derive(Clone, Debug)]
pub struct ReceiveDeliverItem {
    pub id: u32,
    pub symbol: String,
    pub instrument_type: String,
    pub transaction_type: String,
    pub transaction_sub_type: String,
    pub executed_at: Timestamp,
    /// Present for stock splits, absent for exercises.
    pub action: Option<TradeAction>,
    pub underlying_symbol: String,
    pub value: Decimal,
    pub value_effect: ValueEffect,
    pub quantity: Decimal,
    pub clearing_fees: Option<Decimal>,
    pub clearing_fees_effect: Option<ValueEffect>,
    pub regulatory_fees: Option<Decimal>,
    pub regulatory_fees_effect: Option<ValueEffect>,
    pub proprietary_index_option_fees: Option<Decimal>,
    pub proprietary_index_option_fees_effect: Option<ValueEffect>,
}

/// Two items are the same transaction when their identifiers agree.
impl PartialEq for ReceiveDeliverItem {
    fn eq(&self, other: &ReceiveDeliverItem) -> (r: bool) {
        self.id == other.id
    }
}

impl vstd::std_specs::cmp::PartialEqSpecImpl for ReceiveDeliverItem {
    open spec fn obeys_eq_spec() -> bool {
        true
    }

    open spec fn eq_spec(&self, other: &ReceiveDeliverItem) -> bool {
        self.id == other.id
    }
}

impl Eq for ReceiveDeliverItem {

}

impl ReceiveDeliverItem {
    pub fn value(&self) -> (r: Decimal)
        ensures
            r@ == applied(self.value_effect, self.value@),
    {
        self.value_effect.apply(&self.value)
    }

    /// The expiration date read from the option symbol.
    pub fn expiration_date(&self) -> (r: Result<ExpirationDate, SymbolError>)
        ensures
            match r {
                Ok(d) => expiration_spec(self.symbol@) == Some(
                    (d.year as int, d.month as int, d.day as int),
                ),
                Err(_) => expiration_spec(self.symbol@) is None,
            },
    {
        OptionSymbol::from(self.symbol.as_str()).expiration_date()
    }

    /// The underlying read from the option symbol.
    pub fn underlying_symbol(&self) -> (r: Result<String, SymbolError>)
        ensures
            match r {
                Ok(u) => underlying_spec(self.symbol@) == Some(u@),
                Err(_) => underlying_spec(self.symbol@) is None,
            },
    {
        OptionSymbol::from(self.symbol.as_str()).underlying_symbol()
    }

    /// The option type read from the option symbol.
    pub fn option_type(&self) -> (r: Result<OptionType, SymbolError>)
        ensures
            match r {
                Ok(t) => option_type_spec(self.symbol@) == Some(t),
                Err(_) => option_type_spec(self.symbol@) is None,
            },
    {
        OptionSymbol::from(self.symbol.as_str()).option_type()
    }

    /// The strike read from the option symbol.
    pub fn strike_price(&self) -> (r: Result<StrikePrice, SymbolError>)
        ensures
            match r {
                Ok(p) => strike_spec(self.symbol@) == Some((p.mantissa as int, p.scale as int)),
                Err(_) => strike_spec(self.symbol@) is None,
            },
    {
        OptionSymbol::from(self.symbol.as_str()).strike_price()
    }

    /// The signed sum of the fees that have an effect; `None` when a fee with an effect has
    /// no amount, or when the sum does not fit.
    pub fn fees(&self) -> (r: Option<Decimal>)
        ensures
            r matches Some(d) ==> optional_fee(self.clearing_fees_effect, self.clearing_fees)
                matches Some(a) && optional_fee(self.regulatory_fees_effect, self.regulatory_fees)
                matches Some(b) && optional_fee(
                self.proprietary_index_option_fees_effect,
                self.proprietary_index_option_fees,
            ) matches Some(c) && d@ == a + b + c,
            (optional_fee(self.clearing_fees_effect, self.clearing_fees) is None || optional_fee(
                self.regulatory_fees_effect,
                self.regulatory_fees,
            ) is None || optional_fee(
                self.proprietary_index_option_fees_effect,
                self.proprietary_index_option_fees,
            ) is None) ==> r is None,
    {
        let a = optional_fee_of(self.clearing_fees_effect, self.clearing_fees);
        let b = optional_fee_of(self.regulatory_fees_effect, self.regulatory_fees);
        let c = optional_fee_of(
            self.proprietary_index_option_fees_effect,
            self.proprietary_index_option_fees,
        );
        match (a, b, c) {
            (Some(a), Some(b), Some(c)) => sum3(&a, &b, &c),
            _ => None,
        }
    }
}

/// Any other money movement.
#[derive(Clone, Debug)]
pub struct OtherItem {
    pub id: u32,
    pub transaction_type: String,
    pub executed_at: Timestamp,
    pub value: Decimal,
    pub value_effect: ValueEffect,
}

/// Two items are the same transaction when their identifiers agree.
impl PartialEq for OtherItem {
    fn eq(&self, other: &OtherItem) -> (r: bool) {
        self.id == other.id
    }
}

impl vstd::std_specs::cmp::PartialEqSpecImpl for OtherItem {
    open spec fn obeys_eq_spec() -> bool {
        true
    }

    open spec fn eq_spec(&self, other: &OtherItem) -> bool {
        self.id == other.id
    }
}

impl Eq for OtherItem {

}

impl OtherItem {
    pub fn value(&self) -> (r: Decimal)
        ensures
            r@ == applied(self.value_effect, self.value@),
    {
        self.value_effect.apply(&self.value)
    }
}

/// A transaction of an account.
#[derive(Clone, Debug)]
pub enum Item {
    Trade(TradeItem),
    ReceiveDeliver(ReceiveDeliverItem),
    Other(OtherItem),
}

pub open spec fn item_id(item: Item) -> u32 {
    match item {
        Item::Trade(t) => t.id,
        Item::ReceiveDeliver(t) => t.id,
        Item::Other(t) => t.id,
    }
}

impl Item {
    pub fn id(&self) -> (r: u32)
        ensures
            r == item_id(*self),
    {
        match self {
            Item::Trade(item) => item.id,
            Item::ReceiveDeliver(item) => item.id,
            Item::Other(item) => item.id,
        }
    }

    /// Gives the item the identifier `id`, and changes nothing else.
    pub fn set_id(&mut self, id: u32)
        ensures
            *final(self) == match *old(self) {
                Item::Trade(t) => Item::Trade(TradeItem { id, ..t }),
                Item::ReceiveDeliver(t) => Item::ReceiveDeliver(ReceiveDeliverItem { id, ..t }),
                Item::Other(t) => Item::Other(OtherItem { id, ..t }),
            },
    {
        match self {
            Item::Trade(item) => item.id = id,
            Item::ReceiveDeliver(item) => item.id = id,
            Item::Other(item) => item.id = id,
        }
    }

    pub fn executed_at(&self) -> (r: Timestamp)
        ensures
            r == match *self {
                Item::Trade(t) => t.executed_at,
                Item::ReceiveDeliver(t) => t.executed_at,
                Item::Other(t) => t.executed_at,
            },
    {
        match self {
            Item::Trade(item) => item.executed_at,
            Item::ReceiveDeliver(item) => item.executed_at,
            Item::Other(item) => item.executed_at,
        }
    }
}

/// The text, or the empty text when there is none.
pub open spec fn text_or_empty(t: Option<Seq<char>>) -> Seq<char> {
    match t {
        Some(s) => s,
        None => Seq::empty(),
    }
}

pub open spec fn string_or_empty(t: Option<String>) -> Seq<char> {
    match t {
        Some(s) => s@,
        None => Seq::empty(),
    }
}

/// The kind of delivery that a description names: the first of exercise, expiration,
/// assignment, forward split and backwards split that it mentions, in any case; otherwise
/// the description in small letters.
pub open spec fn sub_type_of(description: Seq<char>) -> Seq<char> {
    let d = lower_ascii(description);
    if contains(d, "exercise"@) {
        "Exercise"@
    } else if contains(d, "expiration"@) {
        "Expiration"@
    } else if contains(d, "assignment"@) {
        "Assignment"@
    } else if contains(d, "forward split"@) {
        "Forward Split"@
    } else if contains(d, "backwards split"@) {
        "Backwards Split"@
    } else {
        d
    }
}

fn sub_type(description: &String) -> (r: String)
    ensures
        r@ == sub_type_of(description@),
{
    let d = to_lower_ascii(&chars_of(description.as_str()));
    let name = if contains_text(&d, "exercise") {
        "Exercise"
    } else if contains_text(&d, "expiration") {
        "Expiration"
    } else if contains_text(&d, "assignment") {
        "Assignment"
    } else if contains_text(&d, "forward split") {
        "Forward Split"
    } else if contains_text(&d, "backwards split") {
        "Backwards Split"
    } else {
        return string_of(&d);
    };
    string_of(&chars_of(name))
}

/// A transaction record that cannot be mapped.
#[derive(Clone, Copy, Debug, PartialEq, Eq, Structural)]
pub enum TransactionError {
    /// A trade without commissions.
    MissingCommissions,
    /// A trade without an action.
    MissingAction,
}

/// The fees of an exported record, split in three parts that add up to their magnitude: the
/// first holds what a division by three leaves over.
pub open spec fn fee_parts(fees: int) -> (int, int, int) {
    let total = abs_units(fees) as int;
    let third = total / 3;
    (total - 2 * third, third, third)
}

/// `item` is what `record` maps to.
pub open spec fn maps_from(record: csv::Transaction, item: Item) -> bool {
    let (f0, f1, f2) = fee_parts(record.fees@);
    let fees_effect = effect_of(record.fees@);
    match item {
        Item::Trade(t) => {
            &&& record.trade_type@ == "Trade"@
            &&& t.id == 0
            &&& t.symbol@ == string_or_empty(record.symbol)
            &&& t.instrument_type@ == string_or_empty(record.instrument_type)
            &&& t.transaction_type == record.trade_type
            &&& t.executed_at == record.date
            &&& record.action matches Some(a) && t.action == from_csv_action(a)
            &&& t.underlying_symbol@ == text_or_empty(transaction_underlying(record.symbol))
            &&& t.value@ == abs_units(record.value@)
            &&& t.value_effect == effect_of(record.value@)
            &&& t.quantity == record.quantity
            &&& record.commissions matches Some(c) && t.commission@ == abs_units(c@)
                && t.commission_effect == effect_of(abs_units(c@) as int)
            &&& t.clearing_fees@ == f0 && t.regulatory_fees@ == f1
                && t.proprietary_index_option_fees@ == f2
            &&& t.clearing_fees_effect == fees_effect && t.regulatory_fees_effect == fees_effect
                && t.proprietary_index_option_fees_effect == fees_effect
            &&& t.ext_global_order_number == Some(0u32)
        },
        Item::ReceiveDeliver(t) => {
            &&& record.trade_type@ == "Receive Deliver"@
            &&& t.id == 0
            &&& t.symbol@ == string_or_empty(record.symbol)
            &&& t.instrument_type@ == string_or_empty(record.instrument_type)
            &&& t.transaction_type == record.trade_type
            &&& t.transaction_sub_type@ == sub_type_of(record.description@)
            &&& t.executed_at == record.date
            &&& t.action == match record.action {
                Some(a) => Some(from_csv_action(a)),
                None => None,
            }
            &&& t.underlying_symbol@ == text_or_empty(transaction_underlying(record.symbol))
            &&& t.value@ == abs_units(record.value@)
            &&& t.value_effect == effect_of(record.value@)
            &&& t.quantity == record.quantity
            &&& t.clearing_fees matches Some(x) && x@ == f0
            &&& t.regulatory_fees matches Some(x) && x@ == f1
            &&& t.proprietary_index_option_fees matches Some(x) && x@ == f2
            &&& t.clearing_fees_effect == Some(fees_effect)
            &&& t.regulatory_fees_effect == Some(fees_effect)
            &&& t.proprietary_index_option_fees_effect == Some(fees_effect)
        },
        Item::Other(t) => {
            &&& record.trade_type@ != "Trade"@ && record.trade_type@ != "Receive Deliver"@
            &&& t.id == 0
            &&& t.transaction_type == record.trade_type
            &&& t.executed_at == record.date
            &&& t.value@ == abs_units(record.value@)
            &&& t.value_effect == effect_of(record.value@)
        },
    }
}

impl Item {
    /// The transaction of an exported record, with identifier 0. A trade's fees are split in
    /// three parts of the same sign that add up to the record's fees.
    pub fn from_csv(record: csv::Transaction) -> (r: Result<Item, TransactionError>)
        ensures
            r matches Err(TransactionError::MissingCommissions) <==> record.trade_type@
                == "Trade"@ && record.commissions is None,
            r matches Err(TransactionError::MissingAction) <==> record.trade_type@ == "Trade"@
                && record.commissions is Some && record.action is None,
            r matches Ok(item) ==> maps_from(record, item),
    {
        proof {
            reveal_strlit("Trade");
            reveal_strlit("Receive Deliver");
            assert("Trade"@[0] != "Receive Deliver"@[0]);
        }
        let symbol = match &record.symbol {
            Some(s) => s.clone(),
            None => String::new(),
        };
        let instrument_type = match &record.instrument_type {
            Some(s) => s.clone(),
            None => String::new(),
        };
        let underlying_symbol = match record.underlying_symbol() {
            Some(u) => u,
            None => String::new(),
        };
        let total = record.fees.abs();
        let third_units = total.units() / 3;
        let first = Decimal::from_units(total.units() - 2 * third_units);
        let fees_effect = ValueEffect::from_value(&record.fees);
        if same_text(&record.trade_type, "Trade") {
            let commission = match &record.commissions {
                Some(c) => c.abs(),
                None => {
                    return Err(TransactionError::MissingCommissions);
                },
            };
            let action = match record.action {
                Some(a) => TradeAction::from(a),
                None => {
                    return Err(TransactionError::MissingAction);
                },
            };
            let item = TradeItem {
                id: 0,
                symbol,
                instrument_type,
                transaction_type: record.trade_type,
                executed_at: record.date,
                action,
                underlying_symbol,
                value: record.value.abs(),
                value_effect: ValueEffect::from_value(&record.value),
                quantity: record.quantity,
                commission,
                commission_effect: ValueEffect::from_value(&commission),
                clearing_fees: first,
                clearing_fees_effect: fees_effect,
                regulatory_fees: Decimal::from_units(third_units),
                regulatory_fees_effect: fees_effect,
                proprietary_index_option_fees: Decimal::from_units(third_units),
                proprietary_index_option_fees_effect: fees_effect,
                ext_global_order_number: Some(0),
            };
            Ok(Item::Trade(item))
        } else if same_text(&record.trade_type, "Receive Deliver") {
            let transaction_sub_type = sub_type(&record.description);
            let action = match record.action {
                Some(a) => Some(TradeAction::from(a)),
                None => None,
            };
            let item = ReceiveDeliverItem {
                id: 0,
                symbol,
                instrument_type,
                transaction_type: record.trade_type,
                transaction_sub_type,
                executed_at: record.date,
                action,
                underlying_symbol,
                value: record.value.abs(),
                value_effect: ValueEffect::from_value(&record.value),
                quantity: record.quantity,
                clearing_fees: Some(first),
                clearing_fees_effect: Some(fees_effect),
                regulatory_fees: Some(Decimal::from_units(third_units)),
                regulatory_fees_effect: Some(fees_effect),
                proprietary_index_option_fees: Some(Decimal::from_units(third_units)),
                proprietary_index_option_fees_effect: Some(fees_effect),
            };
            Ok(Item::ReceiveDeliver(item))
        } else {
            Ok(
                Item::Other(
                    OtherItem {
                        id: 0,
                        transaction_type: record.trade_type,
                        executed_at: record.date,
                        value: record.value.abs(),
                        value_effect: ValueEffect::from_value(&record.value),
                    },
                ),
            )
        }
    }
}

} // verus!
