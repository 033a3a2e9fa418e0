//! Option symbols: the brokerage's instrument identifiers, taken apart and rewritten in the
//! data feed's quote-symbol syntax.
//!
//! Two shapes are read. An equity or index option is `"<UNDERLYING> <YYMMDD><C|P><strike>"`
//! where the strike is eight digits holding thousandths (`"IQ 200918P00017500"`). A futures
//! option is `"./<ROOT><MONTH><YEAR DIGIT> <OPTION CODE> <YYMMDD><C|P><strike>"`, its strike
//! written with a decimal point (`"./NGZ0 LNEZ0 201124C4.5"`).
use vstd::prelude::*;

use crate::common::{ExpirationDate, OptionType};
use crate::decimal::{first_dot, lemma_first_dot_is, trim_zeros, Decimal, MAX_UNITS};
use crate::text::{
    all_digits, all_digits_in, chars_of, copy_range, digits_in, digits_value, eq_text, is_digit,
    pow10, push_str, string_of,
};

verus! {

/// Unicode's White_Space characters, those that `str::split_whitespace` splits on.
pub open spec fn is_space(c: char) -> bool {
    ('\u{9}' <= c && c <= '\u{D}') || c == '\u{20}' || c == '\u{85}' || c == '\u{A0}' || c
        == '\u{1680}' || ('\u{2000}' <= c && c <= '\u{200A}') || c == '\u{2028}' || c
        == '\u{2029}' || c == '\u{202F}' || c == '\u{205F}' || c == '\u{3000}'
}

/// The maximal runs of non-whitespace characters, in order.
pub open spec fn tokens(s: Seq<char>) -> Seq<Seq<char>>
    decreases s.len(),
{
    if s.len() == 0 {
        Seq::empty()
    } else {
        let r = tokens(s.drop_last());
        let c = s.last();
        if is_space(c) {
            r
        } else if s.len() >= 2 && !is_space(s[s.len() - 2]) && r.len() > 0 {
            r.update(r.len() - 1, r.last().push(c))
        } else {
            r.push(seq![c])
        }
    }
}

/// A futures option: its second character is a slash.
pub open spec fn is_futures(s: Seq<char>) -> bool {
    s.len() >= 2 && s[1] == '/'
}

/// The weekly series of the S&P 500 index trades under the index's own symbol.
pub open spec fn strip_weekly_spec(u: Seq<char>) -> Seq<char> {
    if u == "SPXW"@ {
        "SPX"@
    } else {
        u
    }
}

pub open spec fn underlying_spec(s: Seq<char>) -> Option<Seq<char>> {
    if tokens(s).len() == 0 {
        None
    } else if is_futures(s) {
        let t0 = tokens(s)[0];
        if t0.len() >= 5 && t0[0] == '.' && t0[1] == '/' {
            Some(t0.subrange(2, t0.len() - 2))
        } else {
            None
        }
    } else {
        Some(strip_weekly_spec(tokens(s)[0]))
    }
}

/// The token that holds the date, the option type and the strike.
pub open spec fn detail_token(s: Seq<char>) -> Option<Seq<char>> {
    let k = if is_futures(s) {
        2int
    } else {
        1int
    };
    if k < tokens(s).len() {
        Some(tokens(s)[k])
    } else {
        None
    }
}

pub open spec fn option_type_spec(s: Seq<char>) -> Option<OptionType> {
    match detail_token(s) {
        Some(f) => if f.len() > 6 && f[6] == 'C' {
            Some(OptionType::Call)
        } else if f.len() > 6 && f[6] == 'P' {
            Some(OptionType::Put)
        } else {
            None
        },
        None => None,
    }
}

pub open spec fn option_type_char(t: OptionType) -> char {
    match t {
        OptionType::Call => 'C',
        OptionType::Put => 'P',
    }
}

/// The integer and fraction digits of the strike. An equity option holds eight digits, five
/// whole and three thousandths; a futures option holds whole digits, then optionally a
/// decimal point and fraction digits of any number (possibly none).
pub open spec fn strike_parts(s: Seq<char>) -> Option<(Seq<char>, Seq<char>)> {
    match detail_token(s) {
        Some(f) => if f.len() < 8 {
            None
        } else if is_futures(s) {
            let b = f.skip(7);
            let k = first_dot(b);
            let whole = b.take(k);
            let frac = if k < b.len() {
                b.skip(k + 1)
            } else {
                Seq::<char>::empty()
            };
            if whole.len() > 0 && all_digits(whole) && all_digits(frac) {
                Some((whole, frac))
            } else {
                None
            }
        } else if f.skip(7).len() == 8 && all_digits(f.skip(7)) {
            Some((f.skip(7).take(5), f.skip(7).skip(5)))
        } else {
            None
        },
        None => None,
    }
}

/// The whole digits of the strike, when it has any.
pub open spec fn strike_whole(s: Seq<char>) -> Seq<char> {
    match strike_parts(s) {
        Some((whole, _)) => whole,
        None => Seq::empty(),
    }
}

/// The fraction digits of the strike, when it has any.
pub open spec fn strike_fraction(s: Seq<char>) -> Seq<char> {
    match strike_parts(s) {
        Some((_, frac)) => frac,
        None => Seq::empty(),
    }
}

/// The largest strike mantissa held.
pub const MAX_MANTISSA: u64 = 922337203685477580;

/// The strike as `(mantissa, scale)`, worth `mantissa / 10^scale` exactly: all its digits read
/// as one number, over ten to the number of fraction digits. `None` when the strike is
/// malformed, or its digits spell more than `MAX_MANTISSA`.
pub open spec fn strike_spec(s: Seq<char>) -> Option<(int, int)> {
    match strike_parts(s) {
        Some((whole, frac)) => if digits_value(whole + frac) <= MAX_MANTISSA && frac.len()
            <= 0xffff_ffff {
            Some((digits_value(whole + frac) as int, frac.len() as int))
        } else {
            None
        },
        None => None,
    }
}

/// Whole digits without leading zeros, keeping one digit.
pub open spec fn strip_leading_zeros(w: Seq<char>) -> Seq<char>
    decreases w.len(),
{
    if w.len() > 1 && w[0] == '0' {
        strip_leading_zeros(w.drop_first())
    } else {
        w
    }
}

/// The strike as the quote symbol writes it: whole digits without leading zeros, then the
/// fraction digits without trailing zeros after a point, the point omitted when none remain.
pub open spec fn strike_text(whole: Seq<char>, frac: Seq<char>) -> Seq<char> {
    strip_leading_zeros(whole) + if trim_zeros(frac).len() == 0 {
        Seq::<char>::empty()
    } else {
        seq!['.'] + trim_zeros(frac)
    }
}

/// An exact strike price, `mantissa / 10^scale`.
#[derive(Clone, Copy, Debug, PartialEq, Eq, Structural)]
pub struct StrikePrice {
    pub mantissa: u64,
    pub scale: u32,
}

impl StrikePrice {
    /// The strike as a decimal, when it has at most four fraction digits and fits.
    pub fn to_decimal(&self) -> (r: Option<Decimal>)
        ensures
            r is Some <==> self.scale <= 4 && self.mantissa * pow10((4 - self.scale) as nat)
                <= MAX_UNITS,
            r matches Some(d) ==> d@ == self.mantissa * pow10((4 - self.scale) as nat),
    {
        if self.scale > 4 {
            return None;
        }
        let factor: u64 = if self.scale == 0 {
            10000
        } else if self.scale == 1 {
            1000
        } else if self.scale == 2 {
            100
        } else if self.scale == 3 {
            10
        } else {
            1
        };
        proof {
            reveal_with_fuel(pow10, 5);
        }
        assert(factor == pow10((4 - self.scale) as nat));
        if self.mantissa > MAX_UNITS as u64 / factor {
            assert(self.mantissa * factor > MAX_UNITS) by (nonlinear_arith)
                requires
                    self.mantissa > MAX_UNITS as u64 / factor,
                    factor >= 1,
            ;
            return None;
        }
        assert(self.mantissa * factor <= MAX_UNITS) by (nonlinear_arith)
            requires
                self.mantissa <= MAX_UNITS as u64 / factor,
                factor >= 1,
        ;
        Some(Decimal::from_units((self.mantissa * factor) as i64))
    }
}

/// The six date digits `YYMMDD` of an equity option.
pub open spec fn date_digits_spec(s: Seq<char>) -> Option<Seq<char>> {
    if is_futures(s) {
        None
    } else {
        match detail_token(s) {
            Some(f) => if f.len() >= 6 && all_digits(f.take(6)) {
                Some(f.take(6))
            } else {
                None
            },
            None => None,
        }
    }
}

/// The six characters of an equity option's date field.
pub open spec fn date_field_spec(s: Seq<char>) -> Option<Seq<char>> {
    if is_futures(s) {
        None
    } else {
        match detail_token(s) {
            Some(f) => if f.len() >= 6 {
                Some(f.take(6))
            } else {
                None
            },
            None => None,
        }
    }
}

/// The date that chrono reads from a text in the form `%y%m%d`, as year, month and day.
pub uninterp spec fn year_month_day_of(s: Seq<char>) -> Option<(int, int, int)>;

/// Relies on `chrono::NaiveDate::parse_from_str` with the format `%y%m%d`: the date it
/// reads, if any, depends on the text alone.
#[verifier::external_body]
fn parse_year_month_day(s: &str) -> (r: Option<(i32, u32, u32)>)
    ensures
        match r {
            Some(t) => year_month_day_of(s@) == Some((t.0 as int, t.1 as int, t.2 as int)),
            None => year_month_day_of(s@) is None,
        },
{
    match chrono::NaiveDate::parse_from_str(s, "%y%m%d") {
        Ok(d) => Some(
            (chrono::Datelike::year(&d), chrono::Datelike::month(&d), chrono::Datelike::day(&d)),
        ),
        Err(_) => None,
    }
}

/// The expiration date of an equity option, as chrono reads its date field.
pub open spec fn expiration_spec(s: Seq<char>) -> Option<(int, int, int)> {
    match date_field_spec(s) {
        Some(d) => year_month_day_of(d),
        None => None,
    }
}

/// The futures option's contract code with a two-digit year: the option code without its
/// year digit, the decade digit of the expiration, then the year digit (`LNEZ0` expiring in
/// 2020 gives `LNEZ20`).
pub open spec fn contract_code_spec(s: Seq<char>) -> Option<Seq<char>> {
    if tokens(s).len() >= 3 {
        let t1 = tokens(s)[1];
        let t2 = tokens(s)[2];
        if t1.len() >= 2 && is_digit(t1.last()) && t2.len() >= 1 && is_digit(t2[0]) {
            Some(t1.drop_last() + seq![t2[0], t1.last()])
        } else {
            None
        }
    } else {
        None
    }
}


/// The exchange code of a futures root, from a fixed table.
pub open spec fn exchange_of(root: Seq<char>) -> Option<Seq<char>> {
    if root == "ES"@ {
        Some("XCME"@)
    } else if root == "MES"@ {
        Some("XCME"@)
    } else if root == "NQ"@ {
        Some("XCME"@)
    } else if root == "MNQ"@ {
        Some("XCME"@)
    } else if root == "RTY"@ {
        Some("XCME"@)
    } else if root == "M2K"@ {
        Some("XCME"@)
    } else if root == "EMD"@ {
        Some("XCME"@)
    } else if root == "6A"@ {
        Some("XCME"@)
    } else if root == "6B"@ {
        Some("XCME"@)
    } else if root == "6C"@ {
        Some("XCME"@)
    } else if root == "6E"@ {
        Some("XCME"@)
    } else if root == "6J"@ {
        Some("XCME"@)
    } else if root == "6S"@ {
        Some("XCME"@)
    } else if root == "LE"@ {
        Some("XCME"@)
    } else if root == "HE"@ {
        Some("XCME"@)
    } else if root == "GF"@ {
        Some("XCME"@)
    } else if root == "BTC"@ {
        Some("XCME"@)
    } else if root == "ETH"@ {
        Some("XCME"@)
    } else if root == "YM"@ {
        Some("XCBT"@)
    } else if root == "MYM"@ {
        Some("XCBT"@)
    } else if root == "ZB"@ {
        Some("XCBT"@)
    } else if root == "UB"@ {
        Some("XCBT"@)
    } else if root == "ZN"@ {
        Some("XCBT"@)
    } else if root == "ZF"@ {
        Some("XCBT"@)
    } else if root == "ZT"@ {
        Some("XCBT"@)
    } else if root == "ZC"@ {
        Some("XCBT"@)
    } else if root == "ZS"@ {
        Some("XCBT"@)
    } else if root == "ZW"@ {
        Some("XCBT"@)
    } else if root == "ZM"@ {
        Some("XCBT"@)
    } else if root == "ZL"@ {
        Some("XCBT"@)
    } else if root == "CL"@ {
        Some("XNYM"@)
    } else if root == "MCL"@ {
        Some("XNYM"@)
    } else if root == "QM"@ {
        Some("XNYM"@)
    } else if root == "NG"@ {
        Some("XNYM"@)
    } else if root == "RB"@ {
        Some("XNYM"@)
    } else if root == "HO"@ {
        Some("XNYM"@)
    } else if root == "GC"@ {
        Some("XCEC"@)
    } else if root == "MGC"@ {
        Some("XCEC"@)
    } else if root == "SI"@ {
        Some("XCEC"@)
    } else if root == "SIL"@ {
        Some("XCEC"@)
    } else if root == "HG"@ {
        Some("XCEC"@)
    } else {
        None
    }
}

/// The part of an option symbol that is missing or malformed.
#[derive(Clone, Copy, Debug, PartialEq, Eq, Structural)]
pub enum SymbolPart {
    Underlying,
    Expiration,
    ContractCode,
    OptionType,
    Strike,
    /// The futures root is not in the exchange table; the error's text is the root.
    Exchange,
}

/// A symbol that could not be decoded: the part at fault, and the symbol (for an unresolved
/// exchange, the futures root).
#[derive(Clone, Debug)]
pub struct SymbolError {
    pub part: SymbolPart,
    pub text: String,
}

/// The quote symbol of `s`, or the part at fault and the text the error names.
pub open spec fn quote_outcome(s: Seq<char>) -> Result<Seq<char>, (SymbolPart, Seq<char>)> {
    if underlying_spec(s) is None {
        Err((SymbolPart::Underlying, s))
    } else if is_futures(s) {
        if contract_code_spec(s) is None {
            Err((SymbolPart::ContractCode, s))
        } else if option_type_spec(s) is None {
            Err((SymbolPart::OptionType, s))
        } else if strike_parts(s) is None {
            Err((SymbolPart::Strike, s))
        } else if exchange_of(underlying_spec(s)->0) is None {
            Err((SymbolPart::Exchange, underlying_spec(s)->0))
        } else {
            Ok(seq!['.', '/'] + contract_code_spec(s)->0 + seq![
                option_type_char(option_type_spec(s)->0),
            ] + strike_text(strike_whole(s), strike_fraction(s)) + seq![':'] + exchange_of(
                underlying_spec(s)->0,
            )->0)
        }
    } else {
        if date_digits_spec(s) is None {
            Err((SymbolPart::Expiration, s))
        } else if option_type_spec(s) is None {
            Err((SymbolPart::OptionType, s))
        } else if strike_parts(s) is None {
            Err((SymbolPart::Strike, s))
        } else {
            Ok(seq!['.'] + underlying_spec(s)->0 + date_digits_spec(s)->0 + seq![
                option_type_char(option_type_spec(s)->0),
            ] + strike_text(strike_whole(s), strike_fraction(s)))
        }
    }
}

fn is_space_char(c: char) -> (r: bool)
    ensures
        r == is_space(c),
{
    ('\u{9}' <= c && c <= '\u{D}') || c == '\u{20}' || c == '\u{85}' || c == '\u{A0}' || c
        == '\u{1680}' || ('\u{2000}' <= c && c <= '\u{200A}') || c == '\u{2028}' || c
        == '\u{2029}' || c == '\u{202F}' || c == '\u{205F}' || c == '\u{3000}'
}

pub open spec fn views(r: Seq<Vec<char>>) -> Seq<Seq<char>> {
    r.map_values(|t: Vec<char>| t@)
}

/// The whitespace-separated tokens of `cs`.
fn tokens_of(cs: &Vec<char>) -> (r: Vec<Vec<char>>)
    ensures
        views(r@) == tokens(cs@),
{
    let mut r: Vec<Vec<char>> = Vec::new();
    let mut i: usize = 0;
    while i < cs.len()
        invariant
            i <= cs.len(),
            views(r@) == tokens(cs@.take(i as int)),
        decreases cs.len() - i,
    {
        let ghost pre = cs@.take(i as int);
        let ghost cur = cs@.take(i + 1);
        assert(cur.drop_last() =~= pre);
        assert(cur.last() == cs@[i as int]);
        let c = cs[i];
        if is_space_char(c) {
        } else if i >= 1 && !is_space_char(cs[i - 1]) && r.len() > 0 {
            assert(cur[cur.len() - 2] == cs@[i - 1]);
            let ghost before = r@;
            let mut last = r.pop().unwrap();
            assert(last@ == views(before).last());
            last.push(c);
            r.push(last);
            assert(views(r@) =~= tokens(pre).update(tokens(pre).len() - 1, tokens(pre).last().push(c)));
        } else {
            if i >= 1 {
                assert(cur[cur.len() - 2] == cs@[i - 1]);
            }
            let mut single: Vec<char> = Vec::new();
            single.push(c);
            assert(single@ =~= seq![c]);
            r.push(single);
            assert(views(r@) =~= tokens(pre).push(seq![c]));
        }
        i = i + 1;
    }
    assert(cs@.take(cs.len() as int) =~= cs@);
    r
}

/// The exchange that lists the futures of `root`, as `exchange_of` gives it.
fn futures_exchange(root: &Vec<char>) -> (r: Option<&'static str>)
    ensures
        match r {
            Some(x) => exchange_of(root@) == Some(x@),
            None => exchange_of(root@) is None,
        },
{
    if eq_text(root, "ES") {
        Some("XCME")
    } else if eq_text(root, "MES") {
        Some("XCME")
    } else if eq_text(root, "NQ") {
        Some("XCME")
    } else if eq_text(root, "MNQ") {
        Some("XCME")
    } else if eq_text(root, "RTY") {
        Some("XCME")
    } else if eq_text(root, "M2K") {
        Some("XCME")
    } else if eq_text(root, "EMD") {
        Some("XCME")
    } else if eq_text(root, "6A") {
        Some("XCME")
    } else if eq_text(root, "6B") {
        Some("XCME")
    } else if eq_text(root, "6C") {
        Some("XCME")
    } else if eq_text(root, "6E") {
        Some("XCME")
    } else if eq_text(root, "6J") {
        Some("XCME")
    } else if eq_text(root, "6S") {
        Some("XCME")
    } else if eq_text(root, "LE") {
        Some("XCME")
    } else if eq_text(root, "HE") {
        Some("XCME")
    } else if eq_text(root, "GF") {
        Some("XCME")
    } else if eq_text(root, "BTC") {
        Some("XCME")
    } else if eq_text(root, "ETH") {
        Some("XCME")
    } else if eq_text(root, "YM") {
        Some("XCBT")
    } else if eq_text(root, "MYM") {
        Some("XCBT")
    } else if eq_text(root, "ZB") {
        Some("XCBT")
    } else if eq_text(root, "UB") {
        Some("XCBT")
    } else if eq_text(root, "ZN") {
        Some("XCBT")
    } else if eq_text(root, "ZF") {
        Some("XCBT")
    } else if eq_text(root, "ZT") {
        Some("XCBT")
    } else if eq_text(root, "ZC") {
        Some("XCBT")
    } else if eq_text(root, "ZS") {
        Some("XCBT")
    } else if eq_text(root, "ZW") {
        Some("XCBT")
    } else if eq_text(root, "ZM") {
        Some("XCBT")
    } else if eq_text(root, "ZL") {
        Some("XCBT")
    } else if eq_text(root, "CL") {
        Some("XNYM")
    } else if eq_text(root, "MCL") {
        Some("XNYM")
    } else if eq_text(root, "QM") {
        Some("XNYM")
    } else if eq_text(root, "NG") {
        Some("XNYM")
    } else if eq_text(root, "RB") {
        Some("XNYM")
    } else if eq_text(root, "HO") {
        Some("XNYM")
    } else if eq_text(root, "GC") {
        Some("XCEC")
    } else if eq_text(root, "MGC") {
        Some("XCEC")
    } else if eq_text(root, "SI") {
        Some("XCEC")
    } else if eq_text(root, "SIL") {
        Some("XCEC")
    } else if eq_text(root, "HG") {
        Some("XCEC")
    } else {
        None
    }
}

fn is_futures_chars(cs: &Vec<char>) -> (r: bool)
    ensures
        r == is_futures(cs@),
{
    cs.len() >= 2 && cs[1] == '/'
}

/// The first whitespace-separated token of `s`.
pub(crate) fn first_token(s: &str) -> (r: Option<Vec<char>>)
    ensures
        match r {
            Some(t) => tokens(s@).len() > 0 && t@ == tokens(s@)[0],
            None => tokens(s@).len() == 0,
        },
{
    let cs = chars_of(s);
    let toks = tokens_of(&cs);
    if toks.len() == 0 {
        return None;
    }
    assert(toks@[0]@ == tokens(s@)[0]);
    let t = copy_range(&toks[0], 0, toks[0].len());
    assert(t@ =~= toks@[0]@);
    Some(t)
}

pub(crate) fn strip_weekly_chars(u: Vec<char>) -> (r: Vec<char>)
    ensures
        r@ == strip_weekly_spec(u@),
{
    if eq_text(&u, "SPXW") {
        chars_of("SPX")
    } else {
        u
    }
}

/// The underlying symbol with the weekly suffix of `SPXW` taken off; any other symbol is
/// returned as it is.
pub fn strip_weekly(underlying_symbol: &str) -> (r: String)
    ensures
        r@ == strip_weekly_spec(underlying_symbol@),
{
    string_of(&strip_weekly_chars(chars_of(underlying_symbol)))
}

fn underlying_of(cs: &Vec<char>, toks: &Vec<Vec<char>>) -> (r: Option<Vec<char>>)
    requires
        views(toks@) == tokens(cs@),
    ensures
        match r {
            Some(u) => underlying_spec(cs@) == Some(u@),
            None => underlying_spec(cs@) is None,
        },
{
    if toks.len() == 0 {
        return None;
    }
    let t0 = &toks[0];
    assert(t0@ == tokens(cs@)[0]);
    if is_futures_chars(cs) {
        if t0.len() >= 5 && t0[0] == '.' && t0[1] == '/' {
            Some(copy_range(t0, 2, t0.len() - 2))
        } else {
            None
        }
    } else {
        let whole = copy_range(t0, 0, t0.len());
        assert(whole@ =~= t0@);
        Some(strip_weekly_chars(whole))
    }
}

fn detail_of<'a>(cs: &Vec<char>, toks: &'a Vec<Vec<char>>) -> (r: Option<&'a Vec<char>>)
    requires
        views(toks@) == tokens(cs@),
    ensures
        match r {
            Some(f) => detail_token(cs@) == Some(f@),
            None => detail_token(cs@) is None,
        },
{
    let k: usize = if is_futures_chars(cs) {
        2
    } else {
        1
    };
    if k < toks.len() {
        assert(toks@[k as int]@ == tokens(cs@)[k as int]);
        Some(&toks[k])
    } else {
        None
    }
}

fn option_type_of(cs: &Vec<char>, toks: &Vec<Vec<char>>) -> (r: Option<OptionType>)
    requires
        views(toks@) == tokens(cs@),
    ensures
        r == option_type_spec(cs@),
{
    match detail_of(cs, toks) {
        Some(f) => if f.len() > 6 && f[6] == 'C' {
            Some(OptionType::Call)
        } else if f.len() > 6 && f[6] == 'P' {
            Some(OptionType::Put)
        } else {
            None
        },
        None => None,
    }
}

fn all_digits_vec(v: &Vec<char>) -> (r: bool)
    ensures
        r == all_digits(v@),
{
    let r = all_digits_in(v, 0, v.len());
    assert(v@.subrange(0, v.len() as int) =~= v@);
    r
}

fn strike_parts_of(cs: &Vec<char>, toks: &Vec<Vec<char>>) -> (r: Option<(Vec<char>, Vec<char>)>)
    requires
        views(toks@) == tokens(cs@),
    ensures
        match r {
            Some(p) => strike_parts(cs@) == Some((p.0@, p.1@)),
            None => strike_parts(cs@) is None,
        },
{
    let f = match detail_of(cs, toks) {
        Some(f) => f,
        None => {
            return None;
        },
    };
    if f.len() < 8 {
        return None;
    }
    let st = copy_range(f, 7, f.len());
    assert(st@ =~= f@.skip(7));
    if is_futures_chars(cs) {
        let mut k: usize = 0;
        while k < st.len() && st[k] != '.'
            invariant
                k <= st.len(),
                forall|j: int| 0 <= j < k ==> st@[j] != '.',
            decreases st.len() - k,
        {
            k = k + 1;
        }
        proof {
            lemma_first_dot_is(st@, k as int);
        }
        let whole = copy_range(&st, 0, k);
        assert(whole@ =~= st@.take(k as int));
        let frac = if k < st.len() {
            let x = copy_range(&st, k + 1, st.len());
            assert(x@ =~= st@.skip(k + 1));
            x
        } else {
            let x: Vec<char> = Vec::new();
            assert(x@ =~= Seq::<char>::empty());
            x
        };
        if whole.len() > 0 && all_digits_vec(&whole) && all_digits_vec(&frac) {
            Some((whole, frac))
        } else {
            None
        }
    } else {
        if st.len() != 8 || !all_digits_vec(&st) {
            return None;
        }
        let whole = copy_range(&st, 0, 5);
        let frac = copy_range(&st, 5, 8);
        assert(whole@ =~= st@.take(5));
        assert(frac@ =~= st@.skip(5));
        Some((whole, frac))
    }
}

fn strike_of(cs: &Vec<char>, toks: &Vec<Vec<char>>) -> (r: Option<StrikePrice>)
    requires
        views(toks@) == tokens(cs@),
    ensures
        match r {
            Some(p) => strike_spec(cs@) == Some((p.mantissa as int, p.scale as int)),
            None => strike_spec(cs@) is None,
        },
{
    let (whole, frac) = match strike_parts_of(cs, toks) {
        Some(p) => p,
        None => {
            return None;
        },
    };
    let mut all = copy_range(&whole, 0, whole.len());
    let mut i: usize = 0;
    let ghost w = all@;
    assert(w =~= whole@);
    while i < frac.len()
        invariant
            i <= frac.len(),
            all@ == w + frac@.take(i as int),
        decreases frac.len() - i,
    {
        all.push(frac[i]);
        i = i + 1;
        assert(all@ =~= w + frac@.take(i as int));
    }
    assert(frac@.take(frac.len() as int) =~= frac@);
    assert(all@.subrange(0, all.len() as int) =~= whole@ + frac@);
    if frac.len() > 0xffff_ffff {
        return None;
    }
    match digits_in(&all, 0, all.len()) {
        Some(v) => Some(StrikePrice { mantissa: v, scale: frac.len() as u32 }),
        None => None,
    }
}

fn strike_text_of(whole: &Vec<char>, frac: &Vec<char>) -> (r: Vec<char>)
    ensures
        r@ == strike_text(whole@, frac@),
{
    let mut i: usize = 0;
    assert(whole@.skip(0) =~= whole@);
    while i < whole.len() && i < whole.len() - 1 && whole[i] == '0'
        invariant
            i <= whole.len(),
            strip_leading_zeros(whole@.skip(i as int)) == strip_leading_zeros(whole@),
        decreases whole.len() - i,
    {
        assert(whole@.skip(i as int).drop_first() =~= whole@.skip(i + 1));
        i = i + 1;
    }
    let mut out = copy_range(whole, i, whole.len());
    assert(out@ =~= whole@.skip(i as int));
    assert(strip_leading_zeros(whole@.skip(i as int)) == whole@.skip(i as int));
    let mut n: usize = frac.len();
    assert(frac@.take(n as int) =~= frac@);
    while n > 0 && frac[n - 1] == '0'
        invariant
            n <= frac.len(),
            trim_zeros(frac@.take(n as int)) == trim_zeros(frac@),
        decreases n,
    {
        assert(frac@.take(n as int).drop_last() =~= frac@.take(n - 1));
        n = n - 1;
    }
    assert(trim_zeros(frac@.take(n as int)) == frac@.take(n as int));
    if n > 0 {
        let ghost before = out@;
        out.push('.');
        let mut k: usize = 0;
        while k < n
            invariant
                k <= n <= frac.len(),
                out@ == before + seq!['.'] + frac@.take(k as int),
            decreases n - k,
        {
            out.push(frac[k]);
            k = k + 1;
            assert(out@ =~= before + seq!['.'] + frac@.take(k as int));
        }
    }
    assert(out@ =~= strike_text(whole@, frac@));
    out
}

fn date_digits_of(cs: &Vec<char>, toks: &Vec<Vec<char>>) -> (r: Option<Vec<char>>)
    requires
        views(toks@) == tokens(cs@),
    ensures
        match r {
            Some(d) => date_digits_spec(cs@) == Some(d@) && d.len() == 6,
            None => date_digits_spec(cs@) is None,
        },
{
    if is_futures_chars(cs) {
        return None;
    }
    match detail_of(cs, toks) {
        Some(f) => {
            if f.len() >= 6 && all_digits_in(f, 0, 6) {
                assert(f@.subrange(0, 6) =~= f@.take(6));
                Some(copy_range(f, 0, 6))
            } else {
                if f.len() >= 6 {
                    assert(f@.subrange(0, 6) =~= f@.take(6));
                }
                None
            }
        },
        None => None,
    }
}

fn contract_code_of(toks: &Vec<Vec<char>>, cs: &Vec<char>) -> (r: Option<Vec<char>>)
    requires
        views(toks@) == tokens(cs@),
    ensures
        match r {
            Some(c) => contract_code_spec(cs@) == Some(c@),
            None => contract_code_spec(cs@) is None,
        },
{
    if toks.len() < 3 {
        return None;
    }
    let t1 = &toks[1];
    let t2 = &toks[2];
    assert(t1@ == tokens(cs@)[1]);
    assert(t2@ == tokens(cs@)[2]);
    if t1.len() >= 2 && t2.len() >= 1 {
        let y = t1[t1.len() - 1];
        let decade = t2[0];
        if y >= '0' && y <= '9' && decade >= '0' && decade <= '9' {
            let mut code = copy_range(t1, 0, t1.len() - 1);
            code.push(decade);
            code.push(y);
            assert(code@ =~= t1@.drop_last() + seq![t2@[0], t1@.last()]);
            return Some(code);
        }
    }
    None
}

fn option_type_letter(t: OptionType) -> (c: char)
    ensures
        c == option_type_char(t),
{
    match t {
        OptionType::Call => 'C',
        OptionType::Put => 'P',
    }
}

fn malformed(part: SymbolPart, cs: &Vec<char>) -> (e: SymbolError)
    ensures
        e.part == part,
        e.text@ == cs@,
{
    SymbolError { part, text: string_of(cs) }
}

/// A brokerage option symbol, read through its accessors.
pub struct OptionSymbol {
    text: String,
}

impl View for OptionSymbol {
    type V = Seq<char>;

    closed spec fn view(&self) -> Seq<char> {
        self.text@
    }
}

impl OptionSymbol {
    pub fn from(s: &str) -> (r: OptionSymbol)
        ensures
            r@ == s@,
    {
        OptionSymbol { text: string_of(&chars_of(s)) }
    }

    /// The symbol as written.
    pub fn to_string(&self) -> (r: String)
        ensures
            r@ == self@,
    {
        self.text.clone()
    }

    fn parts(&self) -> (r: (Vec<char>, Vec<Vec<char>>))
        ensures
            r.0@ == self@,
            views(r.1@) == tokens(self@),
    {
        let cs = chars_of(self.text.as_str());
        let toks = tokens_of(&cs);
        (cs, toks)
    }

    /// The underlying symbol: the first token (`SPXW` read as `SPX`), or for a futures option
    /// the futures root between the leading `./` and the month and year.
    pub fn underlying_symbol(&self) -> (r: Result<String, SymbolError>)
        ensures
            match r {
                Ok(u) => underlying_spec(self@) == Some(u@),
                Err(e) => underlying_spec(self@) is None && e.part == SymbolPart::Underlying
                    && e.text@ == self@,
            },
    {
        let (cs, toks) = self.parts();
        match underlying_of(&cs, &toks) {
            Some(u) => Ok(string_of(&u)),
            None => Err(malformed(SymbolPart::Underlying, &cs)),
        }
    }

    /// Whether the option is a call (`C`) or a put (`P`).
    pub fn option_type(&self) -> (r: Result<OptionType, SymbolError>)
        ensures
            match r {
                Ok(t) => option_type_spec(self@) == Some(t),
                Err(e) => option_type_spec(self@) is None && e.part == SymbolPart::OptionType
                    && e.text@ == self@,
            },
    {
        let (cs, toks) = self.parts();
        match option_type_of(&cs, &toks) {
            Some(t) => Ok(t),
            None => Err(malformed(SymbolPart::OptionType, &cs)),
        }
    }

    /// The strike price, exactly.
    pub fn strike_price(&self) -> (r: Result<StrikePrice, SymbolError>)
        ensures
            match r {
                Ok(p) => strike_spec(self@) == Some((p.mantissa as int, p.scale as int)),
                Err(e) => strike_spec(self@) is None && e.part == SymbolPart::Strike && e.text@
                    == self@,
            },
    {
        let (cs, toks) = self.parts();
        match strike_of(&cs, &toks) {
            Some(d) => Ok(d),
            None => Err(malformed(SymbolPart::Strike, &cs)),
        }
    }

    /// The expiration date of an equity or index option. A futures option does not carry it
    /// in this form, and fails.
    pub fn expiration_date(&self) -> (r: Result<ExpirationDate, SymbolError>)
        ensures
            match r {
                Ok(d) => expiration_spec(self@) == Some(
                    (d.year as int, d.month as int, d.day as int),
                ),
                Err(e) => expiration_spec(self@) is None && e.part == SymbolPart::Expiration
                    && e.text@ == self@,
            },
    {
        let (cs, toks) = self.parts();
        if is_futures_chars(&cs) {
            return Err(malformed(SymbolPart::Expiration, &cs));
        }
        let f = match detail_of(&cs, &toks) {
            Some(f) => f,
            None => {
                return Err(malformed(SymbolPart::Expiration, &cs));
            },
        };
        if f.len() < 6 {
            return Err(malformed(SymbolPart::Expiration, &cs));
        }
        let field = copy_range(f, 0, 6);
        assert(field@ =~= f@.take(6));
        let text = string_of(&field);
        match parse_year_month_day(text.as_str()) {
            Some((year, month, day)) => Ok(ExpirationDate { year, month, day }),
            None => Err(malformed(SymbolPart::Expiration, &cs)),
        }
    }

    /// The data feed's quote symbol: `.`, the underlying, the date digits, the option type and
    /// the strike without leading or trailing zeros; for a futures option `./`, the contract code with
    /// a two-digit year, the option type, the strike, `:` and the exchange code.
    pub fn quote_symbol(&self) -> (r: Result<String, SymbolError>)
        ensures
            match r {
                Ok(q) => quote_outcome(self@) == Ok::<Seq<char>, (SymbolPart, Seq<char>)>(q@),
                Err(e) => quote_outcome(self@) == Err::<Seq<char>, (SymbolPart, Seq<char>)>(
                    (e.part, e.text@),
                ),
            },
    {
        let (cs, toks) = self.parts();
        let u = match underlying_of(&cs, &toks) {
            Some(u) => u,
            None => {
                return Err(malformed(SymbolPart::Underlying, &cs));
            },
        };
        let mut out: Vec<char> = Vec::new();
        out.push('.');
        if is_futures_chars(&cs) {
            let code = match contract_code_of(&toks, &cs) {
                Some(c) => c,
                None => {
                    return Err(malformed(SymbolPart::ContractCode, &cs));
                },
            };
            let t = match option_type_of(&cs, &toks) {
                Some(t) => t,
                None => {
                    return Err(malformed(SymbolPart::OptionType, &cs));
                },
            };
            let (whole, frac) = match strike_parts_of(&cs, &toks) {
                Some(p) => p,
                None => {
                    return Err(malformed(SymbolPart::Strike, &cs));
                },
            };
            let exchange = match futures_exchange(&u) {
                Some(x) => x,
                None => {
                    return Err(SymbolError { part: SymbolPart::Exchange, text: string_of(&u) });
                },
            };
            out.push('/');
            let mut k: usize = 0;
            let ghost start = out@;
            while k < code.len()
                invariant
                    k <= code.len(),
                    out@ == start + code@.take(k as int),
                decreases code.len() - k,
            {
                out.push(code[k]);
                k = k + 1;
                assert(out@ =~= start + code@.take(k as int));
            }
            assert(code@.take(code.len() as int) =~= code@);
            out.push(option_type_letter(t));
            let st = string_of(&strike_text_of(&whole, &frac));
            push_str(&mut out, st.as_str());
            out.push(':');
            push_str(&mut out, exchange);
            assert(out@ =~= seq!['.', '/'] + code@ + seq![option_type_char(t)] + strike_text(
                whole@,
                frac@,
            ) + seq![':'] + exchange@);
        } else {
            let d = match date_digits_of(&cs, &toks) {
                Some(d) => d,
                None => {
                    return Err(malformed(SymbolPart::Expiration, &cs));
                },
            };
            let t = match option_type_of(&cs, &toks) {
                Some(t) => t,
                None => {
                    return Err(malformed(SymbolPart::OptionType, &cs));
                },
            };
            let (whole, frac) = match strike_parts_of(&cs, &toks) {
                Some(p) => p,
                None => {
                    return Err(malformed(SymbolPart::Strike, &cs));
                },
            };
            let us = string_of(&u);
            push_str(&mut out, us.as_str());
            let ds = string_of(&d);
            push_str(&mut out, ds.as_str());
            out.push(option_type_letter(t));
            let st = string_of(&strike_text_of(&whole, &frac));
            push_str(&mut out, st.as_str());
            assert(out@ =~= seq!['.'] + u@ + d@ + seq![option_type_char(t)] + strike_text(
                whole@,
                frac@,
            ));
        }
        Ok(string_of(&out))
    }
}

/// Whether a character beyond ASCII is numeric in Unicode (general category Nd, Nl or No).
pub uninterp spec fn other_numeric(c: char) -> bool;

/// Whether a character is numeric in Unicode: an ASCII digit, or a numeric character beyond
/// ASCII. No other ASCII character is numeric.
pub open spec fn numeric(c: char) -> bool {
    is_digit(c) || ((c as u32) > 0x7f && other_numeric(c))
}

/// Relies on `char::is_numeric`: true for `'0'..='9'`, false for every other ASCII
/// character, and beyond ASCII a lookup of the numeric categories of the character alone.
#[verifier::external_body]
fn is_numeric(c: char) -> (r: bool)
    ensures
        r == (is_digit(c) || ((c as u32) > 0x7f && other_numeric(c))),
{
    c.is_numeric()
}

/// Whether quote symbol `q` names an option on underlying `u`: `u` follows the leading
/// character, and the character after it, if any, is numeric (so `.IQ200918P17.5` is an
/// option on `IQ` and not on `I`).
pub open spec fn matches_underlying_spec(q: Seq<char>, u: Seq<char>) -> bool {
    &&& q.len() >= u.len() + 1
    &&& q.subrange(1, u.len() + 1 as int) == u
    &&& (q.len() == u.len() + 1 || numeric(q[u.len() + 1 as int]))
}

/// A quote symbol of the data feed.
pub struct QuoteSymbol {
    text: String,
}

impl View for QuoteSymbol {
    type V = Seq<char>;

    closed spec fn view(&self) -> Seq<char> {
        self.text@
    }
}

impl QuoteSymbol {
    pub fn from(s: &str) -> (r: QuoteSymbol)
        ensures
            r@ == s@,
    {
        QuoteSymbol { text: string_of(&chars_of(s)) }
    }

    /// The symbol as written.
    pub fn to_string(&self) -> (r: String)
        ensures
            r@ == self@,
    {
        self.text.clone()
    }

    pub fn matches_underlying_symbol(&self, underlying_symbol: &str) -> (r: bool)
        ensures
            r == matches_underlying_spec(self@, underlying_symbol@),
    {
        let q = chars_of(self.text.as_str());
        let u = chars_of(underlying_symbol);
        if q.len() == 0 || q.len() - 1 < u.len() {
            return false;
        }
        let mut i: usize = 0;
        while i < u.len()
            invariant
                i <= u.len(),
                q.len() >= u.len() + 1,
                q@ == self@,
                u@ == underlying_symbol@,
                forall|j: int| 0 <= j < i ==> q@[j + 1] == u@[j],
            decreases u.len() - i,
        {
            if q[i + 1] != u[i] {
                assert(q@.subrange(1, u.len() + 1)[i as int] == q@[i + 1]);
                assert(q@.subrange(1, u.len() + 1) != u@);

                return false;
            }
            i = i + 1;
        }
        assert(q@.subrange(1, u.len() + 1) =~= u@);
        q.len() == u.len() + 1 || is_numeric(q[u.len() + 1])
    }
}

/// The quote symbol of an equity or index option names an option on that option's
/// underlying symbol.
pub proof fn lemma_quote_matches_underlying(s: Seq<char>)
    requires
        !is_futures(s),
        quote_outcome(s) is Ok,
    ensures
        matches_underlying_spec(quote_outcome(s)->Ok_0, underlying_spec(s)->0),
{
    let u = underlying_spec(s)->0;
    let d = date_digits_spec(s)->0;
    let q = quote_outcome(s)->Ok_0;
    let rest = seq![option_type_char(option_type_spec(s)->0)] + strike_text(strike_whole(s), strike_fraction(s));
    assert(q == seq!['.'] + u + d + rest);
    assert(q.subrange(1, u.len() + 1 as int) =~= u);
    assert(q[u.len() + 1 as int] == d[0]);
    assert(is_digit(d.take(6)[0]));
}

/// In the quote symbol of an equity or index option, a shorter underlying that the option's
/// own underlying starts with does not match when the next character of the underlying is an
/// ASCII character other than a digit (`.IQ200918P17.5` is no option on `I`).
pub proof fn lemma_quote_rejects_shorter_underlying(s: Seq<char>, p: Seq<char>)
    requires
        !is_futures(s),
        quote_outcome(s) is Ok,
        p.len() < underlying_spec(s)->0.len(),
        p == underlying_spec(s)->0.take(p.len() as int),
        (underlying_spec(s)->0[p.len() as int] as u32) <= 0x7f,
        !is_digit(underlying_spec(s)->0[p.len() as int]),
    ensures
        !matches_underlying_spec(quote_outcome(s)->Ok_0, p),
{
    let u = underlying_spec(s)->0;
    let d = date_digits_spec(s)->0;
    let q = quote_outcome(s)->Ok_0;
    let rest = seq![option_type_char(option_type_spec(s)->0)] + strike_text(strike_whole(s), strike_fraction(s));
    assert(q == seq!['.'] + u + d + rest);
    assert(q[p.len() + 1 as int] == u[p.len() as int]);
}

} // verus!
