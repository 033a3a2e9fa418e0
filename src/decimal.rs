//! Exact fixed-precision decimals: a signed count of ten-thousandths.
use vstd::prelude::*;

use crate::text::{
    all_digits, all_digits_in, chars_of, copy_range, digit_char, digit_of, digit_value, digits_in,
    digits_value, is_digit, lemma_digit_char, lemma_digits_value_bound, lemma_nat_text, nat_text,
    pow10, push_nat, string_of,
};

verus! {

/// How many units make one: a decimal holds at most four fractional digits.
pub const UNITS_PER_ONE: i64 = 10000;

/// The largest magnitude, in units, that a decimal can hold.
pub const MAX_UNITS: i64 = 0x7fff_ffff_ffff_ffff;

/// The text with every thousands separator taken out.
pub open spec fn without_commas(s: Seq<char>) -> Seq<char>
    decreases s.len(),
{
    if s.len() == 0 {
        s
    } else if s.last() == ',' {
        without_commas(s.drop_last())
    } else {
        without_commas(s.drop_last()).push(s.last())
    }
}

/// The index of the first decimal point, or the length when there is none.
pub open spec fn first_dot(t: Seq<char>) -> int
    decreases t.len(),
{
    if t.len() == 0 {
        0
    } else if first_dot(t.drop_last()) < t.len() - 1 {
        first_dot(t.drop_last())
    } else if t.last() == '.' {
        t.len() - 1
    } else {
        t.len() as int
    }
}

pub open spec fn integer_part(t: Seq<char>) -> Seq<char> {
    t.take(first_dot(t))
}

pub open spec fn fraction_part(t: Seq<char>) -> Seq<char> {
    if first_dot(t) < t.len() {
        t.skip(first_dot(t) + 1)
    } else {
        Seq::empty()
    }
}

pub open spec fn has_sign(ip: Seq<char>) -> bool {
    ip.len() > 0 && (ip[0] == '-' || ip[0] == '+')
}

pub open spec fn unsigned_digits(ip: Seq<char>) -> Seq<char> {
    if has_sign(ip) {
        ip.drop_first()
    } else {
        ip
    }
}

/// An optional sign followed by at least one digit.
pub open spec fn valid_integer_part(ip: Seq<char>) -> bool {
    unsigned_digits(ip).len() > 0 && all_digits(unsigned_digits(ip))
}

/// At most four digits.
pub open spec fn valid_fraction_part(fp: Seq<char>) -> bool {
    fp.len() <= 4 && all_digits(fp)
}

/// The fraction digits read as ten-thousandths (right-padded with zeros to four digits).
pub open spec fn fraction_units(fp: Seq<char>) -> nat {
    digits_value(fp) * pow10((4 - fp.len()) as nat)
}

/// The magnitude, in units, of text without separators.
pub open spec fn magnitude(t: Seq<char>) -> nat {
    digits_value(unsigned_digits(integer_part(t))) * 10000 + fraction_units(fraction_part(t))
}

/// What went wrong in a decimal's text.
#[derive(Clone, Copy, Debug, PartialEq, Eq, Structural)]
pub enum DecimalErrorKind {
    /// The part before the decimal point is not an optionally signed run of digits.
    Integer,
    /// The part after the decimal point is not a run of at most four digits.
    Fraction,
    /// The value does not fit.
    Range,
}

/// A decimal that could not be parsed, with the offending part of the text.
#[derive(Clone, Debug)]
pub struct DecimalError {
    pub kind: DecimalErrorKind,
    pub text: String,
}

/// The outcome of parsing `s`: the value in units, or the error and the text it names.
pub open spec fn parse_outcome(s: Seq<char>) -> Result<int, (DecimalErrorKind, Seq<char>)> {
    let t = without_commas(s);
    let ip = integer_part(t);
    let fp = fraction_part(t);
    if !valid_integer_part(ip) {
        Err((DecimalErrorKind::Integer, ip))
    } else if !valid_fraction_part(fp) {
        Err((DecimalErrorKind::Fraction, fp))
    } else if magnitude(t) > MAX_UNITS {
        Err((DecimalErrorKind::Range, s))
    } else if ip[0] == '-' {
        Ok(-magnitude(t))
    } else {
        Ok(magnitude(t) as int)
    }
}

pub open spec fn abs_units(v: int) -> nat {
    if v < 0 {
        (-v) as nat
    } else {
        v as nat
    }
}

/// The digits with trailing zeros taken off.
pub open spec fn trim_zeros(fs: Seq<char>) -> Seq<char>
    decreases fs.len(),
{
    if fs.len() > 0 && fs.last() == '0' {
        trim_zeros(fs.drop_last())
    } else {
        fs
    }
}

/// `n` (below 10000) as exactly four digits, zero-padded on the left.
pub open spec fn four_digits(n: nat) -> Seq<char> {
    seq![
        digit_char((n / 1000) as int),
        digit_char((n / 100 % 10) as int),
        digit_char((n / 10 % 10) as int),
        digit_char((n % 10) as int),
    ]
}

/// The canonical text of a value of `v` units.
pub open spec fn format_units(v: int) -> Seq<char> {
    let a = abs_units(v);
    let sign = if v < 0 {
        seq!['-']
    } else {
        Seq::empty()
    };
    let frac = trim_zeros(four_digits(a % 10000));
    sign + nat_text(a / 10000) + if frac.len() == 0 {
        Seq::empty()
    } else {
        seq!['.'] + frac
    }
}

/// A canonical text: no thousands separator and no `+`, an integer part without a leading
/// zero unless it is `0`, no decimal point without a fraction, and no trailing fractional
/// zero.
pub open spec fn is_canonical(f: Seq<char>) -> bool {
    &&& forall|i: int| 0 <= i < f.len() ==> f[i] != ',' && f[i] != '+'
    &&& (unsigned_digits(integer_part(f)).len() == 1 || unsigned_digits(integer_part(f))[0]
        != '0')
    &&& (first_dot(f) < f.len() ==> fraction_part(f).len() > 0 && fraction_part(f).last()
        != '0')
}

/// Text `f` shows the sign and integrality of `v` units: a leading `-` exactly when `v` is
/// negative, a decimal point exactly when `v` is not a whole number.
pub open spec fn shows_value(f: Seq<char>, v: int) -> bool {
    &&& f.len() > 0
    &&& (f[0] == '-' <==> v < 0)
    &&& (first_dot(f) < f.len() <==> abs_units(v) % 10000 != 0)
}

/// An exact decimal with at most four fractional digits, held as a count of ten-thousandths.
#[derive(Clone, Copy, Debug, PartialEq, Eq)]
pub struct Decimal {
    units: i64,
}

impl View for Decimal {
    type V = int;

    /// The value in units (ten-thousandths).
    closed spec fn view(&self) -> int {
        self.units as int
    }
}

proof fn lemma_first_dot(t: Seq<char>)
    ensures
        0 <= first_dot(t) <= t.len(),
        forall|j: int| 0 <= j < first_dot(t) ==> t[j] != '.',
        first_dot(t) < t.len() ==> t[first_dot(t)] == '.',
    decreases t.len(),
{
    if t.len() > 0 {
        lemma_first_dot(t.drop_last());
        assert forall|j: int| 0 <= j < first_dot(t) implies t[j] != '.' by {
            if j < t.len() - 1 {
                assert(t[j] == t.drop_last()[j]);
            }
        }
    }
}

/// `p` is the first decimal point of `t`, or its length when `t` has none.
pub(crate) proof fn lemma_first_dot_is(t: Seq<char>, p: int)
    requires
        0 <= p <= t.len(),
        forall|j: int| 0 <= j < p ==> t[j] != '.',
        p < t.len() ==> t[p] == '.',
    ensures
        first_dot(t) == p,
{
    lemma_first_dot(t);
}

proof fn lemma_no_commas(f: Seq<char>)
    requires
        forall|i: int| 0 <= i < f.len() ==> f[i] != ',',
    ensures
        without_commas(f) == f,
    decreases f.len(),
{
    if f.len() > 0 {
        lemma_no_commas(f.drop_last());
        assert(without_commas(f.drop_last()).push(f.last()) =~= f);
    }
}

proof fn lemma_trim_zeros(fs: Seq<char>)
    requires
        all_digits(fs),
    ensures
        trim_zeros(fs).len() <= fs.len(),
        trim_zeros(fs) == fs.take(trim_zeros(fs).len() as int),
        trim_zeros(fs).len() > 0 ==> trim_zeros(fs).last() != '0',
        digits_value(trim_zeros(fs)) * pow10((fs.len() - trim_zeros(fs).len()) as nat)
            == digits_value(fs),
    decreases fs.len(),
{
    if fs.len() > 0 && fs.last() == '0' {
        let d = fs.drop_last();
        lemma_trim_zeros(d);
        let t = trim_zeros(d);
        assert(d.take(t.len() as int) =~= fs.take(t.len() as int));
        let k = (d.len() - t.len()) as nat;
        assert(pow10(k + 1) == 10 * pow10(k));
        assert((fs.len() - t.len()) as nat == k + 1);
        let x = digits_value(t) as int;
        let y = pow10(k) as int;
        assert(x * (10 * y) == (x * y) * 10) by (nonlinear_arith);
        assert(digit_value(fs.last()) == 0);
        assert(digits_value(fs) == digits_value(d) * 10);
        assert(trim_zeros(fs) == t);
        assert(x * pow10(k + 1) == x * y * 10);
        assert(digits_value(trim_zeros(fs)) * pow10((fs.len() - trim_zeros(fs).len()) as nat)
            == digits_value(fs));
    } else {
        assert(fs.take(fs.len() as int) =~= fs);
        assert(trim_zeros(fs) == fs);
        assert(pow10(0) == 1);
        assert(digits_value(fs) * pow10(0) == digits_value(fs));
    }
}

proof fn lemma_four_digits(n: nat)
    requires
        n < 10000,
    ensures
        four_digits(n).len() == 4,
        all_digits(four_digits(n)),
        digits_value(four_digits(n)) == n,
{
    let f = four_digits(n);
    lemma_digit_char((n / 1000) as int);
    lemma_digit_char((n / 100 % 10) as int);
    lemma_digit_char((n / 10 % 10) as int);
    lemma_digit_char((n % 10) as int);
    let f1 = f.drop_last().drop_last().drop_last();
    assert(f1 =~= seq![f[0]]);
    assert(f1.drop_last() =~= Seq::<char>::empty());
    assert(f1.last() == f[0]);
    assert(digits_value(f1.drop_last()) == 0);
    assert(digit_value(f[0]) == n / 1000);
    assert(digits_value(f.drop_last().drop_last().drop_last()) == n / 1000);
    assert(digits_value(f.drop_last().drop_last()) == (n / 1000) * 10 + n / 100 % 10);
    assert(digits_value(f.drop_last()) == ((n / 1000) * 10 + n / 100 % 10) * 10 + n / 10 % 10);
}

/// The canonical text of every value that a decimal can hold parses back to that value, and
/// carries no trailing fractional zero.
pub proof fn lemma_format_parses(v: int)
    requires
        -MAX_UNITS <= v <= MAX_UNITS,
    ensures
        parse_outcome(format_units(v)) == Ok::<int, (DecimalErrorKind, Seq<char>)>(v),
        is_canonical(format_units(v)),
        shows_value(format_units(v), v),
{
    let a = abs_units(v);
    let sign = if v < 0 {
        seq!['-']
    } else {
        Seq::<char>::empty()
    };
    let it = nat_text(a / 10000);
    let frac = trim_zeros(four_digits(a % 10000));
    let tail = if frac.len() == 0 {
        Seq::<char>::empty()
    } else {
        seq!['.'] + frac
    };
    let f = format_units(v);
    assert(f == sign + it + tail);
    lemma_nat_text(a / 10000);
    lemma_four_digits(a % 10000);
    lemma_trim_zeros(four_digits(a % 10000));
    assert(all_digits(frac)) by {
        assert forall|i: int| 0 <= i < frac.len() implies is_digit(#[trigger] frac[i]) by {
            assert(frac[i] == four_digits(a % 10000)[i]);
        }
    }
    let k = (sign.len() + it.len()) as int;
    lemma_nat_text_lead(a / 10000);
    assert forall|i: int| 0 <= i < f.len() implies f[i] != ',' && f[i] != '+' by {
        if i < sign.len() {
        } else if i < k {
            assert(f[i] == it[i - sign.len()]);
            assert(is_digit(it[i - sign.len()]));
        } else if i == k {
        } else {
            assert(f[i] == frac[i - k - 1]);
            assert(is_digit(frac[i - k - 1]));
        }
    }
    lemma_no_commas(f);
    assert forall|j: int| 0 <= j < k implies f[j] != '.' by {
        if j >= sign.len() {
            assert(f[j] == it[j - sign.len()]);
            assert(is_digit(it[j - sign.len()]));
        }
    }
    lemma_first_dot_is(f, k);
    assert(integer_part(f) =~= sign + it);
    assert(unsigned_digits(sign + it) =~= it) by {
        assert(is_digit(it[0]));
        if v < 0 {
            assert((sign + it).drop_first() =~= it);
        }
    }
    if frac.len() > 0 {
        assert(fraction_part(f) =~= frac);
    } else {
        assert(fraction_part(f) =~= frac);
    }
    let rest = (4 - frac.len()) as nat;
    assert(fraction_units(frac) == a % 10000);
    assert(magnitude(f) == a);
    assert(is_digit(it[0]));
    if v >= 0 {
        assert(f[0] == it[0]);
    } else {
        assert(f[0] == '-');
    }
    if frac.len() > 0 {
        lemma_nonzero_last_digit(frac);
        lemma_pow10_positive((4 - frac.len()) as nat);
        let x = digits_value(frac) as int;
        let y = pow10((4 - frac.len()) as nat) as int;
        assert(x * y >= 1) by (nonlinear_arith)
            requires
                x >= 1,
                y >= 1,
        ;
        assert(x * y == a % 10000);
        assert(f.len() > k);
        assert(first_dot(f) < f.len());
        assert(abs_units(v) % 10000 != 0);
        assert(f[0] == '-' <==> v < 0);
        assert(shows_value(f, v));
    } else {
        assert(digits_value(frac) == 0);
        let y = pow10((4 - frac.len()) as nat) as int;
        assert(digits_value(frac) * y == 0) by (nonlinear_arith)
            requires
                digits_value(frac) == 0,
        ;
        assert(a % 10000 == 0);
        assert(f.len() == k);
        assert(shows_value(f, v));
    }
}

proof fn lemma_pow10_positive(k: nat)
    ensures
        pow10(k) >= 1,
    decreases k,
{
    if k > 0 {
        lemma_pow10_positive((k - 1) as nat);
    }
}

/// Digits whose last one is not zero spell a positive number.
proof fn lemma_nonzero_last_digit(ds: Seq<char>)
    requires
        ds.len() > 0,
        all_digits(ds),
        ds.last() != '0',
    ensures
        digits_value(ds) >= 1,
{
    assert(is_digit(ds[ds.len() - 1]));
}

/// The shortest spelling of a number starts with a zero only when it is `0`.
proof fn lemma_nat_text_lead(n: nat)
    ensures
        nat_text(n).len() == 1 || nat_text(n)[0] != '0',
    decreases n,
{
    if n >= 10 {
        lemma_nat_text_lead(n / 10);
        lemma_nat_text(n / 10);
        assert(nat_text(n)[0] == nat_text(n / 10)[0]);
        if n / 10 < 10 {
            lemma_digit_char((n / 10) as int);
            assert(nat_text(n / 10)[0] == digit_char((n / 10) as int));
            assert(digit_value('0') == 0);
        } else {
            lemma_nat_text(n / 100);
            assert(nat_text(n / 10).len() >= 2);
        }
    }
}

/// Formatting the value of any text that parses gives canonical text that parses back to the
/// same value.
pub proof fn lemma_parse_format_round_trip(s: Seq<char>)
    requires
        parse_outcome(s) is Ok,
    ensures
        parse_outcome(format_units(parse_outcome(s)->Ok_0)) == parse_outcome(s),
        is_canonical(format_units(parse_outcome(s)->Ok_0)),
        shows_value(format_units(parse_outcome(s)->Ok_0), parse_outcome(s)->Ok_0),
{
    lemma_format_parses(parse_outcome(s)->Ok_0);
}

impl Decimal {
    #[verifier::type_invariant]
    spec fn in_range(self) -> bool {
        -MAX_UNITS <= self.units
    }

    /// A decimal of `units` ten-thousandths.
    pub(crate) fn from_units(units: i64) -> (r: Decimal)
        requires
            -MAX_UNITS <= units,
        ensures
            r@ == units,
    {
        Decimal { units }
    }

    /// The value in ten-thousandths: the numerator over `UNITS_PER_ONE`.
    pub fn units(&self) -> (r: i64)
        ensures
            r == self@,
            -MAX_UNITS <= r,
    {
        proof {
            use_type_invariant(self);
        }
        self.units
    }

    /// Parses text such as `"-1,234.5"`: thousands separators are dropped, an optional sign
    /// leads, and at most four digits follow the decimal point. The range is symmetric: a
    /// magnitude above `MAX_UNITS` ten-thousandths is a `Range` error, so
    /// `-922337203685477.5808` is refused although its units would fit an `i64`; this keeps
    /// `abs` and `neg` total.
    pub fn parse(s: &str) -> (r: Result<Decimal, DecimalError>)
        ensures
            match r {
                Ok(d) => parse_outcome(s@) == Ok::<int, (DecimalErrorKind, Seq<char>)>(d@),
                Err(e) => parse_outcome(s@) == Err::<int, (DecimalErrorKind, Seq<char>)>(
                    (e.kind, e.text@),
                ),
            },
    {
        Decimal::parse_chars(&chars_of(s))
    }

    /// `parse`, on the characters of the text.
    pub(crate) fn parse_chars(cs: &Vec<char>) -> (r: Result<Decimal, DecimalError>)
        ensures
            match r {
                Ok(d) => parse_outcome(cs@) == Ok::<int, (DecimalErrorKind, Seq<char>)>(d@),
                Err(e) => parse_outcome(cs@) == Err::<int, (DecimalErrorKind, Seq<char>)>(
                    (e.kind, e.text@),
                ),
            },
    {
        let mut t: Vec<char> = Vec::new();
        let mut i: usize = 0;
        while i < cs.len()
            invariant
                i <= cs.len(),
                t@ == without_commas(cs@.take(i as int)),
            decreases cs.len() - i,
        {
            assert(cs@.take(i + 1).drop_last() =~= cs@.take(i as int));
            if cs[i] != ',' {
                t.push(cs[i]);
            }
            i = i + 1;
        }
        assert(cs@.take(cs.len() as int) =~= cs@);
        let mut p: usize = 0;
        while p < t.len() && t[p] != '.'
            invariant
                p <= t.len(),
                forall|j: int| 0 <= j < p ==> t@[j] != '.',
            decreases t.len() - p,
        {
            p = p + 1;
        }
        proof {
            lemma_first_dot_is(t@, p as int);
        }
        let ghost ip = integer_part(t@);
        let ghost fp = fraction_part(t@);
        assert(ip =~= t@.subrange(0, p as int));
        let signed = p > 0 && (t[0] == '-' || t[0] == '+');
        let negative = p > 0 && t[0] == '-';
        let start: usize = if signed {
            1
        } else {
            0
        };
        assert(unsigned_digits(ip) =~= t@.subrange(start as int, p as int));
        if start >= p || !all_digits_in(&t, start, p) {
            let text = copy_range(&t, 0, p);
            return Err(DecimalError { kind: DecimalErrorKind::Integer, text: string_of(&text) });
        }
        let fs: usize = if p < t.len() {
            p + 1
        } else {
            t.len()
        };
        assert(fp =~= t@.subrange(fs as int, t.len() as int));
        if t.len() - fs > 4 || !all_digits_in(&t, fs, t.len()) {
            let text = copy_range(&t, fs, t.len());
            return Err(DecimalError { kind: DecimalErrorKind::Fraction, text: string_of(&text) });
        }
        proof {
            lemma_digits_value_bound(fp);
            reveal_with_fuel(pow10, 5);
        }
        let whole = digits_in(&t, start, p);
        let iv: u64 = match whole {
            Some(v) => v,
            None => {
                return Err(DecimalError { kind: DecimalErrorKind::Range, text: string_of(cs) });
            },
        };
        if iv > (MAX_UNITS / UNITS_PER_ONE) as u64 {
            return Err(DecimalError { kind: DecimalErrorKind::Range, text: string_of(cs) });
        }
        let fv: u64 = match digits_in(&t, fs, t.len()) {
            Some(v) => v,
            None => 0,
        };
        let flen = t.len() - fs;
        let scale: u64 = if flen == 0 {
            10000
        } else if flen == 1 {
            1000
        } else if flen == 2 {
            100
        } else if flen == 3 {
            10
        } else {
            1
        };
        assert(scale == pow10((4 - flen) as nat));
        assert(fv * scale < 10000) by (nonlinear_arith)
            requires
                fv < pow10(flen as nat),
                flen <= 4,
                scale == pow10((4 - flen) as nat),
                pow10(0) == 1,
                pow10(1) == 10,
                pow10(2) == 100,
                pow10(3) == 1000,
                pow10(4) == 10000,
        ;
        let mag: u64 = iv * 10000 + fv * scale;
        if mag > MAX_UNITS as u64 {
            return Err(DecimalError { kind: DecimalErrorKind::Range, text: string_of(cs) });
        }
        let units: i64 = if negative {
            -(mag as i64)
        } else {
            mag as i64
        };
        Ok(Decimal { units })
    }

    /// The canonical text: a `-` iff negative, the integer digits, then a decimal point and the
    /// fraction digits with trailing zeros trimmed, omitted when the value is integral.
    pub fn to_string(&self) -> (r: String)
        ensures
            r@ == format_units(self@),
    {
        proof {
            use_type_invariant(self);
        }
        let a: u64 = if self.units < 0 {
            (-self.units) as u64
        } else {
            self.units as u64
        };
        let mut out: Vec<char> = Vec::new();
        if self.units < 0 {
            out.push('-');
        }
        push_nat(&mut out, a / 10000);
        let f = a % 10000;
        let frac: Vec<char> = vec![
            digit_of(f / 1000),
            digit_of(f / 100 % 10),
            digit_of(f / 10 % 10),
            digit_of(f % 10),
        ];
        assert(frac@ =~= four_digits(f as nat));
        let mut n: usize = 4;
        assert(frac@.take(4) =~= frac@);
        while n > 0 && frac[n - 1] == '0'
            invariant
                n <= 4,
                frac.len() == 4,
                trim_zeros(frac@.take(n as int)) == trim_zeros(frac@),
            decreases n,
        {
            assert(frac@.take(n as int).drop_last() =~= frac@.take(n - 1));
            n = n - 1;
        }
        assert(trim_zeros(frac@.take(n as int)) == frac@.take(n as int));
        if n > 0 {
            out.push('.');
            let mut k: usize = 0;
            let ghost before = out@;
            while k < n
                invariant
                    k <= n <= 4,
                    frac.len() == 4,
                    out@ == before + frac@.take(k as int),
                decreases n - k,
            {
                out.push(frac[k]);
                k = k + 1;
                assert(out@ =~= before + frac@.take(k as int));
            }
        }
        let ghost sign = if self.units < 0 {
            seq!['-']
        } else {
            Seq::<char>::empty()
        };
        let ghost tail = if n == 0 {
            Seq::<char>::empty()
        } else {
            seq!['.'] + frac@.take(n as int)
        };
        assert(out@ =~= sign + nat_text((a / 10000) as nat) + tail);
        string_of(&out)
    }

    /// The absolute value.
    pub fn abs(&self) -> (r: Decimal)
        ensures
            r@ == abs_units(self@),
    {
        proof {
            use_type_invariant(self);
        }
        if self.units < 0 {
            Decimal { units: -self.units }
        } else {
            *self
        }
    }

    /// The value negated.
    pub fn neg(&self) -> (r: Decimal)
        ensures
            r@ == -self@,
    {
        proof {
            use_type_invariant(self);
        }
        Decimal { units: -self.units }
    }

    /// Zero.
    pub fn zero() -> (r: Decimal)
        ensures
            r@ == 0,
    {
        Decimal { units: 0 }
    }

    /// The integer `v`, or `None` when `v` has too many digits to be held: a decimal keeps
    /// four fractional digits in an `i64`, so its magnitude stays below about 9.2 * 10^14.
    pub fn from_integer(v: i64) -> (r: Option<Decimal>)
        ensures
            r is Some <==> -MAX_UNITS <= v * UNITS_PER_ONE <= MAX_UNITS,
            r matches Some(d) ==> d@ == v * UNITS_PER_ONE,
    {
        let bound: i64 = MAX_UNITS / UNITS_PER_ONE;
        if v > bound || v < -bound {
            None
        } else {
            Some(Decimal { units: v * UNITS_PER_ONE })
        }
    }

    /// The sum, or `None` when it does not fit.
    pub fn checked_add(&self, other: &Decimal) -> (r: Option<Decimal>)
        ensures
            r is Some <==> -MAX_UNITS <= self@ + other@ <= MAX_UNITS,
            r matches Some(d) ==> d@ == self@ + other@,
    {
        proof {
            use_type_invariant(self);
            use_type_invariant(other);
        }
        let sum: i128 = self.units as i128 + other.units as i128;
        if sum > MAX_UNITS as i128 || sum < -(MAX_UNITS as i128) {
            None
        } else {
            Some(Decimal { units: sum as i64 })
        }
    }

    pub fn is_positive(&self) -> (r: bool)
        ensures
            r == (self@ > 0),
    {
        self.units > 0
    }

    pub fn is_negative(&self) -> (r: bool)
        ensures
            r == (self@ < 0),
    {
        self.units < 0
    }
}

} // verus!
