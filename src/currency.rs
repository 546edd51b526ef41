use core::marker::PhantomData;
use vstd::prelude::*;

verus! {

/// A monetary amount in currency `C`, held as an integer count of the
/// currency's smallest unit (cents for the euro). The currency is a
/// type-level tag only, so amounts of different currencies never mix.
#[derive(Debug)]
pub struct MonetaryAmount<C> {
    /// The currency tag; it carries no data.
    pub currency: PhantomData<C>,
    /// The value, in the smallest unit that the currency can be divided into.
    pub value: i64,
}

/// Whether an integer fits in an `i64`.
pub open spec fn fits_i64(x: int) -> bool {
    i64::MIN <= x <= i64::MAX
}

/// Integer division truncating toward zero, as Rust's `/` does, for a
/// positive or negative divisor.
pub open spec fn trunc_div(a: int, b: int) -> int
    recommends
        b != 0,
{
    if a >= 0 {
        a / b
    } else {
        -((-a) / b)
    }
}

/// The remainder that goes with `trunc_div`: it has the sign of `a`.
pub open spec fn trunc_rem(a: int, b: int) -> int
    recommends
        b != 0,
{
    if a >= 0 {
        a % b
    } else {
        -((-a) % b)
    }
}

/// The amount of `value` minor units.
pub open spec fn amount_of<C>(value: int) -> MonetaryAmount<C> {
    MonetaryAmount { currency: PhantomData, value: value as i64 }
}

impl<C> MonetaryAmount<C> {
    pub fn new(value: i64) -> (r: MonetaryAmount<C>)
        ensures
            r.value == value,
    {
        MonetaryAmount { currency: PhantomData, value }
    }

    /// Renders the amount in the notation of its currency.
    pub fn to_display_string(&self) -> (r: String) where C: Currency
        ensures
            r@ == C::currency_text(self.value as int),
    {
        C::format_currency(self.value)
    }
}

impl<C> Clone for MonetaryAmount<C> {
    fn clone(&self) -> (r: MonetaryAmount<C>)
        ensures
            r == *self,
    {
        MonetaryAmount::new(self.value)
    }
}

impl<C> Copy for MonetaryAmount<C> {

}

impl<C> Default for MonetaryAmount<C> {
    fn default() -> (r: MonetaryAmount<C>)
        ensures
            r.value == 0,
    {
        MonetaryAmount::new(0)
    }
}

impl<C> PartialEq for MonetaryAmount<C> {
    fn eq(&self, other: &MonetaryAmount<C>) -> (r: bool) {
        self.value == other.value
    }
}

impl<C> vstd::std_specs::cmp::PartialEqSpecImpl for MonetaryAmount<C> {
    open spec fn obeys_eq_spec() -> bool {
        true
    }

    open spec fn eq_spec(&self, other: &MonetaryAmount<C>) -> bool {
        self.value == other.value
    }
}

impl<C> Eq for MonetaryAmount<C> {

}

/// Amounts are ordered by their values.
impl<C> PartialOrd for MonetaryAmount<C> {
    fn partial_cmp(&self, other: &MonetaryAmount<C>) -> (r: Option<core::cmp::Ordering>) {
        if self.value < other.value {
            Some(core::cmp::Ordering::Less)
        } else if self.value > other.value {
            Some(core::cmp::Ordering::Greater)
        } else {
            Some(core::cmp::Ordering::Equal)
        }
    }
}

impl<C> vstd::std_specs::cmp::PartialOrdSpecImpl for MonetaryAmount<C> {
    open spec fn obeys_partial_cmp_spec() -> bool {
        true
    }

    open spec fn partial_cmp_spec(&self, other: &MonetaryAmount<C>) -> Option<core::cmp::Ordering> {
        if self.value < other.value {
            Some(core::cmp::Ordering::Less)
        } else if self.value > other.value {
            Some(core::cmp::Ordering::Greater)
        } else {
            Some(core::cmp::Ordering::Equal)
        }
    }
}

impl<C> core::ops::Add for MonetaryAmount<C> {
    type Output = MonetaryAmount<C>;

    fn add(self, rhs: MonetaryAmount<C>) -> (r: MonetaryAmount<C>) {
        MonetaryAmount::new(self.value + rhs.value)
    }
}

impl<C> vstd::std_specs::ops::AddSpecImpl for MonetaryAmount<C> {
    open spec fn obeys_add_spec() -> bool {
        true
    }

    open spec fn add_req(self, rhs: MonetaryAmount<C>) -> bool {
        fits_i64(self.value + rhs.value)
    }

    open spec fn add_spec(self, rhs: MonetaryAmount<C>) -> MonetaryAmount<C> {
        amount_of(self.value + rhs.value)
    }
}

impl<C> core::ops::Sub for MonetaryAmount<C> {
    type Output = MonetaryAmount<C>;

    fn sub(self, rhs: MonetaryAmount<C>) -> (r: MonetaryAmount<C>) {
        MonetaryAmount::new(self.value - rhs.value)
    }
}

impl<C> vstd::std_specs::ops::SubSpecImpl for MonetaryAmount<C> {
    open spec fn obeys_sub_spec() -> bool {
        true
    }

    open spec fn sub_req(self, rhs: MonetaryAmount<C>) -> bool {
        fits_i64(self.value - rhs.value)
    }

    open spec fn sub_spec(self, rhs: MonetaryAmount<C>) -> MonetaryAmount<C> {
        amount_of(self.value - rhs.value)
    }
}

/// Multiplies the two minor-unit values directly. It serves the scaling of
/// an award by a stake, where one side is a ratio rather than money.
impl<C> core::ops::Mul for MonetaryAmount<C> {
    type Output = MonetaryAmount<C>;

    fn mul(self, rhs: MonetaryAmount<C>) -> (r: MonetaryAmount<C>) {
        MonetaryAmount::new(self.value * rhs.value)
    }
}

impl<C> vstd::std_specs::ops::MulSpecImpl for MonetaryAmount<C> {
    open spec fn obeys_mul_spec() -> bool {
        true
    }

    open spec fn mul_req(self, rhs: MonetaryAmount<C>) -> bool {
        fits_i64(self.value * rhs.value)
    }

    open spec fn mul_spec(self, rhs: MonetaryAmount<C>) -> MonetaryAmount<C> {
        amount_of(self.value * rhs.value)
    }
}

/// Divides the two minor-unit values directly, truncating toward zero.
impl<C> core::ops::Div for MonetaryAmount<C> {
    type Output = MonetaryAmount<C>;

    fn div(self, rhs: MonetaryAmount<C>) -> (r: MonetaryAmount<C>) {
        MonetaryAmount::new(self.value / rhs.value)
    }
}

impl<C> vstd::std_specs::ops::DivSpecImpl for MonetaryAmount<C> {
    open spec fn obeys_div_spec() -> bool {
        true
    }

    open spec fn div_req(self, rhs: MonetaryAmount<C>) -> bool {
        rhs.value != 0 && !(self.value == i64::MIN && rhs.value == -1)
    }

    open spec fn div_spec(self, rhs: MonetaryAmount<C>) -> MonetaryAmount<C> {
        amount_of(trunc_div(self.value as int, rhs.value as int))
    }
}

/// A currency: knows how to render an amount given in its minor units.
pub trait Currency {
    /// The text that renders `minor_units` in this currency.
    spec fn currency_text(minor_units: int) -> Seq<char>;

    fn format_currency(minor_units: i64) -> (r: String)
        ensures
            r@ == Self::currency_text(minor_units as int),
    ;
}

/// The euro, whose minor unit is the cent.
#[derive(Clone, Copy, Debug, Default, PartialEq, Eq, PartialOrd, Ord)]
pub struct Euro;

/// The decimal digit character for `d` (0 to 9).
pub open spec fn digit_char(d: int) -> char {
    (d + '0' as int) as char
}

/// The decimal digits of `n`, most significant first, with no leading zero.
pub open spec fn decimal_text(n: nat) -> Seq<char>
    decreases n,
{
    if n < 10 {
        seq![digit_char(n as int)]
    } else {
        decimal_text(n / 10).push(digit_char((n % 10) as int))
    }
}

/// The decimal text of an integer, with a leading `-` when it is negative.
pub open spec fn signed_text(n: int) -> Seq<char> {
    if n < 0 {
        seq!['-'] + decimal_text((-n) as nat)
    } else {
        decimal_text(n as nat)
    }
}

/// `<whole>.<cc>€`: the whole euros are the cents divided by 100 truncating
/// toward zero, with their sign; the two cent digits are the absolute value
/// of the remainder, unsigned (so -50 cents reads `0.50€`).
pub open spec fn euro_text(cents: int) -> Seq<char> {
    let whole = trunc_div(cents, 100);
    let rem = trunc_rem(cents, 100);
    let frac = if rem < 0 {
        -rem
    } else {
        rem
    };
    signed_text(whole) + seq!['.', digit_char(frac / 10), digit_char(frac % 10), '€']
}

/// Relies on String::push: appends one character.
#[verifier::external_body]
fn push_char(s: &mut String, c: char)
    ensures
        final(s)@ == old(s)@.push(c),
{
    s.push(c)
}

fn digit(d: u64) -> (r: char)
    requires
        d < 10,
    ensures
        r == digit_char(d as int),
{
    ((d as u8) + 48u8) as char
}

/// Appends the decimal digits of `n`.
fn push_decimal(s: &mut String, n: u64)
    ensures
        final(s)@ == old(s)@ + decimal_text(n as nat),
    decreases n,
{
    if n >= 10 {
        push_decimal(s, n / 10);
    }
    push_char(s, digit(n % 10));
    assert(final(s)@ =~= old(s)@ + decimal_text(n as nat));
}

/// Renders a count of cents as euros, as `euro_text` describes.
pub fn format_euro_cents(cents: i64) -> (r: String)
    ensures
        r@ == euro_text(cents as int),
{
    let whole: i64 = cents / 100;
    let rem: i64 = cents % 100;
    let frac: u64 = if rem < 0 { (-rem) as u64 } else { rem as u64 };
    let mut s = String::new();
    if whole < 0 {
        push_char(&mut s, '-');
        push_decimal(&mut s, (-(whole as i128)) as u64);
    } else {
        push_decimal(&mut s, whole as u64);
    }
    push_char(&mut s, '.');
    push_char(&mut s, digit(frac / 10));
    push_char(&mut s, digit(frac % 10));
    push_char(&mut s, '€');
    assert(s@ =~= euro_text(cents as int));
    s
}

impl Currency for Euro {
    open spec fn currency_text(minor_units: int) -> Seq<char> {
        euro_text(minor_units)
    }

    fn format_currency(minor_units: i64) -> (r: String) {
        format_euro_cents(minor_units)
    }
}

/// Constructors of euro amounts from whole euros.
pub trait CurrencyEuroExt {
    fn from_euros(euros: i64) -> (r: MonetaryAmount<Euro>)
        requires
            fits_i64(euros * 100),
        ensures
            r.value == euros * 100,
    ;

    /// Whole euros and extra cents; the cents take the sign of the euros.
    fn from_euros_and_cents(euros: i64, cents: u8) -> (r: MonetaryAmount<Euro>)
        requires
            fits_i64(euros * 100 + cents),
            fits_i64(euros * 100 - cents),
        ensures
            r.value == if euros >= 0 { euros * 100 + cents } else { euros * 100 - cents },
    ;
}

impl CurrencyEuroExt for MonetaryAmount<Euro> {
    fn from_euros(euros: i64) -> (r: MonetaryAmount<Euro>) {
        MonetaryAmount::new(euros * 100)
    }

    fn from_euros_and_cents(euros: i64, cents: u8) -> (r: MonetaryAmount<Euro>) {
        let cents = cents as i64;
        MonetaryAmount::new(
            if euros == 0 {
                cents
            } else if euros > 0 {
                euros * 100 + cents
            } else {
                euros * 100 - cents
            },
        )
    }
}

} // verus!
