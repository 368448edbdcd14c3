//! Currencies and amounts of money.
use crate::decimal::{
    aligned_sum, decimal_checked_add, decimal_checked_mul, decimal_checked_sub, decimal_parse,
    frac_add, frac_eq, max_mantissa,
    pow10, rounds_to, Decimal,
};
use crate::text::{is_currency_code, is_upper_ascii, lemma_ascii_len, str_all_upper};
use vstd::prelude::*;
use vstd::std_specs::cmp::PartialEqSpecImpl;
use vstd::string::StringSliceAdditionalSpecFns;

verus! {

/// The byte at `i` of `b`, or 0 past its end.
fn byte_or_zero(b: &[u8], i: usize) -> (r: u8)
    ensures
        r == (if i < b@.len() {
            b@[i as int]
        } else {
            0u8
        }),
{
    if i < b.len() {
        b[i]
    } else {
        0
    }
}

/// Calls `std::str::from_utf8` on the first `len` bytes. Claimed: ASCII bytes are
/// valid UTF-8, so the call succeeds and yields one character per byte.
#[verifier::external_body]
fn ascii_prefix_str(bytes: &[u8; 5], len: usize) -> (r: &str)
    requires
        len <= 5,
        forall|i: int| 0 <= i < len ==> bytes@[i] < 128,
    ensures
        r@ == Seq::new(len as nat, |i: int| bytes@[i] as char),
{
    std::str::from_utf8(&bytes[..len]).unwrap()
}

/// A currency code of 3 to 5 uppercase ASCII letters, such as `USD` or `USDT`.
#[derive(Clone, Copy, Debug)]
pub struct Currency {
    len: u8,
    bytes: [u8; 5],
}

impl View for Currency {
    type V = Seq<char>;

    closed spec fn view(&self) -> Seq<char> {
        Seq::new(self.len as nat, |i: int| self.bytes@[i] as char)
    }
}

impl Currency {
    #[verifier::type_invariant]
    spec fn inv(self) -> bool {
        &&& 3 <= self.len <= 5
        &&& forall|i: int| 0 <= i < self.len ==> 65 <= #[trigger] self.bytes@[i] <= 90
        &&& forall|i: int| self.len <= i < 5 ==> #[trigger] self.bytes@[i] == 0
    }

    /// The code of every currency is 3 to 5 uppercase ASCII letters.
    pub fn check_code(&self)
        ensures
            is_currency_code(self@),
    {
        proof {
            use_type_invariant(self);
            assert forall|i: int| 0 <= i < self@.len() implies #[trigger] is_upper_ascii(
                self@[i],
            ) by {
                assert(65 <= self.bytes@[i] <= 90);
            }
        }
    }

    /// Accepts a code of 3 to 5 uppercase ASCII letters.
    pub fn new(code: &str) -> (r: Result<Currency, MoneyError>)
        ensures
            r is Ok <==> is_currency_code(code@),
            r matches Ok(c) ==> c@ == code@,
            r matches Err(e) ==> e matches MoneyError::InvalidCurrency(t) && t@ == code@,
    {
        let b = code.as_bytes();
        let len = b.len();
        if !(3 <= len && len <= 5) || !str_all_upper(code) {
            proof {
                if is_currency_code(code@) {
                    assert forall|i: int| 0 <= i < code@.len() implies '\0' <= #[trigger] code@[i]
                        <= '\u{7f}' by {
                        assert(is_upper_ascii(code@[i]));
                    }
                    lemma_ascii_len(code);
                }
            }
            return Err(MoneyError::InvalidCurrency(code.to_string()));
        }
        proof {
            assert forall|i: int| 0 <= i < code@.len() implies '\0' <= #[trigger] code@[i]
                <= '\u{7f}' by {
                assert(is_upper_ascii(code@[i]));
            }
            lemma_ascii_len(code);
        }
        let b0 = byte_or_zero(b, 0);
        let b1 = byte_or_zero(b, 1);
        let b2 = byte_or_zero(b, 2);
        let b3 = byte_or_zero(b, 3);
        let b4 = byte_or_zero(b, 4);
        let bytes: [u8; 5] = [b0, b1, b2, b3, b4];
        proof {
            assert(bytes@ =~= seq![b0, b1, b2, b3, b4]);
            assert forall|i: int| 0 <= i < len implies 65 <= #[trigger] bytes@[i] <= 90
                && bytes@[i] as char == code@[i] by {
                assert(is_upper_ascii(code@[i]));
                assert(b@[i] == code@[i] as u8);
                assert(bytes@[i] == b@[i]);
            }
            assert(len >= 3);
            if len == 3 {
                assert(b3 == 0);
                assert(b4 == 0);
            }
            if len == 4 {
                assert(b4 == 0);
            }
            assert forall|i: int| len <= i < 5 implies #[trigger] bytes@[i] == 0 by {
            }
        }
        let c = Currency { len: len as u8, bytes };
        proof {
            assert(c@.len() == code@.len());
            assert forall|i: int| 0 <= i < c@.len() implies c@[i] == code@[i] by {
                assert(bytes@[i] as char == code@[i]);
            }
            assert(c@ =~= code@);
        }
        Ok(c)
    }

    /// The code as text.
    pub fn as_str(&self) -> (r: &str)
        ensures
            r@ == self@,
    {
        proof {
            use_type_invariant(self);
        }
        let r = ascii_prefix_str(&self.bytes, self.len as usize);
        proof {
            assert(r@ =~= self@);
        }
        r
    }
}

impl PartialEq for Currency {
    fn eq(&self, other: &Self) -> (r: bool) {
        proof {
            use_type_invariant(self);
            use_type_invariant(other);
        }
        let same = self.len == other.len && self.bytes[0] == other.bytes[0] && self.bytes[1]
            == other.bytes[1] && self.bytes[2] == other.bytes[2] && self.bytes[3]
            == other.bytes[3] && self.bytes[4] == other.bytes[4];
        proof {
            if same {
                assert(self@ =~= other@);
            } else if self@ == other@ {
                assert(self@.len() == self.len as nat);
                assert(other@.len() == other.len as nat);
                assert(self.len == other.len);
                assert forall|i: int| 0 <= i < 5 implies self.bytes@[i] == other.bytes@[i] by {
                    if i < self.len {
                        assert(self@[i] == other@[i]);
                        assert(65 <= self.bytes@[i] <= 90);
                        assert(65 <= other.bytes@[i] <= 90);
                    }
                }
            }
        }
        same
    }
}

impl PartialEqSpecImpl for Currency {
    open spec fn obeys_eq_spec() -> bool {
        true
    }

    open spec fn eq_spec(&self, other: &Self) -> bool {
        self@ == other@
    }
}

/// Why money could not be built or combined.
#[derive(Debug, PartialEq, Eq)]
pub enum MoneyError {
    /// The currency code is not 3 to 5 uppercase ASCII letters.
    InvalidCurrency(String),
    /// Two amounts in different currencies were combined.
    CurrencyMismatch(String, String),
    /// The amount text is not a decimal number.
    InvalidAmount(String),
}

/// An amount in a currency.
#[derive(Clone, Copy, Debug)]
pub struct Money {
    amount: Decimal,
    currency: Currency,
}

impl View for Money {
    type V = ((int, nat), Seq<char>);

    closed spec fn view(&self) -> ((int, nat), Seq<char>) {
        (self.amount@, self.currency@)
    }
}

impl Money {
    pub fn new(amount: Decimal, currency: Currency) -> (r: Money)
        ensures
            r@ == (amount@, currency@),
    {
        Money { amount, currency }
    }

    /// Parses the amount as a decimal and the currency as a code; the amount is
    /// checked first.
    pub fn parse(amount: &str, currency: &str) -> (r: Result<Money, MoneyError>)
        ensures
            r is Ok <==> decimal_parse(amount@) is Some && is_currency_code(currency@),
            r matches Ok(m) ==> m@ == (decimal_parse(amount@)->0, currency@),
            decimal_parse(amount@) is None ==> (r matches Err(MoneyError::InvalidAmount(t))
                && t@ == amount@),
            decimal_parse(amount@) is Some && !is_currency_code(currency@) ==> (r matches Err(
                MoneyError::InvalidCurrency(t),
            ) && t@ == currency@),
    {
        let amt = match Decimal::parse(amount) {
            Some(a) => a,
            None => {
                return Err(MoneyError::InvalidAmount(amount.to_string()));
            },
        };
        let currency = Currency::new(currency)?;
        Ok(Money { amount: amt, currency })
    }

    pub fn amount(&self) -> (r: Decimal)
        ensures
            r@ == self@.0,
    {
        self.amount
    }

    pub fn currency(&self) -> (r: Currency)
        ensures
            r@ == self@.1,
    {
        self.currency
    }

    /// The sum of two amounts in one currency; an error for two currencies.
    pub fn add(self, other: Money) -> (r: Result<Money, MoneyError>)
        requires
            self@.1 == other@.1 ==> decimal_checked_add(self@.0, other@.0) is Some,
        ensures
            r is Ok <==> self@.1 == other@.1,
            r matches Ok(m) ==> m@ == (decimal_checked_add(self@.0, other@.0)->0, self@.1),
            r matches Ok(m) ==> rounds_to(m@.0, frac_add(self@.0, other@.0)),
            r is Ok && -max_mantissa() <= aligned_sum(self@.0, other@.0) <= max_mantissa()
                ==> frac_eq(r->Ok_0@.0, frac_add(self@.0, other@.0)),
            r matches Ok(m) ==> decimal_checked_add(other@.0, self@.0) is Some && frac_eq(
                m@.0,
                decimal_checked_add(other@.0, self@.0)->0,
            ),
            r matches Err(e) ==> e matches MoneyError::CurrencyMismatch(a, b) && a@ == self@.1
                && b@ == other@.1,
    {
        if self.currency != other.currency {
            return Err(
                MoneyError::CurrencyMismatch(
                    self.currency.as_str().to_string(),
                    other.currency.as_str().to_string(),
                ),
            );
        }
        let amount = self.amount.checked_add(&other.amount).unwrap();
        Ok(Money { amount, currency: self.currency })
    }

    /// The difference of two amounts in one currency; an error for two currencies.
    pub fn sub(self, other: Money) -> (r: Result<Money, MoneyError>)
        requires
            self@.1 == other@.1 ==> decimal_checked_sub(self@.0, other@.0) is Some,
        ensures
            r is Ok <==> self@.1 == other@.1,
            r matches Ok(m) ==> m@ == (decimal_checked_sub(self@.0, other@.0)->0, self@.1),
            r matches Err(e) ==> e matches MoneyError::CurrencyMismatch(a, b) && a@ == self@.1
                && b@ == other@.1,
    {
        if self.currency != other.currency {
            return Err(
                MoneyError::CurrencyMismatch(
                    self.currency.as_str().to_string(),
                    other.currency.as_str().to_string(),
                ),
            );
        }
        let amount = self.amount.checked_sub(&other.amount).unwrap();
        Ok(Money { amount, currency: self.currency })
    }

    /// The amount multiplied by `factor`, in the same currency.
    pub fn mul_scalar(self, factor: Decimal) -> (r: Money)
        requires
            decimal_checked_mul(self@.0, factor@) is Some,
        ensures
            r@ == (decimal_checked_mul(self@.0, factor@)->0, self@.1),
    {
        let amount = self.amount.checked_mul(&factor).unwrap();
        Money { amount, currency: self.currency }
    }

    /// `add` where the sum fits: `None` when the two amounts share a currency and their
    /// sum overflows.
    pub fn try_add(self, other: Money) -> (r: Option<Result<Money, MoneyError>>)
        ensures
            r is None <==> self@.1 == other@.1 && decimal_checked_add(self@.0, other@.0) is None,
            r matches Some(Ok(m)) ==> self@.1 == other@.1 && m@ == (
                decimal_checked_add(self@.0, other@.0)->0,
                self@.1,
            ),
            r matches Some(Err(e)) ==> self@.1 != other@.1 && (e matches MoneyError::CurrencyMismatch(
                a,
                b,
            ) && a@ == self@.1 && b@ == other@.1),
    {
        if self.currency == other.currency && self.amount.checked_add(&other.amount).is_none() {
            return None;
        }
        Some(self.add(other))
    }

    /// `sub` where the difference fits: `None` when the two amounts share a currency and
    /// their difference overflows.
    pub fn try_sub(self, other: Money) -> (r: Option<Result<Money, MoneyError>>)
        ensures
            r is None <==> self@.1 == other@.1 && decimal_checked_sub(self@.0, other@.0) is None,
            r matches Some(Ok(m)) ==> self@.1 == other@.1 && m@ == (
                decimal_checked_sub(self@.0, other@.0)->0,
                self@.1,
            ),
            r matches Some(Err(e)) ==> self@.1 != other@.1 && (e matches MoneyError::CurrencyMismatch(
                a,
                b,
            ) && a@ == self@.1 && b@ == other@.1),
    {
        if self.currency == other.currency && self.amount.checked_sub(&other.amount).is_none() {
            return None;
        }
        Some(self.sub(other))
    }

    /// `mul_scalar` where the product fits: `None` when it overflows.
    pub fn try_mul_scalar(self, factor: Decimal) -> (r: Option<Money>)
        ensures
            r is None <==> decimal_checked_mul(self@.0, factor@) is None,
            r matches Some(m) ==> m@ == (decimal_checked_mul(self@.0, factor@)->0, self@.1),
    {
        if self.amount.checked_mul(&factor).is_none() {
            return None;
        }
        Some(self.mul_scalar(factor))
    }
}

impl PartialEq for Money {
    fn eq(&self, other: &Self) -> (r: bool) {
        self.amount.eq_value(&other.amount) && self.currency == other.currency
    }
}

impl PartialEqSpecImpl for Money {
    open spec fn obeys_eq_spec() -> bool {
        true
    }

    open spec fn eq_spec(&self, other: &Self) -> bool {
        frac_eq(self@.0, other@.0) && self@.1 == other@.1
    }
}

/// Money addition is symmetric: for two amounts of one currency, `a.add(b)` and
/// `b.add(a)` are equal (same currency, same value), as `==` compares money. `ab` and `ba` stand for the two
/// results, as `Money::add` describes each of them.
pub proof fn lemma_add_commutes(a: Money, b: Money, ab: Money, ba: Money)
    requires
        a@.1 == b@.1,
        ab@ == (decimal_checked_add(a@.0, b@.0)->0, a@.1),
        decimal_checked_add(b@.0, a@.0) is Some && frac_eq(
            ab@.0,
            decimal_checked_add(b@.0, a@.0)->0,
        ),
        ba@ == (decimal_checked_add(b@.0, a@.0)->0, b@.1),
    ensures
        frac_eq(ab@.0, ba@.0),
        ab@.1 == ba@.1,
{
}

} // verus!
