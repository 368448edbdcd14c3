//! The exchange-rate refresh: which currency pairs are looked up, under which forex
//! symbol, and how a fetched closing rate is written into the rate book (the rate and,
//! when positive, its inverse).
use crate::asset::AssetKind;
use crate::decimal::{decimal_checked_div, lemma_pow10_positive, pow10, quot_in_range, Decimal};
use crate::fx::{FxRates, PairView};
use crate::money::Currency;
use crate::symbol::{Symbol, SymbolView};
use crate::text::is_currency_code;
use vstd::prelude::*;

verus! {

/// A pair to refresh: the market symbol whose close is the rate, and the currencies it
/// converts from and into.
#[derive(Debug)]
pub struct FxTarget {
    pub symbol: Symbol,
    pub from: Currency,
    pub to: Currency,
}

/// The view of a target.
pub open spec fn target_view(t: FxTarget) -> (SymbolView, Seq<char>, Seq<char>) {
    (t.symbol@, t.from@, t.to@)
}

/// The pairs refreshed, as (forex symbol, from, to): `USDKRW=X` is the price of one US
/// dollar in won, `EURUSD=X` of one euro in dollars, `JPYUSD=X` of one yen in dollars.
pub open spec fn fx_targets_spec() -> Seq<(SymbolView, Seq<char>, Seq<char>)> {
    seq![
        ((AssetKind::Forex, "USDKRW=X"@, None::<Seq<char>>), "USD"@, "KRW"@),
        ((AssetKind::Forex, "EURUSD=X"@, None::<Seq<char>>), "EUR"@, "USD"@),
        ((AssetKind::Forex, "JPYUSD=X"@, None::<Seq<char>>), "JPY"@, "USD"@),
    ]
}

/// The currency with a code known to be valid.
fn known_currency(code: &str) -> (r: Currency)
    requires
        is_currency_code(code@),
    ensures
        r@ == code@,
{
    Currency::new(code).unwrap()
}

/// The target for the pair `from`/`to`.
fn target(from: Currency, to: Currency) -> (r: FxTarget)
    ensures
        target_view(r) == ((AssetKind::Forex, from@ + to@ + "=X"@, None::<Seq<char>>), from@, to@),
{
    FxTarget { symbol: Symbol::fx_pair(&from, &to), from, to }
}

/// The pairs to refresh: US dollar to won, euro to dollar and yen to dollar, each with its
/// forex symbol.
pub fn fx_refresh_targets() -> (r: Vec<FxTarget>)
    ensures
        r@.map_values(|t: FxTarget| target_view(t)) == fx_targets_spec(),
{
    proof {
        reveal_strlit("USD");
        reveal_strlit("KRW");
        reveal_strlit("EUR");
        reveal_strlit("JPY");
        reveal_strlit("=X");
        reveal_strlit("USDKRW=X");
        reveal_strlit("EURUSD=X");
        reveal_strlit("JPYUSD=X");
        assert(is_currency_code("USD"@));
        assert(is_currency_code("KRW"@));
        assert(is_currency_code("EUR"@));
        assert(is_currency_code("JPY"@));
        assert("USD"@ + "KRW"@ + "=X"@ =~= "USDKRW=X"@);
        assert("EUR"@ + "USD"@ + "=X"@ =~= "EURUSD=X"@);
        assert("JPY"@ + "USD"@ + "=X"@ =~= "JPYUSD=X"@);
    }
    let usd = known_currency("USD");
    let krw = known_currency("KRW");
    let eur = known_currency("EUR");
    let jpy = known_currency("JPY");
    let mut out: Vec<FxTarget> = Vec::new();
    out.push(target(usd, krw));
    out.push(target(eur, usd));
    out.push(target(jpy, usd));
    proof {
        assert(out@.map_values(|t: FxTarget| target_view(t)) =~= fx_targets_spec());
    }
    out
}

/// `10^e <= 10^28` for `e <= 28`.
proof fn lemma_pow10_at_most_28(e: nat)
    requires
        e <= 28,
    ensures
        pow10(e) <= 10_000_000_000_000_000_000_000_000_000,
    decreases 28 - e,
{
    if e == 28 {
        assert(pow10(28) == 10_000_000_000_000_000_000_000_000_000) by {
            reveal_with_fuel(pow10, 29);
        }
    } else {
        lemma_pow10_positive(e);
        lemma_pow10_at_most_28(e + 1);
        assert(pow10(e + 1) == 10 * pow10(e));
    }
}

/// The rate book after writing a fetched close: the rate `from → to`, and when it is
/// positive also `to → from` at its inverse.
pub open spec fn with_close(
    rates: Map<PairView, (int, nat)>,
    from: Seq<char>,
    to: Seq<char>,
    close: (int, nat),
) -> Map<PairView, (int, nat)> {
    let r = rates.insert((from, to), close);
    if close.0 > 0 {
        r.insert((to, from), decimal_checked_div((1int, 0nat), close)->0)
    } else {
        r
    }
}

/// Writes the latest close of a pair into the book: the rate from `from` to `to`, and,
/// for a positive close, the inverse rate back (which always fits).
pub fn apply_fx_close(rates: &mut FxRates, from: Currency, to: Currency, close: Decimal)
    ensures
        final(rates)@ == with_close(old(rates)@, from@, to@, close@),
        close@.0 > 0 ==> decimal_checked_div((1int, 0nat), close@) is Some,
{
    rates.set(from, to, close);
    if close.is_positive() {
        let one = Decimal::one();
        close.check_wf();
        proof {
            lemma_pow10_at_most_28(close@.1);
            assert(pow10(0) == 1);
            lemma_pow10_positive(close@.1);
            let m = crate::decimal::max_mantissa();
            assert(m * close@.0 >= m) by (nonlinear_arith)
                requires
                    close@.0 >= 1,
                    m > 0,
            ;
            assert(-m * (close@.0 * pow10(0)) < 0) by (nonlinear_arith)
                requires
                    close@.0 >= 1,
                    m > 0,
                    pow10(0) == 1,
            ;
            assert(quot_in_range(one@, close@));
        }
        let inv = one.checked_div(&close).unwrap();
        rates.set(to, from, inv);
    }
}

} // verus!
