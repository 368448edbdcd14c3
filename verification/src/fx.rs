//! A small in-memory book of exchange rates.
use crate::assoc::{assoc_map, keys_unique, lemma_assoc_at, lemma_assoc_push, lemma_assoc_update};
use crate::decimal::{decimal_checked_mul, Decimal};
use crate::money::{Currency, Money};
use vstd::prelude::*;

verus! {

/// A pair of currency codes: convert from the first into the second.
pub type PairView = (Seq<char>, Seq<char>);

/// Stablecoins counted as US dollars.
pub open spec fn is_usd_stablecoin(c: Seq<char>) -> bool {
    c == seq!['U', 'S', 'D', 'T'] || c == seq!['U', 'S', 'D', 'C'] || c == seq![
        'B',
        'U',
        'S',
        'D',
    ] || c == seq!['D', 'A', 'I']
}

/// The currency a code is looked up as: the dollar stablecoins become `USD`.
pub open spec fn canonical(c: Seq<char>) -> Seq<char> {
    if is_usd_stablecoin(c) {
        seq!['U', 'S', 'D']
    } else {
        c
    }
}

/// The result of converting `money` into `target` with `rates`: unchanged in amount
/// when both are the same currency once stablecoins count as dollars; multiplied by
/// the rate when one is known; `None` otherwise.
pub open spec fn convert_spec(
    rates: Map<PairView, (int, nat)>,
    money: ((int, nat), Seq<char>),
    target: Seq<char>,
) -> Option<((int, nat), Seq<char>)> {
    let from = canonical(money.1);
    let to = canonical(target);
    if from == to {
        Some((money.0, target))
    } else if rates.contains_key((from, to)) {
        Some((decimal_checked_mul(money.0, rates[(from, to)])->0, target))
    } else {
        None
    }
}

/// The conversion stays inside the decimal range: `rust_decimal` multiplies by the rate
/// without overflow.
pub open spec fn convert_fits(
    rates: Map<PairView, (int, nat)>,
    money: ((int, nat), Seq<char>),
    target: Seq<char>,
) -> bool {
    let from = canonical(money.1);
    let to = canonical(target);
    from != to && rates.contains_key((from, to)) ==> decimal_checked_mul(
        money.0,
        rates[(from, to)],
    ) is Some
}

/// An exchange-rate book. A rate `(from, to, r)` means one unit of `from` is `r` units of
/// `to`. Cross rates are not derived: every needed pair is set by the caller. The dollar
/// stablecoins USDT, USDC, BUSD and DAI are looked up as USD.
#[derive(Debug)]
pub struct FxRates {
    entries: Vec<(Currency, Currency, Decimal)>,
}

/// The view of an entry.
pub open spec fn entry_view(e: (Currency, Currency, Decimal)) -> (PairView, (int, nat)) {
    ((e.0@, e.1@), e.2@)
}

/// The views of the entries.
pub open spec fn entry_views(s: Seq<(Currency, Currency, Decimal)>) -> Seq<(PairView, (int, nat))> {
    s.map_values(|e: (Currency, Currency, Decimal)| entry_view(e))
}

/// The index of the entry for the pair `(from, to)`, if any.
fn find_pair(entries: &Vec<(Currency, Currency, Decimal)>, from: &Currency, to: &Currency) -> (r:
    Option<usize>)
    ensures
        r matches Some(f) ==> f < entries@.len() && entry_views(entries@)[f as int].0 == (
            from@,
            to@,
        ),
        r is None ==> forall|j: int|
            0 <= j < entries@.len() ==> entry_views(entries@)[j].0 != (from@, to@),
{
    let mut i: usize = 0;
    while i < entries.len()
        invariant
            i <= entries@.len(),
            forall|j: int| 0 <= j < i ==> entry_views(entries@)[j].0 != (from@, to@),
        decreases entries@.len() - i,
    {
        if entries[i].0 == *from && entries[i].1 == *to {
            return Some(i);
        }
        i = i + 1;
    }
    None
}

impl View for FxRates {
    type V = Map<PairView, (int, nat)>;

    closed spec fn view(&self) -> Map<PairView, (int, nat)> {
        assoc_map(entry_views(self.entries@))
    }
}

/// The dollar, as stablecoins are counted.
fn usd() -> (r: Currency)
    ensures
        r@ == seq!['U', 'S', 'D'],
{
    proof {
        reveal_strlit("USD");
    }
    assert("USD"@ =~= seq!['U', 'S', 'D']);
    Currency::new("USD").unwrap()
}

/// The currency `c` is looked up as.
pub fn canonicalize(c: Currency) -> (r: Currency)
    ensures
        r@ == canonical(c@),
{
    proof {
        reveal_strlit("USDT");
        reveal_strlit("USDC");
        reveal_strlit("BUSD");
        reveal_strlit("DAI");
    }
    assert("USDT"@ =~= seq!['U', 'S', 'D', 'T']);
    assert("USDC"@ =~= seq!['U', 'S', 'D', 'C']);
    assert("BUSD"@ =~= seq!['B', 'U', 'S', 'D']);
    assert("DAI"@ =~= seq!['D', 'A', 'I']);
    let usdt = Currency::new("USDT").unwrap();
    let usdc = Currency::new("USDC").unwrap();
    let busd = Currency::new("BUSD").unwrap();
    let dai = Currency::new("DAI").unwrap();
    if c == usdt || c == usdc || c == busd || c == dai {
        usd()
    } else {
        c
    }
}

impl FxRates {
    #[verifier::type_invariant]
    spec fn inv(self) -> bool {
        keys_unique(entry_views(self.entries@))
    }

    /// An empty book.
    pub fn new() -> (r: FxRates)
        ensures
            r@ == Map::<PairView, (int, nat)>::empty(),
    {
        let r = FxRates { entries: Vec::new() };
        proof {
            assert(r@ =~= Map::<PairView, (int, nat)>::empty());
        }
        r
    }

    /// Sets the rate from `from` to `to`, replacing an earlier one.
    pub fn set(&mut self, from: Currency, to: Currency, rate: Decimal)
        ensures
            final(self)@ == old(self)@.insert((from@, to@), rate@),
    {
        proof {
            use_type_invariant(&*self);
        }
        let ghost old_s = entry_views(self.entries@);
        let mut entries = Vec::new();
        std::mem::swap(&mut entries, &mut self.entries);
        let found = find_pair(&entries, &from, &to);
        let ghost key = (from@, to@);
        match found {
            Some(f) => {
                entries.set(f, (from, to, rate));
                proof {
                    assert(entry_views(entries@) =~= old_s.update(f as int, (key, rate@)));
                    lemma_assoc_update(old_s, f as int, key, rate@);
                }
            },
            None => {
                entries.push((from, to, rate));
                proof {
                    assert(entry_views(entries@) =~= old_s.push((key, rate@)));
                    lemma_assoc_push(old_s, key, rate@);
                }
            },
        }
        self.entries = entries;
    }

    /// The rate from `from` to `to`, if one was set.
    pub(crate) fn rate(&self, from: &Currency, to: &Currency) -> (r: Option<Decimal>)
        ensures
            r is Some <==> self@.contains_key((from@, to@)),
            r matches Some(x) ==> x@ == self@[(from@, to@)],
    {
        proof {
            use_type_invariant(self);
        }
        let ghost s = entry_views(self.entries@);
        let mut i: usize = 0;
        while i < self.entries.len()
            invariant
                i <= self.entries@.len(),
                s == entry_views(self.entries@),
                keys_unique(s),
                forall|j: int| 0 <= j < i ==> s[j].0 != (from@, to@),
            decreases self.entries@.len() - i,
        {
            if self.entries[i].0 == *from && self.entries[i].1 == *to {
                proof {
                    lemma_assoc_at(s, i as int);
                }
                return Some(self.entries[i].2);
            }
            i = i + 1;
        }
        None
    }

    /// Converts `money` into `target`. Stablecoins count as dollars, and money already in
    /// the target currency (so counted) keeps its amount; otherwise the set rate is applied,
    /// and `None` comes back when there is none.
    pub fn convert(&self, money: Money, target: Currency) -> (r: Option<Money>)
        requires
            convert_fits(self@, money@, target@),
        ensures
            match r {
                Some(m) => convert_spec(self@, money@, target@) == Some(m@),
                None => convert_spec(self@, money@, target@) is None,
            },
    {
        let from = canonicalize(money.currency());
        let to = canonicalize(target);
        if from == to {
            return Some(Money::new(money.amount(), target));
        }
        let rate = match self.rate(&from, &to) {
            Some(x) => x,
            None => {
                return None;
            },
        };
        let amount = money.amount().checked_mul(&rate).unwrap();
        Some(Money::new(amount, target))
    }

    /// `convert` where the result fits: `None` when multiplying by the rate overflows.
    pub fn try_convert(&self, money: Money, target: Currency) -> (r: Option<Option<Money>>)
        ensures
            r is None <==> !convert_fits(self@, money@, target@),
            r matches Some(o) ==> match o {
                Some(m) => convert_spec(self@, money@, target@) == Some(m@),
                None => convert_spec(self@, money@, target@) is None,
            },
    {
        let from = canonicalize(money.currency());
        let to = canonicalize(target);
        if from != to {
            if let Some(rate) = self.rate(&from, &to) {
                if money.amount().checked_mul(&rate).is_none() {
                    return None;
                }
            }
        }
        Some(self.convert(money, target))
    }
}

/// A rate that was set is the one a conversion uses: after `set(from, to, r)`, money in
/// `from` converts into `to` by multiplying by `r` (for currencies that are not dollar
/// stablecoins and differ).
pub proof fn lemma_set_then_convert(
    rates: Map<PairView, (int, nat)>,
    from: Seq<char>,
    to: Seq<char>,
    r: (int, nat),
    amount: (int, nat),
)
    requires
        canonical(from) == from,
        canonical(to) == to,
        from != to,
    ensures
        convert_spec(rates.insert((from, to), r), (amount, from), to) == Some(
            (decimal_checked_mul(amount, r)->0, to),
        ),
{
}

/// Money in a dollar stablecoin converts into dollars at par, with no rate needed.
pub proof fn lemma_stablecoin_at_par(
    rates: Map<PairView, (int, nat)>,
    money: ((int, nat), Seq<char>),
)
    requires
        is_usd_stablecoin(money.1),
    ensures
        convert_spec(rates, money, seq!['U', 'S', 'D']) == Some(
            (money.0, seq!['U', 'S', 'D']),
        ),
{
    let u = seq!['U', 'S', 'D'];
    assert(u.len() == 3);
    assert(u != seq!['U', 'S', 'D', 'T']);
    assert(u != seq!['U', 'S', 'D', 'C']);
    assert(u != seq!['B', 'U', 'S', 'D']);
    assert(u[0] != seq!['D', 'A', 'I'][0]);
    assert(!is_usd_stablecoin(u));
}

impl Clone for FxRates {
    fn clone(&self) -> (r: Self)
        ensures
            r@ == self@,
    {
        proof {
            use_type_invariant(self);
        }
        let mut entries: Vec<(Currency, Currency, Decimal)> = Vec::new();
        let mut i: usize = 0;
        while i < self.entries.len()
            invariant
                i <= self.entries@.len(),
                entry_views(entries@) == entry_views(self.entries@).take(i as int),
            decreases self.entries@.len() - i,
        {
            let ghost before = entries@;
            let (a, b, c) = self.entries[i];
            entries.push((a, b, c));
            proof {
                assert(entry_views(entries@) =~= entry_views(before).push(entry_views(self.entries@)[i as int]));
                assert(entry_views(self.entries@).take(i + 1) =~= entry_views(self.entries@).take(i as int).push(
                    entry_views(self.entries@)[i as int],
                ));
            }
            i = i + 1;
        }
        proof {
            assert(entry_views(self.entries@).take(i as int) =~= entry_views(self.entries@));
        }
        FxRates { entries }
    }
}

impl Default for FxRates {
    fn default() -> (r: Self)
        ensures
            r@ == Map::<PairView, (int, nat)>::empty(),
    {
        FxRates::new()
    }
}

} // verus!
