//! Price observations.
use crate::decimal::{opt_view, Decimal};
use crate::price::Price;
use crate::symbol::{Symbol, SymbolView};
use crate::time::Timestamp;
use crate::assoc::{
    assoc_map, keys_unique, lemma_assoc_at, lemma_assoc_len, lemma_assoc_push, lemma_assoc_update,
};
use vstd::prelude::*;

verus! {

/// A price observed for a symbol at an instant.
#[derive(Debug)]
pub struct Quote {
    pub symbol: Symbol,
    pub price: Price,
    /// The 24-hour change as a ratio: `0.0124` for +1.24%.
    pub change_24h: Option<Decimal>,
    pub volume_24h: Option<Decimal>,
    pub observed_at: Timestamp,
}

/// The view of a quote: symbol, price, 24-hour change and volume, and when it was seen.
pub type QuoteView = (SymbolView, ((int, nat), Seq<char>), Option<(int, nat)>, Option<(int, nat)>, int);

impl View for Quote {
    type V = QuoteView;

    open spec fn view(&self) -> QuoteView {
        (
            self.symbol@,
            self.price@,
            opt_view(self.change_24h),
            opt_view(self.volume_24h),
            self.observed_at@,
        )
    }
}

impl Quote {
    /// A quote with no 24-hour change or volume.
    pub fn new(symbol: Symbol, price: Price, observed_at: Timestamp) -> (r: Quote)
        ensures
            r.symbol@ == symbol@,
            r.price@ == price@,
            r.change_24h is None,
            r.volume_24h is None,
            r.observed_at == observed_at,
    {
        Quote { symbol, price, change_24h: None, volume_24h: None, observed_at }
    }
}

impl Clone for Quote {
    fn clone(&self) -> (r: Self)
        ensures
            r@ == self@,
            r.symbol@ == self.symbol@,
            r.price@ == self.price@,
            r.change_24h == self.change_24h,
            r.volume_24h == self.volume_24h,
            r.observed_at == self.observed_at,
    {
        Quote {
            symbol: self.symbol.clone(),
            price: self.price,
            change_24h: self.change_24h,
            volume_24h: self.volume_24h,
            observed_at: self.observed_at,
        }
    }
}

/// The views of a list of keyed quotes.
pub open spec fn keyed_views(s: Seq<(Symbol, Quote)>) -> Seq<(SymbolView, QuoteView)> {
    s.map_values(|e: (Symbol, Quote)| (e.0@, e.1@))
}

/// `v` is the value of some key of `m`.
pub open spec fn has_value(m: Map<SymbolView, QuoteView>, v: QuoteView) -> bool {
    exists|k: SymbolView| m.contains_key(k) && m[k] == v
}

/// The latest quote per symbol.
#[derive(Debug)]
pub struct QuoteMap {
    entries: Vec<(Symbol, Quote)>,
}

impl View for QuoteMap {
    type V = Map<SymbolView, QuoteView>;

    closed spec fn view(&self) -> Map<SymbolView, QuoteView> {
        assoc_map(keyed_views(self.entries@))
    }
}

impl QuoteMap {
    #[verifier::type_invariant]
    spec fn inv(self) -> bool {
        keys_unique(keyed_views(self.entries@))
    }

    /// An empty map.
    pub fn new() -> (r: QuoteMap)
        ensures
            r@ == Map::<SymbolView, QuoteView>::empty(),
    {
        let r = QuoteMap { entries: Vec::new() };
        proof {
            assert(r@ =~= Map::<SymbolView, QuoteView>::empty());
        }
        r
    }

    /// The index of the entry for `symbol`, if any.
    fn position(&self, symbol: &Symbol) -> (r: Option<usize>)
        ensures
            r matches Some(i) ==> i < self.entries@.len() && keyed_views(self.entries@)[i as int].0
                == symbol@,
            r is None ==> forall|j: int|
                0 <= j < self.entries@.len() ==> keyed_views(self.entries@)[j].0 != symbol@,
    {
        let mut i: usize = 0;
        while i < self.entries.len()
            invariant
                i <= self.entries@.len(),
                forall|j: int| 0 <= j < i ==> keyed_views(self.entries@)[j].0 != symbol@,
            decreases self.entries@.len() - i,
        {
            if self.entries[i].0 == *symbol {
                return Some(i);
            }
            i = i + 1;
        }
        None
    }

    /// Sets the quote of `symbol`, replacing an earlier one.
    pub fn insert(&mut self, symbol: Symbol, quote: Quote)
        ensures
            final(self)@ == old(self)@.insert(symbol@, quote@),
    {
        proof {
            use_type_invariant(&*self);
        }
        let ghost old_s = keyed_views(self.entries@);
        let ghost key = symbol@;
        let ghost val = quote@;
        let pos = self.position(&symbol);
        let mut entries = Vec::new();
        std::mem::swap(&mut entries, &mut self.entries);
        match pos {
            Some(f) => {
                entries.set(f, (symbol, quote));
                proof {
                    assert(keyed_views(entries@) =~= old_s.update(f as int, (key, val)));
                    lemma_assoc_update(old_s, f as int, key, val);
                }
            },
            None => {
                entries.push((symbol, quote));
                proof {
                    assert(keyed_views(entries@) =~= old_s.push((key, val)));
                    lemma_assoc_push(old_s, key, val);
                }
            },
        }
        self.entries = entries;
    }

    /// The quote of `symbol`, if any.
    pub fn get(&self, symbol: &Symbol) -> (r: Option<&Quote>)
        ensures
            r is Some <==> self@.contains_key(symbol@),
            r matches Some(q) ==> q@ == self@[symbol@],
    {
        proof {
            use_type_invariant(self);
        }
        match self.position(symbol) {
            Some(i) => {
                proof {
                    lemma_assoc_at(keyed_views(self.entries@), i as int);
                }
                Some(&self.entries[i].1)
            },
            None => None,
        }
    }

    /// Does the map hold a quote for `symbol`?
    pub fn contains_key(&self, symbol: &Symbol) -> (r: bool)
        ensures
            r == self@.contains_key(symbol@),
    {
        self.get(symbol).is_some()
    }

    /// The number of symbols with a quote.
    pub fn len(&self) -> (r: usize)
        ensures
            r == self@.len(),
    {
        proof {
            use_type_invariant(self);
            lemma_assoc_len(keyed_views(self.entries@));
        }
        self.entries.len()
    }

    /// The quotes, in the order their symbols were first inserted.
    pub fn values(&self) -> (r: Vec<Quote>)
        ensures
            r@.len() == self@.len(),
            forall|i: int| 0 <= i < r@.len() ==> has_value(self@, #[trigger] r@[i]@),
            forall|k: SymbolView|
                #[trigger] self@.contains_key(k) ==> exists|i: int|
                    0 <= i < r@.len() && r@[i]@ == self@[k],
    {
        proof {
            use_type_invariant(self);
            lemma_assoc_len(keyed_views(self.entries@));
        }
        let mut out: Vec<Quote> = Vec::new();
        let mut i: usize = 0;
        while i < self.entries.len()
            invariant
                i <= self.entries@.len(),
                out@.len() == i,
                keys_unique(keyed_views(self.entries@)),
                forall|j: int| 0 <= j < i ==> #[trigger] out@[j]@ == keyed_views(self.entries@)[j].1,
            decreases self.entries@.len() - i,
        {
            out.push(self.entries[i].1.clone());
            i = i + 1;
        }
        proof {
            assert forall|j: int| 0 <= j < out@.len() implies has_value(self@, #[trigger] out@[j]@) by {
                lemma_assoc_at(keyed_views(self.entries@), j);
                let k = keyed_views(self.entries@)[j].0;
                assert(self@.contains_key(k) && self@[k] == out@[j]@);
            }
            assert forall|k: SymbolView| #[trigger] self@.contains_key(k) implies exists|i: int|
                0 <= i < out@.len() && out@[i]@ == self@[k] by {
                let s = keyed_views(self.entries@);
                let j = choose|j: int| 0 <= j < s.len() && #[trigger] s[j].0 == k;
                lemma_assoc_at(s, j);
                assert(out@[j]@ == self@[k]);
            }
        }
        out
    }
}

impl Clone for QuoteMap {
    fn clone(&self) -> (r: Self)
        ensures
            r@ == self@,
    {
        proof {
            use_type_invariant(self);
        }
        let mut entries: Vec<(Symbol, Quote)> = Vec::new();
        let mut i: usize = 0;
        while i < self.entries.len()
            invariant
                i <= self.entries@.len(),
                keyed_views(entries@) == keyed_views(self.entries@).take(i as int),
            decreases self.entries@.len() - i,
        {
            let ghost before = entries@;
            let e = (self.entries[i].0.clone(), self.entries[i].1.clone());
            entries.push(e);
            proof {
                assert(keyed_views(entries@) =~= keyed_views(before).push(keyed_views(self.entries@)[i as int]));
                assert(keyed_views(self.entries@).take(i + 1) =~= keyed_views(self.entries@).take(i as int).push(
                    keyed_views(self.entries@)[i as int],
                ));
            }
            i = i + 1;
        }
        proof {
            assert(keyed_views(self.entries@).take(i as int) =~= keyed_views(self.entries@));
        }
        QuoteMap { entries }
    }
}

impl Default for QuoteMap {
    fn default() -> (r: Self)
        ensures
            r@ == Map::<SymbolView, QuoteView>::empty(),
    {
        QuoteMap::new()
    }
}

} // verus!
