//! The set of holdings, at most one per symbol.
use crate::holding::{Holding, HoldingView};
use crate::symbol::{Symbol, SymbolView};
use vstd::prelude::*;

verus! {

/// The views of a sequence of holdings.
pub open spec fn holding_views(s: Seq<Holding>) -> Seq<HoldingView> {
    s.map_values(|h: Holding| h@)
}

/// No two holdings share a symbol.
pub open spec fn symbols_unique(s: Seq<HoldingView>) -> bool {
    forall|i: int, j: int| 0 <= i < j < s.len() ==> s[i].0 != s[j].0
}

/// Does some holding have symbol `sym`?
pub open spec fn holds_symbol(s: Seq<HoldingView>, sym: SymbolView) -> bool {
    exists|i: int| 0 <= i < s.len() && #[trigger] s[i].0 == sym
}

/// Holdings in the order they were first added, one per symbol.
#[derive(Debug)]
pub struct Portfolio {
    holdings: Vec<Holding>,
}

impl View for Portfolio {
    type V = Seq<HoldingView>;

    closed spec fn view(&self) -> Seq<HoldingView> {
        holding_views(self.holdings@)
    }
}

impl Portfolio {
    #[verifier::type_invariant]
    spec fn inv(self) -> bool {
        symbols_unique(holding_views(self.holdings@))
    }

    /// No two holdings of a portfolio share a symbol.
    pub fn check_unique(&self)
        ensures
            symbols_unique(self@),
    {
        proof {
            use_type_invariant(self);
        }
    }

    /// An empty portfolio.
    pub fn new() -> (r: Portfolio)
        ensures
            r@ == Seq::<HoldingView>::empty(),
    {
        let r = Portfolio { holdings: Vec::new() };
        proof {
            assert(r@ =~= Seq::<HoldingView>::empty());
        }
        r
    }

    pub fn holdings(&self) -> (r: &[Holding])
        ensures
            holding_views(r@) == self@,
    {
        self.holdings.as_slice()
    }

    /// The index of the holding for `sym`, if any.
    fn position(&self, sym: &Symbol) -> (r: Option<usize>)
        ensures
            r matches Some(i) ==> i < self@.len() && self@[i as int].0 == sym@,
            r is None ==> !holds_symbol(self@, sym@),
    {
        let mut i: usize = 0;
        while i < self.holdings.len()
            invariant
                i <= self.holdings@.len(),
                forall|j: int| 0 <= j < i ==> self@[j].0 != sym@,
            decreases self.holdings@.len() - i,
        {
            if self.holdings[i].symbol == *sym {
                return Some(i);
            }
            i = i + 1;
        }
        None
    }

    /// Replaces the holding of the same symbol, in its place, or appends `h`.
    pub fn upsert(&mut self, h: Holding)
        ensures
            holds_symbol(old(self)@, h@.0) ==> exists|i: int|
                0 <= i < old(self)@.len() && old(self)@[i].0 == h@.0 && final(self)@ == old(
                    self,
                )@.update(i, h@),
            !holds_symbol(old(self)@, h@.0) ==> final(self)@ == old(self)@.push(h@),
    {
        proof {
            use_type_invariant(&*self);
        }
        let ghost old_view = self@;
        let pos = self.position(&h.symbol);
        let mut holdings = Vec::new();
        std::mem::swap(&mut holdings, &mut self.holdings);
        match pos {
            Some(i) => {
                holdings.set(i, h);
                proof {
                    assert(holding_views(holdings@) =~= old_view.update(i as int, h@));
                    assert forall|a: int, b: int|
                        0 <= a < b < holding_views(holdings@).len() implies holding_views(
                        holdings@,
                    )[a].0 != holding_views(holdings@)[b].0 by {
                        assert(old_view[a].0 != old_view[b].0);
                    }
                }
            },
            None => {
                holdings.push(h);
                proof {
                    assert(holding_views(holdings@) =~= old_view.push(h@));
                    assert forall|a: int, b: int|
                        0 <= a < b < holding_views(holdings@).len() implies holding_views(
                        holdings@,
                    )[a].0 != holding_views(holdings@)[b].0 by {
                        if b == old_view.len() {
                            assert(old_view[a].0 != h@.0);
                        }
                    }
                }
            },
        }
        self.holdings = holdings;
    }

    /// Removes the holding of `symbol`; returns whether there was one.
    pub fn remove(&mut self, symbol: &Symbol) -> (r: bool)
        ensures
            r == holds_symbol(old(self)@, symbol@),
            r ==> exists|i: int|
                0 <= i < old(self)@.len() && old(self)@[i].0 == symbol@ && final(self)@ == old(
                    self,
                )@.remove(i),
            !r ==> final(self)@ == old(self)@,
    {
        proof {
            use_type_invariant(&*self);
        }
        match self.position(symbol) {
            None => false,
            Some(idx) => {
                let ghost old_view = self@;
                let mut holdings = Vec::new();
                std::mem::swap(&mut holdings, &mut self.holdings);
                holdings.remove(idx);
                proof {
                    assert(holding_views(holdings@) =~= old_view.remove(idx as int));
                    assert forall|a: int, b: int|
                        0 <= a < b < holding_views(holdings@).len() implies holding_views(
                        holdings@,
                    )[a].0 != holding_views(holdings@)[b].0 by {
                        if a < idx {
                            if b >= idx {
                                assert(old_view[a].0 != old_view[b + 1].0);
                            }
                        } else {
                            assert(old_view[a + 1].0 != old_view[b + 1].0);
                        }
                    }
                }
                self.holdings = holdings;
                true
            },
        }
    }
}

impl Clone for Portfolio {
    fn clone(&self) -> (r: Self)
        ensures
            r@ == self@,
    {
        proof {
            use_type_invariant(self);
        }
        let mut holdings: Vec<Holding> = Vec::new();
        let mut i: usize = 0;
        while i < self.holdings.len()
            invariant
                i <= self.holdings@.len(),
                holding_views(holdings@) == holding_views(self.holdings@).take(i as int),
            decreases self.holdings@.len() - i,
        {
            let ghost before = holdings@;
            holdings.push(self.holdings[i].clone());
            proof {
                assert(holding_views(holdings@) =~= holding_views(before).push(holding_views(self.holdings@)[i as int]));
                assert(holding_views(self.holdings@).take(i + 1) =~= holding_views(self.holdings@).take(i as int).push(
                    holding_views(self.holdings@)[i as int],
                ));
            }
            i = i + 1;
        }
        proof {
            assert(holding_views(self.holdings@).take(i as int) =~= holding_views(self.holdings@));
        }
        Portfolio { holdings }
    }
}

impl Default for Portfolio {
    fn default() -> (r: Self)
        ensures
            r@ == Seq::<HoldingView>::empty(),
    {
        Portfolio::new()
    }
}

} // verus!
