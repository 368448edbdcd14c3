//! The list of symbols the user follows.
use crate::symbol::{Symbol, SymbolView};
use vstd::prelude::*;

verus! {

/// The views of a sequence of symbols.
pub open spec fn symbol_views(s: Seq<Symbol>) -> Seq<SymbolView> {
    s.map_values(|x: Symbol| x@)
}

/// No symbol occurs twice.
pub open spec fn no_duplicates(s: Seq<SymbolView>) -> bool {
    forall|i: int, j: int| 0 <= i < j < s.len() ==> s[i] != s[j]
}

/// An ordered list of symbols without repeats.
#[derive(Debug)]
pub struct Watchlist {
    symbols: Vec<Symbol>,
}

impl View for Watchlist {
    type V = Seq<SymbolView>;

    closed spec fn view(&self) -> Seq<SymbolView> {
        symbol_views(self.symbols@)
    }
}

impl Watchlist {
    #[verifier::type_invariant]
    spec fn inv(self) -> bool {
        no_duplicates(symbol_views(self.symbols@))
    }

    /// No symbol occurs twice in a watchlist.
    pub fn check_no_duplicates(&self)
        ensures
            no_duplicates(self@),
    {
        proof {
            use_type_invariant(self);
        }
    }

    /// An empty watchlist.
    pub fn new() -> (r: Watchlist)
        ensures
            r@ == Seq::<SymbolView>::empty(),
    {
        let r = Watchlist { symbols: Vec::new() };
        proof {
            assert(r@ =~= Seq::<SymbolView>::empty());
        }
        r
    }

    /// The symbols, in the order they were added.
    pub fn symbols(&self) -> (r: &[Symbol])
        ensures
            symbol_views(r@) == self@,
    {
        self.symbols.as_slice()
    }

    /// Does the list hold `s`?
    fn position(&self, s: &Symbol) -> (r: Option<usize>)
        ensures
            r matches Some(i) ==> i < self@.len() && self@[i as int] == s@,
            r is None ==> !self@.contains(s@),
    {
        let mut i: usize = 0;
        while i < self.symbols.len()
            invariant
                i <= self.symbols@.len(),
                forall|j: int| 0 <= j < i ==> self@[j] != s@,
            decreases self.symbols@.len() - i,
        {
            if self.symbols[i] == *s {
                return Some(i);
            }
            i = i + 1;
        }
        proof {
            if self@.contains(s@) {
                let j = choose|j: int| 0 <= j < self@.len() && self@[j] == s@;
                assert(self@[j] != s@);
            }
        }
        None
    }

    /// Appends `s` unless it is already there; returns whether it was added.
    pub fn add(&mut self, s: Symbol) -> (r: bool)
        ensures
            r == !old(self)@.contains(s@),
            final(self)@ == (if r {
                old(self)@.push(s@)
            } else {
                old(self)@
            }),
            final(self)@ == with_added(old(self)@, s@),
    {
        proof {
            use_type_invariant(&*self);
        }
        if self.position(&s).is_some() {
            return false;
        }
        let ghost old_view = self@;
        let mut symbols = Vec::new();
        std::mem::swap(&mut symbols, &mut self.symbols);
        symbols.push(s);
        proof {
            assert(symbol_views(symbols@) =~= old_view.push(s@));
            assert forall|i: int, j: int|
                0 <= i < j < symbol_views(symbols@).len() implies symbol_views(symbols@)[i]
                != symbol_views(symbols@)[j] by {
                if j == old_view.len() {
                    assert(old_view[i] != s@);
                }
            }
        }
        self.symbols = symbols;
        true
    }

    /// Removes `s`; returns whether it was there.
    pub fn remove(&mut self, s: &Symbol) -> (r: bool)
        ensures
            r == old(self)@.contains(s@),
            r ==> exists|i: int|
                0 <= i < old(self)@.len() && old(self)@[i] == s@ && final(self)@ == old(
                    self,
                )@.remove(i),
            !r ==> final(self)@ == old(self)@,
    {
        proof {
            use_type_invariant(&*self);
        }
        match self.position(s) {
            None => false,
            Some(idx) => {
                let ghost old_view = self@;
                let mut symbols = Vec::new();
                std::mem::swap(&mut symbols, &mut self.symbols);
                symbols.remove(idx);
                proof {
                    assert(symbol_views(symbols@) =~= old_view.remove(idx as int));
                    assert forall|i: int, j: int|
                        0 <= i < j < symbol_views(symbols@).len() implies symbol_views(
                        symbols@,
                    )[i] != symbol_views(symbols@)[j] by {
                        if i < idx {
                            if j < idx {
                            } else {
                                assert(old_view[i] != old_view[j + 1]);
                            }
                        } else {
                            assert(old_view[i + 1] != old_view[j + 1]);
                        }
                    }
                }
                self.symbols = symbols;
                true
            },
        }
    }
}

/// The list after adding `s`: appended unless already present.
pub open spec fn with_added(l: Seq<SymbolView>, s: SymbolView) -> Seq<SymbolView> {
    if l.contains(s) {
        l
    } else {
        l.push(s)
    }
}

/// Adding is idempotent: after adding `s` the list holds it exactly once (when it held no
/// duplicates before), and adding it again changes nothing.
pub proof fn lemma_add_idempotent(l: Seq<SymbolView>, s: SymbolView)
    requires
        no_duplicates(l),
    ensures
        with_added(l, s).contains(s),
        with_added(with_added(l, s), s) == with_added(l, s),
        no_duplicates(with_added(l, s)),
        forall|i: int|
            0 <= i < with_added(l, s).len() && #[trigger] with_added(l, s)[i] == s ==> forall|j: int|
                0 <= j < with_added(l, s).len() && with_added(l, s)[j] == s ==> i == j,
{
    let a = with_added(l, s);
    if !l.contains(s) {
        assert(a[l.len() as int] == s);
        assert forall|i: int, j: int| 0 <= i < j < a.len() implies a[i] != a[j] by {
            if j == l.len() {
                assert(a[i] == l[i]);
                if a[i] == s {
                    assert(l.contains(s));
                }
            }
        }
    }
    assert(a.contains(s));
}

impl Clone for Watchlist {
    fn clone(&self) -> (r: Self)
        ensures
            r@ == self@,
    {
        proof {
            use_type_invariant(self);
        }
        let mut symbols: Vec<Symbol> = Vec::new();
        let mut i: usize = 0;
        while i < self.symbols.len()
            invariant
                i <= self.symbols@.len(),
                symbol_views(symbols@) == symbol_views(self.symbols@).take(i as int),
            decreases self.symbols@.len() - i,
        {
            let ghost before = symbols@;
            symbols.push(self.symbols[i].clone());
            proof {
                assert(symbol_views(symbols@) =~= symbol_views(before).push(symbol_views(self.symbols@)[i as int]));
                assert(symbol_views(self.symbols@).take(i + 1) =~= symbol_views(self.symbols@).take(i as int).push(
                    symbol_views(self.symbols@)[i as int],
                ));
            }
            i = i + 1;
        }
        proof {
            assert(symbol_views(self.symbols@).take(i as int) =~= symbol_views(self.symbols@));
        }
        Watchlist { symbols }
    }
}

impl Default for Watchlist {
    fn default() -> (r: Self)
        ensures
            r@ == Seq::<SymbolView>::empty(),
    {
        Watchlist::new()
    }
}

} // verus!
