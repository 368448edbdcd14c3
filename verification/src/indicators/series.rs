//! Views shared by the indicators.
pub use crate::decimal::opt_view;
use crate::decimal::Decimal;
use vstd::prelude::*;

verus! {

/// The views of a series of optional decimals.
pub open spec fn series_view(s: Seq<Option<Decimal>>) -> Seq<Option<(int, nat)>> {
    s.map_values(|o: Option<Decimal>| opt_view(o))
}

/// The views of a series of decimals.
pub open spec fn values_view(s: Seq<Decimal>) -> Seq<(int, nat)> {
    s.map_values(|d: Decimal| d@)
}

/// `n` entries of `None`.
pub open spec fn nones(n: nat) -> Seq<Option<(int, nat)>> {
    Seq::new(n, |i: int| None)
}

/// A series of `n` entries of `None`.
pub fn none_series(n: usize) -> (r: Vec<Option<Decimal>>)
    ensures
        series_view(r@) == nones(n as nat),
{
    let mut v: Vec<Option<Decimal>> = Vec::new();
    let mut i: usize = 0;
    while i < n
        invariant
            i <= n,
            v@.len() == i,
            series_view(v@) == nones(i as nat),
        decreases n - i,
    {
        let ghost old_v = v@;
        v.push(None);
        i = i + 1;
        proof {
            assert forall|j: int| 0 <= j < i implies #[trigger] series_view(v@)[j] == nones(
                i as nat,
            )[j] by {
                if j < i - 1 {
                    assert(v@[j] == old_v[j]);
                    assert(series_view(old_v)[j] == nones((i - 1) as nat)[j]);
                }
            }
            assert(series_view(v@) =~= nones(i as nat));
        }
    }
    v
}

} // verus!
