//! Asset classes.
use vstd::prelude::*;

verus! {

/// The class of a tradable asset.
#[derive(Clone, Copy, Debug, PartialEq, Eq, Structural, Hash)]
pub enum AssetKind {
    Crypto,
    UsEquity,
    KrEquity,
    Forex,
    Commodity,
}

} // verus!
