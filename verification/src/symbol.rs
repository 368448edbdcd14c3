//! Instrument symbols: an asset class, a ticker and an optional quote currency.
use crate::asset::AssetKind;
use crate::money::Currency;
use crate::text::{
    all_ticker_chars, all_upper, is_currency_code, is_ticker_char, is_upper_ascii, lemma_ascii_len,
    str_all_ticker_chars, str_all_upper,
};
use vstd::prelude::*;
use vstd::std_specs::cmp::PartialEqSpecImpl;
use vstd::string::StringExecFns;

verus! {

/// A ticker of 1 to 20 ASCII letters, digits or dots.
pub open spec fn is_valid_ticker(t: Seq<char>) -> bool {
    1 <= t.len() <= 20 && all_ticker_chars(t)
}

/// A forex pair ticker as market-data providers write it: the codes of the two
/// currencies (6 to 10 uppercase ASCII letters) followed by `=X`, such as `USDKRW=X`.
pub open spec fn is_fx_pair_ticker(t: Seq<char>) -> bool {
    &&& 8 <= t.len() <= 12
    &&& all_upper(t.subrange(0, t.len() - 2))
    &&& t[t.len() - 2] == '='
    &&& t[t.len() - 1] == 'X'
}

/// The view of a symbol: its class, its ticker and its quote currency.
pub type SymbolView = (AssetKind, Seq<char>, Option<Seq<char>>);

/// The prefix of the canonical form for each asset class.
pub open spec fn kind_prefix(k: AssetKind) -> Seq<char> {
    match k {
        AssetKind::Crypto => seq!['c', 'r', 'y', 'p', 't', 'o'],
        AssetKind::UsEquity => seq!['u', 's'],
        AssetKind::KrEquity => seq!['k', 'r'],
        AssetKind::Forex => seq!['f', 'x'],
        AssetKind::Commodity => seq!['c', 'o', 'm'],
    }
}

/// What every symbol satisfies: a valid ticker (or, for forex, a pair ticker) and, if
/// any, a valid quote currency.
pub open spec fn valid_symbol(s: SymbolView) -> bool {
    &&& is_valid_ticker(s.1) || (s.0 == AssetKind::Forex && is_fx_pair_ticker(s.1))
    &&& s.2 matches Some(q) ==> is_currency_code(q)
}

/// The canonical text of a symbol: `kind:ticker[:quote]`.
pub open spec fn canonical_text(s: SymbolView) -> Seq<char> {
    match s.2 {
        Some(q) => kind_prefix(s.0) + seq![':'] + s.1 + seq![':'] + q,
        None => kind_prefix(s.0) + seq![':'] + s.1,
    }
}

/// No character of `s` is a colon.
pub open spec fn colon_free(s: Seq<char>) -> bool {
    forall|i: int| 0 <= i < s.len() ==> s[i] != ':'
}

/// The pieces of a valid symbol hold no colon.
proof fn lemma_pieces_colon_free(s: SymbolView)
    requires
        valid_symbol(s),
    ensures
        colon_free(kind_prefix(s.0)),
        colon_free(s.1),
        s.2 matches Some(q) ==> colon_free(q),
{
    assert forall|i: int| 0 <= i < s.1.len() implies s.1[i] != ':' by {
        if is_valid_ticker(s.1) {
            assert(is_ticker_char(s.1[i]));
        } else if i < s.1.len() - 2 {
            assert(is_upper_ascii(s.1.subrange(0, s.1.len() - 2)[i]));
        }
    }
    if let Some(q) = s.2 {
        assert forall|i: int| 0 <= i < q.len() implies q[i] != ':' by {
            assert(is_upper_ascii(q[i]));
        }
    }
}

/// Text split at its first colon: a colon-free head, the colon, and the rest.
proof fn lemma_split_at_colon(p1: Seq<char>, r1: Seq<char>, p2: Seq<char>, r2: Seq<char>)
    requires
        colon_free(p1),
        colon_free(p2),
        p1 + seq![':'] + r1 == p2 + seq![':'] + r2,
    ensures
        p1 == p2,
        r1 == r2,
{
    let t1 = p1 + seq![':'] + r1;
    let t2 = p2 + seq![':'] + r2;
    if p1.len() < p2.len() {
        assert(t1[p1.len() as int] == ':');
        assert(t2[p1.len() as int] == p2[p1.len() as int]);
    } else if p2.len() < p1.len() {
        assert(t2[p2.len() as int] == ':');
        assert(t1[p2.len() as int] == p1[p2.len() as int]);
    }
    assert(p1 =~= t1.subrange(0, p1.len() as int));
    assert(p2 =~= t2.subrange(0, p2.len() as int));
    assert(r1 =~= t1.subrange(p1.len() as int + 1, t1.len() as int));
    assert(r2 =~= t2.subrange(p2.len() as int + 1, t2.len() as int));
}

/// Each asset class has its own prefix.
proof fn lemma_kind_prefix_injective(a: AssetKind, b: AssetKind)
    requires
        kind_prefix(a) == kind_prefix(b),
    ensures
        a == b,
{
    let c = kind_prefix(AssetKind::Crypto);
    let u = kind_prefix(AssetKind::UsEquity);
    let r = kind_prefix(AssetKind::KrEquity);
    let f = kind_prefix(AssetKind::Forex);
    let m = kind_prefix(AssetKind::Commodity);
    assert(c.len() == 6 && u.len() == 2 && r.len() == 2 && f.len() == 2 && m.len() == 3);
    assert(u[0] != r[0] && u[0] != f[0] && r[0] != f[0]);
}

/// Distinct symbols have distinct canonical texts: the canonical text of a valid
/// symbol determines its class, its ticker and its quote currency.
pub proof fn lemma_canonical_injective(a: SymbolView, b: SymbolView)
    requires
        valid_symbol(a),
        valid_symbol(b),
        canonical_text(a) == canonical_text(b),
    ensures
        a == b,
{
    lemma_pieces_colon_free(a);
    lemma_pieces_colon_free(b);
    let ra: Seq<char> = match a.2 {
        Some(q) => a.1 + seq![':'] + q,
        None => a.1,
    };
    let rb: Seq<char> = match b.2 {
        Some(q) => b.1 + seq![':'] + q,
        None => b.1,
    };
    assert(canonical_text(a) =~= kind_prefix(a.0) + seq![':'] + ra);
    assert(canonical_text(b) =~= kind_prefix(b.0) + seq![':'] + rb);
    lemma_split_at_colon(kind_prefix(a.0), ra, kind_prefix(b.0), rb);
    lemma_kind_prefix_injective(a.0, b.0);
    match (a.2, b.2) {
        (Some(qa), Some(qb)) => {
            lemma_split_at_colon(a.1, qa, b.1, qb);
        },
        (Some(qa), None) => {
            assert(ra[a.1.len() as int] == ':');
        },
        (None, Some(qb)) => {
            assert(rb[b.1.len() as int] == ':');
        },
        (None, None) => {},
    }
}

/// A tradable instrument.
#[derive(Debug)]
pub struct Symbol {
    kind: AssetKind,
    ticker: String,
    quote_currency: Option<String>,
}

/// Why a symbol was refused.
#[derive(Debug, PartialEq, Eq)]
pub enum SymbolError {
    /// The ticker is empty, longer than 20 characters, or holds a character other
    /// than an ASCII letter, digit or dot.
    InvalidTicker(String),
    /// The quote currency is not 3 to 5 uppercase ASCII letters.
    InvalidQuoteCurrency(String),
}

impl View for Symbol {
    type V = SymbolView;

    closed spec fn view(&self) -> SymbolView {
        (
            self.kind,
            self.ticker@,
            match self.quote_currency {
                Some(q) => Some(q@),
                None => None,
            },
        )
    }
}

impl Symbol {
    #[verifier::type_invariant]
    spec fn inv(self) -> bool {
        valid_symbol(self@)
    }

    /// Every symbol has a valid ticker (or a forex pair ticker) and, if any, a valid
    /// quote currency.
    pub fn check_valid(&self)
        ensures
            valid_symbol(self@),
    {
        proof {
            use_type_invariant(self);
        }
    }

    /// Accepts a ticker of 1 to 20 ASCII letters, digits or dots, and a quote currency
    /// of 3 to 5 uppercase ASCII letters; the ticker is checked first.
    pub fn new(kind: AssetKind, ticker: &str, quote_currency: Option<&str>) -> (r: Result<
        Symbol,
        SymbolError,
    >)
        ensures
            r is Ok <==> is_valid_ticker(ticker@) && (quote_currency matches Some(q)
                ==> is_currency_code(q@)),
            r matches Ok(s) ==> s@ == (kind, ticker@, match quote_currency {
                Some(q) => Some(q@),
                None => None,
            }),
            !is_valid_ticker(ticker@) ==> (r matches Err(SymbolError::InvalidTicker(t)) && t@
                == ticker@),
            is_valid_ticker(ticker@) && quote_currency is Some && !is_currency_code(
                quote_currency->0@,
            ) ==> (r matches Err(SymbolError::InvalidQuoteCurrency(t)) && t@
                == quote_currency->0@),
    {
        let tb = ticker.as_bytes();
        let tlen = tb.len();
        if ticker.is_empty() || tlen > 20 || !str_all_ticker_chars(ticker) {
            proof {
                if is_valid_ticker(ticker@) {
                    assert forall|i: int| 0 <= i < ticker@.len() implies '\0' <= #[trigger] ticker@[i]
                        <= '\u{7f}' by {
                        assert(is_ticker_char(ticker@[i]));
                    }
                    lemma_ascii_len(ticker);
                }
            }
            return Err(SymbolError::InvalidTicker(ticker.to_string()));
        }
        proof {
            assert forall|i: int| 0 <= i < ticker@.len() implies '\0' <= #[trigger] ticker@[i]
                <= '\u{7f}' by {
                assert(is_ticker_char(ticker@[i]));
            }
            lemma_ascii_len(ticker);
        }
        match quote_currency {
            Some(qc) => {
                let qlen = qc.as_bytes().len();
                if !(3 <= qlen && qlen <= 5) || !str_all_upper(qc) {
                    proof {
                        if is_currency_code(qc@) {
                            assert forall|i: int| 0 <= i < qc@.len() implies '\0'
                                <= #[trigger] qc@[i] <= '\u{7f}' by {
                                assert(is_upper_ascii(qc@[i]));
                            }
                            lemma_ascii_len(qc);
                        }
                    }
                    return Err(SymbolError::InvalidQuoteCurrency(qc.to_string()));
                }
                proof {
                    assert forall|i: int| 0 <= i < qc@.len() implies '\0' <= #[trigger] qc@[i]
                        <= '\u{7f}' by {
                        assert(is_upper_ascii(qc@[i]));
                    }
                    lemma_ascii_len(qc);
                }
                Ok(Symbol { kind, ticker: ticker.to_string(), quote_currency: Some(qc.to_string()) })
            },
            None => Ok(Symbol { kind, ticker: ticker.to_string(), quote_currency: None }),
        }
    }

    /// The forex symbol of the pair `from`/`to` as market-data providers name it: the two
    /// codes followed by `=X` (`USDKRW=X` is the price of one US dollar in won).
    pub fn fx_pair(from: &Currency, to: &Currency) -> (r: Symbol)
        ensures
            r@ == (AssetKind::Forex, from@ + to@ + "=X"@, None::<Seq<char>>),
    {
        from.check_code();
        to.check_code();
        let mut ticker = String::from_str(from.as_str());
        ticker.append(to.as_str());
        ticker.append("=X");
        proof {
            reveal_strlit("=X");
            let t = ticker@;
            let codes = from@ + to@;
            assert(t.subrange(0, t.len() - 2) =~= codes);
            assert forall|i: int| 0 <= i < codes.len() implies #[trigger] is_upper_ascii(
                codes[i],
            ) by {
                if i < from@.len() {
                    assert(codes[i] == from@[i]);
                } else {
                    assert(codes[i] == to@[i - from@.len()]);
                }
            }
            assert(t[t.len() - 2] == '=');
            assert(t[t.len() - 1] == 'X');
        }
        Symbol { kind: AssetKind::Forex, ticker, quote_currency: None }
    }

    pub fn kind(&self) -> (r: AssetKind)
        ensures
            r == self@.0,
    {
        self.kind
    }

    pub fn ticker(&self) -> (r: &str)
        ensures
            r@ == self@.1,
    {
        self.ticker.as_str()
    }

    pub fn quote_currency(&self) -> (r: Option<&str>)
        ensures
            r matches Some(q) ==> self@.2 == Some(q@),
            r is None ==> self@.2 is None,
    {
        match &self.quote_currency {
            Some(q) => Some(q.as_str()),
            None => None,
        }
    }

    /// Canonical string form: `kind:ticker[:quote]`, with `crypto`, `us`, `kr`, `fx` or
    /// `com` for the class.
    pub fn to_canonical_string(&self) -> (r: String)
        ensures
            r@ == canonical_text(self@),
    {
        let mut out = kind_prefix_string(self.kind);
        out.append(":");
        out.append(self.ticker.as_str());
        match &self.quote_currency {
            Some(q) => {
                out.append(":");
                out.append(q.as_str());
            },
            None => {},
        }
        proof {
            reveal_strlit(":");
        }
        out
    }
}

/// The prefix of the canonical form for `k`.
pub fn kind_prefix_string(k: AssetKind) -> (r: String)
    ensures
        r@ == kind_prefix(k),
{
    match k {
        AssetKind::Crypto => {
            proof {
                reveal_strlit("crypto");
            }
            String::from_str("crypto")
        },
        AssetKind::UsEquity => {
            proof {
                reveal_strlit("us");
            }
            String::from_str("us")
        },
        AssetKind::KrEquity => {
            proof {
                reveal_strlit("kr");
            }
            String::from_str("kr")
        },
        AssetKind::Forex => {
            proof {
                reveal_strlit("fx");
            }
            String::from_str("fx")
        },
        AssetKind::Commodity => {
            proof {
                reveal_strlit("com");
            }
            String::from_str("com")
        },
    }
}

impl Clone for Symbol {
    fn clone(&self) -> (r: Self)
        ensures
            r@ == self@,
    {
        proof {
            use_type_invariant(self);
        }
        let quote_currency = match &self.quote_currency {
            Some(q) => Some(q.clone()),
            None => None,
        };
        Symbol { kind: self.kind, ticker: self.ticker.clone(), quote_currency }
    }
}

impl PartialEq for Symbol {
    fn eq(&self, other: &Self) -> (r: bool) {
        if self.kind != other.kind || self.ticker != other.ticker {
            return false;
        }
        let r = match (&self.quote_currency, &other.quote_currency) {
            (Some(a), Some(b)) => a.eq(b),
            (None, None) => true,
            _ => false,
        };
        proof {
            if r {
                assert(self@.2 == other@.2);
                assert(self@ == other@);
            } else {
                assert(self@.2 != other@.2);
            }
        }
        r
    }
}

impl PartialEqSpecImpl for Symbol {
    open spec fn obeys_eq_spec() -> bool {
        true
    }

    open spec fn eq_spec(&self, other: &Self) -> bool {
        self@ == other@
    }
}

} // verus!
