//! Character classes and small string helpers shared by the validators.
use vstd::prelude::*;
use vstd::string::{StrSliceExecFns, StringExecFns, StringSliceAdditionalSpecFns};

verus! {

/// An uppercase ASCII letter.
pub open spec fn is_upper_ascii(c: char) -> bool {
    'A' <= c <= 'Z'
}

/// An ASCII letter or digit.
pub open spec fn is_alnum_ascii(c: char) -> bool {
    ('A' <= c <= 'Z') || ('a' <= c <= 'z') || ('0' <= c <= '9')
}

/// Every character is an uppercase ASCII letter.
pub open spec fn all_upper(s: Seq<char>) -> bool {
    forall|i: int| 0 <= i < s.len() ==> #[trigger] is_upper_ascii(s[i])
}

/// A character allowed in a ticker: ASCII letter, digit or `.`.
pub open spec fn is_ticker_char(c: char) -> bool {
    is_alnum_ascii(c) || c == '.'
}

/// Every character may stand in a ticker.
pub open spec fn all_ticker_chars(s: Seq<char>) -> bool {
    forall|i: int| 0 <= i < s.len() ==> #[trigger] is_ticker_char(s[i])
}

/// A 3 to 5 letter uppercase ASCII code, as currencies and quote currencies are written.
pub open spec fn is_currency_code(s: Seq<char>) -> bool {
    3 <= s.len() <= 5 && all_upper(s)
}

/// Does every character of `s` satisfy `is_upper_ascii`?
pub fn str_all_upper(s: &str) -> (r: bool)
    ensures
        r == all_upper(s@),
{
    let n = s.unicode_len();
    let mut i: usize = 0;
    while i < n
        invariant
            n == s@.len(),
            i <= n,
            forall|j: int| 0 <= j < i ==> #[trigger] is_upper_ascii(s@[j]),
        decreases n - i,
    {
        let c = s.get_char(i);
        if !(c >= 'A' && c <= 'Z') {
            assert(!is_upper_ascii(s@[i as int]));
            return false;
        }
        i = i + 1;
    }
    true
}

/// Does every character of `s` satisfy `is_ticker_char`?
pub fn str_all_ticker_chars(s: &str) -> (r: bool)
    ensures
        r == all_ticker_chars(s@),
{
    let n = s.unicode_len();
    let mut i: usize = 0;
    while i < n
        invariant
            n == s@.len(),
            i <= n,
            forall|j: int| 0 <= j < i ==> #[trigger] is_ticker_char(s@[j]),
        decreases n - i,
    {
        let c = s.get_char(i);
        if !((c >= 'A' && c <= 'Z') || (c >= 'a' && c <= 'z') || (c >= '0' && c <= '9') || c
            == '.') {
            assert(!is_ticker_char(s@[i as int]));
            return false;
        }
        i = i + 1;
    }
    true
}

/// A string made of ASCII characters has as many bytes as characters.
pub proof fn lemma_ascii_len(s: &str)
    requires
        forall|i: int| 0 <= i < s@.len() ==> '\0' <= #[trigger] s@[i] <= '\u{7f}',
    ensures
        s.spec_bytes().len() == s@.len(),
        forall|i: int| 0 <= i < s@.len() ==> s.spec_bytes()[i] == s@[i] as u8,
{
    assert(vstd::string::is_ascii(s));
    vstd::string::is_ascii_spec_bytes(s);
}

/// The decimal digit `d` as a character.
pub open spec fn digit_char(d: nat) -> char {
    (48 + d) as char
}

/// The decimal text of `n`, without sign or leading zeros.
pub open spec fn nat_text(n: nat) -> Seq<char>
    decreases n,
{
    if n < 10 {
        seq![digit_char(n)]
    } else {
        nat_text(n / 10).push(digit_char(n % 10))
    }
}

/// The digit `d` (below ten) as text.
fn digit_str(d: u64) -> (r: &'static str)
    requires
        d < 10,
    ensures
        r@ == seq![digit_char(d as nat)],
{
    proof {
        reveal_strlit("0");
        reveal_strlit("1");
        reveal_strlit("2");
        reveal_strlit("3");
        reveal_strlit("4");
        reveal_strlit("5");
        reveal_strlit("6");
        reveal_strlit("7");
        reveal_strlit("8");
        reveal_strlit("9");
    }
    let r = match d {
        0 => "0",
        1 => "1",
        2 => "2",
        3 => "3",
        4 => "4",
        5 => "5",
        6 => "6",
        7 => "7",
        8 => "8",
        _ => "9",
    };
    assert(r@ =~= seq![digit_char(d as nat)]);
    r
}

/// Appends the decimal text of `n`.
pub fn push_u64_text(out: &mut String, n: u64)
    ensures
        final(out)@ == old(out)@ + nat_text(n as nat),
    decreases n,
{
    if n >= 10 {
        push_u64_text(out, n / 10);
    }
    out.append(digit_str(n % 10));
    proof {
        if n >= 10 {
            assert(nat_text(n as nat) == nat_text((n / 10) as nat).push(digit_char((n % 10) as nat)));
        }
    }
}

} // verus!
