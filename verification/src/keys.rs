//! The keys under which trades are kept.

use vstd::prelude::*;
use vstd::string::*;

use crate::text::{decimal_text, digit_char, occurs_at, occurs_in, u64_text};

verus! {

/// The key of a market buy.
pub open spec fn bought(period: nat, token: Seq<char>) -> Seq<char> {
    decimal_text(period) + "_"@ + token
}

/// The key of a simulated market buy.
pub open spec fn simulated(period: nat, token: Seq<char>) -> Seq<char> {
    decimal_text(period) + "_"@ + token + "_market"@
}

/// The key of a limit buy.
pub open spec fn limit(period: nat, token: Seq<char>) -> Seq<char> {
    decimal_text(period) + "_"@ + token + "_limit"@
}

/// The key of an opposite token that is held and offered for sale.
pub open spec fn opposite(period: nat, token: Seq<char>) -> Seq<char> {
    decimal_text(period) + "_opposite_"@ + token
}

/// The key of a limit buy of an opposite token.
pub open spec fn opposite_limit(period: nat, token: Seq<char>) -> Seq<char> {
    decimal_text(period) + "_opposite_limit_"@ + token
}

/// Whether a key is that of a limit buy.
pub open spec fn is_limit(key: Seq<char>) -> bool {
    occurs_in(key, "_limit"@)
}

/// Whether a key is that of an opposite token.
pub open spec fn is_opposite(key: Seq<char>) -> bool {
    occurs_in(key, "_opposite_"@)
}

/// The key of a market buy.
pub fn bought_key(period: u64, token: &str) -> (res: String)
    ensures
        res@ == bought(period as nat, token@),
{
    let mut res = u64_text(period);
    res.append("_");
    res.append(token);
    res
}

/// The key of a simulated market buy.
pub fn simulated_key(period: u64, token: &str) -> (res: String)
    ensures
        res@ == simulated(period as nat, token@),
{
    let mut res = bought_key(period, token);
    res.append("_market");
    res
}

/// The key of a limit buy.
pub fn limit_key(period: u64, token: &str) -> (res: String)
    ensures
        res@ == limit(period as nat, token@),
{
    let mut res = bought_key(period, token);
    res.append("_limit");
    res
}

/// The key of an opposite token that is held and offered for sale.
pub fn opposite_key(period: u64, token: &str) -> (res: String)
    ensures
        res@ == opposite(period as nat, token@),
{
    let mut res = u64_text(period);
    res.append("_opposite_");
    res.append(token);
    res
}

/// The key of a limit buy of an opposite token.
pub fn opposite_limit_key(period: u64, token: &str) -> (res: String)
    ensures
        res@ == opposite_limit(period as nat, token@),
{
    let mut res = u64_text(period);
    res.append("_opposite_limit_");
    res.append(token);
    res
}

proof fn lemma_infix(before: Seq<char>, needle: Seq<char>, after: Seq<char>)
    ensures
        occurs_in(before + needle + after, needle),
{
    let hay = before + needle + after;
    assert(hay.subrange(before.len() as int, (before.len() + needle.len()) as int) =~= needle);
    assert(occurs_at(hay, needle, before.len() as int));
}

/// The key of a limit buy says that it is one, and so does that of a limit buy of an
/// opposite token; the keys of opposite tokens say that they are.
pub proof fn law_keys_tell_their_kind(period: nat, token: Seq<char>)
    ensures
        is_limit(limit(period, token)),
        is_limit(opposite_limit(period, token)),
        is_opposite(opposite(period, token)),
        is_opposite(opposite_limit(period, token)),
{
    let start = decimal_text(period);
    assert(is_limit(limit(period, token))) by {
        lemma_infix(start + "_"@ + token, "_limit"@, Seq::empty());
        assert(start + "_"@ + token + "_limit"@ + Seq::<char>::empty() =~= limit(period, token));
    }
    assert(is_opposite(opposite(period, token))) by {
        lemma_infix(start, "_opposite_"@, token);
    }
    lemma_opposite_limit();
    assert(is_limit(opposite_limit(period, token))) by {
        lemma_infix(start + "_opposite"@, "_limit"@, "_"@ + token);
        assert(start + "_opposite"@ + "_limit"@ + ("_"@ + token) =~= start + ("_opposite"@
            + "_limit"@ + "_"@) + token);
    }
    assert(is_opposite(opposite_limit(period, token))) by {
        lemma_infix(start, "_opposite_"@, "limit_"@ + token);
        assert(start + "_opposite_"@ + ("limit_"@ + token) =~= start + ("_opposite_"@
            + "limit_"@) + token);
    }
}

proof fn lemma_opposite_limit()
    ensures
        "_opposite_limit_"@ == "_opposite"@ + "_limit"@ + "_"@,
        "_opposite_limit_"@ == "_opposite_"@ + "limit_"@,
{
    reveal_strlit("_limit");
    reveal_strlit("_opposite_");
    reveal_strlit("_opposite_limit_");
    reveal_strlit("_opposite");
    reveal_strlit("_");
    reveal_strlit("limit_");
    assert("_opposite_limit_"@ =~= "_opposite"@ + "_limit"@ + "_"@);
    assert("_opposite_limit_"@ =~= "_opposite_"@ + "limit_"@);
}

proof fn lemma_decimal_text(n: nat)
    ensures
        decimal_text(n).len() >= 1,
        forall|i: int| 0 <= i < decimal_text(n).len() ==> #[trigger] decimal_text(n)[i] != '_',
    decreases n,
{
    if n >= 10 {
        lemma_decimal_text(n / 10);
        assert(digit_char(n % 10) != '_');
    } else {
        assert(digit_char(n) != '_');
    }
}

/// Two numbers with the same decimal text are the same.
pub proof fn law_decimal_text_is_injective(a: nat, b: nat)
    requires
        decimal_text(a) == decimal_text(b),
    ensures
        a == b,
    decreases a,
{
    lemma_decimal_text(a / 10);
    lemma_decimal_text(b / 10);
    let s = decimal_text(a);
    let t = decimal_text(b);
    if a < 10 {
        if b < 10 {
            assert(s[0] == digit_char(a) && t[0] == digit_char(b));
        } else {
            assert(t.len() >= 2);
        }
    } else if b < 10 {
        assert(s.len() >= 2);
    } else {
        assert(s.last() == digit_char(a % 10) && t.last() == digit_char(b % 10));
        assert(s.drop_last() =~= decimal_text(a / 10));
        assert(t.drop_last() =~= decimal_text(b / 10));
        law_decimal_text_is_injective(a / 10, b / 10);
    }
}

proof fn lemma_cut(p: nat, q: nat, s: Seq<char>, t: Seq<char>)
    requires
        s.len() >= 1,
        t.len() >= 1,
        s[0] == '_',
        t[0] == '_',
        decimal_text(p) + s == decimal_text(q) + t,
    ensures
        p == q,
        s == t,
{
    let a = decimal_text(p);
    let b = decimal_text(q);
    lemma_decimal_text(p);
    lemma_decimal_text(q);
    assert((a + s)[a.len() as int] == '_');
    assert((b + t)[b.len() as int] == '_');
    if a.len() < b.len() {
        assert((b + t)[a.len() as int] == b[a.len() as int]);
    }
    if b.len() < a.len() {
        assert((a + s)[b.len() as int] == a[b.len() as int]);
    }
    assert((a + s).take(a.len() as int) =~= a);
    assert((b + t).take(b.len() as int) =~= b);
    assert((a + s).skip(a.len() as int) =~= s);
    assert((b + t).skip(b.len() as int) =~= t);
    law_decimal_text_is_injective(p, q);
}

/// Trades of different periods, or of different tokens, never share a key.
pub proof fn law_keys_are_injective(p: nat, q: nat, s: Seq<char>, t: Seq<char>)
    ensures
        bought(p, s) == bought(q, t) ==> p == q && s == t,
        simulated(p, s) == simulated(q, t) ==> p == q && s == t,
        limit(p, s) == limit(q, t) ==> p == q && s == t,
        opposite(p, s) == opposite(q, t) ==> p == q && s == t,
        opposite_limit(p, s) == opposite_limit(q, t) ==> p == q && s == t,
{
    reveal_strlit("_");
    reveal_strlit("_market");
    reveal_strlit("_limit");
    reveal_strlit("_opposite_");
    reveal_strlit("_opposite_limit_");
    if bought(p, s) == bought(q, t) {
        assert(bought(p, s) =~= decimal_text(p) + ("_"@ + s));
        assert(bought(q, t) =~= decimal_text(q) + ("_"@ + t));
        lemma_cut(p, q, "_"@ + s, "_"@ + t);
        assert(("_"@ + s).skip(1) =~= s);
        assert(("_"@ + t).skip(1) =~= t);
    }
    if simulated(p, s) == simulated(q, t) {
        assert(simulated(p, s) =~= decimal_text(p) + ("_"@ + s + "_market"@));
        assert(simulated(q, t) =~= decimal_text(q) + ("_"@ + t + "_market"@));
        lemma_cut(p, q, "_"@ + s + "_market"@, "_"@ + t + "_market"@);
        assert(("_"@ + s + "_market"@).subrange(1, s.len() as int + 1) =~= s);
        assert(("_"@ + t + "_market"@).subrange(1, t.len() as int + 1) =~= t);
        assert(s.len() == t.len()) by {
            assert(("_"@ + s + "_market"@).len() == 8 + s.len());
            assert(("_"@ + t + "_market"@).len() == 8 + t.len());
        }
    }
    if limit(p, s) == limit(q, t) {
        assert(limit(p, s) =~= decimal_text(p) + ("_"@ + s + "_limit"@));
        assert(limit(q, t) =~= decimal_text(q) + ("_"@ + t + "_limit"@));
        lemma_cut(p, q, "_"@ + s + "_limit"@, "_"@ + t + "_limit"@);
        assert(("_"@ + s + "_limit"@).subrange(1, s.len() as int + 1) =~= s);
        assert(("_"@ + t + "_limit"@).subrange(1, t.len() as int + 1) =~= t);
        assert(s.len() == t.len()) by {
            assert(("_"@ + s + "_limit"@).len() == 7 + s.len());
            assert(("_"@ + t + "_limit"@).len() == 7 + t.len());
        }
    }
    if opposite(p, s) == opposite(q, t) {
        assert(opposite(p, s) =~= decimal_text(p) + ("_opposite_"@ + s));
        assert(opposite(q, t) =~= decimal_text(q) + ("_opposite_"@ + t));
        lemma_cut(p, q, "_opposite_"@ + s, "_opposite_"@ + t);
        assert(("_opposite_"@ + s).skip(10) =~= s);
        assert(("_opposite_"@ + t).skip(10) =~= t);
    }
    if opposite_limit(p, s) == opposite_limit(q, t) {
        assert(opposite_limit(p, s) =~= decimal_text(p) + ("_opposite_limit_"@ + s));
        assert(opposite_limit(q, t) =~= decimal_text(q) + ("_opposite_limit_"@ + t));
        lemma_cut(p, q, "_opposite_limit_"@ + s, "_opposite_limit_"@ + t);
        assert(("_opposite_limit_"@ + s).skip(16) =~= s);
        assert(("_opposite_limit_"@ + t).skip(16) =~= t);
    }
}

} // verus!
