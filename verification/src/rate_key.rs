//! Rate key construction: the lookup key under which premium entries are
//! grouped is the product code and the insured sum joined by a colon.

use vstd::prelude::*;

verus! {

/// The rate key for a product code and an insured sum: the two joined by
/// a single colon, with no escaping.
pub open spec fn rate_key_spec(code: Seq<char>, sum: Seq<char>) -> Seq<char> {
    code + seq![':'] + sum
}

/// Builds the store lookup key from a product code and an insured sum.
pub fn build_rate_key(code: &String, sum: &String) -> (key: String)
    ensures
        key@ == rate_key_spec(code@, sum@),
{
    let mut key = code.clone();
    key.append(":");
    key.append(sum.as_str());
    proof {
        reveal_strlit(":");
        assert(":"@ =~= seq![':']);
        assert(key@ =~= rate_key_spec(code@, sum@));
    }
    key
}

/// Key construction is injective on pairs that do not themselves contain
/// the delimiter: two such pairs that build the same key are the same pair.
pub proof fn lemma_rate_key_injective(c1: Seq<char>, s1: Seq<char>, c2: Seq<char>, s2: Seq<char>)
    requires
        !c1.contains(':'),
        !s1.contains(':'),
        !c2.contains(':'),
        !s2.contains(':'),
        rate_key_spec(c1, s1) == rate_key_spec(c2, s2),
    ensures
        c1 == c2,
        s1 == s2,
{
    let k = rate_key_spec(c1, s1);
    assert(k.len() == c1.len() + 1 + s1.len());
    assert(k.len() == c2.len() + 1 + s2.len());
    assert(forall|i: int| 0 <= i < c1.len() ==> k[i] == c1[i]);
    assert(forall|i: int| 0 <= i < c2.len() ==> k[i] == c2[i]);
    assert(k[c1.len() as int] == ':');
    assert(k[c2.len() as int] == ':');
    if c1.len() < c2.len() {
        assert(k[c1.len() as int] == c2[c1.len() as int]);
        assert(c2.contains(':'));
    }
    if c2.len() < c1.len() {
        assert(k[c2.len() as int] == c1[c2.len() as int]);
        assert(c1.contains(':'));
    }
    assert(c1.len() == c2.len());
    assert(c1 =~= c2);
    assert(forall|i: int| 0 <= i < s1.len() ==> k[c1.len() + 1 + i] == s1[i]);
    assert(forall|i: int| 0 <= i < s2.len() ==> k[c2.len() + 1 + i] == s2[i]);
    assert(s1 =~= s2);
}

} // verus!
