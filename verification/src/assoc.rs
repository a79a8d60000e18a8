//! Association lists keyed by names: the spec-level shape of every map in
//! the index. Lookup is first-match; a well-formed list has distinct keys.

use vstd::prelude::*;

verus! {

/// First value bound to the key, scanning left to right.
pub open spec fn assoc_lookup<V>(ps: Seq<(Seq<char>, V)>, key: Seq<char>) -> Option<V>
    decreases ps,
{
    if ps.len() == 0 {
        Option::None
    } else if ps.first().0 == key {
        Option::Some(ps.first().1)
    } else {
        assoc_lookup(ps.drop_first(), key)
    }
}

pub open spec fn assoc_contains<V>(ps: Seq<(Seq<char>, V)>, key: Seq<char>) -> bool {
    assoc_lookup(ps, key) is Some
}

/// The keys, in list order.
pub open spec fn assoc_keys<V>(ps: Seq<(Seq<char>, V)>) -> Seq<Seq<char>> {
    ps.map_values(|p: (Seq<char>, V)| p.0)
}

/// No key occurs twice.
pub open spec fn assoc_unique<V>(ps: Seq<(Seq<char>, V)>) -> bool {
    forall|i: int, j: int| 0 <= i < j < ps.len() ==> ps[i].0 != ps[j].0
}

/// A key matched first at position `i` determines the lookup result.
pub proof fn lemma_assoc_match_at<V>(ps: Seq<(Seq<char>, V)>, key: Seq<char>, i: int)
    requires
        0 <= i < ps.len(),
        ps[i].0 == key,
        forall|k: int| 0 <= k < i ==> ps[k].0 != key,
    ensures
        assoc_lookup(ps, key) == Option::Some(ps[i].1),
    decreases ps,
{
    if i > 0 {
        lemma_assoc_match_at(ps.drop_first(), key, i - 1);
    }
}

/// A key matched nowhere gives no result.
pub proof fn lemma_assoc_no_match<V>(ps: Seq<(Seq<char>, V)>, key: Seq<char>)
    requires
        forall|k: int| 0 <= k < ps.len() ==> ps[k].0 != key,
    ensures
        assoc_lookup(ps, key) is None,
    decreases ps,
{
    if ps.len() > 0 {
        lemma_assoc_no_match(ps.drop_first(), key);
    }
}

/// A key without a result matches no entry.
pub proof fn lemma_assoc_lookup_none<V>(ps: Seq<(Seq<char>, V)>, key: Seq<char>)
    requires
        assoc_lookup(ps, key) is None,
    ensures
        forall|k: int| 0 <= k < ps.len() ==> (#[trigger] ps[k]).0 != key,
    decreases ps,
{
    if ps.len() > 0 {
        lemma_assoc_lookup_none(ps.drop_first(), key);
        assert forall|k: int| 0 <= k < ps.len() implies (#[trigger] ps[k]).0 != key by {
            if k > 0 {
                assert(ps.drop_first()[k - 1] == ps[k]);
            }
        }
    }
}

/// The list with the first binding of the key replaced; without the key
/// it is unchanged.
pub open spec fn assoc_update<V>(ps: Seq<(Seq<char>, V)>, key: Seq<char>, v: V) -> Seq<
    (Seq<char>, V),
>
    decreases ps,
{
    if ps.len() == 0 {
        ps
    } else if ps.first().0 == key {
        seq![(key, v)] + ps.drop_first()
    } else {
        seq![ps.first()] + assoc_update(ps.drop_first(), key, v)
    }
}

/// An update changes no key: the list keeps its length and, entry by
/// entry, its key.
pub proof fn lemma_assoc_update_keys<V>(ps: Seq<(Seq<char>, V)>, key: Seq<char>, v: V)
    ensures
        assoc_update(ps, key, v).len() == ps.len(),
        forall|i: int|
            0 <= i < ps.len() ==> (#[trigger] assoc_update(ps, key, v)[i]).0 == ps[i].0,
    decreases ps,
{
    if ps.len() > 0 {
        if ps.first().0 == key {
        } else {
            lemma_assoc_update_keys(ps.drop_first(), key, v);
            assert forall|i: int| 0 <= i < ps.len() implies (#[trigger] assoc_update(
                ps,
                key,
                v,
            )[i]).0 == ps[i].0 by {
                if i > 0 {
                    assert(assoc_update(ps, key, v)[i] == assoc_update(
                        ps.drop_first(),
                        key,
                        v,
                    )[i - 1]);
                    assert(ps.drop_first()[i - 1] == ps[i]);
                }
            }
        }
    }
}

/// An update at the first matching position is a pointwise update.
pub proof fn lemma_assoc_update_at<V>(ps: Seq<(Seq<char>, V)>, key: Seq<char>, v: V, i: int)
    requires
        0 <= i < ps.len(),
        ps[i].0 == key,
        forall|k: int| 0 <= k < i ==> ps[k].0 != key,
    ensures
        assoc_update(ps, key, v) == ps.update(i, (key, v)),
    decreases ps,
{
    if i == 0 {
        assert(seq![(key, v)] + ps.drop_first() =~= ps.update(0, (key, v)));
    } else {
        lemma_assoc_update_at(ps.drop_first(), key, v, i - 1);
        assert(seq![ps.first()] + ps.drop_first().update(i - 1, (key, v)) =~= ps.update(
            i,
            (key, v),
        ));
    }
}

} // verus!
