//! The mapping model of a sequence of key-value pairs, where a later pair
//! overrides an earlier pair with the same key.
use vstd::prelude::*;

verus! {

/// The pairs of strings, as sequences of characters.
pub open spec fn pairs_of(v: Seq<(String, String)>) -> Seq<(Seq<char>, Seq<char>)> {
    v.map_values(|e: (String, String)| (e.0@, e.1@))
}

/// The mapping that results from inserting the pairs in order.
pub open spec fn map_of(p: Seq<(Seq<char>, Seq<char>)>) -> Map<Seq<char>, Seq<char>>
    decreases p.len(),
{
    if p.len() == 0 {
        Map::empty()
    } else {
        map_of(p.drop_last()).insert(p.last().0, p.last().1)
    }
}

/// No key occurs twice.
pub open spec fn unique_keys(p: Seq<(Seq<char>, Seq<char>)>) -> bool {
    forall|i: int, j: int| 0 <= i < j < p.len() ==> p[i].0 != p[j].0
}

/// Appending a pair inserts it into the mapping.
pub proof fn lemma_push(p: Seq<(Seq<char>, Seq<char>)>, e: (Seq<char>, Seq<char>))
    ensures
        map_of(p.push(e)) == map_of(p).insert(e.0, e.1),
{
    assert(p.push(e).drop_last() =~= p);
}

/// A key that no pair holds is not in the mapping.
pub proof fn lemma_absent(p: Seq<(Seq<char>, Seq<char>)>, k: Seq<char>)
    requires
        forall|i: int| 0 <= i < p.len() ==> p[i].0 != k,
    ensures
        !map_of(p).contains_key(k),
    decreases p.len(),
{
    if p.len() > 0 {
        lemma_absent(p.drop_last(), k);
    }
}

/// With unique keys, each pair's key maps to that pair's value.
pub proof fn lemma_at(p: Seq<(Seq<char>, Seq<char>)>, i: int)
    requires
        unique_keys(p),
        0 <= i < p.len(),
    ensures
        map_of(p).contains_key(p[i].0),
        map_of(p)[p[i].0] == p[i].1,
    decreases p.len(),
{
    if i < p.len() - 1 {
        lemma_at(p.drop_last(), i);
    }
}

/// With unique keys, replacing the value of one pair is an insert into the mapping.
pub proof fn lemma_update(p: Seq<(Seq<char>, Seq<char>)>, i: int, v: Seq<char>)
    requires
        unique_keys(p),
        0 <= i < p.len(),
    ensures
        unique_keys(p.update(i, (p[i].0, v))),
        map_of(p.update(i, (p[i].0, v))) =~= map_of(p).insert(p[i].0, v),
    decreases p.len(),
{
    let q = p.update(i, (p[i].0, v));
    let d = p.drop_last();
    if i == p.len() - 1 {
        assert(q.drop_last() =~= d);
    } else {
        assert(q.drop_last() =~= d.update(i, (d[i].0, v)));
        lemma_update(d, i, v);
    }
}

/// With unique keys, removing one pair removes its key from the mapping.
pub proof fn lemma_remove(p: Seq<(Seq<char>, Seq<char>)>, i: int)
    requires
        unique_keys(p),
        0 <= i < p.len(),
    ensures
        unique_keys(p.remove(i)),
        map_of(p.remove(i)) =~= map_of(p).remove(p[i].0),
    decreases p.len(),
{
    let q = p.remove(i);
    let d = p.drop_last();
    if i == p.len() - 1 {
        assert(q =~= d);
        lemma_absent(d, p[i].0);
    } else {
        assert(q.drop_last() =~= d.remove(i));
        lemma_remove(d, i);
    }
}

} // verus!
