//! The JSON object sent with a POST request, built from the command line's pairs.
use vstd::prelude::*;
use crate::cli::PostBodyKVPair;

verus! {

/// The pairs as key and value texts, in order.
pub open spec fn pair_views(pairs: Seq<PostBodyKVPair>) -> Seq<(Seq<char>, Seq<char>)> {
    pairs.map_values(|p: PostBodyKVPair| (p.key@, p.value@))
}

/// The object that the pairs denote: each pair sets its key, so of repeated
/// keys the last value stays.
pub open spec fn body_map(pairs: Seq<(Seq<char>, Seq<char>)>) -> Map<Seq<char>, Seq<char>>
    decreases pairs.len(),
{
    if pairs.len() == 0 {
        Map::empty()
    } else {
        body_map(pairs.drop_last()).insert(pairs.last().0, pairs.last().1)
    }
}

/// The entries of `e` hold each key once.
pub open spec fn keys_distinct(e: Seq<(String, String)>) -> bool {
    forall|a: int, b: int| 0 <= a < b < e.len() ==> e[a].0@ != e[b].0@
}

/// The entries of `e` are exactly the object `m`.
pub open spec fn entries_are(e: Seq<(String, String)>, m: Map<Seq<char>, Seq<char>>) -> bool {
    &&& keys_distinct(e)
    &&& forall|k: Seq<char>| m.contains_key(k) <==> exists|j: int| 0 <= j < e.len() && e[j].0@ == k
    &&& forall|j: int| 0 <= j < e.len() ==> m[e[j].0@] == e[j].1@
}

/// The fields of the JSON object for a POST request: one entry per distinct
/// key, each with the last value given for it.
pub fn post_body(pairs: &Vec<PostBodyKVPair>) -> (r: Vec<(String, String)>)
    ensures
        entries_are(r@, body_map(pair_views(pairs@))),
{
    let ghost ps = pair_views(pairs@);
    let mut r: Vec<(String, String)> = Vec::new();
    let mut i: usize = 0;
    while i < pairs.len()
        invariant
            i <= pairs@.len(),
            ps == pair_views(pairs@),
            entries_are(r@, body_map(ps.take(i as int))),
        decreases pairs@.len() - i,
    {
        let ghost before = body_map(ps.take(i as int));
        assert(ps.take(i + 1).drop_last() =~= ps.take(i as int));
        assert(ps.take(i + 1).last() == ps[i as int]);
        let key = pairs[i].key.clone();
        let value = pairs[i].value.clone();
        let ghost after = before.insert(key@, value@);
        assert(body_map(ps.take(i + 1)) == after);
        let mut j: usize = 0;
        let mut found = false;
        while j < r.len()
            invariant_except_break
                !found,
            invariant
                j <= r@.len(),
                forall|x: int| 0 <= x < j ==> r@[x].0@ != key@,
            ensures
                found ==> j < r@.len() && r@[j as int].0@ == key@,
                !found ==> forall|x: int| 0 <= x < r@.len() ==> r@[x].0@ != key@,
            decreases r@.len() - j,
        {
            if r[j].0 == key {
                found = true;
                break;
            }
            j = j + 1;
        }
        let ghost old_r = r@;
        if found {
            r.set(j, (key, value));
            assert(entries_are(r@, after)) by {
                assert forall|a: int, b: int| 0 <= a < b < r@.len() implies r@[a].0@ != r@[b].0@ by {
                    assert(r@[a].0@ == old_r[a].0@);
                    assert(r@[b].0@ == old_r[b].0@);
                }
                assert forall|k: Seq<char>| after.contains_key(k) implies exists|x: int| 0 <= x < r@.len() && r@[x].0@ == k by {
                    if k != key@ {
                        let x = choose|x: int| 0 <= x < old_r.len() && old_r[x].0@ == k;
                        assert(r@[x].0@ == k);
                    } else {
                        assert(r@[j as int].0@ == k);
                    }
                }
                assert forall|x: int| 0 <= x < r@.len() implies after[r@[x].0@] == r@[x].1@ by {
                    if x != j {
                        assert(r@[x] == old_r[x]);
                    }
                }
            }
        } else {
            r.push((key, value));
            assert(entries_are(r@, after)) by {
                assert forall|a: int, b: int| 0 <= a < b < r@.len() implies r@[a].0@ != r@[b].0@ by {
                    if b < old_r.len() {
                        assert(r@[a] == old_r[a]);
                        assert(r@[b] == old_r[b]);
                    } else {
                        assert(r@[a] == old_r[a]);
                    }
                }
                assert forall|k: Seq<char>| after.contains_key(k) implies exists|x: int| 0 <= x < r@.len() && r@[x].0@ == k by {
                    if k != key@ {
                        let x = choose|x: int| 0 <= x < old_r.len() && old_r[x].0@ == k;
                        assert(r@[x] == old_r[x]);
                    } else {
                        assert(r@[old_r.len() as int].0@ == k);
                    }
                }
                assert forall|k: Seq<char>| (exists|x: int| 0 <= x < r@.len() && r@[x].0@ == k) implies after.contains_key(k) by {
                    let x = choose|x: int| 0 <= x < r@.len() && r@[x].0@ == k;
                    if x < old_r.len() {
                        assert(r@[x] == old_r[x]);
                    }
                }
                assert forall|x: int| 0 <= x < r@.len() implies after[r@[x].0@] == r@[x].1@ by {
                    if x < old_r.len() {
                        assert(r@[x] == old_r[x]);
                    }
                }
            }
        }
        i = i + 1;
    }
    assert(ps.take(pairs@.len() as int) =~= ps);
    r
}

/// Of pairs that repeat a key, the last one decides the key's value: a pair
/// whose key no later pair repeats sets that key in the object.
pub proof fn lemma_last_value_wins(pairs: Seq<(Seq<char>, Seq<char>)>, i: int)
    requires
        0 <= i < pairs.len(),
        forall|j: int| i < j < pairs.len() ==> pairs[j].0 != pairs[i].0,
    ensures
        body_map(pairs).contains_key(pairs[i].0),
        body_map(pairs)[pairs[i].0] == pairs[i].1,
    decreases pairs.len(),
{
    if i < pairs.len() - 1 {
        let rest = pairs.drop_last();
        assert forall|j: int| i < j < rest.len() implies rest[j].0 != rest[i].0 by {
            assert(rest[j] == pairs[j]);
        }
        lemma_last_value_wins(rest, i);
        assert(pairs.last().0 != pairs[i].0) by {
            assert(pairs.last() == pairs[pairs.len() - 1]);
        }
    }
}

/// The object's keys are exactly the keys of the pairs.
pub proof fn lemma_body_keys(pairs: Seq<(Seq<char>, Seq<char>)>, k: Seq<char>)
    ensures
        body_map(pairs).contains_key(k) <==> exists|j: int| 0 <= j < pairs.len() && pairs[j].0 == k,
    decreases pairs.len(),
{
    if pairs.len() > 0 {
        let rest = pairs.drop_last();
        lemma_body_keys(rest, k);
        if exists|j: int| 0 <= j < rest.len() && rest[j].0 == k {
            let j = choose|j: int| 0 <= j < rest.len() && rest[j].0 == k;
            assert(pairs[j] == rest[j]);
        }
        if exists|j: int| 0 <= j < pairs.len() && pairs[j].0 == k {
            let j = choose|j: int| 0 <= j < pairs.len() && pairs[j].0 == k;
            if j < rest.len() {
                assert(rest[j] == pairs[j]);
            }
        }
    }
}

} // verus!
