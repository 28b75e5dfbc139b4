//! The keyed stores pair a string-keyed hash map with a vector of its
//! keys, so that the keys can be enumerated. This module states what it
//! means for the vector to mirror the map's domain, and re-establishes
//! that pairing across map updates.

use vstd::prelude::*;

verus! {

/// The key vector mirrors the map's domain: no two entries share a view,
/// every entry is a key of the map, and every key of the map appears.
pub open spec fn index_ok<V>(keys: Seq<String>, m: Map<Seq<char>, V>) -> bool {
    &&& (forall|a: int, b: int| 0 <= a < b < keys.len() ==> keys[a]@ != keys[b]@)
    &&& (forall|a: int| 0 <= a < keys.len() ==> m.contains_key((#[trigger] keys[a])@))
    &&& (forall|k: Seq<char>|
        #[trigger] m.contains_key(k) ==> exists|a: int| 0 <= a < keys.len() && keys[a]@ == k)
}

/// Inserting a key into the map, and appending it to the vector when it is
/// new, keeps the vector mirroring the domain.
pub proof fn lemma_index_insert<V>(
    keys0: Seq<String>,
    keys1: Seq<String>,
    m0: Map<Seq<char>, V>,
    m1: Map<Seq<char>, V>,
    key: Seq<char>,
)
    requires
        index_ok(keys0, m0),
        m1.dom() == m0.dom().insert(key),
        m0.contains_key(key) ==> keys1 == keys0,
        !m0.contains_key(key) ==> keys1.len() == keys0.len() + 1 && keys1.subrange(
            0,
            keys0.len() as int,
        ) == keys0 && keys1.last()@ == key,
    ensures
        index_ok(keys1, m1),
{
    assert(forall|k: Seq<char>|
        #[trigger] m1.contains_key(k) <==> m0.contains_key(k) || k == key);
    if m0.contains_key(key) {
        assert forall|k: Seq<char>| #[trigger] m1.contains_key(k) implies exists|a: int|
            0 <= a < keys1.len() && keys1[a]@ == k by {
            assert(m0.contains_key(k));
        }
    } else {
        let n = keys0.len() as int;
        assert forall|a: int| 0 <= a < keys1.len() implies m1.contains_key(
            (#[trigger] keys1[a])@,
        ) by {
            if a < n {
                assert(keys1[a] == keys0[a]);
            } else {
                assert(keys1[a]@ == key);
            }
        }
        assert forall|a: int, b: int|
            0 <= a < b < keys1.len() implies keys1[a]@ != keys1[b]@ by {
            if b < n {
                assert(keys1[a] == keys0[a]);
                assert(keys1[b] == keys0[b]);
            } else {
                assert(keys1[b]@ == key);
                assert(keys1[a] == keys0[a]);
                assert(m0.contains_key(keys0[a]@));
            }
        }
        assert forall|k: Seq<char>| #[trigger] m1.contains_key(k) implies exists|a: int|
            0 <= a < keys1.len() && keys1[a]@ == k by {
            if k == key {
                assert(keys1[n]@ == k);
            } else {
                assert(m0.contains_key(k));
                let a = choose|a: int| 0 <= a < keys0.len() && keys0[a]@ == k;
                assert(keys1[a] == keys0[a]);
            }
        }
    }
}

/// Removing the key at one position of the vector together with its map
/// entry keeps the vector mirroring the domain.
pub proof fn lemma_index_remove<V>(
    keys0: Seq<String>,
    m0: Map<Seq<char>, V>,
    m1: Map<Seq<char>, V>,
    i: int,
)
    requires
        index_ok(keys0, m0),
        0 <= i < keys0.len(),
        m1.dom() == m0.dom().remove(keys0[i]@),
    ensures
        index_ok(keys0.remove(i), m1),
{
    let keys1 = keys0.remove(i);
    keys0.remove_ensures(i);
    assert forall|a: int, b: int|
        0 <= a < b < keys1.len() implies keys1[a]@ != keys1[b]@ by {
        let a0 = if a < i {
            a
        } else {
            a + 1
        };
        let b0 = if b < i {
            b
        } else {
            b + 1
        };
        assert(keys1[a] == keys0[a0]);
        assert(keys1[b] == keys0[b0]);
    }
    assert forall|a: int| 0 <= a < keys1.len() implies m1.contains_key(
        (#[trigger] keys1[a])@,
    ) by {
        let a0 = if a < i {
            a
        } else {
            a + 1
        };
        assert(keys1[a] == keys0[a0]);
        assert(keys0[a0]@ != keys0[i]@);
    }
    assert forall|k: Seq<char>| #[trigger] m1.contains_key(k) implies exists|a: int|
        0 <= a < keys1.len() && keys1[a]@ == k by {
        assert(m0.contains_key(k));
        let a0 = choose|a0: int| 0 <= a0 < keys0.len() && keys0[a0]@ == k;
        assert(k != keys0[i]@);
        if a0 < i {
            assert(keys1[a0]@ == k);
        } else {
            assert(keys1[a0 - 1]@ == k);
        }
    }
}

} // verus!
