//! Sequences of key and value pairs as maps, and the order of texts by which keys are sorted.

use crate::text::chars_of;
use vstd::prelude::*;

verus! {

/// A key and its value, the key as the text that it holds.
pub type Pair = (Seq<char>, i32);

/// The pairs that a vector of entries holds.
pub open spec fn pairs(v: Seq<(String, i32)>) -> Seq<Pair> {
    Seq::new(v.len(), |i: int| (v[i].0@, v[i].1))
}

/// Whether some pair of `p` has the key `k`.
pub open spec fn has_key(p: Seq<Pair>, k: Seq<char>) -> bool {
    exists|i: int| 0 <= i < p.len() && (#[trigger] p[i]).0 == k
}

/// Whether no two pairs of `p` have the same key.
pub open spec fn distinct_keys(p: Seq<Pair>) -> bool {
    forall|i: int, j: int| 0 <= i < j < p.len() ==> (#[trigger] p[i]).0 != (#[trigger] p[j]).0
}

/// The map that the pairs of `p` make up, a later pair counting over an earlier one with
/// the same key.
pub open spec fn as_map(p: Seq<Pair>) -> Map<Seq<char>, i32>
    decreases p.len(),
{
    if p.len() == 0 {
        Map::empty()
    } else {
        as_map(p.drop_last()).insert(p.last().0, p.last().1)
    }
}

/// The map of pairs has the keys of the pairs, and no other.
pub proof fn lemma_map_keys(p: Seq<Pair>)
    ensures
        forall|k: Seq<char>| #[trigger] as_map(p).contains_key(k) <==> has_key(p, k),
        as_map(p).dom().finite(),
    decreases p.len(),
{
    if p.len() > 0 {
        let q = p.drop_last();
        lemma_map_keys(q);
        assert forall|k: Seq<char>| #[trigger] as_map(p).contains_key(k) <==> has_key(p, k) by {
            if has_key(p, k) {
                let i = choose|i: int| 0 <= i < p.len() && (#[trigger] p[i]).0 == k;
                if i < p.len() - 1 {
                    assert(q[i].0 == k);
                }
            }
            if as_map(p).contains_key(k) {
                if k == p.last().0 {
                    assert(p[p.len() - 1].0 == k);
                } else {
                    assert(has_key(q, k));
                    let i = choose|i: int| 0 <= i < q.len() && (#[trigger] q[i]).0 == k;
                    assert(p[i].0 == k);
                }
            }
        }
    }
}

/// Where the keys are distinct, the map of pairs gives each key the value of its pair, and
/// holds as many keys as there are pairs.
pub proof fn lemma_map_values(p: Seq<Pair>)
    requires
        distinct_keys(p),
    ensures
        forall|i: int| 0 <= i < p.len() ==> as_map(p)[(#[trigger] p[i]).0] == p[i].1,
        as_map(p).dom().len() == p.len(),
    decreases p.len(),
{
    lemma_map_keys(p);
    if p.len() > 0 {
        let q = p.drop_last();
        assert(distinct_keys(q)) by {
            assert forall|i: int, j: int| 0 <= i < j < q.len() implies (#[trigger] q[i]).0 != (
            #[trigger] q[j]).0 by {
                assert(p[i].0 != p[j].0);
            }
        }
        lemma_map_values(q);
        lemma_map_keys(q);
        assert(!has_key(q, p.last().0)) by {
            if has_key(q, p.last().0) {
                let i = choose|i: int| 0 <= i < q.len() && (#[trigger] q[i]).0 == p.last().0;
                assert(p[i].0 != p[p.len() - 1].0);
            }
        }
        assert forall|i: int| 0 <= i < p.len() implies as_map(p)[(#[trigger] p[i]).0]
            == p[i].1 by {
            if i < p.len() - 1 {
                assert(q[i] == p[i]);
                assert(p[i].0 != p[p.len() - 1].0);
            }
        }
    }
}

/// Pairs with distinct keys make up the one map that has their keys and gives each key the
/// value of its pair.
pub proof fn lemma_map_of_pairs(p: Seq<Pair>, m: Map<Seq<char>, i32>)
    requires
        distinct_keys(p),
        forall|k: Seq<char>| #[trigger] m.contains_key(k) <==> has_key(p, k),
        forall|i: int| 0 <= i < p.len() ==> m[(#[trigger] p[i]).0] == p[i].1,
    ensures
        as_map(p) == m,
{
    lemma_map_keys(p);
    lemma_map_values(p);
    assert forall|k: Seq<char>| as_map(p).contains_key(k) implies #[trigger] as_map(p)[k]
        == m[k] by {
        let i = choose|i: int| 0 <= i < p.len() && (#[trigger] p[i]).0 == k;
        assert(as_map(p)[p[i].0] == p[i].1);
    }
    assert(as_map(p) =~= m);
}

/// A new value for the key at `i` makes the map that gives this key the new value.
pub proof fn lemma_update_at(p: Seq<Pair>, i: int, v: i32)
    requires
        distinct_keys(p),
        0 <= i < p.len(),
    ensures
        distinct_keys(p.update(i, (p[i].0, v))),
        as_map(p.update(i, (p[i].0, v))) == as_map(p).insert(p[i].0, v),
{
    let q = p.update(i, (p[i].0, v));
    let m = as_map(p).insert(p[i].0, v);
    lemma_map_keys(p);
    lemma_map_values(p);
    assert forall|a: int, b: int| 0 <= a < b < q.len() implies (#[trigger] q[a]).0 != (
    #[trigger] q[b]).0 by {
        assert(q[a].0 == p[a].0 && q[b].0 == p[b].0);
    }
    assert forall|k: Seq<char>| #[trigger] m.contains_key(k) <==> has_key(q, k) by {
        if has_key(q, k) {
            let j = choose|j: int| 0 <= j < q.len() && (#[trigger] q[j]).0 == k;
            assert(p[j].0 == k);
        }
        if m.contains_key(k) {
            if k == p[i].0 {
                assert(q[i].0 == k);
            } else {
                let j = choose|j: int| 0 <= j < p.len() && (#[trigger] p[j]).0 == k;
                assert(q[j].0 == k);
            }
        }
    }
    assert forall|j: int| 0 <= j < q.len() implies m[(#[trigger] q[j]).0] == q[j].1 by {
        if j != i {
            assert(q[j] == p[j]);
            if j < i {
                assert(p[j].0 != p[i].0);
            } else {
                assert(p[i].0 != p[j].0);
            }
        }
    }
    lemma_map_of_pairs(q, m);
}

/// A pair with a new key, put in at any place, makes the map with that key and value more.
pub proof fn lemma_insert_at(p: Seq<Pair>, i: int, k: Seq<char>, v: i32)
    requires
        distinct_keys(p),
        !has_key(p, k),
        0 <= i <= p.len(),
    ensures
        distinct_keys(p.insert(i, (k, v))),
        as_map(p.insert(i, (k, v))) == as_map(p).insert(k, v),
{
    let q = p.insert(i, (k, v));
    let m = as_map(p).insert(k, v);
    lemma_map_keys(p);
    lemma_map_values(p);
    assert forall|j: int| 0 <= j < q.len() implies (j < i ==> q[j] == p[j]) && (j == i ==> q[j]
        == (k, v)) && (j > i ==> q[j] == p[j - 1]) by {}
    assert forall|a: int, b: int| 0 <= a < b < q.len() implies (#[trigger] q[a]).0 != (
    #[trigger] q[b]).0 by {
        let pa = if a < i {
            a
        } else {
            a - 1
        };
        let pb = if b < i {
            b
        } else {
            b - 1
        };
        if a == i {
            assert(p[pb].0 != k);
        } else if b == i {
            assert(p[pa].0 != k);
        } else {
            assert(p[pa].0 != p[pb].0);
        }
    }
    assert forall|x: Seq<char>| #[trigger] m.contains_key(x) <==> has_key(q, x) by {
        if has_key(q, x) {
            let j = choose|j: int| 0 <= j < q.len() && (#[trigger] q[j]).0 == x;
            if j < i {
                assert(p[j].0 == x);
            } else if j > i {
                assert(p[j - 1].0 == x);
            }
        }
        if m.contains_key(x) {
            if x == k {
                assert(q[i].0 == x);
            } else {
                let j = choose|j: int| 0 <= j < p.len() && (#[trigger] p[j]).0 == x;
                if j < i {
                    assert(q[j].0 == x);
                } else {
                    assert(q[j + 1].0 == x);
                }
            }
        }
    }
    assert forall|j: int| 0 <= j < q.len() implies m[(#[trigger] q[j]).0] == q[j].1 by {
        if j < i {
            assert(p[j].0 != k);
        } else if j > i {
            assert(p[j - 1].0 != k);
        }
    }
    lemma_map_of_pairs(q, m);
}

/// Without the pair at `i` the pairs make up the map without the key of that pair.
pub proof fn lemma_remove_at(p: Seq<Pair>, i: int)
    requires
        distinct_keys(p),
        0 <= i < p.len(),
    ensures
        distinct_keys(p.remove(i)),
        as_map(p.remove(i)) == as_map(p).remove(p[i].0),
{
    let q = p.remove(i);
    let m = as_map(p).remove(p[i].0);
    lemma_map_keys(p);
    lemma_map_values(p);
    assert forall|j: int| 0 <= j < q.len() implies (j < i ==> q[j] == p[j]) && (j >= i ==> q[j]
        == p[j + 1]) by {}
    assert forall|a: int, b: int| 0 <= a < b < q.len() implies (#[trigger] q[a]).0 != (
    #[trigger] q[b]).0 by {
        let pa = if a < i {
            a
        } else {
            a + 1
        };
        let pb = if b < i {
            b
        } else {
            b + 1
        };
        assert(p[pa].0 != p[pb].0);
    }
    assert forall|x: Seq<char>| #[trigger] m.contains_key(x) <==> has_key(q, x) by {
        if has_key(q, x) {
            let j = choose|j: int| 0 <= j < q.len() && (#[trigger] q[j]).0 == x;
            if j < i {
                assert(p[j].0 == x);
                assert(p[j].0 != p[i].0);
            } else {
                assert(p[j + 1].0 == x);
                assert(p[i].0 != p[j + 1].0);
            }
        }
        if m.contains_key(x) {
            let j = choose|j: int| 0 <= j < p.len() && (#[trigger] p[j]).0 == x;
            if j < i {
                assert(q[j].0 == x);
            } else {
                assert(q[j - 1].0 == x);
            }
        }
    }
    assert forall|j: int| 0 <= j < q.len() implies m[(#[trigger] q[j]).0] == q[j].1 by {
        if j < i {
            assert(p[j].0 != p[i].0);
        } else {
            assert(p[i].0 != p[j + 1].0);
        }
    }
    lemma_map_of_pairs(q, m);
}

/// Whether the text `a` stands before the text `b` in the order of the dictionary: at the
/// first place where they differ `a` has the character of the lower code, or `a` ends there
/// and `b` goes on.
pub open spec fn text_lt(a: Seq<char>, b: Seq<char>) -> bool
    decreases a.len(),
{
    if b.len() == 0 {
        false
    } else if a.len() == 0 {
        true
    } else if a[0] != b[0] {
        (a[0] as u32) < (b[0] as u32)
    } else {
        text_lt(a.drop_first(), b.drop_first())
    }
}

/// No text stands before itself.
pub proof fn lemma_text_lt_irreflexive(a: Seq<char>)
    ensures
        !text_lt(a, a),
    decreases a.len(),
{
    if a.len() > 0 {
        lemma_text_lt_irreflexive(a.drop_first());
    }
}

/// The order of texts is transitive.
pub proof fn lemma_text_lt_transitive(a: Seq<char>, b: Seq<char>, c: Seq<char>)
    requires
        text_lt(a, b),
        text_lt(b, c),
    ensures
        text_lt(a, c),
    decreases a.len(),
{
    if a.len() > 0 && a[0] == b[0] && b[0] == c[0] {
        lemma_text_lt_transitive(a.drop_first(), b.drop_first(), c.drop_first());
    }
}

/// Of two different texts one stands before the other.
pub proof fn lemma_text_lt_total(a: Seq<char>, b: Seq<char>)
    requires
        a != b,
    ensures
        text_lt(a, b) || text_lt(b, a),
    decreases a.len(),
{
    if a.len() == 0 || b.len() == 0 {
        assert(a.len() != b.len()) by {
            if a.len() == b.len() {
                assert(a =~= b);
            }
        }
    } else if a[0] == b[0] {
        assert(a.drop_first() != b.drop_first()) by {
            if a.drop_first() == b.drop_first() {
                assert(a.len() == a.drop_first().len() + 1);
                assert(b.len() == b.drop_first().len() + 1);
                assert forall|i: int| 0 <= i < a.len() implies a[i] == b[i] by {
                    if i > 0 {
                        assert(a[i] == a.drop_first()[i - 1]);
                        assert(b[i] == b.drop_first()[i - 1]);
                    }
                }
                assert(a =~= b);
            }
        }
        lemma_text_lt_total(a.drop_first(), b.drop_first());
    } else {
        vstd::utf8::char_u32_cast(a[0], a[0] as u32);
        vstd::utf8::char_u32_cast(b[0], b[0] as u32);
    }
}

/// Whether each key of `p` stands before the key after it, and so before all later ones.
pub open spec fn sorted_keys(p: Seq<Pair>) -> bool {
    forall|i: int, j: int|
        0 <= i < j < p.len() ==> text_lt((#[trigger] p[i]).0, (#[trigger] p[j]).0)
}

/// Sorted keys are distinct.
pub proof fn lemma_sorted_is_distinct(p: Seq<Pair>)
    requires
        sorted_keys(p),
    ensures
        distinct_keys(p),
{
    assert forall|i: int, j: int| 0 <= i < j < p.len() implies (#[trigger] p[i]).0 != (
    #[trigger] p[j]).0 by {
        lemma_text_lt_irreflexive(p[i].0);
    }
}

/// A pair put in between the smaller keys and the larger ones keeps the keys sorted.
pub proof fn lemma_sorted_insert(p: Seq<Pair>, i: int, k: Seq<char>, v: i32)
    requires
        sorted_keys(p),
        0 <= i <= p.len(),
        forall|j: int| 0 <= j < i ==> text_lt((#[trigger] p[j]).0, k),
        i < p.len() ==> text_lt(k, p[i].0),
    ensures
        sorted_keys(p.insert(i, (k, v))),
        !has_key(p, k),
{
    let q = p.insert(i, (k, v));
    assert forall|j: int| i <= j < p.len() implies text_lt(k, (#[trigger] p[j]).0) by {
        if j > i {
            assert(text_lt(p[i].0, p[j].0));
            lemma_text_lt_transitive(k, p[i].0, p[j].0);
        }
    }
    assert forall|a: int, b: int| 0 <= a < b < q.len() implies text_lt(
        (#[trigger] q[a]).0,
        (#[trigger] q[b]).0,
    ) by {
        let pa = if a < i {
            a
        } else {
            a - 1
        };
        let pb = if b < i {
            b
        } else {
            b - 1
        };
        if a == i {
            assert(text_lt(k, p[pb].0));
        } else if b == i {
            assert(text_lt(p[pa].0, k));
        } else {
            assert(text_lt(p[pa].0, p[pb].0));
        }
    }
    if has_key(p, k) {
        let j = choose|j: int| 0 <= j < p.len() && (#[trigger] p[j]).0 == k;
        lemma_text_lt_irreflexive(k);
        if j < i {
            assert(text_lt(p[j].0, k));
        } else {
            assert(text_lt(k, p[j].0));
        }
    }
}

/// Sorted keys stay sorted where a pair leaves or gets a new value.
pub proof fn lemma_sorted_stays(p: Seq<Pair>, i: int, v: i32)
    requires
        sorted_keys(p),
        0 <= i < p.len(),
    ensures
        sorted_keys(p.remove(i)),
        sorted_keys(p.update(i, (p[i].0, v))),
{
    let q = p.remove(i);
    assert forall|a: int, b: int| 0 <= a < b < q.len() implies text_lt(
        (#[trigger] q[a]).0,
        (#[trigger] q[b]).0,
    ) by {
        let pa = if a < i {
            a
        } else {
            a + 1
        };
        let pb = if b < i {
            b
        } else {
            b + 1
        };
        assert(text_lt(p[pa].0, p[pb].0));
    }
    let u = p.update(i, (p[i].0, v));
    assert forall|a: int, b: int| 0 <= a < b < u.len() implies text_lt(
        (#[trigger] u[a]).0,
        (#[trigger] u[b]).0,
    ) by {
        assert(text_lt(p[a].0, p[b].0));
    }
}

/// Whether the text of `a` stands before the text of `b` in the order of the dictionary.
pub fn text_less(a: &str, b: &str) -> (r: bool)
    ensures
        r == text_lt(a@, b@),
{
    let x = chars_of(a);
    let y = chars_of(b);
    let mut i: usize = 0;
    proof {
        assert(a@.skip(0) =~= a@);
        assert(b@.skip(0) =~= b@);
    }
    loop
        invariant
            x@ == a@,
            y@ == b@,
            i <= x.len(),
            i <= y.len(),
            text_lt(a@, b@) == text_lt(a@.skip(i as int), b@.skip(i as int)),
        decreases x.len() - i,
    {
        if i == y.len() {
            return false;
        }
        if i == x.len() {
            return true;
        }
        proof {
            assert(a@.skip(i as int).drop_first() =~= a@.skip(i + 1));
            assert(b@.skip(i as int).drop_first() =~= b@.skip(i + 1));
        }
        if x[i] != y[i] {
            return (x[i] as u32) < (y[i] as u32);
        }
        i += 1;
    }
}

} // verus!
