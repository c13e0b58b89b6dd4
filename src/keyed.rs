//! Maps keyed by strings, held as vectors of entries in insertion order.
use vstd::prelude::*;

verus! {

/// No key occurs twice.
pub open spec fn keys_unique<V>(s: Seq<(String, V)>) -> bool {
    forall|i: int, j: int|
        0 <= i < s.len() && 0 <= j < s.len() && i != j ==> #[trigger] s[i].0@ != #[trigger] s[j].0@
}

/// Index of the first entry under key `k`, or -1.
pub open spec fn key_index<V>(s: Seq<(String, V)>, k: Seq<char>) -> int
    decreases s.len(),
{
    if s.len() == 0 {
        -1
    } else if key_index(s.drop_last(), k) >= 0 {
        key_index(s.drop_last(), k)
    } else if s.last().0@ == k {
        s.len() - 1
    } else {
        -1
    }
}

/// Whether an entry has key `k`.
pub open spec fn has_key<V>(s: Seq<(String, V)>, k: Seq<char>) -> bool {
    key_index(s, k) >= 0
}

/// The value under `k`, if any.
pub open spec fn lookup<V>(s: Seq<(String, V)>, k: Seq<char>) -> Option<V> {
    if key_index(s, k) >= 0 {
        Some(s[key_index(s, k)].1)
    } else {
        None
    }
}

/// The entries after `v` is stored under `k`: an entry already under `k` takes the new
/// value in place, otherwise the entry is appended.
pub open spec fn insert_entry<V>(s: Seq<(String, V)>, k: String, v: V) -> Seq<(String, V)> {
    if key_index(s, k@) >= 0 {
        s.update(key_index(s, k@), (k, v))
    } else {
        s.push((k, v))
    }
}

/// The entries after each entry of `b` is stored in turn into `a`.
pub open spec fn insert_all<V>(a: Seq<(String, V)>, b: Seq<(String, V)>) -> Seq<(String, V)>
    decreases b.len(),
{
    if b.len() == 0 {
        a
    } else {
        let p = insert_all(a, b.drop_last());
        insert_entry(p, b.last().0, b.last().1)
    }
}

pub proof fn lemma_key_index_bounds<V>(s: Seq<(String, V)>, k: Seq<char>)
    ensures
        -1 <= key_index(s, k) < s.len(),
        key_index(s, k) >= 0 ==> s[key_index(s, k)].0@ == k,
        key_index(s, k) >= 0 ==> forall|i: int| 0 <= i < key_index(s, k) ==> s[i].0@ != k,
        key_index(s, k) < 0 ==> forall|i: int| 0 <= i < s.len() ==> s[i].0@ != k,
    decreases s.len(),
{
    if s.len() > 0 {
        let t = s.drop_last();
        lemma_key_index_bounds(t, k);
        assert forall|i: int| 0 <= i < t.len() implies t[i] == s[i] by {}
    }
}

/// The first index whose key is `k` is what `key_index` gives.
pub proof fn lemma_key_index_found<V>(s: Seq<(String, V)>, k: Seq<char>, j: int)
    requires
        0 <= j < s.len(),
        s[j].0@ == k,
        forall|i: int| 0 <= i < j ==> s[i].0@ != k,
    ensures
        key_index(s, k) == j,
{
    lemma_key_index_bounds(s, k);
    if key_index(s, k) < 0 {
        assert(s[j].0@ != k);
    }
}

/// Storing into a map with unique keys keeps the keys unique.
pub proof fn lemma_insert_entry_unique<V>(s: Seq<(String, V)>, k: String, v: V)
    requires
        keys_unique(s),
    ensures
        keys_unique(insert_entry(s, k, v)),
        has_key(insert_entry(s, k, v), k@),
        lookup(insert_entry(s, k, v), k@) == Some(v),
{
    lemma_key_index_bounds(s, k@);
    let r = insert_entry(s, k, v);
    if key_index(s, k@) >= 0 {
        let j = key_index(s, k@);
        assert forall|a: int, b: int|
            0 <= a < r.len() && 0 <= b < r.len() && a != b implies #[trigger] r[a].0@
            != #[trigger] r[b].0@ by {
            assert(s[a].0@ != s[b].0@);
        }
        lemma_key_index_found(r, k@, j);
    } else {
        assert forall|a: int, b: int|
            0 <= a < r.len() && 0 <= b < r.len() && a != b implies #[trigger] r[a].0@
            != #[trigger] r[b].0@ by {
            if a < s.len() && b < s.len() {
                assert(s[a].0@ != s[b].0@);
            }
        }
        assert forall|i: int| 0 <= i < s.len() implies r[i].0@ != k@ by {
            assert(s[i].0@ != k@);
        }
        lemma_key_index_found(r, k@, s.len() as int);
    }
}

/// Storing all entries of `b` into a map with unique keys keeps the keys unique.
pub proof fn lemma_insert_all_unique<V>(a: Seq<(String, V)>, b: Seq<(String, V)>)
    requires
        keys_unique(a),
    ensures
        keys_unique(insert_all(a, b)),
    decreases b.len(),
{
    if b.len() > 0 {
        lemma_insert_all_unique(a, b.drop_last());
        lemma_insert_entry_unique(insert_all(a, b.drop_last()), b.last().0, b.last().1);
    }
}

/// Position of the entry under `k`, if there is one.
pub fn find_key<V>(s: &Vec<(String, V)>, k: &String) -> (r: Option<usize>)
    ensures
        r matches Some(j) ==> j < s@.len() && j == key_index(s@, k@),
        r is None ==> key_index(s@, k@) == -1,
{
    let mut j: usize = 0;
    while j < s.len()
        invariant
            j <= s@.len(),
            forall|i: int| 0 <= i < j ==> s@[i].0@ != k@,
        decreases s@.len() - j,
    {
        if s[j].0 == *k {
            proof {
                lemma_key_index_found(s@, k@, j as int);
            }
            return Some(j);
        }
        j = j + 1;
    }
    proof {
        lemma_key_index_bounds(s@, k@);
        if key_index(s@, k@) >= 0 {
            assert(s@[key_index(s@, k@)].0@ != k@);
        }
    }
    None
}

/// Stores `v` under `k`, replacing the value of an entry already under `k`.
pub fn insert_key<V>(s: &mut Vec<(String, V)>, k: String, v: V)
    ensures
        final(s)@ == insert_entry(old(s)@, k, v),
{
    match find_key(s, &k) {
        Some(j) => {
            s.set(j, (k, v));
        },
        None => {
            s.push((k, v));
        },
    }
}

/// Key-wise union of two maps: the entries of `b` are stored into `a` in order, so that on a
/// key in both the entry of `b` wins.
pub fn extend<V>(a: Vec<(String, V)>, b: Vec<(String, V)>) -> (r: Vec<(String, V)>)
    ensures
        r@ == insert_all(a@, b@),
        keys_unique(a@) ==> keys_unique(r@),
{
    proof {
        if keys_unique(a@) {
            lemma_insert_all_unique(a@, b@);
        }
    }
    let mut r = a;
    let mut rest = b;
    let ghost b0 = rest@;
    let ghost a0 = r@;
    let n: usize = rest.len();
    let mut i: usize = 0;
    while rest.len() > 0
        invariant
            b0.len() == n,
            i + rest@.len() == b0.len(),
            rest@ == b0.skip(i as int),
            r@ == insert_all(a0, b0.take(i as int)),
        decreases rest@.len(),
    {
        let (k, v) = rest.remove(0);
        proof {
            assert(b0.take(i as int + 1).drop_last() == b0.take(i as int));
        }
        insert_key(&mut r, k, v);
        i = i + 1;
        proof {
            assert(rest@ == b0.skip(i as int));
        }
    }
    proof {
        assert(b0.take(i as int) == b0);
    }
    r
}

} // verus!
