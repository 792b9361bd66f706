//! Association lists keyed by text: the maps that the scans fill.
use vstd::prelude::*;

verus! {

/// `i` is the first position holding key `k`.
pub open spec fn is_first_index(keys: Seq<Seq<char>>, k: Seq<char>, i: int) -> bool {
    &&& 0 <= i < keys.len()
    &&& keys[i] == k
    &&& forall|j: int| 0 <= j < i ==> keys[j] != k
}

/// The first position holding key `k`, if any.
pub open spec fn first_index(keys: Seq<Seq<char>>, k: Seq<char>) -> Option<int> {
    if exists|i: int| is_first_index(keys, k, i) {
        Some(choose|i: int| is_first_index(keys, k, i))
    } else {
        None
    }
}

/// The keys of an association list.
pub open spec fn keys_of<V>(list: Seq<(Seq<char>, V)>) -> Seq<Seq<char>> {
    list.map_values(|e: (Seq<char>, V)| e.0)
}

/// The keys of an association list with string keys.
pub open spec fn string_keys<V>(list: Seq<(String, V)>) -> Seq<Seq<char>> {
    list.map_values(|e: (String, V)| e.0@)
}

pub proof fn lemma_first_index_found(keys: Seq<Seq<char>>, k: Seq<char>, i: int)
    requires
        is_first_index(keys, k, i),
    ensures
        first_index(keys, k) == Some(i),
{
    let c = choose|c: int| is_first_index(keys, k, c);
    assert(is_first_index(keys, k, c));
    if c < i {
        assert(keys[c] != k);
    } else if i < c {
        assert(keys[i] != k);
    }
}

pub proof fn lemma_first_index_absent(keys: Seq<Seq<char>>, k: Seq<char>)
    requires
        forall|j: int| 0 <= j < keys.len() ==> keys[j] != k,
    ensures
        first_index(keys, k) is None,
{
}

/// The position of the first entry whose key is `k`.
pub fn key_position<V>(list: &Vec<(String, V)>, k: &str) -> (res: Option<usize>)
    ensures
        match res {
            Some(i) => first_index(string_keys(list@), k@) == Some(i as int),
            None => first_index(string_keys(list@), k@) is None,
        },
{
    let ghost keys = string_keys(list@);
    let mut i: usize = 0;
    while i < list.len()
        invariant
            i <= list.len(),
            keys == string_keys(list@),
            forall|j: int| 0 <= j < i ==> keys[j] != k@,
        decreases list.len() - i,
    {
        if crate::text::str_eq(list[i].0.as_str(), k) {
            proof {
                lemma_first_index_found(keys, k@, i as int);
            }
            return Some(i);
        }
        i = i + 1;
    }
    proof {
        lemma_first_index_absent(keys, k@);
    }
    None
}

/// Whether some text of `list` equals `k`.
pub fn contains_text(list: &[&str], k: &str) -> (res: bool)
    ensures
        res == exists|j: int| 0 <= j < list@.len() && list@[j]@ == k@,
{
    let mut i: usize = 0;
    while i < list.len()
        invariant
            i <= list.len(),
            forall|j: int| 0 <= j < i ==> list@[j]@ != k@,
        decreases list.len() - i,
    {
        if crate::text::str_eq(list[i], k) {
            return true;
        }
        i = i + 1;
    }
    false
}

} // verus!
