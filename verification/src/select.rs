use vstd::prelude::*;

verus! {

/// `i` holds the largest key, and no later position holds one as large: what
/// `Iterator::max_by_key` picks among the positions that have a key.
pub open spec fn is_last_max(keys: Seq<Option<i128>>, i: int) -> bool {
    &&& 0 <= i < keys.len()
    &&& keys[i] is Some
    &&& forall|j: int| 0 <= j < keys.len() && #[trigger] keys[j] is Some ==> keys[j]->0 <= keys[i]->0
    &&& forall|j: int| i < j < keys.len() && #[trigger] keys[j] is Some ==> keys[j]->0 < keys[i]->0
}

pub open spec fn no_keys(keys: Seq<Option<i128>>) -> bool {
    forall|j: int| 0 <= j < keys.len() ==> #[trigger] keys[j] is None
}

/// The position of the largest key, the last one on a tie.
pub open spec fn last_max(keys: Seq<Option<i128>>) -> Option<int> {
    if exists|i: int| is_last_max(keys, i) {
        Some(choose|i: int| is_last_max(keys, i))
    } else {
        None
    }
}

/// Only one position is the last largest.
pub proof fn lemma_last_max_unique(keys: Seq<Option<i128>>, i: int, j: int)
    requires
        is_last_max(keys, i),
        is_last_max(keys, j),
    ensures
        i == j,
{
    if i < j {
        assert(keys[j] is Some);
    } else if j < i {
        assert(keys[i] is Some);
    }
}

/// The position of the largest key, the last one on a tie; `None` where no position has a key.
pub fn last_max_index(keys: &Vec<Option<i128>>) -> (r: Option<usize>)
    ensures
        match r {
            Some(i) => is_last_max(keys@, i as int),
            None => no_keys(keys@),
        },
        r matches Some(i) ==> last_max(keys@) == Some(i as int),
        r is None ==> last_max(keys@) is None,
{
    let mut best: Option<usize> = None;
    let mut best_key: i128 = 0;
    for i in 0..keys.len()
        invariant
            match best {
                Some(b) => b < i && keys@[b as int] == Some(best_key) && (forall|j: int|
                    0 <= j < i && #[trigger] keys@[j] is Some ==> keys@[j]->0 <= best_key) && (
                forall|j: int| b < j < i && #[trigger] keys@[j] is Some ==> keys@[j]->0
                    < best_key),
                None => forall|j: int| 0 <= j < i ==> #[trigger] keys@[j] is None,
            },
    {
        match keys[i] {
            Some(k) => {
                if best.is_none() || k >= best_key {
                    best = Some(i);
                    best_key = k;
                }
            },
            None => {},
        }
    }
    proof {
        match best {
            Some(b) => {
                assert(is_last_max(keys@, b as int));
                let c = choose|i: int| is_last_max(keys@, i);
                lemma_last_max_unique(keys@, b as int, c);
            },
            None => {
                assert forall|i: int| !is_last_max(keys@, i) by {
                    if 0 <= i < keys@.len() {
                        assert(keys@[i] is None);
                    }
                }
            },
        }
    }
    best
}

/// `i` holds the largest key, and no earlier position holds one as large: what a scan that
/// replaces its pick only on a strictly larger key keeps.
pub open spec fn is_first_max(keys: Seq<Option<i128>>, i: int) -> bool {
    &&& 0 <= i < keys.len()
    &&& keys[i] is Some
    &&& forall|j: int| 0 <= j < keys.len() && #[trigger] keys[j] is Some ==> keys[j]->0 <= keys[i]->0
    &&& forall|j: int| 0 <= j < i && #[trigger] keys[j] is Some ==> keys[j]->0 < keys[i]->0
}

/// The position of the largest key, the first one on a tie.
pub open spec fn first_max(keys: Seq<Option<i128>>) -> Option<int> {
    if exists|i: int| is_first_max(keys, i) {
        Some(choose|i: int| is_first_max(keys, i))
    } else {
        None
    }
}

pub proof fn lemma_first_max_unique(keys: Seq<Option<i128>>, i: int, j: int)
    requires
        is_first_max(keys, i),
        is_first_max(keys, j),
    ensures
        i == j,
{
    if i < j {
        assert(keys[i] is Some);
    } else if j < i {
        assert(keys[j] is Some);
    }
}

/// Where some position has a key, there is a first largest one.
pub proof fn lemma_first_max_exists(keys: Seq<Option<i128>>)
    requires
        exists|i: int| 0 <= i < keys.len() && #[trigger] keys[i] is Some,
    ensures
        first_max(keys) is Some,
        is_first_max(keys, first_max(keys)->0),
    decreases keys.len(),
{
    let n = keys.len() as int;
    let prefix = keys.drop_last();
    let w: int = if exists|i: int| 0 <= i < prefix.len() && #[trigger] prefix[i] is Some {
        lemma_first_max_exists(prefix);
        let j = first_max(prefix)->0;
        assert(is_first_max(prefix, j));
        if keys[n - 1] is Some && keys[n - 1]->0 > prefix[j]->0 {
            assert forall|k: int| 0 <= k < n && #[trigger] keys[k] is Some implies keys[k]->0 <= keys[n - 1]->0 by {
                if k < n - 1 {
                    assert(prefix[k] == keys[k]);
                }
            }
            assert forall|k: int| 0 <= k < n - 1 && #[trigger] keys[k] is Some implies keys[k]->0 < keys[n - 1]->0 by {
                assert(prefix[k] == keys[k]);
            }
            n - 1
        } else {
            assert forall|k: int| 0 <= k < n && #[trigger] keys[k] is Some implies keys[k]->0 <= keys[j]->0 by {
                if k < n - 1 {
                    assert(prefix[k] == keys[k]);
                }
            }
            assert forall|k: int| 0 <= k < j && #[trigger] keys[k] is Some implies keys[k]->0 < keys[j]->0 by {
                assert(prefix[k] == keys[k]);
            }
            assert(keys[j] == prefix[j]);
            j
        }
    } else {
        let i = choose|i: int| 0 <= i < n && #[trigger] keys[i] is Some;
        if i < n - 1 {
            assert(prefix[i] is Some);
        }
        assert forall|k: int| 0 <= k < n && #[trigger] keys[k] is Some implies k == n - 1 by {
            if k < n - 1 {
                assert(prefix[k] is Some);
            }
        }
        n - 1
    };
    assert(is_first_max(keys, w));
    let c = choose|i: int| is_first_max(keys, i);
    lemma_first_max_unique(keys, w, c);
}

/// The position of the largest key, the first one on a tie; `None` where no position has a key.
pub fn first_max_index(keys: &Vec<Option<i128>>) -> (r: Option<usize>)
    ensures
        r matches Some(i) ==> first_max(keys@) == Some(i as int) && is_first_max(keys@, i as int),
        r is None ==> first_max(keys@) is None && no_keys(keys@),
{
    let mut best: Option<usize> = None;
    let mut best_key: i128 = 0;
    for i in 0..keys.len()
        invariant
            match best {
                Some(b) => b < i && keys@[b as int] == Some(best_key) && (forall|j: int|
                    0 <= j < i && #[trigger] keys@[j] is Some ==> keys@[j]->0 <= best_key) && (
                forall|j: int| 0 <= j < b && #[trigger] keys@[j] is Some ==> keys@[j]->0
                    < best_key),
                None => forall|j: int| 0 <= j < i ==> #[trigger] keys@[j] is None,
            },
    {
        match keys[i] {
            Some(k) => {
                if best.is_none() || k > best_key {
                    best = Some(i);
                    best_key = k;
                }
            },
            None => {},
        }
    }
    proof {
        match best {
            Some(b) => {
                assert(is_first_max(keys@, b as int));
                let c = choose|i: int| is_first_max(keys@, i);
                lemma_first_max_unique(keys@, b as int, c);
            },
            None => {
                assert forall|i: int| !is_first_max(keys@, i) by {
                    if 0 <= i < keys@.len() {
                        assert(keys@[i] is None);
                    }
                }
            },
        }
    }
    best
}

} // verus!
