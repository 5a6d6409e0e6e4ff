//! Sparse histories: values recorded by day number, and the filling of the
//! days that were missed.
use std::collections::HashMap;
use vstd::prelude::*;

verus! {

broadcast use vstd::std_specs::hash::group_hash_axioms;

/// The history `h` after its gaps up to `today` were filled with `blank`:
/// every day from the earliest recorded one up to `today` inclusive that has
/// no entry gets `blank`; recorded days keep their values.
pub open spec fn filled<V>(h: Map<i32, V>, blank: V, today: i32) -> Map<i32, V> {
    Map::new(
        |d: i32| h.contains_key(d) || (d <= today && exists|k: i32| #[trigger] h.contains_key(k) && k <= d),
        |d: i32| if h.contains_key(d) { h[d] } else { blank },
    )
}

/// Filling the gaps of a history a second time changes nothing.
pub proof fn lemma_filled_idempotent<V>(h: Map<i32, V>, blank: V, today: i32)
    ensures
        filled(filled(h, blank, today), blank, today) == filled(h, blank, today),
{
    let f = filled(h, blank, today);
    assert forall|d: i32| #[trigger] filled(f, blank, today).contains_key(d) implies f.contains_key(d) by {
        if !f.contains_key(d) {
            let k = choose|k: i32| #[trigger] f.contains_key(k) && k <= d;
            if !h.contains_key(k) {
                let k2 = choose|k2: i32| #[trigger] h.contains_key(k2) && k2 <= k;
                assert(h.contains_key(k2) && k2 <= d);
            }
        }
    }
    assert(filled(f, blank, today) =~= f);
}

/// The earliest day that `h` records.
fn earliest<V>(h: &HashMap<i32, V>) -> (r: Option<i32>)
    ensures
        r is None <==> h@.dom().is_empty(),
        r matches Some(m) ==> h@.contains_key(m) && forall|k: i32| #[trigger] h@.contains_key(k) ==> m <= k,
{
    let mut best: Option<i32> = None;
    for k in it: h.keys()
        invariant
            it.seq().unref().to_set() == h@.dom(),
            best is None <==> it.index() == 0,
            best matches Some(m) ==> h@.contains_key(m),
            best matches Some(m) ==> forall|j: int| 0 <= j < it.index() ==> m <= *it.seq()[j],
    {
        let k = *k;
        best = match best {
            Some(m) => if k < m { Some(k) } else { Some(m) },
            None => Some(k),
        };
    }
    best
}

/// Fills the gaps of `h` up to `today` with `blank`.
pub fn fill_gaps<V: Copy>(h: &mut HashMap<i32, V>, blank: V, today: i32)
    ensures
        final(h)@ == filled(old(h)@, blank, today),
{
    let ghost h0 = h@;
    let first = match earliest(h) {
        Some(m) => m,
        None => {
            assert(filled(h0, blank, today) =~= h0);
            return;
        },
    };
    let last: i64 = today as i64;
    let mut d: i64 = first as i64;
    while d <= last
        invariant
            first as int <= d,
            d <= last + 1 || d == first,
            h0.contains_key(first),
            forall|k: i32| #[trigger] h0.contains_key(k) ==> first <= k,
            last == today,
            h@ == Map::new(
                |k: i32| h0.contains_key(k) || (first <= k < d),
                |k: i32| if h0.contains_key(k) { h0[k] } else { blank },
            ),
        decreases last + 1 - d,
    {
        let day = d as i32;
        if !h.contains_key(&day) {
            h.insert(day, blank);
        }
        proof {
            assert(h@ =~= Map::new(
                |k: i32| h0.contains_key(k) || (first <= k < d + 1),
                |k: i32| if h0.contains_key(k) { h0[k] } else { blank },
            ));
        }
        d = d + 1;
    }
    proof {
        assert forall|k: i32| #[trigger] filled(h0, blank, today).contains_key(k) implies h@.contains_key(k) by {
            if !h0.contains_key(k) {
                let j = choose|j: i32| #[trigger] h0.contains_key(j) && j <= k;
                assert(first <= j);
            }
        }
        assert(h@ =~= filled(h0, blank, today));
    }
}

} // verus!
