//! The playback order: a shuffled copy of the list, and moving the chosen
//! track to the front.

use vstd::prelude::*;
use vstd::std_specs::cmp::PartialEqSpec;

verus! {

#[verifier::external_type_specification]
#[verifier::external_body]
pub struct ExStdRng(rand::rngs::StdRng);

/// `SliceRandom::shuffle` from `rand`: reorders the elements of `v` with
/// swaps drawn from `rng`. A slice of at most one element is returned at
/// once, without a draw; a longer one is run through a Fisher–Yates pass
/// whose second step always draws from the generator, which moves its
/// position in the key stream on. Which order comes out depends on the
/// generator's state; that it is a reordering is stated, not which one.
#[verifier::external_body]
fn shuffle_in_place<T>(v: &mut Vec<T>, rng: &mut rand::rngs::StdRng)
    ensures
        final(v)@.len() == old(v)@.len(),
        final(v)@.to_multiset() == old(v)@.to_multiset(),
        old(v)@.len() <= 1 ==> final(v)@ == old(v)@ && *final(rng) == *old(rng),
        old(v)@.len() >= 2 ==> *final(rng) != *old(rng),
{
    rand::seq::SliceRandom::shuffle(v.as_mut_slice(), rng)
}

/// `c` holds, index by index, clones of the elements of `s`.
pub open spec fn is_clone_of<T: Clone>(s: Seq<T>, c: Seq<T>) -> bool {
    &&& c.len() == s.len()
    &&& forall|i: int| 0 <= i < s.len() ==> cloned::<T>(s[i], #[trigger] c[i])
}

/// A copy of `tracks`, shuffled when `shuffle` is set; `tracks` itself is
/// left as it is.
pub fn ordered<T: Clone>(tracks: &[T], shuffle: bool, rng: &mut rand::rngs::StdRng) -> (r: Vec<T>)
    ensures
        r@.len() == tracks@.len(),
        exists|c: Seq<T>| {
            &&& is_clone_of(tracks@, c)
            &&& shuffle ==> r@.to_multiset() == c.to_multiset()
            &&& (!shuffle || tracks@.len() < 2) ==> r@ == c
        },
        (!shuffle || tracks@.len() < 2) ==> *final(rng) == *old(rng),
        shuffle && tracks@.len() >= 2 ==> *final(rng) != *old(rng),
{
    let mut result: Vec<T> = Vec::new();
    let mut i: usize = 0;
    while i < tracks.len()
        invariant
            i <= tracks@.len(),
            result@.len() == i,
            forall|k: int| 0 <= k < i ==> cloned::<T>(tracks@[k], #[trigger] result@[k]),
        decreases tracks@.len() - i,
    {
        result.push(tracks[i].clone());
        i = i + 1;
    }
    let ghost copy = result@;
    assert(is_clone_of(tracks@, copy));
    if shuffle {
        shuffle_in_place(&mut result, rng);
    }
    result
}

/// The first index at or after `i` whose element equals `x`.
pub open spec fn first_equal_from<T: PartialEq>(s: Seq<T>, x: T, i: int) -> Option<int>
    decreases s.len() - i,
{
    if i < 0 || i >= s.len() {
        None
    } else if s[i].eq_spec(&x) {
        Some(i)
    } else {
        first_equal_from(s, x, i + 1)
    }
}

/// `s` with its first element equal to `x` moved to the front; `s` itself
/// where none is.
pub open spec fn promoted<T: PartialEq>(s: Seq<T>, x: T) -> Seq<T> {
    match first_equal_from(s, x, 0) {
        Some(p) => seq![s[p]] + s.remove(p),
        None => s,
    }
}

/// `s` with its element at `p` moved to the front.
pub open spec fn moved_to_front<T>(s: Seq<T>, p: int) -> Seq<T> {
    seq![s[p]] + s.remove(p)
}

proof fn lemma_first_equal_from<T: PartialEq>(s: Seq<T>, x: T, i: int)
    requires
        0 <= i <= s.len(),
    ensures
        match first_equal_from(s, x, i) {
            Some(p) => i <= p < s.len() && s[p].eq_spec(&x) && forall|k: int| i <= k < p ==> !s[k].eq_spec(&x),
            None => forall|k: int| i <= k < s.len() ==> !s[k].eq_spec(&x),
        },
    decreases s.len() - i,
{
    if i < s.len() && !s[i].eq_spec(&x) {
        lemma_first_equal_from(s, x, i + 1);
    }
}

/// Where some element equals `x`, a first one is found.
pub proof fn lemma_first_equal_found<T: PartialEq>(s: Seq<T>, x: T, k: int)
    requires
        0 <= k < s.len(),
        s[k].eq_spec(&x),
    ensures
        first_equal_from(s, x, 0) matches Some(p) && 0 <= p <= k && s[p].eq_spec(&x),
{
    lemma_first_equal_from(s, x, 0);
}

proof fn lemma_move_to_front_multiset<T>(s: Seq<T>, p: int)
    requires
        0 <= p < s.len(),
    ensures
        moved_to_front(s, p).to_multiset() == s.to_multiset(),
{
    broadcast use vstd::seq_lib::group_to_multiset_ensures;
    let rest = s.remove(p);
    assert(s =~= s.subrange(0, p) + seq![s[p]] + s.subrange(p + 1, s.len() as int));
    assert(rest =~= s.subrange(0, p) + s.subrange(p + 1, s.len() as int));
    vstd::seq_lib::lemma_multiset_commutative(s.subrange(0, p) + seq![s[p]], s.subrange(p + 1, s.len() as int));
    vstd::seq_lib::lemma_multiset_commutative(s.subrange(0, p), seq![s[p]]);
    vstd::seq_lib::lemma_multiset_commutative(s.subrange(0, p), s.subrange(p + 1, s.len() as int));
    vstd::seq_lib::lemma_multiset_commutative(seq![s[p]], rest);
    vstd::seq_lib::lemma_multiset_commutative(s.subrange(0, p) + seq![s[p]], s.subrange(p + 1, s.len() as int));
}

/// Moves the first element equal to `chosen` to the front; the number of
/// times each element occurs does not change.
pub fn promote_to_front<T: PartialEq>(tracks: &mut Vec<T>, chosen: &T)
    ensures
        final(tracks)@.to_multiset() == old(tracks)@.to_multiset(),
        final(tracks)@ == old(tracks)@ || exists|p: int|
            0 <= p < old(tracks)@.len() && final(tracks)@ == moved_to_front(old(tracks)@, p),
        T::obeys_eq_spec() ==> final(tracks)@ == promoted(old(tracks)@, *chosen),
{
    let ghost s = tracks@;
    let mut i: usize = 0;
    while i < tracks.len()
        invariant
            tracks@ == s,
            s == old(tracks)@,
            i <= s.len(),
            T::obeys_eq_spec() ==> first_equal_from(s, *chosen, i as int) == first_equal_from(s, *chosen, 0),
        decreases s.len() - i,
    {
        if tracks[i].eq(chosen) {
            let item = tracks.remove(i);
            tracks.insert(0, item);
            proof {
                lemma_move_to_front_multiset(s, i as int);
                assert(tracks@ =~= moved_to_front(s, i as int));
            }
            return;
        }
        i = i + 1;
    }
}


/// Promoting the same element a second time changes nothing.
pub proof fn lemma_promote_twice<T: PartialEq>(s: Seq<T>, x: T)
    ensures
        promoted(promoted(s, x), x) == promoted(s, x),
{
    lemma_first_equal_from(s, x, 0);
    if let Some(p) = first_equal_from(s, x, 0) {
        let t = promoted(s, x);
        assert(t[0] == s[p]);
        lemma_first_equal_found(t, x, 0);
        assert(seq![t[0]] + t.remove(0) =~= t);
    }
}

} // verus!
