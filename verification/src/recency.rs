//! The order of a listing: by the time of saving, the latest first.
//!
//! Times are compared as the database compares text, byte by byte. For times written as
//! `YYYY-MM-DD HH:MM:SS` that is the order of the calendar.

use crate::record::SavedDog;
use vstd::prelude::*;
use vstd::string::*;
use vstd::utf8::encode_utf8;

verus! {

/// `a` comes no later than `b` in the order of the dictionary, byte by byte; a proper
/// beginning of a text comes before the text.
pub open spec fn bytes_le(a: Seq<u8>, b: Seq<u8>) -> bool
    decreases a.len(),
{
    if a.len() == 0 {
        true
    } else if b.len() == 0 {
        false
    } else if a[0] == b[0] {
        bytes_le(a.drop_first(), b.drop_first())
    } else {
        a[0] < b[0]
    }
}

/// Of two texts, one comes no later than the other.
pub proof fn lemma_bytes_le_total(a: Seq<u8>, b: Seq<u8>)
    ensures
        bytes_le(a, b) || bytes_le(b, a),
    decreases a.len(),
{
    if a.len() > 0 && b.len() > 0 && a[0] == b[0] {
        lemma_bytes_le_total(a.drop_first(), b.drop_first());
    }
}

/// The order passes along a chain.
pub proof fn lemma_bytes_le_transitive(a: Seq<u8>, b: Seq<u8>, c: Seq<u8>)
    requires
        bytes_le(a, b),
        bytes_le(b, c),
    ensures
        bytes_le(a, c),
    decreases a.len(),
{
    if a.len() > 0 && a[0] == b[0] && b[0] == c[0] {
        lemma_bytes_le_transitive(a.drop_first(), b.drop_first(), c.drop_first());
    }
}

/// Whether `a` comes no later than `b`.
pub fn bytes_at_most(a: &[u8], b: &[u8]) -> (at_most: bool)
    ensures
        at_most == bytes_le(a@, b@),
{
    let mut i: usize = 0;
    proof {
        assert(a@.skip(0) == a@);
        assert(b@.skip(0) == b@);
    }
    while i < a.len() && i < b.len()
        invariant
            i <= a.len(),
            i <= b.len(),
            bytes_le(a@, b@) == bytes_le(a@.skip(i as int), b@.skip(i as int)),
        decreases a.len() - i,
    {
        proof {
            assert(a@.skip(i as int).drop_first() == a@.skip(i + 1));
            assert(b@.skip(i as int).drop_first() == b@.skip(i + 1));
        }
        if a[i] != b[i] {
            return a[i] < b[i];
        }
        i = i + 1;
    }
    i == a.len()
}

/// The time at which `dog` was saved, as the bytes that are compared.
pub open spec fn saved_at(dog: SavedDog) -> Seq<u8> {
    encode_utf8(dog.created_at@)
}

/// Whether `a` was saved no later than `b`.
pub fn saved_no_later(a: &SavedDog, b: &SavedDog) -> (no_later: bool)
    ensures
        no_later == bytes_le(saved_at(*a), saved_at(*b)),
{
    bytes_at_most(a.created_at.as_str().as_bytes(), b.created_at.as_str().as_bytes())
}

/// Every dog was saved no earlier than those listed after it.
pub open spec fn newest_first(dogs: Seq<SavedDog>) -> bool {
    forall|i: int, j: int|
        0 <= i < j < dogs.len() ==> bytes_le(#[trigger] saved_at(dogs[j]), #[trigger] saved_at(dogs[i]))
}

/// A text comes no later than itself.
pub proof fn lemma_bytes_le_reflexive(a: Seq<u8>)
    ensures
        bytes_le(a, a),
    decreases a.len(),
{
    if a.len() > 0 {
        lemma_bytes_le_reflexive(a.drop_first());
    }
}

/// In a listing, a dog saved strictly later than another stands before it.
pub proof fn lemma_later_listed_first(listed: Seq<SavedDog>, later: int, earlier: int)
    requires
        newest_first(listed),
        0 <= later < listed.len(),
        0 <= earlier < listed.len(),
        !bytes_le(saved_at(listed[later]), saved_at(listed[earlier])),
    ensures
        later < earlier,
{
    lemma_bytes_le_reflexive(saved_at(listed[later]));
}

/// `listed` is the listing of `dogs`: the same dogs with the latest first, and `dogs` itself
/// where that is in order already.
pub open spec fn is_listing_of(listed: Seq<SavedDog>, dogs: Seq<SavedDog>) -> bool {
    &&& newest_first(listed)
    &&& listed.to_multiset() == dogs.to_multiset()
    &&& newest_first(dogs) ==> listed == dogs
}

/// The listing of a single dog is that dog and nothing else.
pub proof fn lemma_listing_of_one(listed: Seq<SavedDog>, dog: SavedDog)
    requires
        is_listing_of(listed, seq![dog]),
    ensures
        listed == seq![dog],
{
}

/// The listing of two dogs saved at different times is the later one, then the earlier one,
/// in whichever order the two came.
pub proof fn lemma_listing_of_two(listed: Seq<SavedDog>, first: SavedDog, second: SavedDog)
    requires
        is_listing_of(listed, seq![first, second]),
        saved_at(first) != saved_at(second),
    ensures
        bytes_le(saved_at(first), saved_at(second)) ==> listed == seq![second, first],
        !bytes_le(saved_at(first), saved_at(second)) ==> listed == seq![first, second],
{
    let dogs = seq![first, second];
    listed.to_multiset_ensures();
    dogs.to_multiset_ensures();
    assert(dogs.len() == 2);
    assert(listed.len() == listed.to_multiset().len());
    assert(dogs.contains(first)) by {
        assert(dogs[0] == first);
    }
    assert(dogs.contains(second)) by {
        assert(dogs[1] == second);
    }
    assert(listed.contains(first)) by {
        assert(listed.to_multiset().count(first) > 0);
    }
    assert(listed.contains(second)) by {
        assert(listed.to_multiset().count(second) > 0);
    }
    let i = choose|i: int| 0 <= i < listed.len() && listed[i] == first;
    let j = choose|j: int| 0 <= j < listed.len() && listed[j] == second;
    assert(i != j);
    if bytes_le(saved_at(first), saved_at(second)) {
        if i == 0 {
            assert(bytes_le(saved_at(listed[1]), saved_at(listed[0])));
            lemma_bytes_le_antisymmetric(saved_at(first), saved_at(second));
        }
        assert(listed =~= seq![second, first]);
    } else {
        if i == 1 {
            assert(bytes_le(saved_at(listed[1]), saved_at(listed[0])));
        }
        assert(listed =~= seq![first, second]);
    }
}

/// Two texts that come no later than each other are one text.
pub proof fn lemma_bytes_le_antisymmetric(a: Seq<u8>, b: Seq<u8>)
    requires
        bytes_le(a, b),
        bytes_le(b, a),
    ensures
        a == b,
    decreases a.len(),
{
    if a.len() > 0 {
        lemma_bytes_le_antisymmetric(a.drop_first(), b.drop_first());
        assert(a =~= seq![a[0]] + a.drop_first());
        assert(b =~= seq![b[0]] + b.drop_first());
    } else {
        assert(a =~= b);
    }
}

/// Inserting into a sequence adds one item to what it holds.
proof fn lemma_insert_to_multiset(s: Seq<SavedDog>, at: int, dog: SavedDog)
    requires
        0 <= at <= s.len(),
    ensures
        s.insert(at, dog).to_multiset() == s.to_multiset().insert(dog),
{
    broadcast use vstd::seq_lib::group_to_multiset_ensures;

    let grown = s.insert(at, dog);
    assert(grown.remove(at) == s);
    assert(grown[at] == dog);
    assert(grown.to_multiset().count(dog) > 0) by {
        assert(grown.contains(dog));
    }
    assert(grown.to_multiset() =~= grown.remove(at).to_multiset().insert(dog));
}

/// Puts `dogs` in the order of a listing: the latest first. Dogs saved at the same time keep
/// their places among themselves, so a listing that is in order already comes back as it is.
pub fn order_by_recency(dogs: Vec<SavedDog>) -> (ordered: Vec<SavedDog>)
    ensures
        is_listing_of(ordered@, dogs@),
{
    let mut ordered: Vec<SavedDog> = Vec::new();
    proof {
        assert(dogs@.take(0) == ordered@);
    }
    for dog in it: dogs
        invariant
            it.seq() == dogs@,
            newest_first(ordered@),
            ordered@.to_multiset() == dogs@.take(it.index() as int).to_multiset(),
            newest_first(dogs@) ==> ordered@ == dogs@.take(it.index() as int),
    {
        let ghost before = ordered@;
        let ghost seen = it.index() as int;
        let mut at: usize = ordered.len();
        while at > 0 && !saved_no_later(&dog, &ordered[at - 1])
            invariant
                at <= ordered.len(),
                forall|k: int|
                    at <= k < ordered.len() ==> !bytes_le(saved_at(dog), #[trigger] saved_at(ordered[k])),
            decreases at,
        {
            at = at - 1;
        }
        ordered.insert(at, dog);
        proof {
            assert(ordered@ == before.insert(at as int, dog));
            lemma_insert_to_multiset(before, at as int, dog);
            assert(dogs@.take(seen + 1) == dogs@.take(seen).push(dog));
            vstd::seq_lib::to_multiset_build(dogs@.take(seen), dog);
            assert(newest_first(ordered@)) by {
                assert forall|i: int, j: int| 0 <= i < j < ordered@.len() implies bytes_le(
                    #[trigger] saved_at(ordered@[j]),
                    #[trigger] saved_at(ordered@[i]),
                ) by {
                    if j == at {
                        assert(ordered@[i] == before[i]);
                        if i < at - 1 {
                            lemma_bytes_le_transitive(
                                saved_at(dog),
                                saved_at(before[at - 1]),
                                saved_at(before[i]),
                            );
                        }
                    } else if i == at {
                        lemma_bytes_le_total(saved_at(dog), saved_at(before[j - 1]));
                    } else {
                        let bi = if i < at { i } else { i - 1 };
                        let bj = if j < at { j } else { j - 1 };
                        assert(ordered@[i] == before[bi]);
                        assert(ordered@[j] == before[bj]);
                    }
                }
            }
            if newest_first(dogs@) {
                if seen > 0 {
                    assert(before[seen - 1] == dogs@[seen - 1]);
                    assert(bytes_le(saved_at(dogs@[seen]), saved_at(dogs@[seen - 1])));
                }
                assert(at == seen);
                assert(ordered@ == dogs@.take(seen + 1));
            }
        }
    }
    proof {
        assert(dogs@.take(dogs@.len() as int) == dogs@);
    }
    ordered
}

} // verus!
