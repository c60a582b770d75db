//! Mutual exclusion of the operations on one workload.
//!
//! Starting, stopping and creating list the processes of a workload and then
//! act on what was listed. Two such operations on one kind key that run at
//! the same time act on listings that the other has made stale. Whoever
//! drives the operations keeps a table of the kind keys in use, takes a key
//! before an operation on it begins and gives it back when the operation
//! has ended.

use vstd::prelude::*;

verus! {

/// The keys that a list of keys holds.
pub open spec fn key_set(keys: Seq<String>) -> Set<Seq<char>> {
    Set::new(|key: Seq<char>| exists|i: int| 0 <= i < keys.len() && (#[trigger] keys[i])@ == key)
}

/// Whether no key occurs twice in the list.
pub open spec fn keys_distinct(keys: Seq<String>) -> bool {
    forall|i: int, j: int|
        0 <= i < j < keys.len() ==> (#[trigger] keys[i])@ != (#[trigger] keys[j])@
}

/// Where the table stands after the key was asked for, and whether the key
/// was given.
pub open spec fn acquired(held: Set<Seq<char>>, key: Seq<char>) -> (Set<Seq<char>>, bool) {
    (held.insert(key), !held.contains(key))
}

/// The kind keys on which an operation is under way.
#[derive(Debug)]
pub struct KeyLocks {
    held: Vec<String>,
}

impl View for KeyLocks {
    type V = Set<Seq<char>>;

    closed spec fn view(&self) -> Set<Seq<char>> {
        key_set(self.held@)
    }
}

impl KeyLocks {
    #[verifier::type_invariant]
    spec fn no_key_twice(self) -> bool {
        keys_distinct(self.held@)
    }

    /// A table in which no key is taken.
    pub fn new() -> (res: KeyLocks)
        ensures
            res@ == Set::<Seq<char>>::empty(),
    {
        let res = KeyLocks { held: Vec::new() };
        assert(res@ =~= Set::<Seq<char>>::empty());
        res
    }

    fn position(&self, key: &str) -> (res: Option<usize>)
        ensures
            res is Some <==> self@.contains(key@),
            res matches Some(at) ==> at < self.held@.len() && self.held@[at as int]@ == key@,
    {
        let wanted = key.to_owned();
        let mut at: usize = 0;
        while at < self.held.len()
            invariant
                at <= self.held@.len(),
                wanted@ == key@,
                forall|j: int| 0 <= j < at ==> (#[trigger] self.held@[j])@ != key@,
            decreases self.held@.len() - at,
        {
            if self.held[at] == wanted {
                return Some(at);
            }
            at += 1;
        }
        None
    }

    /// Whether the key is taken.
    pub fn is_held(&self, key: &str) -> (res: bool)
        ensures
            res == self@.contains(key@),
    {
        self.position(key).is_some()
    }

    /// Takes the key if it is free, and says whether it did. A key that is
    /// taken stays taken, and is not given to a second taker.
    pub fn try_acquire(&mut self, key: &str) -> (res: bool)
        ensures
            (final(self)@, res) == acquired(old(self)@, key@),
    {
        proof {
            use_type_invariant(&*self);
        }
        let free = self.position(key).is_none();
        if free {
            let mut taken = KeyLocks::new();
            core::mem::swap(self, &mut taken);
            let mut held = taken.held;
            let ghost before = held@;
            held.push(key.to_owned());
            proof {
                assert(keys_distinct(held@));
                assert forall|k: Seq<char>| key_set(held@).contains(k) <==> key_set(before).insert(
                    key@,
                ).contains(k) by {
                    if key_set(held@).contains(k) {
                        let i = choose|i: int| 0 <= i < held@.len() && (#[trigger] held@[i])@ == k;
                        if i < before.len() {
                            assert(before[i]@ == k);
                        }
                    }
                    if key_set(before).contains(k) {
                        let i = choose|i: int|
                            0 <= i < before.len() && (#[trigger] before[i])@ == k;
                        assert(held@[i]@ == k);
                    }
                    if k == key@ {
                        assert(held@[held@.len() - 1]@ == k);
                    }
                }
                assert(key_set(held@) =~= key_set(before).insert(key@));
            }
            *self = KeyLocks { held };
        } else {
            assert(self@ =~= self@.insert(key@));
        }
        free
    }

    /// Gives the key back. A key that was not taken stays free.
    pub fn release(&mut self, key: &str)
        ensures
            final(self)@ == old(self)@.remove(key@),
    {
        proof {
            use_type_invariant(&*self);
        }
        match self.position(key) {
            None => {
                assert(self@ =~= self@.remove(key@));
            },
            Some(at) => {
                let mut taken = KeyLocks::new();
                core::mem::swap(self, &mut taken);
                let mut held = taken.held;
                let ghost before = held@;
                held.remove(at);
                proof {
                    assert forall|i: int, j: int| 0 <= i < j < held@.len() implies (
                    #[trigger] held@[i])@ != (#[trigger] held@[j])@ by {
                        let a = if i < at { i } else { i + 1 };
                        let b = if j < at { j } else { j + 1 };
                        assert(before[a]@ != before[b]@);
                    }
                    assert forall|k: Seq<char>| key_set(held@).contains(k) <==> key_set(
                        before,
                    ).remove(key@).contains(k) by {
                        if key_set(held@).contains(k) {
                            let i = choose|i: int|
                                0 <= i < held@.len() && (#[trigger] held@[i])@ == k;
                            let a = if i < at { i } else { i + 1 };
                            assert(before[a]@ == k);
                            assert(before[a]@ != before[at as int]@);
                        }
                        if key_set(before).remove(key@).contains(k) {
                            let a = choose|a: int|
                                0 <= a < before.len() && (#[trigger] before[a])@ == k;
                            let i = if a < at { a } else { a - 1 };
                            assert(held@[i]@ == k);
                        }
                    }
                    assert(key_set(held@) =~= key_set(before).remove(key@));
                }
                *self = KeyLocks { held };
            },
        }
    }
}

/// A key is given to one taker at a time: whoever asks for a key is refused
/// from the moment it was given until it is given back, whatever other keys
/// are taken and given back in between. Once it is given back, it is given
/// again.
pub proof fn lemma_one_taker_at_a_time(
    held: Set<Seq<char>>,
    key: Seq<char>,
    others: Seq<(Seq<char>, bool)>,
)
    requires
        forall|i: int| 0 <= i < others.len() ==> (#[trigger] others[i]).0 != key,
    ensures
        !acquired(among(acquired(held, key).0, others), key).1,
        acquired(among(acquired(held, key).0, others).remove(key), key).1,
    decreases others.len(),
{
    if others.len() > 0 {
        lemma_one_taker_at_a_time(held, key, others.drop_last());
        assert(others[others.len() - 1].0 != key);
    }
}

/// Where the table stands after the keys of `others` were taken, where the
/// flag is set, or given back, where it is not, in this order.
pub open spec fn among(held: Set<Seq<char>>, others: Seq<(Seq<char>, bool)>) -> Set<Seq<char>>
    decreases others.len(),
{
    if others.len() == 0 {
        held
    } else {
        let before = among(held, others.drop_last());
        if others.last().1 {
            before.insert(others.last().0)
        } else {
            before.remove(others.last().0)
        }
    }
}

} // verus!
