//! The storage slots that a contract's constructor has written.

use crate::text::same_bytes;
use vstd::prelude::*;

verus! {

/// One written slot: its key, and the bytes last written to it.
pub struct Slot {
    pub key: [u8; 32],
    pub value: Vec<u8>,
}

/// Storage slots by key. No key occurs twice.
pub struct Storage {
    slots: Vec<Slot>,
}

/// What `slots` hold, by key.
spec fn contents(slots: Seq<Slot>) -> Map<Seq<u8>, Seq<u8>>
    decreases slots.len(),
{
    if slots.len() == 0 {
        Map::empty()
    } else {
        contents(slots.drop_last()).insert(slots.last().key@, slots.last().value@)
    }
}

impl View for Storage {
    type V = Map<Seq<u8>, Seq<u8>>;

    closed spec fn view(&self) -> Map<Seq<u8>, Seq<u8>> {
        contents(self.slots@)
    }
}

/// No key occurs twice.
spec fn distinct(slots: Seq<Slot>) -> bool {
    forall|i: int, j: int| 0 <= i < j < slots.len() ==> slots[i].key@ != slots[j].key@
}

/// Each slot holds its value under its key, and there is no other key.
proof fn lemma_contents(slots: Seq<Slot>)
    requires
        distinct(slots),
    ensures
        forall|i: int|
            0 <= i < slots.len() ==> #[trigger] contents(slots).contains_key(slots[i].key@)
                && contents(slots)[slots[i].key@] == slots[i].value@,
        forall|key: Seq<u8>| #[trigger]
            contents(slots).contains_key(key) ==> exists|i: int|
                0 <= i < slots.len() && #[trigger] slots[i].key@ == key,
    decreases slots.len(),
{
    if slots.len() > 0 {
        let front = slots.drop_last();
        lemma_contents(front);
        assert forall|i: int| 0 <= i < slots.len() implies #[trigger] contents(
            slots,
        ).contains_key(slots[i].key@) && contents(slots)[slots[i].key@] == slots[i].value@ by {
            if i < front.len() {
                assert(front[i] == slots[i]);
                assert(contents(front).contains_key(front[i].key@));
            }
        }
        assert forall|key: Seq<u8>| #[trigger]
            contents(slots).contains_key(key) implies exists|i: int|
            0 <= i < slots.len() && #[trigger] slots[i].key@ == key by {
            if key == slots.last().key@ {
                assert(slots[slots.len() - 1].key@ == key);
            } else {
                assert(contents(front).contains_key(key));
                let i = choose|i: int| 0 <= i < front.len() && #[trigger] front[i].key@ == key;
                assert(slots[i].key@ == key);
            }
        }
    }
}

impl Storage {
    #[verifier::type_invariant]
    spec fn well_formed(self) -> bool {
        distinct(self.slots@)
    }

    /// Storage with nothing written.
    pub fn new() -> (r: Storage)
        ensures
            r@ == Map::<Seq<u8>, Seq<u8>>::empty(),
    {
        Storage { slots: Vec::new() }
    }

    /// The index of the slot of `key`, if there is one.
    fn find(&self, key: &[u8; 32]) -> (r: Option<usize>)
        ensures
            match r {
                Some(i) => i < self.slots@.len() && self.slots@[i as int].key@ == key@,
                None => forall|i: int|
                    0 <= i < self.slots@.len() ==> #[trigger] self.slots@[i].key@ != key@,
            },
    {
        let mut i: usize = 0;
        while i < self.slots.len()
            invariant
                i <= self.slots@.len(),
                forall|j: int| 0 <= j < i ==> #[trigger] self.slots@[j].key@ != key@,
            decreases self.slots@.len() - i,
        {
            if same_bytes(self.slots[i].key.as_slice(), key.as_slice()) {
                return Some(i);
            }
            i = i + 1;
        }
        None
    }

    /// The bytes last written to the slot of `key`, if any were.
    pub fn get(&self, key: &[u8; 32]) -> (r: Option<&Vec<u8>>)
        ensures
            match r {
                Some(value) => self@.contains_key(key@) && value@ == self@[key@],
                None => !self@.contains_key(key@),
            },
    {
        proof {
            use_type_invariant(self);
            lemma_contents(self.slots@);
        }
        match self.find(key) {
            Some(i) => {
                assert(self@.contains_key(self.slots@[i as int].key@));
                Some(&self.slots[i].value)
            },
            None => None,
        }
    }

    /// Writes `value` to the slot of `key`, over what was there.
    pub fn insert(&mut self, key: [u8; 32], value: Vec<u8>)
        ensures
            final(self)@ == old(self)@.insert(key@, value@),
    {
        proof {
            use_type_invariant(&*self);
            lemma_contents(self.slots@);
        }
        let ghost before = self.slots@;
        let found = self.find(&key);
        let slot = Slot { key, value };
        let mut slots: Vec<Slot> = Vec::new();
        std::mem::swap(&mut slots, &mut self.slots);
        match found {
            Some(i) => {
                proof {
                    let after = before.update(i as int, slot);
                    assert(distinct(after));
                    lemma_contents(after);
                    lemma_update(before, i as int, slot);
                }
                slots.set(i, slot);
            },
            None => {
                proof {
                    let after = before.push(slot);
                    assert(distinct(after));
                    assert(after.drop_last() =~= before);
                }
                slots.push(slot);
            },
        }
        self.slots = slots;
    }
}

/// Writing over a slot changes what stands under its key, and nothing else.
proof fn lemma_update(slots: Seq<Slot>, i: int, slot: Slot)
    requires
        distinct(slots),
        0 <= i < slots.len(),
        slots[i].key@ == slot.key@,
    ensures
        contents(slots.update(i, slot)) == contents(slots).insert(slot.key@, slot.value@),
    decreases slots.len(),
{
    let after = slots.update(i, slot);
    if i == slots.len() - 1 {
        assert(after.drop_last() =~= slots.drop_last());
        assert(contents(after) =~= contents(slots).insert(slot.key@, slot.value@));
    } else {
        lemma_update(slots.drop_last(), i, slot);
        assert(after.drop_last() =~= slots.drop_last().update(i, slot));
        assert(slots[i].key@ != slots.last().key@);
        assert(contents(after) =~= contents(slots).insert(slot.key@, slot.value@));
    }
}

} // verus!
