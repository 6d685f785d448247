//! Items and the five-slot inventory that holds them.
use vstd::prelude::*;
use crate::error::{Result, Status};
use crate::recording::db::RecordingId;
use crate::static_data::ObjectDescriptor;

verus! {

/// A stack of items of one kind; a cloner also names the recording it
/// replays.
#[derive(PartialEq, Debug, Clone, Copy)]
pub struct Item {
    pub definition: &'static ObjectDescriptor,
    pub quantity: u16,
    pub recording: Option<RecordingId>,
}

/// Two items are of the same kind when their definitions share a name.
pub open spec fn same_kind(a: Item, b: Item) -> bool {
    a.definition.name@ == b.definition.name@
}

impl Item {
    pub fn new(definition: &'static ObjectDescriptor, quantity: u16) -> (r: Item)
        ensures
            r == (Item { definition, quantity, recording: None }),
    {
        Item { definition, quantity, recording: None }
    }

    /// A single cloner item that replays `recordingid`.
    pub fn new_cloner(definition: &'static ObjectDescriptor, recordingid: RecordingId) -> (r: Item)
        ensures
            r == (Item { definition, quantity: 1, recording: Some(recordingid) }),
    {
        Item { definition, quantity: 1, recording: Some(recordingid) }
    }
}

/// The number of inventory slots.
pub const SLOTS: usize = 5;

/// A container for items with five slots.
#[derive(PartialEq, Copy, Clone, Debug, Default)]
pub struct BasicInventory {
    items: [Option<Item>; 5],
}

/// `i` is the first empty slot of `s`.
pub open spec fn is_first_empty(s: Seq<Option<Item>>, i: int) -> bool {
    &&& 0 <= i < s.len()
    &&& s[i] is None
    &&& forall|j: int| 0 <= j < i ==> #[trigger] s[j] is Some
}

/// `i` is the first slot of `s` holding an item whose definition is named
/// `name`.
pub open spec fn is_first_named(s: Seq<Option<Item>>, name: Seq<char>, i: int) -> bool {
    &&& 0 <= i < s.len()
    &&& s[i] matches Some(e) && e.definition.name@ == name
    &&& forall|j: int| 0 <= j < i ==> !(#[trigger] s[j] matches Some(e) && e.definition.name@ == name)
}

/// No slot of `s` holds an item whose definition is named `name`.
pub open spec fn has_no_named(s: Seq<Option<Item>>, name: Seq<char>) -> bool {
    forall|j: int| 0 <= j < s.len() ==> !(#[trigger] s[j] matches Some(e) && e.definition.name@ == name)
}

/// The slots after taking `qty` units from slot `i`, which holds at least
/// that many: the slot empties when exactly that many were there.
pub open spec fn removed_at(s: Seq<Option<Item>>, qty: u16, i: int) -> Seq<Option<Item>> {
    let e = s[i]->Some_0;
    if e.quantity > qty {
        s.update(i, Some(Item { quantity: (e.quantity - qty) as u16, ..e }))
    } else {
        s.update(i, None)
    }
}

/// The slots after inserting `item` in the first empty slot, or `None` when
/// every slot is full.
pub open spec fn spec_insert(s: Seq<Option<Item>>, item: Item) -> Option<Seq<Option<Item>>> {
    if exists|i: int| is_first_empty(s, i) {
        Some(s.update(choose|i: int| is_first_empty(s, i), Some(item)))
    } else {
        None
    }
}

/// The slots after removing `qty` units of the kind named `name` from the
/// first slot holding it, or the error the removal gives.
pub open spec fn spec_remove_named(s: Seq<Option<Item>>, name: Seq<char>, qty: u16) -> Result<Seq<Option<Item>>> {
    if exists|i: int| is_first_named(s, name, i) {
        let i = choose|i: int| is_first_named(s, name, i);
        if s[i]->Some_0.quantity >= qty {
            Ok(removed_at(s, qty, i))
        } else {
            Err(Status::ActionFail("attempting to remove too many items"))
        }
    } else {
        Err(Status::ActionFail("no such item in inventory"))
    }
}

/// Removal of `target.quantity` units of the kind of `target`.
pub open spec fn spec_remove(s: Seq<Option<Item>>, target: Item) -> Result<Seq<Option<Item>>> {
    spec_remove_named(s, target.definition.name@, target.quantity)
}

/// The slots after `n` removals of one unit named `name`, or the first
/// error.
pub open spec fn remove_n(s: Seq<Option<Item>>, name: Seq<char>, n: nat) -> Result<Seq<Option<Item>>>
    decreases n,
{
    if n == 0 {
        Ok(s)
    } else {
        match spec_remove_named(s, name, 1) {
            Ok(s2) => remove_n(s2, name, (n - 1) as nat),
            Err(e) => Err(e),
        }
    }
}

/// The first empty slot is unique.
pub proof fn lemma_first_empty_unique(s: Seq<Option<Item>>, i: int, j: int)
    requires
        is_first_empty(s, i),
        is_first_empty(s, j),
    ensures
        i == j,
{
    if i < j {
        assert(s[i] is Some);
    } else if j < i {
        assert(s[j] is Some);
    }
}

/// The first slot of a kind is unique.
pub proof fn lemma_first_named_unique(s: Seq<Option<Item>>, name: Seq<char>, i: int, j: int)
    requires
        is_first_named(s, name, i),
        is_first_named(s, name, j),
    ensures
        i == j,
{
    if i < j {
        assert(s[i] matches Some(e) && e.definition.name@ == name);
    } else if j < i {
        assert(s[j] matches Some(e) && e.definition.name@ == name);
    }
}

/// The units of the kind named `name` in one slot.
pub open spec fn slot_units(slot: Option<Item>, name: Seq<char>) -> int {
    match slot {
        Some(e) => if e.definition.name@ == name {
            e.quantity as int
        } else {
            0
        },
        None => 0,
    }
}

/// The units of the kind named `name` held in `s`, over all its slots.
pub open spec fn units_named(s: Seq<Option<Item>>, name: Seq<char>) -> int
    decreases s.len(),
{
    if s.len() == 0 {
        0
    } else {
        units_named(s.drop_last(), name) + slot_units(s.last(), name)
    }
}

/// No slot of `s` holds an empty stack.
pub open spec fn no_empty_stacks(s: Seq<Option<Item>>) -> bool {
    forall|j: int| 0 <= j < s.len() ==> (#[trigger] s[j] matches Some(e) ==> e.quantity > 0)
}

/// Replacing one slot changes the units of a kind by what the slot held
/// and now holds.
proof fn lemma_units_update(s: Seq<Option<Item>>, i: int, v: Option<Item>, name: Seq<char>)
    requires
        0 <= i < s.len(),
    ensures
        units_named(s.update(i, v), name) == units_named(s, name) - slot_units(s[i], name) + slot_units(v, name),
    decreases s.len(),
{
    if i == s.len() - 1 {
        assert(s.update(i, v).drop_last() =~= s.drop_last());
    } else {
        lemma_units_update(s.drop_last(), i, v, name);
        assert(s.update(i, v).drop_last() =~= s.drop_last().update(i, v));
    }
}

/// Slots that hold nothing of a kind hold no units of it.
proof fn lemma_no_named_units(s: Seq<Option<Item>>, name: Seq<char>)
    requires
        has_no_named(s, name),
    ensures
        units_named(s, name) == 0,
    decreases s.len(),
{
    if s.len() > 0 {
        assert(has_no_named(s.drop_last(), name)) by {
            assert forall|j: int| 0 <= j < s.drop_last().len() implies !(#[trigger] s.drop_last()[j] matches Some(
                e,
            ) && e.definition.name@ == name) by {
                assert(s.drop_last()[j] == s[j]);
            }
        }
        lemma_no_named_units(s.drop_last(), name);
        assert(!(s[s.len() - 1] matches Some(e) && e.definition.name@ == name));
    }
}

/// No kind is held in fewer than no units.
proof fn lemma_units_nonneg(s: Seq<Option<Item>>, name: Seq<char>)
    ensures
        units_named(s, name) >= 0,
    decreases s.len(),
{
    if s.len() > 0 {
        lemma_units_nonneg(s.drop_last(), name);
    }
}

/// A slot holding a kind means a first slot holds it.
proof fn lemma_first_named_exists(s: Seq<Option<Item>>, name: Seq<char>, k: int)
    requires
        0 <= k < s.len(),
        s[k] matches Some(e) && e.definition.name@ == name,
    ensures
        exists|i: int| is_first_named(s, name, i),
    decreases k,
{
    if exists|j: int| 0 <= j < k && (#[trigger] s[j] matches Some(e) && e.definition.name@ == name) {
        let j = choose|j: int| 0 <= j < k && (#[trigger] s[j] matches Some(e) && e.definition.name@ == name);
        lemma_first_named_exists(s, name, j);
    } else {
        assert(is_first_named(s, name, k));
    }
}

/// Taking `n` single units of a kind, one after another, succeeds exactly
/// when the slots hold at least `n` units of it in all (no stack being
/// empty), and then leaves exactly `n` units fewer, with no stack empty.
pub proof fn lemma_remove_n_iff_enough(s: Seq<Option<Item>>, name: Seq<char>, n: nat)
    requires
        no_empty_stacks(s),
    ensures
        remove_n(s, name, n) is Ok <==> units_named(s, name) >= n,
        remove_n(s, name, n) matches Ok(s2) ==> units_named(s2, name) == units_named(s, name) - n
            && no_empty_stacks(s2) && s2.len() == s.len(),
    decreases n,
{
    lemma_units_nonneg(s, name);
    if n > 0 {
        if exists|i: int| is_first_named(s, name, i) {
            let i = choose|i: int| is_first_named(s, name, i);
            let e = s[i]->Some_0;
            assert(e.quantity > 0);
            let s2 = removed_at(s, 1, i);
            assert(spec_remove_named(s, name, 1) == Ok::<Seq<Option<Item>>, Status>(s2));
            assert(s2 == s.update(i, s2[i]));
            lemma_units_update(s, i, s2[i], name);
            assert(no_empty_stacks(s2)) by {
                assert forall|j: int| 0 <= j < s2.len() implies (#[trigger] s2[j] matches Some(x) ==> x.quantity > 0) by {
                    if j != i {
                        assert(s2[j] == s[j]);
                    }
                }
            }
            lemma_remove_n_iff_enough(s2, name, (n - 1) as nat);
        } else {
            assert(has_no_named(s, name)) by {
                assert forall|j: int| 0 <= j < s.len() implies !(#[trigger] s[j] matches Some(x)
                    && x.definition.name@ == name) by {
                    if s[j] matches Some(x) && x.definition.name@ == name {
                        lemma_first_named_exists(s, name, j);
                    }
                }
            }
            lemma_no_named_units(s, name);
        }
    }
}

impl BasicInventory {
    /// The slots, in order.
    pub closed spec fn slots(self) -> Seq<Option<Item>> {
        self.items@
    }

    /// Five empty slots.
    pub open spec fn new_slots() -> Seq<Option<Item>> {
        seq![None, None, None, None, None]
    }

    /// An inventory of empty slots.
    pub fn new() -> (r: BasicInventory)
        ensures
            r.slots() == BasicInventory::new_slots(),
    {
        let r = BasicInventory { items: [None, None, None, None, None] };
        assert(r.items@ =~= BasicInventory::new_slots());
        r
    }

    pub fn get_items(&self) -> (r: &[Option<Item>; 5])
        ensures
            r@ == self.slots(),
    {
        &self.items
    }

    /// Puts the item in the first empty slot; fails when every slot is full.
    pub fn insert(&mut self, new_item: Item) -> (r: Result<()>)
        ensures
            match spec_insert(old(self).slots(), new_item) {
                Some(s) => r is Ok && final(self).slots() == s,
                None => r == Err::<(), Status>(Status::ActionFail("no space in inventory"))
                    && final(self).slots() == old(self).slots(),
            },
    {
        let mut i: usize = 0;
        while i < 5
            invariant
                i <= 5,
                self.items@.len() == 5,
                self.items == old(self).items,
                forall|j: int| 0 <= j < i ==> #[trigger] self.items@[j] is Some,
            decreases 5 - i,
        {
            if self.items[i].is_none() {
                self.items[i] = Some(new_item);
                assert(is_first_empty(old(self).items@, i as int));
                proof {
                    let c = choose|k: int| is_first_empty(old(self).items@, k);
                    lemma_first_empty_unique(old(self).items@, i as int, c);
                }
                return Ok(());
            }
            i = i + 1;
        }
        Err(Status::ActionFail("no space in inventory"))
    }

    /// Empties slot `idx` and returns what it held; `None` for an index past
    /// the slots. (Index 5, one past the last slot, is not accepted.)
    pub fn remove_idx(&mut self, idx: usize) -> (r: Option<Item>)
        requires
            idx != 5,
        ensures
            idx > 5 ==> r is None && final(self).slots() == old(self).slots(),
            idx < 5 ==> r == old(self).slots()[idx as int] && final(self).slots() == old(self).slots().update(
                idx as int,
                None,
            ),
    {
        if idx > 5 {
            return None;
        }
        let ret = self.items[idx];
        self.items[idx] = None;
        ret
    }

    /// Takes `target_item.quantity` units of its kind from the first slot
    /// holding that kind; the slot empties when exactly that many were
    /// there. Fails when that slot holds fewer, or no slot holds the kind.
    pub fn remove(&mut self, target_item: Item) -> (r: Result<()>)
        ensures
            match spec_remove(old(self).slots(), target_item) {
                Ok(s) => r is Ok && final(self).slots() == s,
                Err(e) => r == Err::<(), Status>(e) && final(self).slots() == old(self).slots(),
            },
    {
        let mut i: usize = 0;
        while i < 5
            invariant
                i <= 5,
                self.items@.len() == 5,
                self.items == old(self).items,
                forall|j: int|
                    0 <= j < i ==> !(#[trigger] self.items@[j] matches Some(e) && e.definition.name@
                        == target_item.definition.name@),
            decreases 5 - i,
        {
            if let Some(existing_item) = self.items[i] {
                if existing_item.definition.name == target_item.definition.name {
                    let ghost name = target_item.definition.name@;
                    assert(is_first_named(old(self).items@, name, i as int));
                    proof {
                        let c = choose|k: int| is_first_named(old(self).items@, name, k);
                        lemma_first_named_unique(old(self).items@, name, i as int, c);
                    }
                    if existing_item.quantity > target_item.quantity {
                        self.items[i] = Some(
                            Item {
                                quantity: existing_item.quantity - target_item.quantity,
                                ..existing_item
                            },
                        );
                        return Ok(());
                    } else if existing_item.quantity == target_item.quantity {
                        self.items[i] = None;
                        return Ok(());
                    } else {
                        return Err(Status::ActionFail("attempting to remove too many items"));
                    }
                }
            }
            i = i + 1;
        }
        Err(Status::ActionFail("no such item in inventory"))
    }
}

/// An inventory has five slots.
pub broadcast proof fn lemma_slots_len(inv: BasicInventory)
    ensures
        #[trigger] inv.slots().len() == 5,
{
}

/// An item put into an inventory with a free slot can be taken back out of
/// the slot it went to, leaving the inventory as it was.
pub proof fn lemma_insert_then_remove_idx(before: Seq<Option<Item>>, item: Item, i: int)
    requires
        is_first_empty(before, i),
    ensures
        before.update(i, Some(item))[i] == Some(item),
        before.update(i, Some(item)).update(i, None) =~= before,
{
}

} // verus!
