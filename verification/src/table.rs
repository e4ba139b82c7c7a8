//! A slab table: a sequence of optional slots whose indices stay stable until
//! removed, and where a new element always takes the lowest free index.

use vstd::prelude::*;

verus! {

/// Number of occupied slots in a sequence of slots.
pub open spec fn occupied<T>(slots: Seq<Option<T>>) -> nat
    decreases slots.len(),
{
    if slots.len() == 0 {
        0
    } else {
        occupied(slots.drop_last()) + if slots.last() is Some {
            1nat
        } else {
            0nat
        }
    }
}

/// `index` is the lowest empty slot of `slots`, or its length when every slot
/// is occupied.
pub open spec fn is_next_free<T>(slots: Seq<Option<T>>, index: int) -> bool {
    &&& 0 <= index <= slots.len()
    &&& forall|j: int| 0 <= j < index ==> (#[trigger] slots[j]) is Some
    &&& index < slots.len() ==> slots[index] is None
}

/// The lowest empty slot of `slots`, or its length when every slot is
/// occupied.
pub open spec fn first_free<T>(slots: Seq<Option<T>>) -> int
    decreases slots.len(),
{
    if slots.len() == 0 {
        0
    } else if slots[0] is None {
        0
    } else {
        1 + first_free(slots.drop_first())
    }
}

/// `first_free` is the one index that `is_next_free` accepts.
pub proof fn lemma_first_free<T>(slots: Seq<Option<T>>)
    ensures
        is_next_free(slots, first_free(slots)),
    decreases slots.len(),
{
    if slots.len() > 0 && slots[0] is Some {
        let rest = slots.drop_first();
        lemma_first_free(rest);
        let index = first_free(slots);
        assert forall|j: int| 0 <= j < index implies (#[trigger] slots[j]) is Some by {
            if j > 0 {
                assert(rest[j - 1] is Some);
            }
        }
        if index < slots.len() {
            assert(slots[index] == rest[index - 1]);
        }
    }
}

/// The slots after an element was stored at the lowest free index.
pub open spec fn with_added<T>(slots: Seq<Option<T>>, index: int, element: T) -> Seq<Option<T>> {
    if index < slots.len() {
        slots.update(index, Some(element))
    } else {
        slots.push(Some(element))
    }
}

/// No more slots are occupied than there are.
pub proof fn lemma_occupied_bound<T>(slots: Seq<Option<T>>)
    ensures
        occupied(slots) <= slots.len(),
    decreases slots.len(),
{
    if slots.len() > 0 {
        lemma_occupied_bound(slots.drop_last());
    }
}

/// Replacing one slot changes the count by what the slot gains or loses.
pub proof fn lemma_occupied_update<T>(slots: Seq<Option<T>>, index: int, value: Option<T>)
    requires
        0 <= index < slots.len(),
    ensures
        occupied(slots.update(index, value)) + (if slots[index] is Some { 1int } else { 0int })
            == occupied(slots) + (if value is Some { 1int } else { 0int }),
    decreases slots.len(),
{
    let updated = slots.update(index, value);
    if index == slots.len() - 1 {
        assert(updated.drop_last() =~= slots.drop_last());
    } else {
        assert(updated.drop_last() =~= slots.drop_last().update(index, value));
        lemma_occupied_update(slots.drop_last(), index, value);
    }
}

/// A new slot at the end counts if it is occupied.
pub proof fn lemma_occupied_push<T>(slots: Seq<Option<T>>, value: Option<T>)
    ensures
        occupied(slots.push(value)) == occupied(slots) + (if value is Some { 1nat } else { 0nat }),
{
    assert(slots.push(value).drop_last() =~= slots);
}

/// When every slot is occupied the count equals the length.
pub proof fn lemma_occupied_full<T>(slots: Seq<Option<T>>)
    requires
        forall|j: int| 0 <= j < slots.len() ==> (#[trigger] slots[j]) is Some,
    ensures
        occupied(slots) == slots.len(),
    decreases slots.len(),
{
    if slots.len() > 0 {
        lemma_occupied_full(slots.drop_last());
    }
}

/// A table has exactly one next free index: whatever `next_free` reports is
/// the index that the following `add` returns.
pub proof fn lemma_next_free_unique<T>(slots: Seq<Option<T>>, first: int, second: int)
    requires
        is_next_free(slots, first),
        is_next_free(slots, second),
    ensures
        first == second,
{
    if first < second {
        assert(slots[first] is Some);
    } else if second < first {
        assert(slots[second] is Some);
    }
}

/// Adding an element raises the number of occupied slots by one and never
/// moves or drops another element.
pub proof fn lemma_added_counts<T>(slots: Seq<Option<T>>, index: int, element: T)
    requires
        is_next_free(slots, index),
    ensures
        occupied(with_added(slots, index, element)) == occupied(slots) + 1,
        with_added(slots, index, element)[index] == Some(element),
        forall|j: int|
            0 <= j < slots.len() && j != index ==> with_added(slots, index, element)[j] == slots[j],
{
    if index < slots.len() {
        lemma_occupied_update(slots, index, Some(element));
    } else {
        lemma_occupied_push(slots, Some(element));
    }
}

/// Emptying an occupied slot lowers the number of occupied slots by one, and
/// the freed index is at or above the next free index afterwards.
pub proof fn lemma_removed_counts<T>(slots: Seq<Option<T>>, index: int, next: int)
    requires
        0 <= index < slots.len(),
        slots[index] is Some,
        is_next_free(slots.update(index, None), next),
    ensures
        occupied(slots.update(index, None)) + 1 == occupied(slots),
        next <= index,
{
    lemma_occupied_update(slots, index, None);
    if index < next {
        assert(slots.update(index, None)[index] is Some);
    }
}

/// A slab of reusable slots with a live count.
pub struct Table<T> {
    items: Vec<Option<T>>,
    count: usize,
}

impl<T> View for Table<T> {
    type V = Seq<Option<T>>;

    closed spec fn view(&self) -> Seq<Option<T>> {
        self.items@
    }
}

impl<T> Table<T> {
    /// The live count equals the number of occupied slots.
    pub closed spec fn wf(&self) -> bool {
        self.count == occupied(self.items@)
    }

    pub fn new() -> (table: Self)
        ensures
            table.wf(),
            table@ == Seq::<Option<T>>::empty(),
    {
        Table { items: Vec::new(), count: 0 }
    }

    /// Number of occupied slots.
    pub fn len(&self) -> (n: usize)
        requires
            self.wf(),
        ensures
            n == occupied(self@),
    {
        self.count
    }

    pub fn is_empty(&self) -> (empty: bool)
        requires
            self.wf(),
        ensures
            empty <==> occupied(self@) == 0,
    {
        self.count == 0
    }

    /// Number of slots, occupied or not. Slots are never trimmed.
    pub fn slots(&self) -> (n: usize)
        ensures
            n == self@.len(),
    {
        self.items.len()
    }

    /// The index that the next `add` will return.
    pub fn next_free(&self) -> (index: usize)
        ensures
            is_next_free(self@, index as int),
    {
        let mut i: usize = 0;
        while i < self.items.len()
            invariant
                i <= self.items@.len(),
                forall|j: int| 0 <= j < i ==> (#[trigger] self.items@[j]) is Some,
            decreases self.items@.len() - i,
        {
            if self.items[i].is_none() {
                return i;
            }
            i += 1;
        }
        i
    }

    /// Stores `element` in the lowest empty slot, or in a new slot at the end
    /// when there is none, and returns the slot's index.
    pub fn add(&mut self, element: T) -> (index: usize)
        requires
            old(self).wf(),
        ensures
            final(self).wf(),
            is_next_free(old(self)@, index as int),
            final(self)@ == with_added(old(self)@, index as int, element),
    {
        let index = self.next_free();
        let ghost before = self.items@;
        if index < self.items.len() {
            self.items[index] = Some(element);
            proof {
                lemma_occupied_update(before, index as int, Some(element));
            }
        } else {
            self.items.push(Some(element));
            proof {
                lemma_occupied_full(before);
                lemma_occupied_push(before, Some(element));
            }
        }
        let slots = self.items.len();
        proof {
            lemma_occupied_bound(self.items@);
            assert(self.count < slots);
        }
        self.count = self.count + 1;
        index
    }

    /// Borrows the element at `index`. An empty or missing slot is a caller's
    /// error, which the precondition rules out.
    pub fn get(&self, index: usize) -> (element: &T)
        requires
            index < self@.len(),
            self@[index as int] is Some,
        ensures
            Some(*element) == self@[index as int],
    {
        self.items[index].as_ref().unwrap()
    }

    /// The element at `index`, if the slot exists and is occupied.
    pub fn find(&self, index: usize) -> (element: Option<&T>)
        ensures
            element is Some <==> index < self@.len() && self@[index as int] is Some,
            element matches Some(found) ==> Some(*found) == self@[index as int],
    {
        if index < self.items.len() {
            self.items[index].as_ref()
        } else {
            None
        }
    }

    /// Empties the slot at `index`. Fails when the index is out of range or
    /// the slot is already empty, and then changes nothing.
    pub fn remove(&mut self, index: usize) -> (result: Result<(), ()>)
        requires
            old(self).wf(),
        ensures
            final(self).wf(),
            result is Ok <==> index < old(self)@.len() && old(self)@[index as int] is Some,
            result is Ok ==> final(self)@ == old(self)@.update(index as int, None),
            result is Err ==> final(self)@ == old(self)@,
    {
        if index >= self.items.len() {
            return Err(());
        }
        if self.items[index].is_some() {
            proof {
                lemma_occupied_update(self.items@, index as int, None);
            }
            self.items[index] = None;
            self.count = self.count - 1;
            return Ok(());
        }
        Err(())
    }

    /// Moves the element at `index` out of the table, leaving the slot empty.
    pub fn take(&mut self, index: usize) -> (element: Option<T>)
        requires
            old(self).wf(),
        ensures
            final(self).wf(),
            element == if index < old(self)@.len() {
                old(self)@[index as int]
            } else {
                None
            },
            final(self)@ == if index < old(self)@.len() {
                old(self)@.update(index as int, None)
            } else {
                old(self)@
            },
    {
        if index >= self.items.len() {
            return None;
        }
        let ghost before = self.items@;
        proof {
            lemma_occupied_update(before, index as int, None);
        }
        let mut element: Option<T> = None;
        std::mem::swap(&mut element, &mut self.items[index]);
        if element.is_some() {
            self.count = self.count - 1;
        }
        assert(self.items@ =~= before.update(index as int, None));
        element
    }

    /// Stores `element` in the empty slot at `index`.
    pub fn put(&mut self, index: usize, element: T)
        requires
            old(self).wf(),
            index < old(self)@.len(),
            old(self)@[index as int] is None,
        ensures
            final(self).wf(),
            final(self)@ == old(self)@.update(index as int, Some(element)),
    {
        let ghost before = self.items@;
        self.items[index] = Some(element);
        let slots = self.items.len();
        proof {
            lemma_occupied_update(before, index as int, Some(element));
            lemma_occupied_bound(self.items@);
        }
        self.count = self.count + 1;
    }

    /// Runs `callback` on the element at `index`, if there is one, and says
    /// whether there was.
    pub fn exec<F: Fn(&T)>(&self, index: usize, callback: F) -> (found: bool)
        requires
            index < self@.len() && self@[index as int] is Some ==> call_requires(
                callback,
                (&self@[index as int]->0,),
            ),
        ensures
            found <==> index < self@.len() && self@[index as int] is Some,
            found ==> call_ensures(callback, (&self@[index as int]->0,), ()),
    {
        if index < self.items.len() {
            match &self.items[index] {
                Some(item) => {
                    callback(item);
                    true
                },
                None => false,
            }
        } else {
            false
        }
    }

    /// Keeps the elements for which `callback` answers `true` and empties the
    /// slots of the others. Returns the number of elements left.
    pub fn filter<F: Fn(&T) -> bool>(&mut self, callback: F) -> (left: usize)
        requires
            old(self).wf(),
            forall|i: int|
                0 <= i < old(self)@.len() && (#[trigger] old(self)@[i]) is Some ==> call_requires(
                    callback,
                    (&old(self)@[i]->0,),
                ),
        ensures
            final(self).wf(),
            left == occupied(final(self)@),
            filtered(old(self)@, final(self)@, callback),
    {
        let ghost before = self@;
        assert(before == self.items@);
        let mut i: usize = 0;
        while i < self.items.len()
            invariant
                i <= self.items@.len(),
                self.items@.len() == before.len(),
                self.count == occupied(self.items@),
                forall|j: int| i <= j < before.len() ==> self.items@[j] == before[j],
                forall|j: int| 0 <= j < i ==> filtered_slot(before[j], #[trigger] self.items@[j], callback),
                forall|j: int|
                    0 <= j < before.len() && (#[trigger] before[j]) is Some ==> call_requires(
                        callback,
                        (&before[j]->0,),
                    ),
            decreases self.items@.len() - i,
        {
            assert(self.items@[i as int] == before[i as int]);
            let keep = match &self.items[i] {
                Some(item) => callback(item),
                None => true,
            };
            if !keep {
                proof {
                    lemma_occupied_update(self.items@, i as int, None);
                }
                self.items[i] = None;
                self.count = self.count - 1;
            }
            i += 1;
        }
        self.count
    }
}

/// What `filter` does to one slot: an empty slot stays empty; an occupied one
/// is kept unchanged where the callback may answer `true` on it, and emptied
/// where it may answer `false`.
pub open spec fn filtered_slot<T, F: Fn(&T) -> bool>(
    before: Option<T>,
    after: Option<T>,
    callback: F,
) -> bool {
    match before {
        None => after is None,
        Some(item) => {
            ||| after == before && call_ensures(callback, (&item,), true)
            ||| after is None && call_ensures(callback, (&item,), false)
        },
    }
}

/// What `filter` does to the whole table, slot by slot.
pub open spec fn filtered<T, F: Fn(&T) -> bool>(
    before: Seq<Option<T>>,
    after: Seq<Option<T>>,
    callback: F,
) -> bool {
    &&& after.len() == before.len()
    &&& forall|i: int| 0 <= i < before.len() ==> filtered_slot(before[i], #[trigger] after[i], callback)
}

} // verus!
