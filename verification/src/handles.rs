//! A table of open handles, each with the path it was opened by, under small
//! non-negative ids.

use vstd::prelude::*;

verus! {

/// How many ids there are: 0 up to the largest `i32`.
const MAX_HANDLES: usize = 0x8000_0000;

/// The handles that are open. Its view maps the id of each to the handle and its
/// path.
pub struct HandleTable<T> {
    slots: Vec<Option<(T, String)>>,
}

impl<T> View for HandleTable<T> {
    type V = Map<i32, (T, Seq<char>)>;

    closed spec fn view(&self) -> Map<i32, (T, Seq<char>)> {
        Map::new(
            |id: i32| 0 <= id < self.slots@.len() && self.slots@[id as int] is Some,
            |id: i32| (self.slots@[id as int]->Some_0.0, self.slots@[id as int]->Some_0.1@),
        )
    }
}

/// Every id is taken.
pub open spec fn all_ids_taken<T>(table: Map<i32, (T, Seq<char>)>) -> bool {
    forall|id: i32| 0 <= id ==> #[trigger] table.contains_key(id)
}

/// `id` is the smallest that is not taken.
pub open spec fn is_first_free<T>(table: Map<i32, (T, Seq<char>)>, id: i32) -> bool {
    &&& 0 <= id
    &&& !table.contains_key(id)
    &&& forall|lower: i32| 0 <= lower < id ==> #[trigger] table.contains_key(lower)
}

/// Ids are not negative, and the paths that are recorded hold no NUL character.
pub open spec fn is_sound<T>(table: Map<i32, (T, Seq<char>)>) -> bool {
    forall|id: i32| #[trigger]
        table.contains_key(id) ==> 0 <= id && !table[id].1.contains('\0')
}

/// A sound table stays sound when a handle in it is exchanged for another.
pub proof fn lemma_other_handle_is_sound<T>(table: Map<i32, (T, Seq<char>)>, id: i32)
    requires
        is_sound(table),
    ensures
        table.contains_key(id) ==> forall|handle: T|
            is_sound(#[trigger] table.insert(id, (handle, table[id].1))),
{
}

/// The smallest id that is not taken, where there is one.
pub open spec fn first_free<T>(table: Map<i32, (T, Seq<char>)>) -> i32 {
    choose|id: i32| is_first_free(table, id)
}

/// At most one id is the smallest that is not taken.
pub proof fn lemma_first_free<T>(table: Map<i32, (T, Seq<char>)>, id: i32)
    requires
        is_first_free(table, id),
    ensures
        first_free(table) == id,
{
    let other = first_free(table);
    assert(is_first_free(table, other));
    if other < id {
        assert(table.contains_key(other));
    } else if id < other {
        assert(table.contains_key(id));
    }
}

/// A table that is not full has a smallest free id.
pub proof fn lemma_first_free_exists<T>(table: Map<i32, (T, Seq<char>)>)
    requires
        !all_ids_taken(table),
    ensures
        is_first_free(table, first_free(table)),
{
    let free = choose|id: i32| 0 <= id && !#[trigger] table.contains_key(id);
    lemma_first_free_below(table, free);
}

proof fn lemma_first_free_below<T>(table: Map<i32, (T, Seq<char>)>, free: i32)
    requires
        0 <= free,
        !table.contains_key(free),
    ensures
        exists|id: i32| is_first_free(table, id),
    decreases free,
{
    if !is_first_free(table, free) {
        let lower = choose|lower: i32| 0 <= lower < free && !#[trigger] table.contains_key(lower);
        lemma_first_free_below(table, lower);
    }
}

impl<T> HandleTable<T> {
    /// No more slots than ids.
    pub closed spec fn wf(&self) -> bool {
        self.slots@.len() <= MAX_HANDLES
    }

    /// A table with nothing in it.
    pub fn new() -> (r: Self)
        ensures
            r.wf(),
            r@ == Map::<i32, (T, Seq<char>)>::empty(),
    {
        let r = HandleTable { slots: Vec::new() };
        assert(r@ =~= Map::<i32, (T, Seq<char>)>::empty());
        r
    }

    /// The smallest index without a handle; one past the slots where all are taken.
    fn first_free(&self) -> (i: usize)
        ensures
            i <= self.slots@.len(),
            i < self.slots@.len() ==> self.slots@[i as int] is None,
            forall|k: int| 0 <= k < i ==> self.slots@[k] is Some,
    {
        let mut i: usize = 0;
        while i < self.slots.len() && self.slots[i].is_some()
            invariant
                i <= self.slots@.len(),
                forall|k: int| 0 <= k < i ==> self.slots@[k] is Some,
            decreases self.slots@.len() - i,
        {
            i += 1;
        }
        i
    }

    /// Whether every id is taken, so that nothing more can be added.
    pub fn is_full(&self) -> (r: bool)
        requires
            self.wf(),
        ensures
            r == all_ids_taken(self@),
    {
        let i = self.first_free();
        if i < MAX_HANDLES {
            assert(!self@.contains_key(i as i32));
            false
        } else {
            true
        }
    }

    /// Puts in a handle and its path under the smallest free id, and gives that id.
    pub fn add(&mut self, handle: T, path: String) -> (id: i32)
        requires
            old(self).wf(),
            !all_ids_taken(old(self)@),
        ensures
            final(self).wf(),
            is_first_free(old(self)@, id),
            id == first_free(old(self)@),
            final(self)@ == old(self)@.insert(id, (handle, path@)),
    {
        let i = self.first_free();
        proof {
            let free = choose|id: i32| 0 <= id && !#[trigger] self@.contains_key(id);
            if i >= MAX_HANDLES {
                assert(self.slots@[free as int] is Some);
            }
        }
        let id: i32 = i as i32;
        assert forall|lower: i32| 0 <= lower < id implies #[trigger] self@.contains_key(lower) by {
            assert(self.slots@[lower as int] is Some);
        }
        proof {
            lemma_first_free(self@, id);
        }
        if i < self.slots.len() {
            self.slots[i] = Some((handle, path));
        } else {
            self.slots.push(Some((handle, path)));
        }
        assert(self@ =~= old(self)@.insert(id, (handle, path@)));
        id
    }

    /// Takes out the handle with this id, if there is one.
    pub fn remove(&mut self, id: i32) -> (r: Option<(T, String)>)
        requires
            old(self).wf(),
        ensures
            final(self).wf(),
            final(self)@ == old(self)@.remove(id),
            match r {
                Some((handle, path)) => old(self)@.contains_key(id) && old(self)@[id] == (
                    handle,
                    path@,
                ),
                None => !old(self)@.contains_key(id),
            },
    {
        if 0 <= id && (id as usize) < self.slots.len() {
            let mut slot: Option<(T, String)> = None;
            std::mem::swap(&mut slot, &mut self.slots[id as usize]);
            assert(self@ =~= old(self)@.remove(id));
            slot
        } else {
            assert(self@ =~= old(self)@.remove(id));
            None
        }
    }

    /// The path of the handle with this id, if there is one.
    pub fn path(&self, id: i32) -> (r: Option<&String>)
        ensures
            match r {
                Some(path) => self@.contains_key(id) && self@[id].1 == path@,
                None => !self@.contains_key(id),
            },
    {
        if 0 <= id && (id as usize) < self.slots.len() {
            match &self.slots[id as usize] {
                Some(slot) => Some(&slot.1),
                None => None,
            }
        } else {
            None
        }
    }

    /// The handle with this id, if there is one, to work with and to change.
    pub fn get_mut(&mut self, id: i32) -> (r: Option<&mut T>)
        requires
            old(self).wf(),
        ensures
            final(self).wf(),
            match r {
                Some(handle) => {
                    &&& old(self)@.contains_key(id)
                    &&& *handle == old(self)@[id].0
                    &&& final(self)@ == old(self)@.insert(id, (*final(handle), old(self)@[id].1))
                },
                None => !old(self)@.contains_key(id) && final(self)@ == old(self)@,
            },
    {
        if 0 <= id && (id as usize) < self.slots.len() {
            match &mut self.slots[id as usize] {
                Some(slot) => Some(&mut slot.0),
                None => None,
            }
        } else {
            None
        }
    }
}

/// A table is full exactly where each number from 0 on is the id of a handle.
pub proof fn law_table_is_full_when_no_id_is_free<T>(table: Map<i32, (T, Seq<char>)>)
    ensures
        all_ids_taken(table) <==> !(exists|id: i32| 0 <= id && !#[trigger] table.contains_key(id)),
{
}

/// The id for the next handle is free, and every smaller one is taken.
pub proof fn law_next_id_is_the_smallest_free_one<T>(table: Map<i32, (T, Seq<char>)>)
    requires
        exists|id: i32| 0 <= id && !#[trigger] table.contains_key(id),
    ensures
        0 <= first_free(table),
        !table.contains_key(first_free(table)),
        forall|lower: i32|
            0 <= lower < first_free(table) ==> #[trigger] table.contains_key(lower),
{
    lemma_first_free_exists(table);
}

} // verus!
