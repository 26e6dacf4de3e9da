//! The process-wide table of live runtime instances.
//!
//! The table holds no instance, only identities: one integer for each
//! instance that has been built and not yet torn down. Whoever shares the
//! table between threads guards it with a lock and calls [`LiveTable::insert`]
//! and [`LiveTable::remove`] under it; the lock orders those calls, and what
//! is proved here holds of every such order.

use vstd::prelude::*;

verus! {

/// A list of identities with every occurrence of `id` taken out, the others
/// in their order.
pub open spec fn without(ids: Seq<u64>, id: u64) -> Seq<u64>
    decreases ids.len(),
{
    if ids.len() == 0 {
        ids
    } else if ids.last() == id {
        without(ids.drop_last(), id)
    } else {
        without(ids.drop_last(), id).push(ids.last())
    }
}

/// A list of identities after each identity of `gone` has been taken out,
/// one after the other.
pub open spec fn without_all(ids: Seq<u64>, gone: Seq<u64>) -> Seq<u64>
    decreases gone.len(),
{
    if gone.len() == 0 {
        ids
    } else {
        without(without_all(ids, gone.drop_last()), gone.last())
    }
}

/// What taking an identity out leaves: exactly the other members, none of
/// them twice if none was before; the list is one shorter if the identity
/// was a member of a list without duplicates, and unchanged if it was none.
pub proof fn lemma_without(ids: Seq<u64>, id: u64)
    ensures
        forall|other: u64|
            #[trigger] without(ids, id).contains(other) <==> ids.contains(other) && other != id,
        without(ids, id).len() <= ids.len(),
        ids.no_duplicates() ==> without(ids, id).no_duplicates(),
        ids.no_duplicates() && ids.contains(id) ==> without(ids, id).len() == ids.len() - 1,
        !ids.contains(id) ==> without(ids, id) == ids,
    decreases ids.len(),
{
    if ids.len() > 0 {
        let front = ids.drop_last();
        let last = ids.last();
        lemma_without(front, id);
        let rest = without(front, id);
        assert(ids == front.push(last));
        assert forall|other: u64| ids.contains(other) <==> front.contains(other) || other
            == last by {
            if ids.contains(other) {
                let i = choose|i: int| 0 <= i < ids.len() && ids[i] == other;
                if i < front.len() {
                    assert(front[i] == other);
                }
            }
            if front.contains(other) {
                let i = choose|i: int| 0 <= i < front.len() && front[i] == other;
                assert(ids[i] == other);
            }
            if other == last {
                assert(ids[ids.len() - 1] == other);
            }
        }
        if last == id {
            if ids.no_duplicates() {
                assert(front.no_duplicates());
                assert(!front.contains(id)) by {
                    if front.contains(id) {
                        let i = choose|i: int| 0 <= i < front.len() && front[i] == id;
                        assert(ids[i] == ids[ids.len() - 1]);
                    }
                }
            }
        } else {
            let out = rest.push(last);
            assert forall|other: u64| out.contains(other) <==> rest.contains(other) || other
                == last by {
                if out.contains(other) {
                    let i = choose|i: int| 0 <= i < out.len() && out[i] == other;
                    if i < rest.len() {
                        assert(rest[i] == other);
                    }
                }
                if rest.contains(other) {
                    let i = choose|i: int| 0 <= i < rest.len() && rest[i] == other;
                    assert(out[i] == other);
                }
                if other == last {
                    assert(out[out.len() - 1] == other);
                }
            }
            if ids.no_duplicates() {
                assert(front.no_duplicates());
                assert(!front.contains(last)) by {
                    if front.contains(last) {
                        let i = choose|i: int| 0 <= i < front.len() && front[i] == last;
                        assert(ids[i] == ids[ids.len() - 1]);
                    }
                }
                assert(!rest.contains(last));
                assert(out.no_duplicates()) by {
                    assert forall|i: int, j: int|
                        0 <= i < out.len() && 0 <= j < out.len() && i != j implies out[i]
                        != out[j] by {
                        if i < rest.len() && j < rest.len() {
                        } else if i < rest.len() {
                            assert(rest.contains(rest[i]));
                        } else {
                            assert(rest.contains(rest[j]));
                        }
                    }
                }
                if ids.contains(id) {
                    assert(front.contains(id));
                }
            }
            if !ids.contains(id) {
                assert(!front.contains(id));
                assert(out == ids);
            }
        }
    }
}

/// Teardown is consistent: when every identity of `gone` is live and none is
/// named twice, taking them out, in the order given, leaves exactly the
/// live identities that `gone` does not name, and the list is shorter by
/// exactly the number of identities taken out. The result's members and
/// length do not depend on the order of `gone`.
pub proof fn lemma_teardown_consistency(ids: Seq<u64>, gone: Seq<u64>)
    requires
        ids.no_duplicates(),
        gone.no_duplicates(),
        forall|i: int| 0 <= i < gone.len() ==> ids.contains(#[trigger] gone[i]),
    ensures
        without_all(ids, gone).no_duplicates(),
        without_all(ids, gone).len() == ids.len() - gone.len(),
        forall|id: u64| #[trigger]
            without_all(ids, gone).contains(id) <==> ids.contains(id) && !gone.contains(id),
    decreases gone.len(),
{
    if gone.len() > 0 {
        let earlier = gone.drop_last();
        let last = gone.last();
        assert(earlier.no_duplicates());
        assert forall|i: int| 0 <= i < earlier.len() implies ids.contains(
            #[trigger] earlier[i],
        ) by {
            assert(earlier[i] == gone[i]);
        }
        lemma_teardown_consistency(ids, earlier);
        let left = without_all(ids, earlier);
        lemma_without(left, last);
        assert(!earlier.contains(last)) by {
            if earlier.contains(last) {
                let i = choose|i: int| 0 <= i < earlier.len() && earlier[i] == last;
                assert(gone[i] == gone[gone.len() - 1]);
            }
        }
        assert(ids.contains(gone[gone.len() - 1]));
        assert(left.contains(last));
        assert forall|id: u64| gone.contains(id) <==> earlier.contains(id) || id == last by {
            if gone.contains(id) {
                let i = choose|i: int| 0 <= i < gone.len() && gone[i] == id;
                if i < earlier.len() {
                    assert(earlier[i] == id);
                }
            }
            if earlier.contains(id) {
                let i = choose|i: int| 0 <= i < earlier.len() && earlier[i] == id;
                assert(gone[i] == id);
            }
            if id == last {
                assert(gone[gone.len() - 1] == id);
            }
        }
    }
}

/// The live-instance table: the identities of the runtime instances that
/// exist, in the order in which they were recorded.
pub struct LiveTable {
    ids: Vec<u64>,
    issued: u64,
}

impl LiveTable {
    /// The recorded identities, oldest first.
    pub closed spec fn view(&self) -> Seq<u64> {
        self.ids@
    }

    /// How many identities have been handed out so far, live or not.
    pub closed spec fn issued(&self) -> nat {
        self.issued as nat
    }

    /// No identity is recorded twice, and every recorded identity has been
    /// handed out.
    pub open spec fn wf(&self) -> bool {
        &&& self@.no_duplicates()
        &&& self.issued() <= u64::MAX
        &&& forall|i: int| 0 <= i < self@.len() ==> (#[trigger] self@[i]) < self.issued()
    }

    /// That `after` is this table once the fresh identity `id` has been
    /// recorded in it.
    pub open spec fn recorded(&self, id: u64, after: LiveTable) -> bool {
        &&& id == self.issued()
        &&& after@ == self@.push(id)
        &&& after.issued() == self.issued() + 1
    }

    /// That `after` is this table once `id` has been taken out of it.
    pub open spec fn erased(&self, id: u64, after: LiveTable) -> bool {
        &&& after@ == without(self@, id)
        &&& after.issued() == self.issued()
    }

    /// The empty table.
    pub fn new() -> (table: Self)
        ensures
            table.wf(),
            table@ == Seq::<u64>::empty(),
            table.issued() == 0,
    {
        LiveTable { ids: Vec::new(), issued: 0 }
    }

    /// The number of live instances.
    pub fn len(&self) -> (len: usize)
        ensures
            len == self@.len(),
    {
        self.ids.len()
    }

    /// Whether `id` is the identity of a live instance.
    pub fn contains(&self, id: u64) -> (found: bool)
        ensures
            found == self@.contains(id),
    {
        let mut index: usize = 0;
        while index < self.ids.len()
            invariant
                index <= self.ids@.len(),
                forall|i: int| 0 <= i < index ==> self.ids@[i] != id,
            decreases self.ids@.len() - index,
        {
            if self.ids[index] == id {
                return true;
            }
            index = index + 1;
        }
        false
    }

    /// Records a new instance and returns its identity, one that was never
    /// handed out before. Returns `None`, and leaves the table as it was,
    /// only when all `u64::MAX` identities have been handed out.
    pub fn insert(&mut self) -> (r: Option<u64>)
        requires
            old(self).wf(),
        ensures
            final(self).wf(),
            match r {
                Some(id) => old(self).recorded(id, *final(self)) && !old(self)@.contains(id),
                None => *final(self) == *old(self),
            },
            r is None <==> old(self).issued() == u64::MAX,
    {
        if self.issued == u64::MAX {
            return None;
        }
        let id: u64 = self.issued;
        self.ids.push(id);
        self.issued = id + 1;
        proof {
            let before = old(self)@;
            let after = self@;
            assert forall|i: int, j: int|
                0 <= i < after.len() && 0 <= j < after.len() && i != j implies after[i]
                != after[j] by {
                if i < before.len() {
                    assert(after[i] == before[i]);
                }
                if j < before.len() {
                    assert(after[j] == before[j]);
                }
            }
            assert forall|i: int| 0 <= i < after.len() implies (#[trigger] after[i])
                < self.issued() by {
                if i < before.len() {
                    assert(after[i] == before[i]);
                }
            }
        }
        Some(id)
    }

    /// Takes the identity `id` out of the table. Where it is not recorded,
    /// the table stays as it was: taking it out a second time is harmless.
    pub fn remove(&mut self, id: u64)
        requires
            old(self).wf(),
        ensures
            final(self).wf(),
            old(self).erased(id, *final(self)),
            !final(self)@.contains(id),
    {
        let mut kept: Vec<u64> = Vec::new();
        let mut index: usize = 0;
        while index < self.ids.len()
            invariant
                index <= self.ids@.len(),
                kept@ == without(self.ids@.take(index as int), id),
            decreases self.ids@.len() - index,
        {
            let current: u64 = self.ids[index];
            proof {
                let longer = self.ids@.take(index + 1);
                assert(longer.drop_last() == self.ids@.take(index as int));
                assert(longer.last() == current);
            }
            if current != id {
                kept.push(current);
            }
            index = index + 1;
        }
        proof {
            assert(self.ids@.take(index as int) == self.ids@);
            lemma_without(self.ids@, id);
            assert forall|i: int| 0 <= i < kept@.len() implies (#[trigger] kept@[i])
                < self.issued() by {
                assert(kept@.contains(kept@[i]));
                let other = kept@[i];
                let j = choose|j: int| 0 <= j < self.ids@.len() && self.ids@[j] == other;
                assert(self@[j] < self.issued());
            }
        }
        self.ids = kept;
    }
}

/// Two instances that are recorded in one table never share an identity,
/// whatever was recorded or taken out between them: identities are handed
/// out in rising order and never reused.
pub proof fn lemma_distinct_identities(
    first_before: LiveTable,
    first_after: LiveTable,
    second_before: LiveTable,
    second_after: LiveTable,
    first: u64,
    second: u64,
)
    requires
        first_before.recorded(first, first_after),
        first_after.issued() <= second_before.issued(),
        second_before.recorded(second, second_after),
    ensures
        first != second,
{
}

} // verus!
