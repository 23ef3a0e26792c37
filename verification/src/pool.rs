//! A pool of a fixed number of slots.

use vstd::prelude::*;

verus! {

/// A pool of `N` slots, each of which is in use or free.
pub struct Pool<const N: usize> {
    pub used: [bool; N],
}

/// The number of slots that are in use.
pub open spec fn used_count(used: Seq<bool>) -> nat
    decreases used.len(),
{
    if used.len() == 0 {
        0
    } else {
        used_count(used.drop_last()) + if used.last() {
            1nat
        } else {
            0nat
        }
    }
}

/// Whether `n` is the first free slot.
pub open spec fn first_free(used: Seq<bool>, n: int) -> bool {
    &&& 0 <= n < used.len()
    &&& !used[n]
    &&& forall|i: int| 0 <= i < n ==> used[i]
}

/// Whether every slot is in use.
pub open spec fn all_used(used: Seq<bool>) -> bool {
    forall|i: int| 0 <= i < used.len() ==> used[i]
}

impl<const N: usize> Pool<N> {
    /// A pool with every slot free.
    pub fn new() -> (pool: Self)
        ensures
            forall|i: int| 0 <= i < N ==> !pool.used@[i],
    {
        Pool { used: [false;N] }
    }

    /// Takes the first free slot into use.
    pub fn allocate(&mut self) -> (slot: Option<usize>)
        ensures
            match slot {
                Some(n) => {
                    &&& first_free(old(self).used@, n as int)
                    &&& final(self).used@ == old(self).used@.update(n as int, true)
                },
                None => {
                    &&& all_used(old(self).used@)
                    &&& final(self).used@ == old(self).used@
                },
            },
    {
        let mut n: usize = 0;
        while n < N
            invariant
                n <= N,
                *self == *old(self),
                forall|i: int| 0 <= i < n ==> self.used@[i],
            decreases N - n,
        {
            if !self.used[n] {
                self.used[n] = true;
                return Some(n);
            }
            n += 1;
        }
        None
    }

    /// Frees a slot that is in use.
    pub fn free(&mut self, n: usize)
        requires
            n < N,
            old(self).used@[n as int],
        ensures
            final(self).used@ == old(self).used@.update(n as int, false),
    {
        self.used[n] = false;
    }
}

/// Changing one slot changes the number of slots in use by that slot alone.
proof fn lemma_used_count_update(used: Seq<bool>, n: int, value: bool)
    requires
        0 <= n < used.len(),
    ensures
        used_count(used.update(n, value)) == used_count(used) - (if used[n] {
            1int
        } else {
            0
        }) + (if value {
            1int
        } else {
            0
        }),
    decreases used.len(),
{
    let changed = used.update(n, value);
    if n == used.len() - 1 {
        assert(changed.drop_last() =~= used.drop_last());
    } else {
        lemma_used_count_update(used.drop_last(), n, value);
        assert(changed.drop_last() =~= used.drop_last().update(n, value));
    }
}

/// No more slots are in use than there are, and all of them are exactly when that many are in
/// use: a pool of `N` slots serves `N` users at a time, and no more.
pub proof fn law_pool_serves_as_many_as_slots(used: Seq<bool>)
    ensures
        used_count(used) <= used.len(),
        all_used(used) <==> used_count(used) == used.len(),
    decreases used.len(),
{
    if used.len() > 0 {
        let rest = used.drop_last();
        law_pool_serves_as_many_as_slots(rest);
        if all_used(used) {
            assert forall|i: int| 0 <= i < rest.len() implies rest[i] by {
                assert(used[i]);
            }
        }
        if used_count(used) == used.len() {
            assert forall|i: int| 0 <= i < used.len() implies used[i] by {
                if i < rest.len() {
                    assert(rest[i]);
                }
            }
        }
    }
}

/// A new pool, in which every slot is free, has none in use.
pub proof fn law_new_pool_counts_none(used: Seq<bool>)
    requires
        forall|i: int| 0 <= i < used.len() ==> !used[i],
    ensures
        used_count(used) == 0,
    decreases used.len(),
{
    if used.len() > 0 {
        law_new_pool_counts_none(used.drop_last());
    }
}

/// Taking the first free slot into use makes the number of slots in use one larger.
pub proof fn law_allocate_counts(used: Seq<bool>, n: int)
    requires
        first_free(used, n),
    ensures
        used_count(used.update(n, true)) == used_count(used) + 1,
{
    lemma_used_count_update(used, n, true);
}

/// Freeing a slot that is in use makes the number of slots in use one smaller, and there is a
/// free slot afterwards.
pub proof fn law_free_counts(used: Seq<bool>, n: int)
    requires
        0 <= n < used.len(),
        used[n],
    ensures
        used_count(used.update(n, false)) == used_count(used) - 1,
        !all_used(used.update(n, false)),
{
    lemma_used_count_update(used, n, false);
    assert(!used.update(n, false)[n]);
}

/// A slot that was taken into use and then freed leaves the pool as it was, and is the next
/// one to be taken.
pub proof fn law_free_undoes_allocate(used: Seq<bool>, n: int)
    requires
        first_free(used, n),
    ensures
        used.update(n, true).update(n, false) == used,
        first_free(used.update(n, true).update(n, false), n),
{
    assert(used.update(n, true).update(n, false) =~= used);
}

/// Two slots that are in use at the same time are never the same: a slot that is taken into use
/// was not in use, and every slot in use stays in use.
pub proof fn law_allocate_is_exclusive(used: Seq<bool>, n: int, other: int)
    requires
        first_free(used, n),
        0 <= other < used.len(),
        used[other],
    ensures
        n != other,
        used.update(n, true)[other],
{
}

} // verus!
