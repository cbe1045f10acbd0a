use vstd::prelude::*;

verus! {

/// Hands out unique, strictly increasing 32-bit identities, seeded once at
/// construction from the highest identity already durable. An identity is
/// never handed out twice, even if the row it was allocated for is never
/// persisted: a lost id leaves a gap, it is not reassigned.
#[derive(Debug)]
pub struct IdAllocator {
    /// The next identity to hand out. Held as 64 bits so that exhaustion of
    /// the 32-bit id space is an explicit state, not a silent wrap.
    pub next: u64,
}

impl IdAllocator {
    /// Seed from `max(id)` observed over the existing rows (`0` when there
    /// are none): every identity handed out later strictly exceeds it.
    pub fn bootstrap(bootstrap_max: u32) -> (r: IdAllocator)
        ensures
            r.next == bootstrap_max + 1,
    {
        IdAllocator { next: bootstrap_max as u64 + 1 }
    }

    /// Allocate the next identity. `None` once the id space is exhausted; an
    /// exhausted allocator never hands out an identity again.
    pub fn allocate(&mut self) -> (r: Option<u32>)
        ensures
            old(self).next <= u32::MAX ==> (r matches Some(id) && id == old(self).next
                && final(self).next == old(self).next + 1),
            old(self).next > u32::MAX ==> r is None && final(self).next == old(self).next,
    {
        if self.next <= u32::MAX as u64 {
            let id = self.next as u32;
            self.next = self.next + 1;
            Some(id)
        } else {
            None
        }
    }
}

/// Id monotonicity: identities are handed out in strictly increasing order.
/// If one `allocate` call moves the allocator from `a0` to `a1` handing out
/// `id1`, and a later call moves it from `a2` to `a3` handing out `id2`, and
/// the allocator's counter never decreased in between, then `id2 > id1`.
pub proof fn lemma_id_monotonic(a0: IdAllocator, a1: IdAllocator, a2: IdAllocator, id1: u32, id2: u32)
    requires
        a0.next <= u32::MAX,
        id1 == a0.next,
        a1.next == a0.next + 1,
        a1.next <= a2.next,
        a2.next <= u32::MAX,
        id2 == a2.next,
    ensures
        id2 > id1,
{
}

} // verus!
