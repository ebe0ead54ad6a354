use crate::error::ErrorKind;
use vstd::prelude::*;

verus! {

/// Number of taken slots. A slot holds the sequence number of the call that
/// runs in it, or nothing.
pub open spec fn in_flight(slots: Seq<Option<u32>>) -> nat
    decreases slots.len(),
{
    if slots.len() == 0 {
        0
    } else {
        in_flight(slots.drop_last()) + if slots.last() is Some {
            1nat
        } else {
            0nat
        }
    }
}

/// Index of the first free slot at or after `start`, if there is one.
pub open spec fn first_free_from(slots: Seq<Option<u32>>, start: int) -> Option<int>
    decreases slots.len() - start,
{
    if start < 0 || start >= slots.len() {
        None
    } else if slots[start] is None {
        Some(start)
    } else {
        first_free_from(slots, start + 1)
    }
}

/// Index of the first free slot, if there is one.
pub open spec fn first_free(slots: Seq<Option<u32>>) -> Option<int> {
    first_free_from(slots, 0)
}

/// A pool with `size` slots, all free.
pub open spec fn empty_pool(size: nat) -> Seq<Option<u32>> {
    Seq::new(size, |i: int| None)
}

/// What asking for a slot gives.
pub struct Admission {
    /// The slots afterwards.
    pub slots: Seq<Option<u32>>,
    /// The slot that was taken, or nothing where none was free.
    pub slot: Option<int>,
}

/// Asking for a slot for the call with this sequence number: the first free
/// slot is taken; where none is free the pool stays as it is.
pub open spec fn spec_acquire(slots: Seq<Option<u32>>, sequence_no: u32) -> Admission {
    match first_free(slots) {
        Some(i) => Admission { slots: slots.update(i, Some(sequence_no)), slot: Some(i) },
        None => Admission { slots, slot: None },
    }
}

/// Giving a slot back. A number that names no slot changes nothing.
pub open spec fn spec_release(slots: Seq<Option<u32>>, slot: int) -> Seq<Option<u32>> {
    if 0 <= slot < slots.len() {
        slots.update(slot, None)
    } else {
        slots
    }
}

/// What a run of calls gives when none of them finishes in between.
pub struct Admissions {
    /// The slots after the last call.
    pub slots: Seq<Option<u32>>,
    /// For each call the slot it got, or nothing where it was turned away.
    pub outcomes: Seq<Option<int>>,
}

/// Asking for a slot for each of `calls` in turn, nothing being given back in
/// between.
pub open spec fn spec_acquire_all(slots: Seq<Option<u32>>, calls: Seq<u32>) -> Admissions
    decreases calls.len(),
{
    if calls.len() == 0 {
        Admissions { slots, outcomes: Seq::empty() }
    } else {
        let before = spec_acquire_all(slots, calls.drop_last());
        let last = spec_acquire(before.slots, calls.last());
        Admissions { slots: last.slots, outcomes: before.outcomes.push(last.slot) }
    }
}

proof fn lemma_first_free_from(slots: Seq<Option<u32>>, start: int)
    requires
        0 <= start,
    ensures
        match first_free_from(slots, start) {
            Some(i) => {
                &&& start <= i < slots.len()
                &&& slots[i] is None
                &&& forall|j: int| start <= j < i ==> slots[j] is Some
            },
            None => forall|j: int| start <= j < slots.len() ==> slots[j] is Some,
        },
    decreases slots.len() - start,
{
    if start < slots.len() && slots[start] is Some {
        lemma_first_free_from(slots, start + 1);
    }
}

/// The slot that is taken is free, no free slot precedes it, and none is taken
/// exactly when every slot is occupied.
pub proof fn lemma_first_free(slots: Seq<Option<u32>>)
    ensures
        match first_free(slots) {
            Some(i) => {
                &&& 0 <= i < slots.len()
                &&& slots[i] is None
                &&& forall|j: int| 0 <= j < i ==> slots[j] is Some
            },
            None => forall|j: int| 0 <= j < slots.len() ==> slots[j] is Some,
        },
{
    lemma_first_free_from(slots, 0);
}

/// There are never more calls in flight than the pool has slots, and there are
/// as many exactly when every slot is taken.
pub proof fn lemma_in_flight_bound(slots: Seq<Option<u32>>)
    ensures
        in_flight(slots) <= slots.len(),
        in_flight(slots) == slots.len() <==> forall|j: int|
            0 <= j < slots.len() ==> slots[j] is Some,
    decreases slots.len(),
{
    if slots.len() > 0 {
        let front = slots.drop_last();
        lemma_in_flight_bound(front);
        if in_flight(slots) == slots.len() {
            assert forall|j: int| 0 <= j < slots.len() implies slots[j] is Some by {
                if j < front.len() {
                    assert(front[j] is Some);
                }
            }
        }
        if forall|j: int| 0 <= j < slots.len() ==> slots[j] is Some {
            assert forall|j: int| 0 <= j < front.len() implies front[j] is Some by {
                assert(slots[j] is Some);
            }
        }
    }
}

/// Changing one slot changes the number of calls in flight by what that slot
/// gains or loses.
pub proof fn lemma_in_flight_update(slots: Seq<Option<u32>>, i: int, v: Option<u32>)
    requires
        0 <= i < slots.len(),
    ensures
        in_flight(slots.update(i, v)) + (if slots[i] is Some {
            1nat
        } else {
            0nat
        }) == in_flight(slots) + (if v is Some {
            1nat
        } else {
            0nat
        }),
    decreases slots.len(),
{
    let changed = slots.update(i, v);
    if i == slots.len() - 1 {
        assert(changed.drop_last() =~= slots.drop_last());
    } else {
        lemma_in_flight_update(slots.drop_last(), i, v);
        assert(changed.drop_last() =~= slots.drop_last().update(i, v));
    }
}

/// A call is admitted exactly when fewer calls are in flight than the pool has
/// slots. Admission raises the number in flight by one, rejection leaves the
/// pool as it was, and the number of slots never changes.
pub proof fn lemma_acquire(slots: Seq<Option<u32>>, sequence_no: u32)
    ensures
        spec_acquire(slots, sequence_no).slot is Some <==> in_flight(slots) < slots.len(),
        spec_acquire(slots, sequence_no).slots.len() == slots.len(),
        spec_acquire(slots, sequence_no).slot is Some ==> in_flight(
            spec_acquire(slots, sequence_no).slots,
        ) == in_flight(slots) + 1,
        spec_acquire(slots, sequence_no).slot is None ==> spec_acquire(slots, sequence_no).slots
            == slots,
        in_flight(spec_acquire(slots, sequence_no).slots) <= slots.len(),
{
    lemma_first_free(slots);
    lemma_in_flight_bound(slots);
    match first_free(slots) {
        Some(i) => {
            lemma_in_flight_update(slots, i, Some(sequence_no));
        },
        None => {},
    }
    lemma_in_flight_bound(spec_acquire(slots, sequence_no).slots);
}

/// Giving back a taken slot lowers the number of calls in flight by one.
pub proof fn lemma_release(slots: Seq<Option<u32>>, slot: int)
    requires
        0 <= slot < slots.len(),
        slots[slot] is Some,
    ensures
        in_flight(spec_release(slots, slot)) + 1 == in_flight(slots),
        spec_release(slots, slot).len() == slots.len(),
{
    lemma_in_flight_update(slots, slot, None);
}

/// The pool after the first `k` of `calls` were admitted to an empty pool of
/// `size` slots, one slot each in the order of the calls.
pub open spec fn filled(size: nat, calls: Seq<u32>, k: nat) -> Seq<Option<u32>> {
    Seq::new(
        size,
        |i: int|
            if i < k {
                Some(calls[i])
            } else {
                None
            },
    )
}

proof fn lemma_fill(size: nat, calls: Seq<u32>)
    requires
        calls.len() <= size,
    ensures
        spec_acquire_all(empty_pool(size), calls).slots == filled(size, calls, calls.len()),
        spec_acquire_all(empty_pool(size), calls).outcomes == Seq::new(
            calls.len(),
            |i: int| Some(i),
        ),
    decreases calls.len(),
{
    let done = spec_acquire_all(empty_pool(size), calls);
    if calls.len() == 0 {
        assert(done.slots =~= filled(size, calls, 0));
        assert(done.outcomes =~= Seq::new(0, |i: int| Some(i)));
    } else {
        let front = calls.drop_last();
        let k = front.len();
        lemma_fill(size, front);
        let before = spec_acquire_all(empty_pool(size), front);
        lemma_first_free(before.slots);
        assert(before.slots[k as int] is None);
        assert(first_free(before.slots) == Some(k as int));
        assert(done.slots =~= filled(size, calls, calls.len()));
        assert(done.outcomes =~= Seq::new(calls.len(), |i: int| Some(i)));
    }
}

/// Of one call more than a pool has slots, made to the empty pool with none
/// finishing in between, exactly the last is turned away: each of the others
/// gets a slot of its own, which then holds that call's sequence number.
pub proof fn lemma_one_more_than_slots(size: nat, calls: Seq<u32>)
    requires
        calls.len() == size + 1,
    ensures
        spec_acquire_all(empty_pool(size), calls).outcomes.len() == size + 1,
        forall|i: int|
            0 <= i < size ==> spec_acquire_all(empty_pool(size), calls).outcomes[i] == Some(i),
        spec_acquire_all(empty_pool(size), calls).outcomes[size as int] is None,
        spec_acquire_all(empty_pool(size), calls).slots.len() == size,
        forall|i: int|
            0 <= i < size ==> spec_acquire_all(empty_pool(size), calls).slots[i] == Some(
                calls[i],
            ),
        in_flight(spec_acquire_all(empty_pool(size), calls).slots) == size,
{
    let front = calls.drop_last();
    lemma_fill(size, front);
    let before = spec_acquire_all(empty_pool(size), front);
    lemma_first_free(before.slots);
    assert(first_free(before.slots) is None);
    let done = spec_acquire_all(empty_pool(size), calls);
    lemma_in_flight_bound(done.slots);
}

/// The slots of one pooled endpoint.
#[derive(Debug, PartialEq, Eq)]
pub struct TaskPool {
    slots: Vec<Option<u32>>,
}

impl View for TaskPool {
    type V = Seq<Option<u32>>;

    closed spec fn view(&self) -> Seq<Option<u32>> {
        self.slots@
    }
}

impl Clone for TaskPool {
    fn clone(&self) -> (copy: TaskPool)
        ensures
            copy@ == self@,
    {
        let len: usize = self.slots.len();
        let mut slots: Vec<Option<u32>> = Vec::new();
        let mut i: usize = 0;
        while i < len
            invariant
                i <= len,
                len == self.slots@.len(),
                slots@ == self.slots@.subrange(0, i as int),
            decreases len - i,
        {
            slots.push(self.slots[i]);
            i += 1;
            assert(slots@ =~= self.slots@.subrange(0, i as int));
        }
        assert(slots@ =~= self.slots@);
        TaskPool { slots }
    }
}

impl TaskPool {
    /// A pool of `pool_size` free slots.
    pub fn new(pool_size: u8) -> (pool: TaskPool)
        ensures
            pool@ == empty_pool(pool_size as nat),
    {
        let mut slots: Vec<Option<u32>> = Vec::new();
        let mut i: u8 = 0;
        while i < pool_size
            invariant
                i <= pool_size,
                slots@ == empty_pool(i as nat),
            decreases pool_size - i,
        {
            slots.push(None);
            i += 1;
            assert(slots@ =~= empty_pool(i as nat));
        }
        TaskPool { slots }
    }

    /// Number of slots.
    pub fn capacity(&self) -> (n: usize)
        ensures
            n == self@.len(),
    {
        self.slots.len()
    }

    /// Number of taken slots.
    pub fn in_flight(&self) -> (n: usize)
        ensures
            n == in_flight(self@),
    {
        let len: usize = self.slots.len();
        let mut n: usize = 0;
        let mut i: usize = 0;
        while i < len
            invariant
                i <= len,
                len == self.slots@.len(),
                n == in_flight(self.slots@.subrange(0, i as int)),
                n <= i,
            decreases len - i,
        {
            assert(self.slots@.subrange(0, i + 1).drop_last() =~= self.slots@.subrange(
                0,
                i as int,
            ));
            if self.slots[i].is_some() {
                n += 1;
            }
            i += 1;
        }
        assert(self.slots@.subrange(0, len as int) =~= self.slots@);
        n
    }

    /// Takes the first free slot for the call with this sequence number, or
    /// turns the call away at once where every slot is taken.
    pub fn acquire(&mut self, sequence_no: u32) -> (taken: Result<usize, ErrorKind>)
        ensures
            final(self)@ == spec_acquire(old(self)@, sequence_no).slots,
            final(self)@.len() == old(self)@.len(),
            match taken {
                Ok(i) => spec_acquire(old(self)@, sequence_no).slot == Some(i as int),
                Err(e) => e == ErrorKind::PoolExhausted && spec_acquire(
                    old(self)@,
                    sequence_no,
                ).slot is None,
            },
    {
        let len: usize = self.slots.len();
        let mut i: usize = 0;
        while i < len
            invariant
                i <= len,
                len == self.slots@.len(),
                self.slots@ == old(self).slots@,
                first_free(self.slots@) == first_free_from(self.slots@, i as int),
            decreases len - i,
        {
            if self.slots[i].is_none() {
                self.slots[i] = Some(sequence_no);
                return Ok(i);
            }
            i += 1;
        }
        Err(ErrorKind::PoolExhausted)
    }

    /// Frees a slot when its call has run to its end, and says which call held
    /// it.
    pub fn release(&mut self, slot: usize) -> (held: Option<u32>)
        ensures
            final(self)@ == spec_release(old(self)@, slot as int),
            final(self)@.len() == old(self)@.len(),
            held == if slot < old(self)@.len() {
                old(self)@[slot as int]
            } else {
                None
            },
    {
        if slot < self.slots.len() {
            let held = self.slots[slot];
            self.slots[slot] = None;
            held
        } else {
            None
        }
    }
}

} // verus!
