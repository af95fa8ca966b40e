//! The lane pool: a ticket-ordered rotation over `L` slots.
//!
//! Every acquire draws the next ticket and asks for slot `ticket mod L`. The
//! pool is a plain state machine: it decides, and whoever shares it between
//! threads performs the waiting and the waking that the decisions call for.

use vstd::prelude::*;

verus! {

/// The mathematical state of a pool.
pub struct PoolState<T> {
    /// `Some(lane)` where the pool holds the lane of that slot, `None` where a
    /// caller holds it.
    pub slots: Seq<Option<T>>,
    /// How many callers wait for each slot.
    pub waiters: Seq<nat>,
    /// The ticket that the next acquire draws.
    pub next: nat,
}

/// One operation on the pool, for reasoning about sequences of calls.
pub enum PoolOp<T> {
    Acquire,
    Retake(usize),
    Release(usize, T),
    Insert(T),
    Remove,
}

/// What an acquire decided.
#[derive(Debug, PartialEq, Eq)]
pub enum Acquire<T> {
    /// The slot's lane was free: it is handed out.
    Ready(usize, T),
    /// The slot's lane is held elsewhere: the caller is registered as waiting
    /// for this slot and retakes it once woken.
    Wait(usize),
}

pub open spec fn state_wf<T>(s: PoolState<T>) -> bool {
    &&& s.waiters.len() == s.slots.len()
    &&& forall|i: int| 0 <= i < s.waiters.len() ==> #[trigger] s.waiters[i] <= s.next
}

/// The slot that the next acquire asks for.
pub open spec fn required_slot<T>(s: PoolState<T>) -> nat
    recommends
        s.slots.len() > 0,
{
    s.next % s.slots.len()
}

/// True where every slot holds its lane: no caller holds one.
pub open spec fn idle<T>(s: PoolState<T>) -> bool {
    forall|i: int| 0 <= i < s.slots.len() ==> (#[trigger] s.slots[i]) is Some
}

pub open spec fn acquire_step<T>(s: PoolState<T>) -> PoolState<T> {
    let i = required_slot(s) as int;
    if s.slots[i] is Some {
        PoolState { slots: s.slots.update(i, None), next: s.next + 1, ..s }
    } else {
        PoolState { waiters: s.waiters.update(i, s.waiters[i] + 1), next: s.next + 1, ..s }
    }
}

pub open spec fn retake_step<T>(s: PoolState<T>, slot: int) -> PoolState<T> {
    if 0 <= slot < s.slots.len() && s.slots[slot] is Some {
        let w = if s.waiters[slot] > 0 { (s.waiters[slot] - 1) as nat } else { 0 };
        PoolState { slots: s.slots.update(slot, None), waiters: s.waiters.update(slot, w), ..s }
    } else {
        s
    }
}

pub open spec fn release_step<T>(s: PoolState<T>, slot: int, lane: T) -> PoolState<T> {
    if 0 <= slot < s.slots.len() {
        PoolState { slots: s.slots.update(slot, Some(lane)), ..s }
    } else {
        s
    }
}

pub open spec fn insert_step<T>(s: PoolState<T>, lane: T) -> PoolState<T> {
    PoolState { slots: s.slots.push(Some(lane)), waiters: s.waiters.push(0), ..s }
}

/// Whether `remove` detaches a lane: the most recently added slot exists and
/// its lane is in the pool.
pub open spec fn can_remove<T>(s: PoolState<T>) -> bool {
    s.slots.len() > 0 && s.slots.last() is Some
}

pub open spec fn remove_step<T>(s: PoolState<T>) -> PoolState<T> {
    if can_remove(s) {
        PoolState { slots: s.slots.drop_last(), waiters: s.waiters.drop_last(), ..s }
    } else {
        s
    }
}

/// The state after one operation. An acquire on a pool without slots, or a
/// release or retake of a slot that does not exist, is not a call the exec
/// functions admit; here it leaves the state as it is.
pub open spec fn step<T>(s: PoolState<T>, op: PoolOp<T>) -> PoolState<T> {
    match op {
        PoolOp::Acquire => if s.slots.len() > 0 { acquire_step(s) } else { s },
        PoolOp::Retake(slot) => retake_step(s, slot as int),
        PoolOp::Release(slot, lane) => release_step(s, slot as int, lane),
        PoolOp::Insert(lane) => insert_step(s, lane),
        PoolOp::Remove => remove_step(s),
    }
}

/// The slot whose lane an operation hands out, if it hands one out.
pub open spec fn granted<T>(s: PoolState<T>, op: PoolOp<T>) -> Option<nat> {
    match op {
        PoolOp::Acquire => if s.slots.len() > 0 && s.slots[required_slot(s) as int] is Some {
            Some(required_slot(s))
        } else {
            None
        },
        PoolOp::Retake(slot) => if (slot as int) < s.slots.len() && s.slots[slot as int] is Some {
            Some(slot as nat)
        } else {
            None
        },
        _ => None,
    }
}

/// The result of an acquire from `s` says what the acquire did: it hands out
/// the required slot's lane, or names that slot as the one to wait for.
pub open spec fn acquire_reports<T>(s: PoolState<T>, r: Acquire<T>) -> bool {
    match r {
        Acquire::Ready(i, lane) => {
            &&& granted(s, PoolOp::Acquire) == Some(i as nat)
            &&& s.slots[i as int] == Some(lane)
        },
        Acquire::Wait(i) => {
            &&& granted(s, PoolOp::Acquire) is None
            &&& i == required_slot(s)
        },
    }
}

/// A pool of lanes handed out in ticket order.
pub struct NetworkQueue<T> {
    slots: Vec<Option<T>>,
    waiters: Vec<u64>,
    next_ticket: u64,
}

impl<T> View for NetworkQueue<T> {
    type V = PoolState<T>;

    closed spec fn view(&self) -> PoolState<T> {
        PoolState {
            slots: self.slots@,
            waiters: self.waiters@.map_values(|w: u64| w as nat),
            next: self.next_ticket as nat,
        }
    }
}

impl<T> NetworkQueue<T> {
    pub open spec fn wf(&self) -> bool {
        state_wf(self@)
    }

    /// A pool over `items`, the lane at index `i` in slot `i`, no ticket drawn.
    pub fn new(items: Vec<T>) -> (r: Self)
        ensures
            r.wf(),
            r@.slots == items@.map_values(|x: T| Some(x)),
            r@.waiters == Seq::new(items@.len(), |i: int| 0nat),
            r@.next == 0,
    {
        let ghost all = items@;
        let mut slots: Vec<Option<T>> = Vec::new();
        let mut waiters: Vec<u64> = Vec::new();
        let mut items = items;
        let mut rest: Vec<Option<T>> = Vec::new();
        // drain from the back, then lay the lanes out front to back
        while items.len() > 0
            invariant
                rest@.len() + items@.len() == all.len(),
                items@ == all.take(items@.len() as int),
                forall|k: int|
                    0 <= k < rest@.len() ==> #[trigger] rest@[k] == Some(
                        all[all.len() - 1 - k],
                    ),
            decreases items@.len(),
        {
            let x = items.pop().unwrap();
            rest.push(Some(x));
        }
        while rest.len() > 0
            invariant
                slots@.len() + rest@.len() == all.len(),
                waiters@.len() == slots@.len(),
                forall|k: int|
                    0 <= k < rest@.len() ==> #[trigger] rest@[k] == Some(
                        all[all.len() - 1 - k],
                    ),
                forall|k: int| 0 <= k < slots@.len() ==> #[trigger] slots@[k] == Some(all[k]),
                forall|k: int| 0 <= k < waiters@.len() ==> #[trigger] waiters@[k] == 0,
            decreases rest@.len(),
        {
            let x = rest.pop().unwrap();
            slots.push(x);
            waiters.push(0);
        }
        let r = NetworkQueue { slots, waiters, next_ticket: 0 };
        assert(r@.slots =~= all.map_values(|x: T| Some(x)));
        assert(r@.waiters =~= Seq::new(all.len(), |i: int| 0nat));
        r
    }

    /// The number of slots, `L`.
    pub fn num(&self) -> (r: usize)
        ensures
            r == self@.slots.len(),
    {
        self.slots.len()
    }

    /// The ticket that the next acquire draws.
    pub fn next_ticket(&self) -> (r: u64)
        ensures
            r == self@.next,
    {
        self.next_ticket
    }

    /// Whether the pool holds the lane of `slot` now.
    pub fn is_free(&self, slot: usize) -> (r: bool)
        ensures
            r == (slot < self@.slots.len() && self@.slots[slot as int] is Some),
    {
        slot < self.slots.len() && self.slots[slot].is_some()
    }

    /// Draws the next ticket and asks for slot `ticket mod L`. Where that
    /// slot's lane is free it is handed out; else the caller is registered as
    /// waiting for the slot.
    pub fn pop(&mut self) -> (r: Acquire<T>)
        requires
            old(self).wf(),
            old(self)@.slots.len() > 0,
            old(self)@.next < u64::MAX,
        ensures
            final(self).wf(),
            final(self)@ == step(old(self)@, PoolOp::Acquire),
            acquire_reports(old(self)@, r),
    {
        let ghost s = self@;
        let index = (self.next_ticket % (self.slots.len() as u64)) as usize;
        self.next_ticket = self.next_ticket + 1;
        let mut out: Option<T> = None;
        self.slots.set_and_swap(index, &mut out);
        let r = match out {
            Some(lane) => Acquire::Ready(index, lane),
            None => {
                let w = self.waiters[index];
                proof {
                    assert(s.waiters[index as int] <= s.next);
                }
                self.waiters.set(index, w + 1);
                Acquire::Wait(index)
            },
        };
        proof {
            assert(self@.waiters =~= step(s, PoolOp::Acquire).waiters);
            assert(self@.slots =~= step(s, PoolOp::Acquire).slots);
        }
        r
    }

    /// Takes the lane of `slot` for a caller that waited for it, if it is back.
    pub fn take(&mut self, slot: usize) -> (r: Option<T>)
        requires
            old(self).wf(),
            slot < old(self)@.slots.len(),
        ensures
            final(self).wf(),
            final(self)@ == step(old(self)@, PoolOp::Retake(slot)),
            r == old(self)@.slots[slot as int],
            granted(old(self)@, PoolOp::Retake(slot)) == (if r is Some {
                Some(slot as nat)
            } else {
                None
            }),
    {
        let ghost s = self@;
        let mut out: Option<T> = None;
        self.slots.set_and_swap(slot, &mut out);
        if out.is_some() {
            let w = self.waiters[slot];
            if w > 0 {
                self.waiters.set(slot, w - 1);
            }
        }
        proof {
            assert(self@.waiters =~= step(s, PoolOp::Retake(slot)).waiters);
            assert(self@.slots =~= step(s, PoolOp::Retake(slot)).slots);
        }
        out
    }

    /// Returns the lane of `slot`, which its caller holds, to the pool. The
    /// result tells whether callers wait for this slot and one is to be woken.
    pub fn push(&mut self, slot: usize, lane: T) -> (wake: bool)
        requires
            old(self).wf(),
            slot < old(self)@.slots.len(),
            (old(self)@.slots[slot as int] is None),
        ensures
            final(self).wf(),
            final(self)@ == step(old(self)@, PoolOp::Release(slot, lane)),
            wake == (old(self)@.waiters[slot as int] > 0),
    {
        let ghost s = self@;
        self.slots.set(slot, Some(lane));
        proof {
            assert(self@.slots =~= step(s, PoolOp::Release(slot, lane)).slots);
        }
        self.waiters[slot] > 0
    }

    /// Appends a lane at the next slot, `L`, so the rotation grows to `L + 1`.
    pub fn insert(&mut self, lane: T)
        requires
            old(self).wf(),
            old(self)@.slots.len() < usize::MAX,
        ensures
            final(self).wf(),
            final(self)@ == step(old(self)@, PoolOp::Insert(lane)),
    {
        let ghost s = self@;
        self.slots.push(Some(lane));
        self.waiters.push(0);
        proof {
            assert(self@.waiters =~= step(s, PoolOp::Insert(lane)).waiters);
            assert(self@.slots =~= step(s, PoolOp::Insert(lane)).slots);
        }
    }

    /// Detaches the most recently added lane, so the rotation shrinks to
    /// `L - 1`. Nothing changes, and the result is `None`, where the pool has
    /// no slot or a caller holds that lane.
    pub fn remove(&mut self) -> (r: Option<T>)
        requires
            old(self).wf(),
        ensures
            final(self).wf(),
            final(self)@ == step(old(self)@, PoolOp::Remove),
            r == (if can_remove(old(self)@) {
                old(self)@.slots.last()
            } else {
                None
            }),
    {
        let ghost s = self@;
        let n = self.slots.len();
        if n == 0 || self.slots[n - 1].is_none() {
            return None;
        }
        self.waiters.pop();
        let r = self.slots.pop().unwrap();
        proof {
            assert(self@.waiters =~= step(s, PoolOp::Remove).waiters);
            assert(self@.slots =~= step(s, PoolOp::Remove).slots);
        }
        r
    }
}

} // verus!
