//! What holds of the pool over sequences of calls.
//!
//! Each method of `NetworkQueue` ensures that its new view is `step` of its
//! old view under the matching `PoolOp`, and `granted` says which slot it
//! handed out. A sequence of calls on one pool is therefore a `run` over its
//! view, and the laws below hold of those calls.

use vstd::prelude::*;
use vstd::arithmetic::div_mod::{lemma_mod_equivalence, lemma_small_mod, lemma_fundamental_div_mod_converse};
use crate::pool::{PoolOp, PoolState, step, granted, required_slot, idle, insert_step, remove_step, state_wf};

verus! {

/// The state after `ops`, applied in order from `s`.
pub open spec fn run<T>(s: PoolState<T>, ops: Seq<PoolOp<T>>) -> PoolState<T>
    decreases ops.len(),
{
    if ops.len() == 0 {
        s
    } else {
        step(run(s, ops.drop_last()), ops.last())
    }
}

/// The slots that the acquires among `ops` ask for, in the order of the calls.
pub open spec fn acquired_slots<T>(s: PoolState<T>, ops: Seq<PoolOp<T>>) -> Seq<nat>
    decreases ops.len(),
{
    if ops.len() == 0 {
        Seq::empty()
    } else {
        let before = run(s, ops.drop_last());
        let prev = acquired_slots(s, ops.drop_last());
        if ops.last() is Acquire && before.slots.len() > 0 {
            prev.push(required_slot(before))
        } else {
            prev
        }
    }
}

/// No operation among `ops` changes the number of slots.
pub open spec fn fixed_membership<T>(ops: Seq<PoolOp<T>>) -> bool {
    forall|i: int| 0 <= i < ops.len() ==> !(#[trigger] ops[i] is Insert) && !(ops[i] is Remove)
}

/// The operation releases the lane of slot `x`.
pub open spec fn releases<T>(op: PoolOp<T>, x: nat) -> bool {
    match op {
        PoolOp::Release(slot, _) => slot as nat == x,
        _ => false,
    }
}

/// The slot that ticket `n + j` asks for in a rotation of `m` slots.
pub open spec fn turn_slot(n: nat, j: nat, m: nat) -> int {
    ((n + j) % m) as int
}

/// `k` acquires in a row.
pub open spec fn acquires<T>(k: nat) -> Seq<PoolOp<T>> {
    Seq::new(k, |i: int| PoolOp::Acquire)
}

proof fn lemma_run_take<T>(s: PoolState<T>, ops: Seq<PoolOp<T>>, k: int)
    requires
        0 <= k < ops.len(),
    ensures
        run(s, ops.take(k + 1)) == step(run(s, ops.take(k)), ops[k]),
{
    assert(ops.take(k + 1).drop_last() =~= ops.take(k));
}

/// Successive tickets ask for distinct slots within one turn of the rotation.
pub proof fn lemma_rotation_distinct(n: nat, j: nat, k: nat, m: nat)
    requires
        j < k < m,
    ensures
        (n + j) % m != (n + k) % m,
{
    lemma_mod_equivalence((n + k) as int, (n + j) as int, m as int);
    lemma_small_mod((k - j) as nat, m);
}

/// Round-robin order: whatever retakes and releases come between them, the
/// acquires of a pool of `L` slots ask for slots `ticket mod L`, the tickets
/// being consecutive from the pool's next ticket.
pub proof fn lemma_round_robin<T>(s: PoolState<T>, ops: Seq<PoolOp<T>>)
    requires
        s.slots.len() > 0,
        fixed_membership(ops),
    ensures
        run(s, ops).slots.len() == s.slots.len(),
        run(s, ops).next == s.next + acquired_slots(s, ops).len(),
        forall|k: int|
            0 <= k < acquired_slots(s, ops).len() ==> #[trigger] acquired_slots(s, ops)[k] == (
            s.next + k) % (s.slots.len() as int),
    decreases ops.len(),
{
    if ops.len() > 0 {
        let init = ops.drop_last();
        assert forall|i: int| 0 <= i < init.len() implies !(#[trigger] init[i] is Insert) && !(
        init[i] is Remove) by {
            assert(init[i] == ops[i]);
        }
        lemma_round_robin(s, init);
        assert(!(ops[ops.len() - 1] is Insert) && !(ops[ops.len() - 1] is Remove));
    }
}

proof fn lemma_slot_stays_held<T>(s: PoolState<T>, ops: Seq<PoolOp<T>>, a: int, x: nat, k: int)
    requires
        0 <= a < k <= ops.len(),
        granted(run(s, ops.take(a)), ops[a]) == Some(x),
        forall|i: int| a < i < k ==> !releases(#[trigger] ops[i], x),
    ensures
        x < run(s, ops.take(k)).slots.len(),
        run(s, ops.take(k)).slots[x as int] is None,
    decreases k - a,
{
    lemma_run_take(s, ops, k - 1);
    if k - 1 > a {
        lemma_slot_stays_held(s, ops, a, x, k - 1);
        assert(!releases(ops[k - 1], x));
    }
}

/// No double issue: once a slot's lane is handed out, the pool hands that slot
/// out again only after the lane was released.
pub proof fn lemma_no_double_issue<T>(s: PoolState<T>, ops: Seq<PoolOp<T>>, a: int, b: int, x: nat)
    requires
        0 <= a < b < ops.len(),
        granted(run(s, ops.take(a)), ops[a]) == Some(x),
        granted(run(s, ops.take(b)), ops[b]) == Some(x),
    ensures
        exists|k: int| a < k < b && releases(#[trigger] ops[k], x),
{
    if forall|i: int| a < i < b ==> !releases(#[trigger] ops[i], x) {
        lemma_slot_stays_held(s, ops, a, x, b);
    }
}

proof fn lemma_idle_acquires<T>(t: PoolState<T>, k: nat)
    requires
        idle(t),
        t.slots.len() > 0,
        k <= t.slots.len(),
    ensures
        run(t, acquires::<T>(k)).slots.len() == t.slots.len(),
        run(t, acquires::<T>(k)).next == t.next + k,
        forall|i: int|
            0 <= i < t.slots.len() ==> {
                ||| #[trigger] run(t, acquires::<T>(k)).slots[i] == t.slots[i]
                ||| exists|j: nat| j < k && #[trigger] turn_slot(t.next, j, t.slots.len()) == i
            },
        forall|j: nat|
            j < k ==> #[trigger] granted(run(t, acquires::<T>(j)), PoolOp::Acquire) == Some(
                ((t.next + j) % t.slots.len()) as nat,
            ),
    decreases k,
{
    let m = t.slots.len();
    if k > 0 {
        let j0 = (k - 1) as nat;
        lemma_idle_acquires(t, j0);
        let before = run(t, acquires::<T>(j0));
        assert(acquires::<T>(k).drop_last() =~= acquires::<T>(j0));
        let i0 = ((t.next + j0) % m) as int;
        assert(before.next == t.next + j0);
        assert(required_slot(before) == i0);
        if !(before.slots[i0] == t.slots[i0]) {
            let j = choose|j: nat| j < j0 && #[trigger] turn_slot(t.next, j, m) == i0;
            lemma_rotation_distinct(t.next, j, j0, m);
        }
        assert(before.slots[i0] is Some);
        assert forall|i: int| 0 <= i < m implies {
            ||| #[trigger] run(t, acquires::<T>(k)).slots[i] == t.slots[i]
            ||| exists|j: nat| j < k && #[trigger] turn_slot(t.next, j, m) == i
        } by {
            if i == i0 {
                assert(turn_slot(t.next, j0, m) == i);
            } else if !(before.slots[i] == t.slots[i]) {
                let j = choose|j: nat| j < j0 && #[trigger] turn_slot(t.next, j, m) == i;
                assert(j < k);
            }
        }
    }
}

/// Out-of-order release: releases in any order leave the rotation as it was;
/// once every lane is back, the next `L` acquires are each served at once, in
/// slots `ticket mod L`.
pub proof fn lemma_release_any_order<T>(s: PoolState<T>, rels: Seq<PoolOp<T>>)
    requires
        s.slots.len() > 0,
        forall|i: int| 0 <= i < rels.len() ==> #[trigger] rels[i] is Release,
    ensures
        run(s, rels).next == s.next,
        run(s, rels).slots.len() == s.slots.len(),
        run(s, rels).waiters == s.waiters,
        idle(run(s, rels)) ==> forall|k: nat|
            k < s.slots.len() ==> #[trigger] granted(
                run(run(s, rels), acquires::<T>(k)),
                PoolOp::Acquire,
            ) == Some(((s.next + k) % s.slots.len()) as nat),
    decreases rels.len(),
{
    if rels.len() > 0 {
        let init = rels.drop_last();
        assert forall|i: int| 0 <= i < init.len() implies #[trigger] init[i] is Release by {
            assert(init[i] == rels[i]);
        }
        lemma_release_any_order(s, init);
        assert(rels[rels.len() - 1] is Release);
    }
    if idle(run(s, rels)) {
        lemma_idle_acquires(run(s, rels), s.slots.len());
    }
}

/// Elastic growth: after `insert` on a pool whose lanes are all free, the
/// next `L + 1` acquires are each served at once, and exactly one of them
/// receives the new lane.
pub proof fn lemma_insert_then_rotate<T>(s: PoolState<T>, lane: T)
    requires
        idle(s),
    ensures
        ({
            let t = insert_step(s, lane);
            let m = s.slots.len() + 1;
            &&& t.slots.len() == m
            &&& forall|k: nat|
                k < m ==> #[trigger] granted(run(t, acquires::<T>(k)), PoolOp::Acquire) == Some(
                    ((t.next + k) % m) as nat,
                )
            &&& exists|k: nat|
                {
                    &&& k < m
                    &&& #[trigger] turn_slot(t.next, k, m) == s.slots.len()
                    &&& run(t, acquires::<T>(k)).slots[s.slots.len() as int] == Some(lane)
                    &&& forall|j: nat|
                        j < m && j != k ==> #[trigger] turn_slot(t.next, j, m) != s.slots.len()
                }
        }),
{
    let t = insert_step(s, lane);
    let m = s.slots.len() + 1;
    let l = s.slots.len() as int;
    assert(idle(t)) by {
        assert forall|i: int| 0 <= i < t.slots.len() implies (#[trigger] t.slots[i]) is Some by {
            if i < l {
                assert(t.slots[i] == s.slots[i]);
            }
        }
    }
    lemma_idle_acquires(t, m);
    let r = t.next % m;
    let k0 = (m - 1 - r) as nat;
    let q = (t.next / m) as int;
    vstd::arithmetic::div_mod::lemma_fundamental_div_mod(t.next as int, m as int);
    lemma_fundamental_div_mod_converse((t.next + k0) as int, m as int, q, l);
    assert(turn_slot(t.next, k0, m) == l);
    lemma_idle_acquires(t, k0);
    let before = run(t, acquires::<T>(k0));
    if !(before.slots[l] == t.slots[l]) {
        let j = choose|j: nat| j < k0 && #[trigger] turn_slot(t.next, j, m) == l;
        lemma_rotation_distinct(t.next, j, k0, m);
    }
    assert forall|j: nat| j < m && j != k0 implies #[trigger] turn_slot(t.next, j, m) != l by {
        if j < k0 {
            lemma_rotation_distinct(t.next, j, k0, m);
        } else {
            lemma_rotation_distinct(t.next, k0, j, m);
        }
    }
}

/// Elastic shrinking: `remove` on a pool whose lanes are all free detaches the
/// last slot's lane; from then on the acquires ask for slots `ticket mod (L - 1)`
/// and none of them asks for the removed slot.
pub proof fn lemma_remove_then_rotate<T>(s: PoolState<T>, ops: Seq<PoolOp<T>>)
    requires
        idle(s),
        s.slots.len() >= 2,
        fixed_membership(ops),
    ensures
        remove_step(s).slots == s.slots.drop_last(),
        forall|k: int|
            0 <= k < acquired_slots(remove_step(s), ops).len() ==> {
                &&& #[trigger] acquired_slots(remove_step(s), ops)[k] == (s.next + k) % (
                s.slots.len() - 1)
                &&& acquired_slots(remove_step(s), ops)[k] < s.slots.len() - 1
            },
{
    lemma_round_robin(remove_step(s), ops);
}

/// The releases that hand back, in acquisition order, the lanes that `k`
/// acquires took from the idle pool `s`.
pub open spec fn returns_of<T>(s: PoolState<T>, k: nat) -> Seq<PoolOp<T>> {
    Seq::new(
        k,
        |j: int|
            PoolOp::Release(
                turn_slot(s.next, j as nat, s.slots.len()) as usize,
                s.slots[turn_slot(s.next, j as nat, s.slots.len())]->0,
            ),
    )
}

proof fn lemma_returns_prefix<T>(s: PoolState<T>, k: nat, c: nat)
    requires
        idle(s),
        0 < s.slots.len() <= usize::MAX,
        k <= s.slots.len(),
        c <= k,
    ensures
        run(run(s, acquires::<T>(k)), returns_of(s, k).take(c as int)).slots.len() == s.slots.len(),
        run(run(s, acquires::<T>(k)), returns_of(s, k).take(c as int)).next == s.next + k,
        forall|i: int|
            0 <= i < s.slots.len() ==> {
                ||| #[trigger] run(run(s, acquires::<T>(k)), returns_of(s, k).take(c as int)).slots[i]
                    == s.slots[i]
                ||| exists|j: nat| c <= j < k && #[trigger] turn_slot(s.next, j, s.slots.len()) == i
            },
    decreases c,
{
    let m = s.slots.len();
    let t = run(s, acquires::<T>(k));
    lemma_idle_acquires(s, k);
    if c == 0 {
        assert(returns_of(s, k).take(0) =~= Seq::<PoolOp<T>>::empty());
    } else {
        let c0 = (c - 1) as nat;
        lemma_returns_prefix(s, k, c0);
        let ops = returns_of(s, k);
        lemma_run_take(t, ops, c0 as int);
        let before = run(t, ops.take(c0 as int));
        let x = turn_slot(s.next, c0, m);
        assert(0 <= x < m) by {
            assert(((s.next + c0) % m) < m);
        }
        assert(s.slots[x] is Some);
        assert(ops[c0 as int] == PoolOp::Release(x as usize, s.slots[x]->0));
        assert(before.slots.len() == m);
        let after = run(t, ops.take(c as int));
        assert(after == step(before, ops[c0 as int]));
        assert(after.slots == before.slots.update(x, Some(s.slots[x]->0)));
        assert forall|i: int|
            0 <= i < m implies {
            ||| #[trigger] run(t, ops.take(c as int)).slots[i] == s.slots[i]
            ||| exists|j: nat| c <= j < k && #[trigger] turn_slot(s.next, j, m) == i
        } by {
            if i == x {
                assert(after.slots[i] == s.slots[i]);
            } else if !(before.slots[i] == s.slots[i]) {
                let j = choose|j: nat| c0 <= j < k && #[trigger] turn_slot(s.next, j, m) == i;
                assert(j != c0);
            }
        }
    }
}

/// Fan-out leaves the pool as it found it: `k` acquires from a pool whose `L`
/// lanes are all free, `k <= L`, are each served at once, and releasing what
/// they took makes every lane free again, each in its own slot.
pub proof fn lemma_fan_out_restores<T>(s: PoolState<T>, k: nat)
    requires
        idle(s),
        0 < k <= s.slots.len(),
        s.slots.len() <= usize::MAX,
    ensures
        forall|j: nat|
            j < k ==> #[trigger] granted(run(s, acquires::<T>(j)), PoolOp::Acquire) == Some(
                turn_slot(s.next, j, s.slots.len()) as nat,
            ),
        run(run(s, acquires::<T>(k)), returns_of(s, k)).slots == s.slots,
        run(run(s, acquires::<T>(k)), returns_of(s, k)).next == s.next + k,
        idle(run(run(s, acquires::<T>(k)), returns_of(s, k))),
{
    lemma_idle_acquires(s, k);
    lemma_returns_prefix(s, k, k);
    assert(returns_of(s, k).take(k as int) =~= returns_of(s, k));
    assert(run(run(s, acquires::<T>(k)), returns_of(s, k)).slots =~= s.slots);
}

} // verus!
