//! Parallel fan-out over a worker pool: `K` closures run as a balanced tree of
//! two-way joins, and their results come back in argument order. The lane
//! variants hand each closure its own lane.

use vstd::prelude::*;
use rayon::ThreadPool;

verus! {

#[verifier::external_type_specification]
#[verifier::external_body]
pub struct ExThreadPool(ThreadPool);

/// Relies on rayon's `ThreadPool::join`: it runs both closures in the pool,
/// each once, and returns both results in order.
pub assume_specification<A, B, RA, RB>[ ThreadPool::join::<A, B, RA, RB> ](
    pool: &ThreadPool,
    oper_a: A,
    oper_b: B,
) -> (r: (RA, RB))
    where
        A: FnOnce() -> RA + Send,
        B: FnOnce() -> RB + Send,
        RA: Send,
        RB: Send,
    requires
        oper_a.requires(()),
        oper_b.requires(()),
    ensures
        oper_a.ensures((), r.0),
        oper_b.ensures((), r.1),
;

/// Runs two closures in parallel on `pool`.
pub fn fork2<R0: Send, R1: Send, F0: FnOnce() -> R0 + Send, F1: FnOnce() -> R1 + Send>(
    pool: &ThreadPool,
    f0: F0,
    f1: F1,
) -> (r: (R0, R1))
    requires
        f0.requires(()),
        f1.requires(()),
    ensures
        f0.ensures((), r.0),
        f1.ensures((), r.1),
{
    pool.join(f0, f1)
}

/// Runs three closures in parallel on `pool`.
pub fn fork3<
    R0: Send,
    R1: Send,
    R2: Send,
    F0: FnOnce() -> R0 + Send,
    F1: FnOnce() -> R1 + Send,
    F2: FnOnce() -> R2 + Send,
>(pool: &ThreadPool, f0: F0, f1: F1, f2: F2) -> (r: (R0, R1, R2))
    requires
        f0.requires(()),
        f1.requires(()),
        f2.requires(()),
    ensures
        f0.ensures((), r.0),
        f1.ensures((), r.1),
        f2.ensures((), r.2),
{
    let rest = move || -> (r: (R1, R2))
        requires
            f1.requires(()),
            f2.requires(()),
        ensures
            f1.ensures((), r.0),
            f2.ensures((), r.1),
        { fork2(pool, f1, f2) };
    let (r0, (r1, r2)) = pool.join(f0, rest);
    (r0, r1, r2)
}

/// Runs four closures in parallel on `pool`, two on each side of the first
/// split.
pub fn fork4<
    R0: Send,
    R1: Send,
    R2: Send,
    R3: Send,
    F0: FnOnce() -> R0 + Send,
    F1: FnOnce() -> R1 + Send,
    F2: FnOnce() -> R2 + Send,
    F3: FnOnce() -> R3 + Send,
>(pool: &ThreadPool, f0: F0, f1: F1, f2: F2, f3: F3) -> (r: (R0, R1, R2, R3))
    requires
        f0.requires(()),
        f1.requires(()),
        f2.requires(()),
        f3.requires(()),
    ensures
        f0.ensures((), r.0),
        f1.ensures((), r.1),
        f2.ensures((), r.2),
        f3.ensures((), r.3),
{
    let left = move || -> (r: (R0, R1))
        requires
            f0.requires(()),
            f1.requires(()),
        ensures
            f0.ensures((), r.0),
            f1.ensures((), r.1),
        { fork2(pool, f0, f1) };
    let right = move || -> (r: (R2, R3))
        requires
            f2.requires(()),
            f3.requires(()),
        ensures
            f2.ensures((), r.0),
            f3.ensures((), r.1),
        { fork2(pool, f2, f3) };
    let ((r0, r1), (r2, r3)) = pool.join(left, right);
    (r0, r1, r2, r3)
}

/// Runs five closures in parallel on `pool`: two on the left of the first
/// split, three on the right.
pub fn fork5<
    R0: Send,
    R1: Send,
    R2: Send,
    R3: Send,
    R4: Send,
    F0: FnOnce() -> R0 + Send,
    F1: FnOnce() -> R1 + Send,
    F2: FnOnce() -> R2 + Send,
    F3: FnOnce() -> R3 + Send,
    F4: FnOnce() -> R4 + Send,
>(pool: &ThreadPool, f0: F0, f1: F1, f2: F2, f3: F3, f4: F4) -> (r: (R0, R1, R2, R3, R4))
    requires
        f0.requires(()),
        f1.requires(()),
        f2.requires(()),
        f3.requires(()),
        f4.requires(()),
    ensures
        f0.ensures((), r.0),
        f1.ensures((), r.1),
        f2.ensures((), r.2),
        f3.ensures((), r.3),
        f4.ensures((), r.4),
{
    let left = move || -> (r: (R0, R1))
        requires
            f0.requires(()),
            f1.requires(()),
        ensures
            f0.ensures((), r.0),
            f1.ensures((), r.1),
        { fork2(pool, f0, f1) };
    let right = move || -> (r: (R2, R3, R4))
        requires
            f2.requires(()),
            f3.requires(()),
            f4.requires(()),
        ensures
            f2.ensures((), r.0),
            f3.ensures((), r.1),
            f4.ensures((), r.2),
        { fork3(pool, f2, f3, f4) };
    let ((r0, r1), (r2, r3, r4)) = pool.join(left, right);
    (r0, r1, r2, r3, r4)
}

/// Runs eight closures in parallel on `pool`, four on each side of the first
/// split.
pub fn fork8<
    R0: Send,
    R1: Send,
    R2: Send,
    R3: Send,
    R4: Send,
    R5: Send,
    R6: Send,
    R7: Send,
    F0: FnOnce() -> R0 + Send,
    F1: FnOnce() -> R1 + Send,
    F2: FnOnce() -> R2 + Send,
    F3: FnOnce() -> R3 + Send,
    F4: FnOnce() -> R4 + Send,
    F5: FnOnce() -> R5 + Send,
    F6: FnOnce() -> R6 + Send,
    F7: FnOnce() -> R7 + Send,
>(
    pool: &ThreadPool,
    f0: F0,
    f1: F1,
    f2: F2,
    f3: F3,
    f4: F4,
    f5: F5,
    f6: F6,
    f7: F7,
) -> (r: (R0, R1, R2, R3, R4, R5, R6, R7))
    requires
        f0.requires(()),
        f1.requires(()),
        f2.requires(()),
        f3.requires(()),
        f4.requires(()),
        f5.requires(()),
        f6.requires(()),
        f7.requires(()),
    ensures
        f0.ensures((), r.0),
        f1.ensures((), r.1),
        f2.ensures((), r.2),
        f3.ensures((), r.3),
        f4.ensures((), r.4),
        f5.ensures((), r.5),
        f6.ensures((), r.6),
        f7.ensures((), r.7),
{
    let left = move || -> (r: (R0, R1, R2, R3))
        requires
            f0.requires(()),
            f1.requires(()),
            f2.requires(()),
            f3.requires(()),
        ensures
            f0.ensures((), r.0),
            f1.ensures((), r.1),
            f2.ensures((), r.2),
            f3.ensures((), r.3),
        { fork4(pool, f0, f1, f2, f3) };
    let right = move || -> (r: (R4, R5, R6, R7))
        requires
            f4.requires(()),
            f5.requires(()),
            f6.requires(()),
            f7.requires(()),
        ensures
            f4.ensures((), r.0),
            f5.ensures((), r.1),
            f6.ensures((), r.2),
            f7.ensures((), r.3),
        { fork4(pool, f4, f5, f6, f7) };
    let ((r0, r1, r2, r3), (r4, r5, r6, r7)) = pool.join(left, right);
    (r0, r1, r2, r3, r4, r5, r6, r7)
}

/// Runs two closures in parallel on `pool`, closure `i` on lane `n{i}`.
pub fn fork2_lanes<
    N: Sync,
    R0: Send,
    R1: Send,
    F0: FnOnce(&N) -> R0 + Send,
    F1: FnOnce(&N) -> R1 + Send,
>(pool: &ThreadPool, n0: &N, n1: &N, f0: F0, f1: F1) -> (r: (R0, R1))
    requires
        f0.requires((n0,)),
        f1.requires((n1,)),
    ensures
        f0.ensures((n0,), r.0),
        f1.ensures((n1,), r.1),
{
    let g0 = move || -> (r: R0)
        requires
            f0.requires((n0,)),
        ensures
            f0.ensures((n0,), r),
        { f0(n0) };
    let g1 = move || -> (r: R1)
        requires
            f1.requires((n1,)),
        ensures
            f1.ensures((n1,), r),
        { f1(n1) };
    fork2(pool, g0, g1)
}

/// Runs three closures in parallel on `pool`, closure `i` on lane `n{i}`.
pub fn fork3_lanes<
    N: Sync,
    R0: Send,
    R1: Send,
    R2: Send,
    F0: FnOnce(&N) -> R0 + Send,
    F1: FnOnce(&N) -> R1 + Send,
    F2: FnOnce(&N) -> R2 + Send,
>(pool: &ThreadPool, n0: &N, n1: &N, n2: &N, f0: F0, f1: F1, f2: F2) -> (r: (R0, R1, R2))
    requires
        f0.requires((n0,)),
        f1.requires((n1,)),
        f2.requires((n2,)),
    ensures
        f0.ensures((n0,), r.0),
        f1.ensures((n1,), r.1),
        f2.ensures((n2,), r.2),
{
    let g0 = move || -> (r: R0)
        requires
            f0.requires((n0,)),
        ensures
            f0.ensures((n0,), r),
        { f0(n0) };
    let g1 = move || -> (r: R1)
        requires
            f1.requires((n1,)),
        ensures
            f1.ensures((n1,), r),
        { f1(n1) };
    let g2 = move || -> (r: R2)
        requires
            f2.requires((n2,)),
        ensures
            f2.ensures((n2,), r),
        { f2(n2) };
    fork3(pool, g0, g1, g2)
}

/// Runs four closures in parallel on `pool`, closure `i` on lane `n{i}`.
pub fn fork4_lanes<
    N: Sync,
    R0: Send,
    R1: Send,
    R2: Send,
    R3: Send,
    F0: FnOnce(&N) -> R0 + Send,
    F1: FnOnce(&N) -> R1 + Send,
    F2: FnOnce(&N) -> R2 + Send,
    F3: FnOnce(&N) -> R3 + Send,
>(
    pool: &ThreadPool,
    n0: &N,
    n1: &N,
    n2: &N,
    n3: &N,
    f0: F0,
    f1: F1,
    f2: F2,
    f3: F3,
) -> (r: (R0, R1, R2, R3))
    requires
        f0.requires((n0,)),
        f1.requires((n1,)),
        f2.requires((n2,)),
        f3.requires((n3,)),
    ensures
        f0.ensures((n0,), r.0),
        f1.ensures((n1,), r.1),
        f2.ensures((n2,), r.2),
        f3.ensures((n3,), r.3),
{
    let g0 = move || -> (r: R0)
        requires
            f0.requires((n0,)),
        ensures
            f0.ensures((n0,), r),
        { f0(n0) };
    let g1 = move || -> (r: R1)
        requires
            f1.requires((n1,)),
        ensures
            f1.ensures((n1,), r),
        { f1(n1) };
    let g2 = move || -> (r: R2)
        requires
            f2.requires((n2,)),
        ensures
            f2.ensures((n2,), r),
        { f2(n2) };
    let g3 = move || -> (r: R3)
        requires
            f3.requires((n3,)),
        ensures
            f3.ensures((n3,), r),
        { f3(n3) };
    fork4(pool, g0, g1, g2, g3)
}

/// Runs five closures in parallel on `pool`, closure `i` on lane `n{i}`.
pub fn fork5_lanes<
    N: Sync,
    R0: Send,
    R1: Send,
    R2: Send,
    R3: Send,
    R4: Send,
    F0: FnOnce(&N) -> R0 + Send,
    F1: FnOnce(&N) -> R1 + Send,
    F2: FnOnce(&N) -> R2 + Send,
    F3: FnOnce(&N) -> R3 + Send,
    F4: FnOnce(&N) -> R4 + Send,
>(
    pool: &ThreadPool,
    n0: &N,
    n1: &N,
    n2: &N,
    n3: &N,
    n4: &N,
    f0: F0,
    f1: F1,
    f2: F2,
    f3: F3,
    f4: F4,
) -> (r: (R0, R1, R2, R3, R4))
    requires
        f0.requires((n0,)),
        f1.requires((n1,)),
        f2.requires((n2,)),
        f3.requires((n3,)),
        f4.requires((n4,)),
    ensures
        f0.ensures((n0,), r.0),
        f1.ensures((n1,), r.1),
        f2.ensures((n2,), r.2),
        f3.ensures((n3,), r.3),
        f4.ensures((n4,), r.4),
{
    let g0 = move || -> (r: R0)
        requires
            f0.requires((n0,)),
        ensures
            f0.ensures((n0,), r),
        { f0(n0) };
    let g1 = move || -> (r: R1)
        requires
            f1.requires((n1,)),
        ensures
            f1.ensures((n1,), r),
        { f1(n1) };
    let g2 = move || -> (r: R2)
        requires
            f2.requires((n2,)),
        ensures
            f2.ensures((n2,), r),
        { f2(n2) };
    let g3 = move || -> (r: R3)
        requires
            f3.requires((n3,)),
        ensures
            f3.ensures((n3,), r),
        { f3(n3) };
    let g4 = move || -> (r: R4)
        requires
            f4.requires((n4,)),
        ensures
            f4.ensures((n4,), r),
        { f4(n4) };
    fork5(pool, g0, g1, g2, g3, g4)
}

/// Runs eight closures in parallel on `pool`, closure `i` on lane `n{i}`.
pub fn fork8_lanes<
    N: Sync,
    R0: Send,
    R1: Send,
    R2: Send,
    R3: Send,
    R4: Send,
    R5: Send,
    R6: Send,
    R7: Send,
    F0: FnOnce(&N) -> R0 + Send,
    F1: FnOnce(&N) -> R1 + Send,
    F2: FnOnce(&N) -> R2 + Send,
    F3: FnOnce(&N) -> R3 + Send,
    F4: FnOnce(&N) -> R4 + Send,
    F5: FnOnce(&N) -> R5 + Send,
    F6: FnOnce(&N) -> R6 + Send,
    F7: FnOnce(&N) -> R7 + Send,
>(
    pool: &ThreadPool,
    n0: &N,
    n1: &N,
    n2: &N,
    n3: &N,
    n4: &N,
    n5: &N,
    n6: &N,
    n7: &N,
    f0: F0,
    f1: F1,
    f2: F2,
    f3: F3,
    f4: F4,
    f5: F5,
    f6: F6,
    f7: F7,
) -> (r: (R0, R1, R2, R3, R4, R5, R6, R7))
    requires
        f0.requires((n0,)),
        f1.requires((n1,)),
        f2.requires((n2,)),
        f3.requires((n3,)),
        f4.requires((n4,)),
        f5.requires((n5,)),
        f6.requires((n6,)),
        f7.requires((n7,)),
    ensures
        f0.ensures((n0,), r.0),
        f1.ensures((n1,), r.1),
        f2.ensures((n2,), r.2),
        f3.ensures((n3,), r.3),
        f4.ensures((n4,), r.4),
        f5.ensures((n5,), r.5),
        f6.ensures((n6,), r.6),
        f7.ensures((n7,), r.7),
{
    let g0 = move || -> (r: R0)
        requires
            f0.requires((n0,)),
        ensures
            f0.ensures((n0,), r),
        { f0(n0) };
    let g1 = move || -> (r: R1)
        requires
            f1.requires((n1,)),
        ensures
            f1.ensures((n1,), r),
        { f1(n1) };
    let g2 = move || -> (r: R2)
        requires
            f2.requires((n2,)),
        ensures
            f2.ensures((n2,), r),
        { f2(n2) };
    let g3 = move || -> (r: R3)
        requires
            f3.requires((n3,)),
        ensures
            f3.ensures((n3,), r),
        { f3(n3) };
    let g4 = move || -> (r: R4)
        requires
            f4.requires((n4,)),
        ensures
            f4.ensures((n4,), r),
        { f4(n4) };
    let g5 = move || -> (r: R5)
        requires
            f5.requires((n5,)),
        ensures
            f5.ensures((n5,), r),
        { f5(n5) };
    let g6 = move || -> (r: R6)
        requires
            f6.requires((n6,)),
        ensures
            f6.ensures((n6,), r),
        { f6(n6) };
    let g7 = move || -> (r: R7)
        requires
            f7.requires((n7,)),
        ensures
            f7.ensures((n7,), r),
        { f7(n7) };
    fork8(pool, g0, g1, g2, g3, g4, g5, g6, g7)
}

} // verus!
