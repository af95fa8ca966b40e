use mpc_lanes::engine::{fork2, fork3, fork4, fork5, fork8, fork2_lanes, fork3_lanes, fork4_lanes, fork5_lanes, fork8_lanes};
use mpc_lanes::net::{DummyNetwork, Network};
use mpc_lanes::pool::{Acquire, NetworkQueue};
use rayon::ThreadPoolBuilder;

fn pool() -> rayon::ThreadPool {
    ThreadPoolBuilder::new().num_threads(4).build().unwrap()
}

#[test]
fn forks_return_in_argument_order() {
    let p = pool();
    assert_eq!(fork2(&p, || 1, || "two"), (1, "two"));
    assert_eq!(fork3(&p, || 1, || 2, || 3), (1, 2, 3));
    assert_eq!(fork4(&p, || 'a', || 'b', || 'c', || 'd'), ('a', 'b', 'c', 'd'));
    assert_eq!(fork5(&p, || 1u8, || 2u16, || 3u32, || 4u64, || 5usize), (1, 2, 3, 4, 5));
    assert_eq!(
        fork8(&p, || 0, || 1, || 2, || 3, || 4, || 5, || 6, || 7),
        (0, 1, 2, 3, 4, 5, 6, 7)
    );
}

#[test]
fn lane_forks_see_their_own_lane() {
    let p = pool();
    let l: Vec<usize> = (10..18).collect();
    assert_eq!(fork2_lanes(&p, &l[0], &l[1], |n: &usize| *n, |n: &usize| *n + 100), (10, 111));
    assert_eq!(fork3_lanes(&p, &l[0], &l[1], &l[2], |n: &usize| *n, |n: &usize| *n, |n: &usize| *n), (10, 11, 12));
    assert_eq!(
        fork4_lanes(&p, &l[0], &l[1], &l[2], &l[3], |n: &usize| *n, |n: &usize| *n, |n: &usize| *n, |n: &usize| *n),
        (10, 11, 12, 13)
    );
    assert_eq!(
        fork5_lanes(&p, &l[0], &l[1], &l[2], &l[3], &l[4], |n: &usize| *n, |n: &usize| *n, |n: &usize| *n, |n: &usize| *n, |n: &usize| *n),
        (10, 11, 12, 13, 14)
    );
    assert_eq!(
        fork8_lanes(
            &p, &l[0], &l[1], &l[2], &l[3], &l[4], &l[5], &l[6], &l[7],
            |n: &usize| *n, |n: &usize| *n, |n: &usize| *n, |n: &usize| *n,
            |n: &usize| *n, |n: &usize| *n, |n: &usize| *n, |n: &usize| *n,
        ),
        (10, 11, 12, 13, 14, 15, 16, 17)
    );
}

#[test]
fn three_way_fan_out_returns_all_lanes() {
    let p = pool();
    let mut q = NetworkQueue::new(DummyNetwork::networks(4));
    let mut lanes = Vec::new();
    for _ in 0..3 {
        match q.pop() {
            Acquire::Ready(i, n) => lanes.push((i, n)),
            Acquire::Wait(_) => panic!("idle pool"),
        }
    }
    let r = fork3_lanes(
        &p,
        &lanes[0].1,
        &lanes[1].1,
        &lanes[2].1,
        |n: &DummyNetwork| n.recv(1).map(|v| v.len() + 1),
        |n: &DummyNetwork| n.send(0, b"x").map(|_| 2usize),
        |n: &DummyNetwork| Ok::<usize, mpc_lanes::error::TransportError>(n.id() + 3),
    );
    assert_eq!(r, (Ok(1), Ok(2), Ok(3)));
    for (i, n) in lanes {
        q.push(i, n);
    }
    for i in 0..4 {
        assert!(q.is_free(i));
    }
    assert_eq!(q.num(), 4);
}
