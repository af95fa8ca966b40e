use mpc_lanes::pool::{Acquire, NetworkQueue};

fn pool_of(names: &[&'static str]) -> NetworkQueue<&'static str> {
    NetworkQueue::new(names.to_vec())
}

#[test]
fn three_lane_scenario() {
    let mut q = pool_of(&["A", "B", "C"]);
    assert_eq!(q.pop(), Acquire::Ready(0, "A"));
    assert_eq!(q.pop(), Acquire::Ready(1, "B"));
    assert!(!q.push(0, "A"));
    assert_eq!(q.pop(), Acquire::Ready(2, "C"));
    assert_eq!(q.pop(), Acquire::Ready(0, "A"));
    assert_eq!(q.next_ticket(), 4);
}

#[test]
fn slots_follow_ticket_order() {
    let mut q = pool_of(&["a", "b", "c", "d"]);
    let mut slots = Vec::new();
    for _ in 0..10 {
        match q.pop() {
            Acquire::Ready(i, lane) => {
                slots.push(i);
                q.push(i, lane);
            }
            Acquire::Wait(_) => panic!("an idle pool serves at once"),
        }
    }
    assert_eq!(slots, vec![0, 1, 2, 3, 0, 1, 2, 3, 0, 1]);
}

#[test]
fn single_lane_pool_always_slot_zero() {
    let mut q = pool_of(&["only"]);
    for _ in 0..3 {
        assert_eq!(q.pop(), Acquire::Ready(0, "only"));
        q.push(0, "only");
    }
}

#[test]
fn held_slot_makes_the_caller_wait() {
    let mut q = pool_of(&["A", "B"]);
    assert_eq!(q.pop(), Acquire::Ready(0, "A"));
    assert_eq!(q.pop(), Acquire::Ready(1, "B"));
    // ticket 2 needs slot 0, which is held
    assert_eq!(q.pop(), Acquire::Wait(0));
    assert_eq!(q.take(0), None);
    // a release of slot 0 reports the waiter
    assert!(q.push(0, "A"));
    assert_eq!(q.take(0), Some("A"));
    // the waiter is gone: a later release wakes nobody
    assert!(!q.push(0, "A"));
}

#[test]
fn no_slot_is_issued_twice_while_held() {
    let mut q = pool_of(&["A", "B", "C"]);
    let mut held = Vec::new();
    for _ in 0..3 {
        if let Acquire::Ready(i, _) = q.pop() {
            assert!(!held.contains(&i));
            held.push(i);
        }
    }
    assert_eq!(held, vec![0, 1, 2]);
    for &i in &held {
        assert!(!q.is_free(i));
    }
    assert_eq!(q.pop(), Acquire::Wait(0));
}

#[test]
fn out_of_order_release_keeps_rotation() {
    let mut q = pool_of(&["A", "B", "C"]);
    let mut taken = Vec::new();
    for _ in 0..3 {
        if let Acquire::Ready(i, lane) = q.pop() {
            taken.push((i, lane));
        }
    }
    // return them in reverse and shuffled order
    q.push(2, "C");
    q.push(0, "A");
    q.push(1, "B");
    let mut slots = Vec::new();
    for _ in 0..3 {
        match q.pop() {
            Acquire::Ready(i, _) => slots.push(i),
            Acquire::Wait(_) => panic!("all lanes were returned"),
        }
    }
    assert_eq!(slots, vec![0, 1, 2]);
    assert_eq!(taken, vec![(0, "A"), (1, "B"), (2, "C")]);
}

#[test]
fn insert_yields_new_lane_exactly_once() {
    let mut q = pool_of(&["A", "B", "C"]);
    // move the rotation off slot zero first
    if let Acquire::Ready(i, lane) = q.pop() {
        q.push(i, lane);
    }
    q.insert("D");
    assert_eq!(q.num(), 4);
    let mut got = Vec::new();
    for _ in 0..4 {
        if let Acquire::Ready(_, lane) = q.pop() {
            got.push(lane);
        }
    }
    assert_eq!(got, vec!["B", "C", "D", "A"]);
    assert_eq!(got.iter().filter(|l| **l == "D").count(), 1);
}

#[test]
fn remove_shrinks_rotation() {
    let mut q = pool_of(&["A", "B", "C"]);
    assert_eq!(q.remove(), Some("C"));
    assert_eq!(q.num(), 2);
    let mut slots = Vec::new();
    for _ in 0..4 {
        if let Acquire::Ready(i, lane) = q.pop() {
            assert_ne!(lane, "C");
            slots.push(i);
            q.push(i, lane);
        }
    }
    assert_eq!(slots, vec![0, 1, 0, 1]);
}

#[test]
fn remove_of_held_or_empty_is_none() {
    let mut q = pool_of(&["A", "B"]);
    assert_eq!(q.pop(), Acquire::Ready(0, "A"));
    assert_eq!(q.pop(), Acquire::Ready(1, "B"));
    assert_eq!(q.remove(), None);
    assert_eq!(q.num(), 2);
    let mut e: NetworkQueue<u8> = NetworkQueue::new(Vec::new());
    assert_eq!(e.remove(), None);
    assert_eq!(e.num(), 0);
}
