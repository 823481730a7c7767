use std::collections::{HashMap, HashSet};

use secret_santa::engine::{assign, find_recipient, rotation_pairs};

fn as_map(pairs: &[(i64, i64)]) -> HashMap<i64, i64> {
    let mut m = HashMap::new();
    for (g, r) in pairs {
        assert!(m.insert(*g, *r).is_none(), "gifter listed twice");
    }
    m
}

#[test]
fn rotation_pairs_exact() {
    let order = vec![5i64, 6, 7];
    let pairs = rotation_pairs(&order);
    assert_eq!(pairs, vec![(5, 6), (6, 7), (7, 5)]);
}

#[test]
fn rotation_pairs_two() {
    let order = vec![8i64, 3];
    let pairs = rotation_pairs(&order);
    assert_eq!(pairs, vec![(8, 3), (3, 8)]);
}

#[test]
fn two_ids_always_swap() {
    for _ in 0..32 {
        let ids = vec![10i64, 20];
        let pairs = assign(&ids);
        let m = as_map(&pairs);
        assert_eq!(m[&10], 20);
        assert_eq!(m[&20], 10);
    }
}

#[test]
fn assign_is_derangement() {
    let ids: Vec<i64> = vec![1, 2, 3, 4, 5, 6, 7];
    for _ in 0..16 {
        let pairs = assign(&ids);
        assert_eq!(pairs.len(), ids.len());
        let gifters: HashSet<i64> = pairs.iter().map(|p| p.0).collect();
        let recipients: HashSet<i64> = pairs.iter().map(|p| p.1).collect();
        let id_set: HashSet<i64> = ids.iter().copied().collect();
        assert_eq!(gifters, id_set);
        assert_eq!(recipients, id_set);
        for (g, r) in &pairs {
            assert_ne!(g, r, "somebody was assigned to gift themselves");
        }
    }
}

#[test]
fn assign_is_single_cycle() {
    let ids: Vec<i64> = vec![11, 22, 33, 44, 55];
    for _ in 0..16 {
        let pairs = assign(&ids);
        let m = as_map(&pairs);
        let start = ids[0];
        let mut current = start;
        let mut steps = 0usize;
        loop {
            current = m[&current];
            steps += 1;
            if current == start {
                break;
            }
            assert!(steps <= ids.len(), "walk did not close");
        }
        assert_eq!(steps, ids.len(), "recipient links do not form one full cycle");
    }
}

#[test]
fn find_recipient_present_and_absent() {
    let mapping = vec![(1i64, 2i64), (2, 3), (3, 1)];
    assert_eq!(find_recipient(&mapping, 2), Some(3));
    assert_eq!(find_recipient(&mapping, 3), Some(1));
    assert_eq!(find_recipient(&mapping, 9), None);
}
