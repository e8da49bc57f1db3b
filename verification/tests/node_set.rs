use gossip_chat::identity::{NodeId, SecretKey};
use gossip_chat::node_set::NodeSet;
use std::collections::BTreeSet;

fn node(seed: u8) -> NodeId {
    SecretKey::from_bytes(&[seed; 32]).public()
}

#[test]
fn node_set_starts_empty() {
    let set = NodeSet::new();
    assert_eq!(set.len(), 0);
    assert!(!set.contains(&node(1)));
    assert!(set.to_vec().is_empty());
}

#[test]
fn node_set_insert_reports_new_members() {
    let mut set = NodeSet::new();
    assert!(set.insert(node(1)));
    assert!(!set.insert(node(1)));
    assert!(set.insert(node(2)));
    assert_eq!(set.len(), 2);
    assert!(set.contains(&node(1)) && set.contains(&node(2)) && !set.contains(&node(3)));
}

#[test]
fn node_set_remove_reports_members() {
    let mut set = NodeSet::new();
    set.insert(node(1));
    set.insert(node(2));
    assert!(set.remove(&node(1)));
    assert!(!set.remove(&node(1)));
    assert!(!set.remove(&node(9)));
    assert_eq!(set.to_vec(), vec![node(2)]);
}

#[test]
fn node_set_is_kept_in_the_order_of_the_keys() {
    let mut set = NodeSet::new();
    let mut expected = BTreeSet::new();
    for seed in [9u8, 3, 200, 3, 41, 0, 77, 9] {
        set.insert(node(seed));
        expected.insert(*node(seed).as_bytes());
    }
    let ours: Vec<[u8; 32]> = set.to_vec().iter().map(|id| *id.as_bytes()).collect();
    let theirs: Vec<[u8; 32]> = expected.into_iter().collect();
    assert_eq!(ours, theirs);
    for i in 0..set.len() {
        assert_eq!(set.get(i), Some(set.to_vec()[i]));
    }
    assert_eq!(set.get(set.len()), None);
}

#[test]
fn node_set_order_agrees_with_the_outside_key_order() {
    for a in 0..20u8 {
        for b in 0..20u8 {
            let ours = node(a).precedes(&node(b));
            let theirs = iroh_base::SecretKey::from_bytes(&[a; 32]).public()
                < iroh_base::SecretKey::from_bytes(&[b; 32]).public();
            assert_eq!(ours, theirs);
            assert_eq!(node(a).same(&node(b)), a == b);
        }
    }
}

#[test]
fn node_set_union_and_extend() {
    let mut a = NodeSet::new();
    a.insert(node(1));
    a.insert(node(2));
    let mut b = NodeSet::new();
    b.insert(node(2));
    b.insert(node(3));
    a.union_with(&b);
    assert_eq!(a.len(), 3);
    a.extend_from(&[node(3), node(4), node(4)]);
    assert_eq!(a.len(), 4);
    let copy = a.duplicate();
    assert_eq!(copy, a);
    assert_eq!(a.clone(), a);
}
