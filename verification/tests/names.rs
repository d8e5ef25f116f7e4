use safe_vault::name::{NameSet, XorName};

fn name(byte: u8) -> XorName {
    XorName([byte; 32])
}

#[test]
fn names_are_compared_byte_by_byte() {
    let mut other = [4u8; 32];
    assert!(name(4).same(&XorName(other)));
    other[31] = 5;
    assert!(!name(4).same(&XorName(other)));
    assert_eq!(XorName::zero(), name(0));
}

#[test]
fn a_new_set_is_empty() {
    let set = NameSet::new();
    assert!(set.is_empty());
    assert_eq!(set.len(), 0);
    assert!(!set.contains(&name(1)));
    assert_eq!(set.to_list(), Vec::<XorName>::new());
}

#[test]
fn insert_keeps_the_order_and_refuses_what_is_there() {
    let mut set = NameSet::new();
    assert!(set.insert(name(3)));
    assert!(set.insert(name(1)));
    assert!(!set.insert(name(3)));
    assert!(set.insert(name(2)));
    assert_eq!(set.to_list(), vec![name(3), name(1), name(2)]);
    assert_eq!(set.len(), 3);
    assert_eq!(set.get(1), name(1));
    assert_eq!(set.position(&name(2)), Some(2));
    assert_eq!(set.position(&name(9)), None);
}

#[test]
fn remove_takes_one_name_out() {
    let mut set = NameSet::from_list(&vec![name(1), name(2), name(3)]);
    assert!(set.remove(&name(2)));
    assert!(!set.remove(&name(2)));
    assert_eq!(set.to_list(), vec![name(1), name(3)]);
    assert!(set.remove(&name(1)));
    assert!(set.remove(&name(3)));
    assert!(set.is_empty());
}

#[test]
fn from_list_keeps_first_occurrences() {
    let set = NameSet::from_list(&vec![name(2), name(1), name(2), name(3), name(1)]);
    assert_eq!(set.to_list(), vec![name(2), name(1), name(3)]);
    assert!(set.contains(&name(3)));
}

#[test]
fn duplicate_is_a_copy() {
    let set = NameSet::from_list(&vec![name(2), name(1)]);
    let mut copy = set.duplicate();
    assert_eq!(copy, set);
    assert!(copy.insert(name(7)));
    assert_eq!(set.len(), 2);
}
