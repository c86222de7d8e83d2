use cascade::mru_list::MruList;

fn listed(list: &MruList<u64>) -> Vec<u64> {
    list.iter().into_iter().copied().collect()
}

#[test]
fn new_list_is_empty() {
    let list: MruList<u64> = MruList::new();
    assert_eq!(list.len(), 0);
    assert_eq!(list.top(), None);
    assert!(list.iter().is_empty());
    assert_eq!(list.nth(0), None);
}

#[test]
fn push_makes_the_top() {
    let mut list = MruList::new();
    list.push(1u64);
    list.push(2);
    list.push(3);
    assert_eq!(list.top(), Some(&3));
    assert_eq!(listed(&list), vec![3, 2, 1]);
    assert_eq!(list.len(), 3);
}

#[test]
fn push_removes_an_earlier_occurrence() {
    let mut list = MruList::new();
    list.push(1u64);
    list.push(2);
    list.push(1);
    assert_eq!(listed(&list), vec![1, 2]);
    assert_eq!(list.len(), 2);
}

#[test]
fn push_bottom_makes_the_least_recent() {
    let mut list = MruList::new();
    list.push(1u64);
    list.push(2);
    list.push_bottom(3);
    assert_eq!(listed(&list), vec![2, 1, 3]);
    list.push_bottom(2);
    assert_eq!(listed(&list), vec![1, 3, 2]);
}

#[test]
fn promote_moves_to_the_top() {
    let mut list = MruList::new();
    list.push(1u64);
    list.push(2);
    list.push(3);
    assert!(list.contains(&1));
    list.promote(&1);
    assert_eq!(listed(&list), vec![1, 3, 2]);
    assert_eq!(list.position(&1), Some(2));
}

#[test]
fn remove_hands_the_item_back() {
    let mut list = MruList::new();
    list.push(1u64);
    list.push(2);
    assert_eq!(list.remove(&1), Some(1));
    assert_eq!(list.remove(&1), None);
    assert_eq!(listed(&list), vec![2]);
    assert!(!list.contains(&1));
}

#[test]
fn nth_counts_from_the_top() {
    let mut list = MruList::new();
    list.push(10u64);
    list.push(20);
    assert_eq!(list.nth(0), Some(&20));
    assert_eq!(list.nth(1), Some(&10));
    assert_eq!(list.nth(2), None);
}
