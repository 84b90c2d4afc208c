use rich_rs::loop_helpers::{loop_first, loop_first_last, loop_last};


#[test]
fn test_loop_first_empty() {
    let items: Vec<(bool, i32)> = loop_first(Vec::<i32>::new()).collect();
    assert!(items.is_empty());
}

#[test]
fn test_loop_first_singleton() {
    let items: Vec<(bool, i32)> = loop_first(vec![1]).collect();
    assert_eq!(items, vec![(true, 1)]);
}

#[test]
fn test_loop_first_multi() {
    let items: Vec<(bool, i32)> = loop_first(vec![1, 2, 3]).collect();
    assert_eq!(items, vec![(true, 1), (false, 2), (false, 3)]);
}

#[test]
fn test_loop_last_empty() {
    let items: Vec<(bool, i32)> = loop_last(Vec::<i32>::new()).collect();
    assert!(items.is_empty());
}

#[test]
fn test_loop_last_singleton() {
    let items: Vec<(bool, i32)> = loop_last(vec![1]).collect();
    assert_eq!(items, vec![(true, 1)]);
}

#[test]
fn test_loop_last_multi() {
    let items: Vec<(bool, i32)> = loop_last(vec![1, 2, 3]).collect();
    assert_eq!(items, vec![(false, 1), (false, 2), (true, 3)]);
}

#[test]
fn test_loop_first_last_empty() {
    let items: Vec<(bool, bool, i32)> = loop_first_last(Vec::<i32>::new()).collect();
    assert!(items.is_empty());
}

#[test]
fn test_loop_first_last_singleton() {
    let items: Vec<(bool, bool, i32)> = loop_first_last(vec![1]).collect();
    assert_eq!(items, vec![(true, true, 1)]);
}

#[test]
fn test_loop_first_last_multi() {
    let items: Vec<(bool, bool, i32)> = loop_first_last(vec![1, 2, 3]).collect();
    assert_eq!(
        items,
        vec![(true, false, 1), (false, false, 2), (false, true, 3)]
    );
}
