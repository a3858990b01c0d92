use lessons::iterators::{
    chain_values, evens, evens_times_ten, greater_than, indexed_pairs, odd_squares_above, squares,
};
use lessons::vectors::{add_to_each, copy_range, set_element, with_suffix_each};

#[test]
fn exclusive_traversal_transforms_each_element_once() {
    let mut v = vec![1, 2, 3, 4, 5];
    add_to_each(&mut v, 10);
    assert_eq!(v, vec![11, 12, 13, 14, 15]);
}

#[test]
fn shared_traversal_leaves_source_unchanged() {
    let v = vec![1, 2, 3, 4, 5, 6];
    let kept = evens(&v);
    assert_eq!(kept, vec![2, 4, 6]);
    assert_eq!(v, vec![1, 2, 3, 4, 5, 6]);
}

#[test]
fn suffix_applied_to_every_text() {
    let v = vec![String::from("one"), String::from("two"), String::from("three")];
    let r = with_suffix_each(&v, " modified");
    assert_eq!(r, vec!["one modified", "two modified", "three modified"]);
    assert_eq!(v[0], "one");
}

#[test]
fn sub_range_copy() {
    let v = vec![10, 2, 3, 4, 5, 6];
    assert_eq!(copy_range(&v, 1, 4), vec![2, 3, 4]);
}

#[test]
fn element_overwrite() {
    let mut v = vec![1, 2, 3, 4, 5, 6];
    set_element(&mut v, 0, 10);
    assert_eq!(v, vec![10, 2, 3, 4, 5, 6]);
}

#[test]
fn squares_of_small_values() {
    let v = vec![1, 2, 3];
    assert_eq!(squares(&v), vec![1, 4, 9]);
}

#[test]
fn values_greater_than_three() {
    let v = vec![1, 2, 3, 4, 5, 6];
    assert_eq!(greater_than(&v, 3), vec![4, 5, 6]);
}

#[test]
fn chained_sequences() {
    let a = vec![1, 2, 3];
    let b = vec![4, 5, 6];
    assert_eq!(chain_values(&a, &b), vec![1, 2, 3, 4, 5, 6]);
}

#[test]
fn evens_scaled_by_ten() {
    let v = vec![1, 2, 3, 4, 5, 6];
    assert_eq!(evens_times_ten(&v), vec![20, 40, 60]);
}

#[test]
fn odd_squares_above_five() {
    let v = vec![1, 2, 3, 4, 5, 6];
    assert_eq!(odd_squares_above(&v, 5), vec![9, 25]);
}

#[test]
fn pairs_carry_indices() {
    let v = vec![7, 8, 9];
    assert_eq!(indexed_pairs(&v), vec![(0, 7), (1, 8), (2, 9)]);
}

#[test]
fn empty_sequence_pipelines() {
    let v: Vec<i32> = Vec::new();
    assert_eq!(squares(&v), Vec::<i32>::new());
    assert_eq!(evens(&v), Vec::<i32>::new());
    assert_eq!(odd_squares_above(&v, 0), Vec::<i32>::new());
}
