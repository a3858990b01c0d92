use lessons::collections::{NumberDeque, NumberSet, ScoreBoard};

#[test]
fn alice_scores_fifty() {
    let mut scores = ScoreBoard::new();
    scores.insert(String::from("Alice"), 50);
    scores.insert(String::from("Bob"), 60);
    assert_eq!(scores.get("Alice"), Some(50));
    assert_eq!(scores.get("Bob"), Some(60));
    assert_eq!(scores.len(), 2);
}

#[test]
fn missing_name_yields_nothing() {
    let mut scores = ScoreBoard::new();
    scores.insert(String::from("Alice"), 50);
    assert_eq!(scores.get("Carol"), None);
}

#[test]
fn inserting_a_name_again_replaces_its_score() {
    let mut scores = ScoreBoard::new();
    scores.insert(String::from("Alice"), 50);
    scores.insert(String::from("Alice"), 70);
    assert_eq!(scores.get("Alice"), Some(70));
    assert_eq!(scores.len(), 1);
}

#[test]
fn duplicate_insertion_is_suppressed() {
    let mut set = NumberSet::new();
    set.insert(1);
    set.insert(2);
    set.insert(1);
    assert_eq!(set.len(), 2);
    assert!(set.contains(1));
    assert!(set.contains(2));
    assert!(!set.contains(3));
}

#[test]
fn second_insertion_reports_nothing_added() {
    let mut set = NumberSet::new();
    assert!(set.insert(1));
    assert!(!set.insert(1));
}

#[test]
fn deque_takes_both_ends() {
    let mut deque = NumberDeque::new();
    deque.push_back(1);
    deque.push_back(2);
    deque.push_front(0);
    assert_eq!(deque.len(), 3);
    assert_eq!(deque.pop_front(), Some(0));
    assert_eq!(deque.pop_front(), Some(1));
    assert_eq!(deque.pop_front(), Some(2));
    assert_eq!(deque.pop_front(), None);
}
