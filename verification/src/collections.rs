//! Common collections: a unique-key mapping from names to scores, a
//! duplicate-suppressing set of numbers, and a double-ended queue.

use std::collections::VecDeque;
use vstd::hash_map::StringHashMap;
use vstd::hash_set::HashSetWithView;
use vstd::prelude::*;

verus! {

/// A mapping from names to numeric scores with unique keys; inserting
/// an existing key replaces its score.
pub struct ScoreBoard {
    scores: StringHashMap<i32>,
}

impl View for ScoreBoard {
    type V = Map<Seq<char>, i32>;

    closed spec fn view(&self) -> Map<Seq<char>, i32> {
        self.scores@
    }
}

impl ScoreBoard {
    /// Creates an empty score board.
    pub fn new() -> (r: Self)
        ensures
            r@ == Map::<Seq<char>, i32>::empty(),
    {
        ScoreBoard { scores: StringHashMap::new() }
    }

    /// Records a score under a name, replacing any previous score there.
    pub fn insert(&mut self, name: String, score: i32)
        ensures
            final(self)@ == old(self)@.insert(name@, score),
    {
        self.scores.insert(name, score);
    }

    /// Looks a name up: its score when present, nothing otherwise.
    pub fn get(&self, name: &str) -> (r: Option<i32>)
        ensures
            match r {
                Some(s) => self@.contains_key(name@) && s == self@[name@],
                None => !self@.contains_key(name@),
            },
    {
        match self.scores.get(name) {
            Some(s) => Some(*s),
            None => None,
        }
    }

    /// The number of names recorded.
    pub fn len(&self) -> (n: usize)
        ensures
            n == self@.len(),
    {
        self.scores.len()
    }
}

/// A set of numbers: a value inserted twice is present once.
pub struct NumberSet {
    items: HashSetWithView<i32>,
}

impl View for NumberSet {
    type V = Set<i32>;

    closed spec fn view(&self) -> Set<i32> {
        self.items@
    }
}

impl NumberSet {
    /// Creates an empty set.
    pub fn new() -> (r: Self)
        ensures
            r@ == Set::<i32>::empty(),
    {
        NumberSet { items: HashSetWithView::new() }
    }

    /// Inserts a value; duplicates are suppressed. Returns whether the
    /// value was newly added.
    pub fn insert(&mut self, n: i32) -> (added: bool)
        ensures
            final(self)@ == old(self)@.insert(n),
            added == !old(self)@.contains(n),
    {
        self.items.insert(n)
    }

    /// Whether the value is in the set.
    pub fn contains(&self, n: i32) -> (r: bool)
        ensures
            r == self@.contains(n),
    {
        self.items.contains(&n)
    }

    /// The number of distinct values held.
    pub fn len(&self) -> (n: usize)
        ensures
            n == self@.len(),
    {
        self.items.len()
    }
}

/// A double-ended queue of numbers, taking insertions at both ends.
pub struct NumberDeque {
    items: VecDeque<i32>,
}

impl View for NumberDeque {
    type V = Seq<i32>;

    closed spec fn view(&self) -> Seq<i32> {
        self.items@
    }
}

impl NumberDeque {
    /// Creates an empty deque.
    pub fn new() -> (r: Self)
        ensures
            r@ == Seq::<i32>::empty(),
    {
        NumberDeque { items: VecDeque::new() }
    }

    /// Appends a value at the back.
    pub fn push_back(&mut self, n: i32)
        ensures
            final(self)@ == old(self)@.push(n),
    {
        self.items.push_back(n);
    }

    /// Prepends a value at the front.
    pub fn push_front(&mut self, n: i32)
        ensures
            final(self)@ == seq![n] + old(self)@,
    {
        self.items.push_front(n);
    }

    /// Removes and returns the front value, when there is one.
    pub fn pop_front(&mut self) -> (r: Option<i32>)
        ensures
            match r {
                Some(x) => old(self)@.len() > 0 && x == old(self)@[0] && final(self)@ == old(
                    self,
                )@.subrange(1, old(self)@.len() as int),
                None => old(self)@.len() == 0 && final(self)@ == old(self)@,
            },
    {
        self.items.pop_front()
    }

    /// The number of values held.
    pub fn len(&self) -> (n: usize)
        ensures
            n == self@.len(),
    {
        self.items.len()
    }
}

} // verus!
