//! The scripted demonstration: a fixed run of operations on the three containers that keep
//! their elements in a row, with what each step leaves.

use std::collections::VecDeque;
use vstd::prelude::*;

verus! {

/// What the run on the growable array shows.
#[derive(Debug, PartialEq, Eq)]
pub struct ArrayDemo {
    /// The array as created.
    pub created: Vec<i32>,
    /// After 10, 20 and 30 were appended.
    pub pushed: Vec<i32>,
    /// The length then.
    pub length: usize,
    /// The element at index 1 then.
    pub second: i32,
    /// After 15 was inserted at index 1.
    pub inserted: Vec<i32>,
    /// The element that was then deleted from index 2.
    pub removed: i32,
    /// What is left.
    pub left: Vec<i32>,
}

/// What the run on the double-ended queue shows.
#[derive(Debug, PartialEq, Eq)]
pub struct DequeDemo {
    /// The queue as created.
    pub created: Vec<i32>,
    /// After 100 and 200 entered at the back.
    pub pushed_back: Vec<i32>,
    /// After 50 entered at the front.
    pub pushed_front: Vec<i32>,
    /// The element that then left at the front.
    pub popped: Option<i32>,
    /// What is left.
    pub left: Vec<i32>,
    /// The last element of what is left.
    pub back: Option<i32>,
}

/// What the run on the linked list shows.
#[derive(Debug, PartialEq, Eq)]
pub struct ListDemo {
    /// The list as created.
    pub created: Vec<i32>,
    /// After 5, 10 and 15 entered at the back.
    pub pushed_back: Vec<i32>,
    /// After 1 entered at the front.
    pub pushed_front: Vec<i32>,
    /// The element that then left at the front.
    pub popped: Option<i32>,
    /// What is left.
    pub left: Vec<i32>,
    /// The length of what is left.
    pub length: usize,
}

/// The elements of a double-ended queue from front to back.
fn snapshot(d: &VecDeque<i32>) -> (v: Vec<i32>)
    ensures
        v@ == d@,
{
    let n = d.len();
    let mut v: Vec<i32> = Vec::new();
    let mut i: usize = 0;
    while i < n
        invariant
            n == d@.len(),
            i <= n,
            v@ == d@.take(i as int),
        decreases n - i,
    {
        v.push(d[i]);
        assert(v@ =~= d@.take(i + 1));
        i += 1;
    }
    assert(d@.take(n as int) =~= d@);
    v
}

/// A copy of an array.
fn copy(a: &Vec<i32>) -> (v: Vec<i32>)
    ensures
        v@ == a@,
{
    let v = a.clone();
    assert(v@ =~= a@);
    v
}

/// Runs the demonstration on the growable array.
pub fn array_demo() -> (d: ArrayDemo)
    ensures
        d.created@ == Seq::<i32>::empty(),
        d.pushed@ == seq![10i32, 20, 30],
        d.length == 3,
        d.second == 20,
        d.inserted@ == seq![10i32, 15, 20, 30],
        d.removed == 20,
        d.left@ == seq![10i32, 15, 30],
{
    let mut a: Vec<i32> = Vec::new();
    let created = copy(&a);
    a.push(10);
    a.push(20);
    a.push(30);
    let pushed = copy(&a);
    let length = a.len();
    let second = a[1];
    a.insert(1, 15);
    let inserted = copy(&a);
    let removed = a.remove(2);
    let left = copy(&a);
    let d = ArrayDemo { created, pushed, length, second, inserted, removed, left };
    assert(d.pushed@ =~= seq![10i32, 20, 30]);
    assert(d.inserted@ =~= seq![10i32, 15, 20, 30]);
    assert(d.left@ =~= seq![10i32, 15, 30]);
    d
}

/// Runs the demonstration on the double-ended queue.
pub fn deque_demo() -> (d: DequeDemo)
    ensures
        d.created@ == Seq::<i32>::empty(),
        d.pushed_back@ == seq![100i32, 200],
        d.pushed_front@ == seq![50i32, 100, 200],
        d.popped == Some(50i32),
        d.left@ == seq![100i32, 200],
        d.back == Some(200i32),
{
    let mut q: VecDeque<i32> = VecDeque::new();
    let created = snapshot(&q);
    q.push_back(100);
    q.push_back(200);
    let pushed_back = snapshot(&q);
    q.push_front(50);
    let pushed_front = snapshot(&q);
    let popped = q.pop_front();
    let left = snapshot(&q);
    let back = if q.len() > 0 {
        Some(q[q.len() - 1])
    } else {
        None
    };
    let d = DequeDemo { created, pushed_back, pushed_front, popped, left, back };
    assert(d.pushed_back@ =~= seq![100i32, 200]);
    assert(d.pushed_front@ =~= seq![50i32, 100, 200]);
    assert(d.left@ =~= seq![100i32, 200]);
    d
}

/// Runs the demonstration on the linked list.
pub fn list_demo() -> (d: ListDemo)
    ensures
        d.created@ == Seq::<i32>::empty(),
        d.pushed_back@ == seq![5i32, 10, 15],
        d.pushed_front@ == seq![1i32, 5, 10, 15],
        d.popped == Some(1i32),
        d.left@ == seq![5i32, 10, 15],
        d.length == 3,
{
    let mut l: VecDeque<i32> = VecDeque::new();
    let created = snapshot(&l);
    l.push_back(5);
    l.push_back(10);
    l.push_back(15);
    let pushed_back = snapshot(&l);
    l.push_front(1);
    let pushed_front = snapshot(&l);
    let popped = l.pop_front();
    let left = snapshot(&l);
    let length = l.len();
    let d = ListDemo { created, pushed_back, pushed_front, popped, left, length };
    assert(d.pushed_back@ =~= seq![5i32, 10, 15]);
    assert(d.pushed_front@ =~= seq![1i32, 5, 10, 15]);
    assert(d.left@ =~= seq![5i32, 10, 15]);
    d
}

/// What the whole demonstration shows.
#[derive(Debug, PartialEq, Eq)]
pub struct SequencesDemo {
    pub array: ArrayDemo,
    pub deque: DequeDemo,
    pub list: ListDemo,
}

/// Runs the demonstration on the three containers, one after the other.
pub fn demo_sequences() -> (d: SequencesDemo)
    ensures
        d.array.created@ == Seq::<i32>::empty(),
        d.array.pushed@ == seq![10i32, 20, 30],
        d.array.length == 3,
        d.array.second == 20,
        d.array.inserted@ == seq![10i32, 15, 20, 30],
        d.array.removed == 20,
        d.array.left@ == seq![10i32, 15, 30],
        d.deque.created@ == Seq::<i32>::empty(),
        d.deque.pushed_back@ == seq![100i32, 200],
        d.deque.pushed_front@ == seq![50i32, 100, 200],
        d.deque.popped == Some(50i32),
        d.deque.left@ == seq![100i32, 200],
        d.deque.back == Some(200i32),
        d.list.created@ == Seq::<i32>::empty(),
        d.list.pushed_back@ == seq![5i32, 10, 15],
        d.list.pushed_front@ == seq![1i32, 5, 10, 15],
        d.list.popped == Some(1i32),
        d.list.left@ == seq![5i32, 10, 15],
        d.list.length == 3,
{
    SequencesDemo { array: array_demo(), deque: deque_demo(), list: list_demo() }
}

} // verus!
