//! The editor of a priority structure: a binary max-heap of integers.

use crate::command::{read_value_argument, read_verb, value_argument, verb_of, Problem, Verb};
use crate::text::{split_words, words};
use vstd::multiset::Multiset;
use vstd::prelude::*;

verus! {

/// Whether `x` is a largest value of `m`: it occurs in `m`, and nothing in `m` exceeds it.
pub open spec fn is_max(x: i32, m: Multiset<i32>) -> bool {
    m.count(x) > 0 && forall|y: i32| m.count(y) > 0 ==> y <= x
}

/// The largest value of `m`, where `m` holds a value.
pub open spec fn max_of(m: Multiset<i32>) -> i32 {
    choose|x: i32| is_max(x, m)
}

/// Every multiset of integers that is not empty has a largest value.
pub proof fn lemma_max_exists(m: Multiset<i32>)
    requires
        m.len() > 0,
    ensures
        is_max(max_of(m), m),
    decreases m.len(),
{
    let a = m.choose();
    let rest = m.remove(a);
    if rest.len() == 0 {
        assert forall|y: i32| m.count(y) > 0 implies y <= a by {
            if y != a {
                assert(rest.count(y) > 0);
            }
        }
        assert(is_max(a, m));
    } else {
        lemma_max_exists(rest);
        let b = max_of(rest);
        let x = if a >= b {
            a
        } else {
            b
        };
        assert forall|y: i32| m.count(y) > 0 implies y <= x by {
            if y != a {
                assert(rest.count(y) > 0);
            }
        }
        assert(is_max(x, m));
    }
}

/// Whether each element of `s` but the first is at most its parent: the element at index
/// `(k - 1) / 2` is the parent of the one at `k`.
pub open spec fn heap_ordered(s: Seq<i32>) -> bool {
    forall|k: int| 0 < k < s.len() ==> s[(k - 1) / 2] >= #[trigger] s[k]
}

/// Whether each element of `s` but the first and the one at `i` is at most its parent, and
/// the children of `i` are at most the parent of `i`: what holds while the element at `i`
/// rises to its place.
pub open spec fn ordered_but_above(s: Seq<i32>, i: int) -> bool {
    &&& forall|k: int| 0 < k < s.len() && k != i ==> s[(k - 1) / 2] >= #[trigger] s[k]
    &&& forall|k: int|
        0 < k < s.len() && (k - 1) / 2 == i && i > 0 ==> s[(i - 1) / 2] >= #[trigger] s[k]
}

/// Whether each element of `s` but the first and the children of `i` is at most its parent,
/// and the children of `i` are at most the parent of `i`: what holds while the element at
/// `i` sinks to its place.
pub open spec fn ordered_but_below(s: Seq<i32>, i: int) -> bool {
    &&& forall|k: int| 0 < k < s.len() && (k - 1) / 2 != i ==> s[(k - 1) / 2] >= #[trigger] s[k]
    &&& forall|k: int|
        0 < k < s.len() && (k - 1) / 2 == i && i > 0 ==> s[(i - 1) / 2] >= #[trigger] s[k]
}

/// `s` with the elements at `i` and `j` exchanged.
pub open spec fn swapped(s: Seq<i32>, i: int, j: int) -> Seq<i32> {
    s.update(i, s[j]).update(j, s[i])
}

/// An exchange of two elements keeps what a sequence holds.
pub proof fn lemma_swap_keeps_values(s: Seq<i32>, i: int, j: int)
    requires
        0 <= i < s.len(),
        0 <= j < s.len(),
    ensures
        swapped(s, i, j).to_multiset() == s.to_multiset(),
{
    broadcast use vstd::seq_lib::group_to_multiset_ensures;

    vstd::seq_lib::to_multiset_update(s, i, s[j]);
    vstd::seq_lib::to_multiset_update(s.update(i, s[j]), j, s[i]);
    assert(s.to_multiset().count(s[i]) > 0) by {
        assert(s.contains(s[i]));
    }
    assert(s.to_multiset().count(s[j]) > 0) by {
        assert(s.contains(s[j]));
    }
    assert(swapped(s, i, j).to_multiset() =~= s.to_multiset());
}

/// In a heap the first element is at least every element.
pub proof fn lemma_first_is_largest(s: Seq<i32>, i: int)
    requires
        heap_ordered(s),
        0 <= i < s.len(),
    ensures
        s[0] >= s[i],
    decreases i,
{
    if i > 0 {
        lemma_first_is_largest(s, (i - 1) / 2);
    }
}

/// The first element of a non-empty heap is the largest value that it holds.
pub proof fn lemma_first_is_max(s: Seq<i32>)
    requires
        heap_ordered(s),
        s.len() > 0,
    ensures
        is_max(s[0], s.to_multiset()),
        max_of(s.to_multiset()) == s[0],
{
    broadcast use vstd::seq_lib::group_to_multiset_ensures;

    assert(s.contains(s[0]));
    assert forall|y: i32| s.to_multiset().count(y) > 0 implies y <= s[0] by {
        assert(s.contains(y));
        let i = choose|i: int| 0 <= i < s.len() && s[i] == y;
        lemma_first_is_largest(s, i);
    }
    assert(is_max(s[0], s.to_multiset()));
    assert(is_max(max_of(s.to_multiset()), s.to_multiset()));
}

/// Exchanges the elements at `i` and `j`.
fn swap(v: &mut Vec<i32>, i: usize, j: usize)
    requires
        i < old(v).len(),
        j < old(v).len(),
    ensures
        final(v)@ == swapped(old(v)@, i as int, j as int),
{
    let a = v[i];
    let b = v[j];
    v.set(i, b);
    v.set(j, a);
}

/// Lets the element at `start` rise until its parent is at least as large.
fn sift_up(v: &mut Vec<i32>, start: usize)
    requires
        start < old(v).len(),
        ordered_but_above(old(v)@, start as int),
    ensures
        heap_ordered(final(v)@),
        final(v)@.to_multiset() == old(v)@.to_multiset(),
        final(v)@.len() == old(v)@.len(),
{
    let mut i = start;
    while i > 0
        invariant
            i < v.len(),
            v.len() == old(v).len(),
            ordered_but_above(v@, i as int),
            v@.to_multiset() == old(v)@.to_multiset(),
        ensures
            heap_ordered(v@),
            v.len() == old(v).len(),
            v@.to_multiset() == old(v)@.to_multiset(),
        decreases i,
    {
        let p = (i - 1) / 2;
        if v[p] >= v[i] {
            break;
        }
        proof {
            lemma_swap_keeps_values(v@, i as int, p as int);
        }
        swap(v, i, p);
        i = p;
    }
}

/// Lets the element at `start` sink until both its children are at most as large.
fn sift_down(v: &mut Vec<i32>, start: usize)
    requires
        start < old(v).len(),
        ordered_but_below(old(v)@, start as int),
    ensures
        heap_ordered(final(v)@),
        final(v)@.to_multiset() == old(v)@.to_multiset(),
        final(v)@.len() == old(v)@.len(),
{
    let n = v.len();
    let mut i = start;
    while i < n / 2
        invariant
            n == v.len(),
            n == old(v).len(),
            i < n,
            ordered_but_below(v@, i as int),
            v@.to_multiset() == old(v)@.to_multiset(),
        ensures
            heap_ordered(v@),
            n == v.len(),
            v@.to_multiset() == old(v)@.to_multiset(),
        decreases n - i,
    {
        let left = 2 * i + 1;
        let right = left + 1;
        let child = if right < n && v[right] > v[left] {
            right
        } else {
            left
        };
        if v[child] <= v[i] {
            break;
        }
        proof {
            lemma_swap_keeps_values(v@, i as int, child as int);
        }
        swap(v, i, child);
        i = child;
    }
}

/// Puts `value` into the heap `v`.
fn heap_push(v: &mut Vec<i32>, value: i32)
    requires
        heap_ordered(old(v)@),
    ensures
        heap_ordered(final(v)@),
        final(v)@.to_multiset() == old(v)@.to_multiset().insert(value),
{
    broadcast use vstd::seq_lib::group_to_multiset_ensures;

    v.push(value);
    sift_up(v, v.len() - 1);
}

/// Takes the largest value out of the heap `v`.
fn heap_pop(v: &mut Vec<i32>) -> (r: Option<i32>)
    requires
        heap_ordered(old(v)@),
    ensures
        heap_ordered(final(v)@),
        old(v)@.len() == 0 ==> r.is_none() && final(v)@ == old(v)@,
        old(v)@.len() > 0 ==> r == Some(old(v)@[0]) && final(v)@.to_multiset() == old(
            v,
        )@.to_multiset().remove(old(v)@[0]) && final(v)@.len() == old(v)@.len() - 1,
{
    broadcast use vstd::seq_lib::group_to_multiset_ensures;

    let n = v.len();
    if n == 0 {
        return None;
    }
    let top = v[0];
    let last = v.remove(n - 1);
    if n > 1 {
        let ghost rest = v@;
        v.set(0, last);
        proof {
            vstd::seq_lib::to_multiset_update(rest, 0, last);
            assert(rest.contains(top)) by {
                assert(rest[0] == top);
            }
            assert(v@.to_multiset() =~= old(v)@.to_multiset().remove(top));
        }
        sift_down(v, 0);
    }
    Some(top)
}

/// A command of the priority editor, as read from one line.
#[derive(Clone, Copy, Debug, PartialEq, Eq, Structural)]
pub enum HeapCommand {
    /// The line holds no word.
    Blank,
    /// Insert a value.
    Add(i32),
    /// Take the largest value out.
    Pop,
    /// Look at the largest value.
    Peek,
    /// List the values as the heap holds them.
    Show,
    /// Leave the editor.
    Exit,
    /// The line is no command.
    Invalid(Problem),
}

/// What the priority editor answers to a command.
#[derive(Debug, PartialEq, Eq)]
pub enum HeapReply {
    /// Nothing was asked.
    Nothing,
    /// `value` was inserted; the heap now holds `size` values.
    Added { value: i32, size: usize },
    /// `value` was the largest value and is taken out; the heap now holds `size` values.
    Popped { value: i32, size: usize },
    /// `value` is the largest value; it stays in the heap.
    Top { value: i32 },
    /// A `pop` or a `peek` found the heap empty: there is no largest value. Nothing changed.
    Empty,
    /// A `show` found the heap empty: there is nothing to list, and that is no fault.
    NothingToList,
    /// The values in the order in which the heap holds them, the largest first.
    Listing { contents: Vec<i32> },
    /// The editor is left.
    Exit,
    /// The line was no command; nothing changed.
    Invalid(Problem),
}

/// The command that a line spells for the priority editor.
pub open spec fn heap_command(line: Seq<char>) -> HeapCommand {
    let w = words(line);
    if w.len() == 0 {
        HeapCommand::Blank
    } else {
        match verb_of(w[0]) {
            Some(Verb::Add) => match value_argument(w, Verb::Add) {
                Ok(v) => HeapCommand::Add(v),
                Err(p) => HeapCommand::Invalid(p),
            },
            Some(Verb::Pop) => HeapCommand::Pop,
            Some(Verb::Peek) => HeapCommand::Peek,
            Some(Verb::Show) => HeapCommand::Show,
            Some(Verb::Exit) => HeapCommand::Exit,
            _ => HeapCommand::Invalid(Problem::UnknownCommand),
        }
    }
}

/// The values after a command, given the values before it.
pub open spec fn heap_next(pre: Multiset<i32>, cmd: HeapCommand) -> Multiset<i32> {
    match cmd {
        HeapCommand::Add(v) => pre.insert(v),
        HeapCommand::Pop => if pre.len() > 0 {
            pre.remove(max_of(pre))
        } else {
            pre
        },
        _ => pre,
    }
}

/// Whether `reply` is the answer to `cmd` on the values `pre`.
pub open spec fn heap_reply_fits(reply: HeapReply, pre: Multiset<i32>, cmd: HeapCommand) -> bool {
    match cmd {
        HeapCommand::Blank => reply == HeapReply::Nothing,
        HeapCommand::Add(v) => reply == (HeapReply::Added {
            value: v,
            size: (pre.len() + 1) as usize,
        }),
        HeapCommand::Pop => if pre.len() > 0 {
            reply == (HeapReply::Popped { value: max_of(pre), size: (pre.len() - 1) as usize })
        } else {
            reply == HeapReply::Empty
        },
        HeapCommand::Peek => if pre.len() > 0 {
            reply == (HeapReply::Top { value: max_of(pre) })
        } else {
            reply == HeapReply::Empty
        },
        HeapCommand::Show => if pre.len() > 0 {
            reply matches HeapReply::Listing { contents } && contents@.to_multiset() == pre
                && contents@[0] == max_of(pre)
        } else {
            reply == HeapReply::NothingToList
        },
        HeapCommand::Exit => reply == HeapReply::Exit,
        HeapCommand::Invalid(p) => reply == HeapReply::Invalid(p),
    }
}

/// Reads a line as a command of the priority editor.
pub fn parse_heap_command(line: &str) -> (cmd: HeapCommand)
    ensures
        cmd == heap_command(line@),
{
    let w = split_words(line);
    if w.len() == 0 {
        return HeapCommand::Blank;
    }
    match read_verb(w[0].as_str()) {
        Some(Verb::Add) => match read_value_argument(&w, Verb::Add) {
            Ok(v) => HeapCommand::Add(v),
            Err(p) => HeapCommand::Invalid(p),
        },
        Some(Verb::Pop) => HeapCommand::Pop,
        Some(Verb::Peek) => HeapCommand::Peek,
        Some(Verb::Show) => HeapCommand::Show,
        Some(Verb::Exit) => HeapCommand::Exit,
        _ => HeapCommand::Invalid(Problem::UnknownCommand),
    }
}

/// The priority editor: a binary max-heap of integers, with duplicates.
pub struct HeapEditor {
    items: Vec<i32>,
}

impl View for HeapEditor {
    type V = Multiset<i32>;

    closed spec fn view(&self) -> Multiset<i32> {
        self.items@.to_multiset()
    }
}

impl HeapEditor {
    /// Each element but the first is at most its parent.
    #[verifier::type_invariant]
    closed spec fn wf(self) -> bool {
        heap_ordered(self.items@)
    }

    /// An editor that holds nothing.
    pub fn new() -> (e: Self)
        ensures
            e@ == Multiset::<i32>::empty(),
    {
        broadcast use vstd::seq_lib::group_to_multiset_ensures;

        let e = HeapEditor { items: Vec::new() };
        assert(e@ =~= Multiset::<i32>::empty());
        e
    }

    /// The number of values, each counted as often as it occurs.
    pub fn len(&self) -> (n: usize)
        ensures
            n == self@.len(),
    {
        broadcast use vstd::seq_lib::group_to_multiset_ensures;

        self.items.len()
    }

    /// The values in the order in which the heap holds them: the largest first, and each
    /// other one at most its parent.
    pub fn contents(&self) -> (v: Vec<i32>)
        ensures
            v@.to_multiset() == self@,
            v@.len() == self@.len(),
            heap_ordered(v@),
            self@.len() > 0 ==> v@[0] == max_of(self@),
    {
        broadcast use vstd::seq_lib::group_to_multiset_ensures;

        proof {
            use_type_invariant(self);
            if self.items@.len() > 0 {
                lemma_first_is_max(self.items@);
            }
        }
        let v = self.items.clone();
        assert(v@ =~= self.items@);
        v
    }

    /// Inserts `value`.
    pub fn add(&mut self, value: i32)
        ensures
            final(self)@ == old(self)@.insert(value),
    {
        proof {
            use_type_invariant(&*self);
        }
        // Taken out while it changes, so that the editor is whole at every step.
        let mut items: Vec<i32> = Vec::new();
        std::mem::swap(&mut self.items, &mut items);
        heap_push(&mut items, value);
        self.items = items;
    }

    /// The largest value; `None` where the heap holds nothing.
    pub fn peek(&self) -> (r: Option<i32>)
        ensures
            self@.len() > 0 ==> r == Some(max_of(self@)),
            self@.len() == 0 ==> r.is_none(),
    {
        broadcast use vstd::seq_lib::group_to_multiset_ensures;

        proof {
            use_type_invariant(self);
        }
        if self.items.len() == 0 {
            None
        } else {
            proof {
                lemma_first_is_max(self.items@);
            }
            Some(self.items[0])
        }
    }

    /// Takes the largest value out and returns it; where it occurs more than once, one
    /// occurrence leaves. `None`, and nothing changes, where the heap holds nothing.
    pub fn pop(&mut self) -> (r: Option<i32>)
        ensures
            old(self)@.len() > 0 ==> r == Some(max_of(old(self)@)) && final(self)@ == old(
                self,
            )@.remove(max_of(old(self)@)) && final(self)@.len() == old(self)@.len() - 1,
            old(self)@.len() == 0 ==> r.is_none() && final(self)@ == old(self)@,
    {
        broadcast use vstd::seq_lib::group_to_multiset_ensures;

        proof {
            use_type_invariant(&*self);
            if self.items@.len() > 0 {
                lemma_first_is_max(self.items@);
            }
        }
        // Taken out while it changes, so that the editor is whole at every step.
        let mut items: Vec<i32> = Vec::new();
        std::mem::swap(&mut self.items, &mut items);
        let r = heap_pop(&mut items);
        self.items = items;
        r
    }

    /// Carries out a command and answers it.
    pub fn apply(&mut self, cmd: HeapCommand) -> (reply: HeapReply)
        ensures
            final(self)@ == heap_next(old(self)@, cmd),
            heap_reply_fits(reply, old(self)@, cmd),
    {
        match cmd {
            HeapCommand::Blank => HeapReply::Nothing,
            HeapCommand::Add(value) => {
                self.add(value);
                HeapReply::Added { value, size: self.len() }
            },
            HeapCommand::Pop => match self.pop() {
                Some(value) => HeapReply::Popped { value, size: self.len() },
                None => HeapReply::Empty,
            },
            HeapCommand::Peek => match self.peek() {
                Some(value) => HeapReply::Top { value },
                None => HeapReply::Empty,
            },
            HeapCommand::Show => if self.len() == 0 {
                HeapReply::NothingToList
            } else {
                HeapReply::Listing { contents: self.contents() }
            },
            HeapCommand::Exit => HeapReply::Exit,
            HeapCommand::Invalid(p) => HeapReply::Invalid(p),
        }
    }

    /// Reads one line, carries out the command that it spells and answers it.
    pub fn step(&mut self, line: &str) -> (reply: HeapReply)
        ensures
            final(self)@ == heap_next(old(self)@, heap_command(line@)),
            heap_reply_fits(reply, old(self)@, heap_command(line@)),
    {
        let cmd = parse_heap_command(line);
        self.apply(cmd)
    }
}

/// Whether `popped` is what a run of `pop` commands takes out of the values `start`, one
/// after the other: each is a largest value of what the pops before it left.
pub open spec fn is_pop_run(start: Multiset<i32>, popped: Seq<i32>) -> bool
    decreases popped.len(),
{
    popped.len() == 0 || (is_max(popped[0], start) && is_pop_run(
        start.remove(popped[0]),
        popped.drop_first(),
    ))
}

/// Every value that a run of pops takes out was there at the start.
pub proof fn lemma_popped_were_held(start: Multiset<i32>, popped: Seq<i32>, j: int)
    requires
        is_pop_run(start, popped),
        0 <= j < popped.len(),
    ensures
        start.count(popped[j]) > 0,
    decreases popped.len(),
{
    if j > 0 {
        lemma_popped_were_held(start.remove(popped[0]), popped.drop_first(), j - 1);
    }
}

/// The values that a run of pops takes out never rise.
pub proof fn lemma_pop_run_never_rises(start: Multiset<i32>, popped: Seq<i32>)
    requires
        is_pop_run(start, popped),
    ensures
        forall|i: int, j: int| 0 <= i < j < popped.len() ==> popped[i] >= popped[j],
    decreases popped.len(),
{
    if popped.len() > 0 {
        let rest = popped.drop_first();
        lemma_pop_run_never_rises(start.remove(popped[0]), rest);
        assert forall|i: int, j: int| 0 <= i < j < popped.len() implies popped[i] >= popped[j] by {
            if i == 0 {
                lemma_popped_were_held(start, popped, j);
            } else {
                assert(popped[i] == rest[i - 1] && popped[j] == rest[j - 1]);
            }
        }
    }
}

/// The values that `n` `pop` commands in a row take out of the values `start`, in the order
/// in which they leave; nothing more leaves once nothing is left.
pub open spec fn popped_values(start: Multiset<i32>, n: nat) -> Seq<i32>
    decreases n,
{
    if n == 0 || start.len() == 0 {
        Seq::empty()
    } else {
        seq![max_of(start)] + popped_values(heap_next(start, HeapCommand::Pop), (n - 1) as nat)
    }
}

/// What repeated `pop` takes out is a run of pops.
pub proof fn lemma_popped_values_are_a_run(start: Multiset<i32>, n: nat)
    ensures
        is_pop_run(start, popped_values(start, n)),
    decreases n,
{
    if n > 0 && start.len() > 0 {
        let rest = heap_next(start, HeapCommand::Pop);
        lemma_max_exists(start);
        lemma_popped_values_are_a_run(rest, (n - 1) as nat);
        assert(popped_values(start, n).drop_first() =~= popped_values(rest, (n - 1) as nat));
    }
}

/// Whatever was added before, the values that repeated `pop` takes out never rise: each is
/// at most the one before it, and so at most every earlier one.
pub proof fn law_repeated_pop_never_rises(start: Multiset<i32>, n: nat)
    ensures
        forall|i: int, j: int|
            0 <= i < j < popped_values(start, n).len() ==> popped_values(start, n)[i]
                >= popped_values(start, n)[j],
{
    lemma_popped_values_are_a_run(start, n);
    lemma_pop_run_never_rises(start, popped_values(start, n));
}

/// `peek` changes nothing: neither the values nor, with them, the size.
pub proof fn law_peek_keeps_all(pre: Multiset<i32>)
    ensures
        heap_next(pre, HeapCommand::Peek) == pre,
        heap_next(pre, HeapCommand::Peek).len() == pre.len(),
{
}

/// The answer to `show` on an empty heap is never the answer to a `pop` or a `peek` that
/// found the heap empty: the first is a plain notice, the other two report a fault.
pub proof fn law_empty_listing_is_no_fault(shown: HeapReply, popped: HeapReply, peeked: HeapReply)
    requires
        heap_reply_fits(shown, Multiset::empty(), HeapCommand::Show),
        heap_reply_fits(popped, Multiset::empty(), HeapCommand::Pop),
        heap_reply_fits(peeked, Multiset::empty(), HeapCommand::Peek),
    ensures
        shown == HeapReply::NothingToList,
        popped == HeapReply::Empty,
        peeked == HeapReply::Empty,
        shown != popped,
        shown != peeked,
{
}

} // verus!
