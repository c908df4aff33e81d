//! The editors of a set of integers: one keeps its elements hashed, in no order that it
//! promises, the other keeps them sorted.

use crate::command::{read_value_argument, read_verb, value_argument, verb_of, Problem, Verb};
use crate::text::{split_words, words};
use std::collections::{BTreeSet, HashSet};
use vstd::prelude::*;
use vstd::std_specs::btree::{increasing_seq, spec_btree_keys_iter};
use vstd::std_specs::cmp::OrdSpec;
use vstd::std_specs::hash::spec_hash_keys_iter;
use vstd::std_specs::iter::IteratorSpec;

verus! {

/// A command of a set editor, as read from one line.
#[derive(Clone, Copy, Debug, PartialEq, Eq, Structural)]
pub enum SetCommand {
    /// The line holds no word.
    Blank,
    /// Insert a value.
    Add(i32),
    /// Delete a value.
    Remove(i32),
    /// Ask whether a value is an element.
    Contains(i32),
    /// List the elements.
    Show,
    /// Leave the editor.
    Exit,
    /// The line is no command.
    Invalid(Problem),
}

/// What a set editor answers to a command.
#[derive(Debug, PartialEq, Eq)]
pub enum SetReply {
    /// Nothing was asked.
    Nothing,
    /// `value` was inserted; the set now holds `size` elements.
    Added { value: i32, size: usize },
    /// `value` was an element already; nothing changed.
    AlreadyPresent { value: i32 },
    /// `value` was deleted; the set now holds `size` elements.
    Removed { value: i32, size: usize },
    /// `value` was no element; nothing changed.
    NotPresent { value: i32 },
    /// Whether `value` is an element.
    Membership { value: i32, present: bool },
    /// The set holds nothing to list.
    Empty,
    /// The elements, each once.
    Listing { contents: Vec<i32> },
    /// The editor is left.
    Exit,
    /// The line was no command; nothing changed.
    Invalid(Problem),
}

/// The command that a line spells for a set editor.
pub open spec fn set_command(line: Seq<char>) -> SetCommand {
    let w = words(line);
    if w.len() == 0 {
        SetCommand::Blank
    } else {
        match verb_of(w[0]) {
            Some(Verb::Add) => match value_argument(w, Verb::Add) {
                Ok(v) => SetCommand::Add(v),
                Err(p) => SetCommand::Invalid(p),
            },
            Some(Verb::Remove) => match value_argument(w, Verb::Remove) {
                Ok(v) => SetCommand::Remove(v),
                Err(p) => SetCommand::Invalid(p),
            },
            Some(Verb::Contains) => match value_argument(w, Verb::Contains) {
                Ok(v) => SetCommand::Contains(v),
                Err(p) => SetCommand::Invalid(p),
            },
            Some(Verb::Show) => SetCommand::Show,
            Some(Verb::Exit) => SetCommand::Exit,
            _ => SetCommand::Invalid(Problem::UnknownCommand),
        }
    }
}

/// The elements after a command, given the elements before it.
pub open spec fn set_next(pre: Set<i32>, cmd: SetCommand) -> Set<i32> {
    match cmd {
        SetCommand::Add(v) => pre.insert(v),
        SetCommand::Remove(v) => pre.remove(v),
        _ => pre,
    }
}

/// Whether each element of `s` is less than the one after it.
pub open spec fn strictly_ascending(s: Seq<i32>) -> bool {
    forall|i: int, j: int| 0 <= i < j < s.len() ==> s[i] < s[j]
}

/// Whether `contents` lists the elements of `set`: each once and no other value; in
/// ascending order where `sorted`.
pub open spec fn lists_set(contents: Seq<i32>, set: Set<i32>, sorted: bool) -> bool {
    &&& contents.no_duplicates()
    &&& contents.to_set() == set
    &&& sorted ==> strictly_ascending(contents)
}

/// Whether `reply` is the answer to `cmd` on the elements `pre`, from the editor that lists
/// in ascending order where `sorted`, and from the other one else.
pub open spec fn set_reply_fits(
    reply: SetReply,
    pre: Set<i32>,
    cmd: SetCommand,
    sorted: bool,
) -> bool {
    match cmd {
        SetCommand::Blank => reply == SetReply::Nothing,
        SetCommand::Add(v) => if pre.contains(v) {
            reply == (SetReply::AlreadyPresent { value: v })
        } else {
            reply == (SetReply::Added { value: v, size: (pre.len() + 1) as usize })
        },
        SetCommand::Remove(v) => if pre.contains(v) {
            reply == (SetReply::Removed { value: v, size: (pre.len() - 1) as usize })
        } else {
            reply == (SetReply::NotPresent { value: v })
        },
        SetCommand::Contains(v) => reply == (SetReply::Membership {
            value: v,
            present: pre.contains(v),
        }),
        SetCommand::Show => if pre.len() == 0 {
            reply == SetReply::Empty
        } else {
            reply matches SetReply::Listing { contents } && lists_set(contents@, pre, sorted)
        },
        SetCommand::Exit => reply == SetReply::Exit,
        SetCommand::Invalid(p) => reply == SetReply::Invalid(p),
    }
}

/// Reads a line as a command of a set editor.
pub fn parse_set_command(line: &str) -> (cmd: SetCommand)
    ensures
        cmd == set_command(line@),
{
    let w = split_words(line);
    if w.len() == 0 {
        return SetCommand::Blank;
    }
    match read_verb(w[0].as_str()) {
        Some(Verb::Add) => match read_value_argument(&w, Verb::Add) {
            Ok(v) => SetCommand::Add(v),
            Err(p) => SetCommand::Invalid(p),
        },
        Some(Verb::Remove) => match read_value_argument(&w, Verb::Remove) {
            Ok(v) => SetCommand::Remove(v),
            Err(p) => SetCommand::Invalid(p),
        },
        Some(Verb::Contains) => match read_value_argument(&w, Verb::Contains) {
            Ok(v) => SetCommand::Contains(v),
            Err(p) => SetCommand::Invalid(p),
        },
        Some(Verb::Show) => SetCommand::Show,
        Some(Verb::Exit) => SetCommand::Exit,
        _ => SetCommand::Invalid(Problem::UnknownCommand),
    }
}

/// The editor of a hashed set of integers.
pub struct HashSetEditor {
    set: HashSet<i32>,
}

impl View for HashSetEditor {
    type V = Set<i32>;

    closed spec fn view(&self) -> Set<i32> {
        self.set@
    }
}

impl HashSetEditor {
    /// The set is finite.
    #[verifier::type_invariant]
    closed spec fn wf(self) -> bool {
        self.set@.finite()
    }

    /// An editor that holds nothing.
    pub fn new() -> (e: Self)
        ensures
            e@ == Set::<i32>::empty(),
    {
        HashSetEditor { set: HashSet::new() }
    }

    /// The number of elements.
    pub fn len(&self) -> (n: usize)
        ensures
            self@.finite(),
            n == self@.len(),
    {
        proof {
            use_type_invariant(self);
        }
        self.set.len()
    }

    /// Whether `value` is an element.
    pub fn contains(&self, value: i32) -> (b: bool)
        ensures
            b == self@.contains(value),
    {
        self.set.contains(&value)
    }

    /// Inserts `value` and returns whether it was new; an element stays one.
    pub fn add(&mut self, value: i32) -> (added: bool)
        ensures
            final(self)@ == old(self)@.insert(value),
            added == !old(self)@.contains(value),
    {
        proof {
            use_type_invariant(&*self);
        }
        // Taken out while it changes, so that the editor is whole at every step.
        let mut set: HashSet<i32> = HashSet::new();
        std::mem::swap(&mut self.set, &mut set);
        let added = set.insert(value);
        self.set = set;
        added
    }

    /// Deletes `value` and returns whether it was an element.
    pub fn remove(&mut self, value: i32) -> (removed: bool)
        ensures
            final(self)@ == old(self)@.remove(value),
            removed == old(self)@.contains(value),
    {
        proof {
            use_type_invariant(&*self);
        }
        // Taken out while it changes, so that the editor is whole at every step.
        let mut set: HashSet<i32> = HashSet::new();
        std::mem::swap(&mut self.set, &mut set);
        let removed = set.remove(&value);
        self.set = set;
        removed
    }

    /// The elements, each once, in no order that is promised.
    pub fn contents(&self) -> (v: Vec<i32>)
        ensures
            lists_set(v@, self@, false),
    {
        let mut v: Vec<i32> = Vec::new();
        for x in it: self.set.iter()
            invariant
                it.seq() == spec_hash_keys_iter(&self.set).remaining(),
                v@.len() == it.index(),
                forall|i: int| 0 <= i < v@.len() ==> v@[i] == *it.seq()[i],
        {
            v.push(*x);
        }
        proof {
            let keys = spec_hash_keys_iter(&self.set).remaining();
            assert(v@ =~= keys.unref());
            assert forall|i: int, j: int| 0 <= i < j < v@.len() implies v@[i] != v@[j] by {
                assert(keys[i] != keys[j]);
            }
        }
        v
    }

    /// Carries out a command and answers it.
    pub fn apply(&mut self, cmd: SetCommand) -> (reply: SetReply)
        ensures
            final(self)@ == set_next(old(self)@, cmd),
            set_reply_fits(reply, old(self)@, cmd, false),
    {
        proof {
            use_type_invariant(&*self);
        }
        match cmd {
            SetCommand::Blank => SetReply::Nothing,
            SetCommand::Add(value) => if self.add(value) {
                SetReply::Added { value, size: self.len() }
            } else {
                SetReply::AlreadyPresent { value }
            },
            SetCommand::Remove(value) => if self.remove(value) {
                SetReply::Removed { value, size: self.len() }
            } else {
                SetReply::NotPresent { value }
            },
            SetCommand::Contains(value) => SetReply::Membership {
                value,
                present: self.contains(value),
            },
            SetCommand::Show => if self.len() == 0 {
                SetReply::Empty
            } else {
                SetReply::Listing { contents: self.contents() }
            },
            SetCommand::Exit => SetReply::Exit,
            SetCommand::Invalid(p) => SetReply::Invalid(p),
        }
    }

    /// Reads one line, carries out the command that it spells and answers it.
    pub fn step(&mut self, line: &str) -> (reply: SetReply)
        ensures
            final(self)@ == set_next(old(self)@, set_command(line@)),
            set_reply_fits(reply, old(self)@, set_command(line@), false),
    {
        let cmd = parse_set_command(line);
        self.apply(cmd)
    }
}

/// The editor of a sorted set of integers.
pub struct TreeSetEditor {
    set: BTreeSet<i32>,
}

impl View for TreeSetEditor {
    type V = Set<i32>;

    closed spec fn view(&self) -> Set<i32> {
        self.set@
    }
}

impl TreeSetEditor {
    /// The set is finite.
    #[verifier::type_invariant]
    closed spec fn wf(self) -> bool {
        self.set@.finite()
    }

    /// An editor that holds nothing.
    pub fn new() -> (e: Self)
        ensures
            e@ == Set::<i32>::empty(),
    {
        TreeSetEditor { set: BTreeSet::new() }
    }

    /// The number of elements.
    pub fn len(&self) -> (n: usize)
        ensures
            self@.finite(),
            n == self@.len(),
    {
        proof {
            use_type_invariant(self);
        }
        self.set.len()
    }

    /// Whether `value` is an element.
    pub fn contains(&self, value: i32) -> (b: bool)
        ensures
            b == self@.contains(value),
    {
        self.set.contains(&value)
    }

    /// Inserts `value` and returns whether it was new; an element stays one.
    pub fn add(&mut self, value: i32) -> (added: bool)
        ensures
            final(self)@ == old(self)@.insert(value),
            added == !old(self)@.contains(value),
    {
        proof {
            use_type_invariant(&*self);
        }
        // Taken out while it changes, so that the editor is whole at every step.
        let mut set: BTreeSet<i32> = BTreeSet::new();
        std::mem::swap(&mut self.set, &mut set);
        let added = set.insert(value);
        self.set = set;
        added
    }

    /// Deletes `value` and returns whether it was an element.
    pub fn remove(&mut self, value: i32) -> (removed: bool)
        ensures
            final(self)@ == old(self)@.remove(value),
            removed == old(self)@.contains(value),
    {
        proof {
            use_type_invariant(&*self);
        }
        // Taken out while it changes, so that the editor is whole at every step.
        let mut set: BTreeSet<i32> = BTreeSet::new();
        std::mem::swap(&mut self.set, &mut set);
        let removed = set.remove(&value);
        self.set = set;
        removed
    }

    /// The elements, each once, in ascending order.
    pub fn contents(&self) -> (v: Vec<i32>)
        ensures
            lists_set(v@, self@, true),
    {
        let mut v: Vec<i32> = Vec::new();
        for x in it: self.set.iter()
            invariant
                it.seq() == spec_btree_keys_iter(&self.set).remaining(),
                v@.len() == it.index(),
                forall|i: int| 0 <= i < v@.len() ==> v@[i] == *it.seq()[i],
        {
            v.push(*x);
        }
        proof {
            let keys = spec_btree_keys_iter(&self.set).remaining();
            assert(v@ =~= keys.unref());
            assert(vstd::laws_cmp::obeys_cmp::<i32>());
            assert(vstd::laws_cmp::obeys_cmp::<&i32>());
            assert(increasing_seq(keys));
            assert forall|i: int, j: int| 0 <= i < j < v@.len() implies v@[i] < v@[j] by {
                assert((&keys[i]).cmp_spec(&&keys[j]) is Less);
            }
        }
        v
    }

    /// Carries out a command and answers it.
    pub fn apply(&mut self, cmd: SetCommand) -> (reply: SetReply)
        ensures
            final(self)@ == set_next(old(self)@, cmd),
            set_reply_fits(reply, old(self)@, cmd, true),
    {
        proof {
            use_type_invariant(&*self);
        }
        match cmd {
            SetCommand::Blank => SetReply::Nothing,
            SetCommand::Add(value) => if self.add(value) {
                SetReply::Added { value, size: self.len() }
            } else {
                SetReply::AlreadyPresent { value }
            },
            SetCommand::Remove(value) => if self.remove(value) {
                SetReply::Removed { value, size: self.len() }
            } else {
                SetReply::NotPresent { value }
            },
            SetCommand::Contains(value) => SetReply::Membership {
                value,
                present: self.contains(value),
            },
            SetCommand::Show => if self.len() == 0 {
                SetReply::Empty
            } else {
                SetReply::Listing { contents: self.contents() }
            },
            SetCommand::Exit => SetReply::Exit,
            SetCommand::Invalid(p) => SetReply::Invalid(p),
        }
    }

    /// Reads one line, carries out the command that it spells and answers it.
    pub fn step(&mut self, line: &str) -> (reply: SetReply)
        ensures
            final(self)@ == set_next(old(self)@, set_command(line@)),
            set_reply_fits(reply, old(self)@, set_command(line@), true),
    {
        let cmd = parse_set_command(line);
        self.apply(cmd)
    }
}

/// The elements after a run of commands on an editor that held nothing.
pub open spec fn set_run(cmds: Seq<SetCommand>) -> Set<i32>
    decreases cmds.len(),
{
    if cmds.len() == 0 {
        Set::empty()
    } else {
        set_next(set_run(cmds.drop_last()), cmds.last())
    }
}

/// A second `add` of the same value is answered with "already an element", and leaves the
/// set and its size as the first `add` left them.
pub proof fn law_second_add_changes_nothing(pre: Set<i32>, v: i32, sorted: bool, second: SetReply)
    requires
        set_reply_fits(second, set_next(pre, SetCommand::Add(v)), SetCommand::Add(v), sorted),
    ensures
        second == (SetReply::AlreadyPresent { value: v }),
        set_next(set_next(pre, SetCommand::Add(v)), SetCommand::Add(v)) == set_next(
            pre,
            SetCommand::Add(v),
        ),
        set_next(set_next(pre, SetCommand::Add(v)), SetCommand::Add(v)).len() == set_next(
            pre,
            SetCommand::Add(v),
        ).len(),
{
    assert(pre.insert(v).insert(v) =~= pre.insert(v));
}

/// After `remove` of a value, `contains` of that value answers that it is no element.
pub proof fn law_removed_is_absent(pre: Set<i32>, v: i32, sorted: bool, reply: SetReply)
    requires
        set_reply_fits(
            reply,
            set_next(pre, SetCommand::Remove(v)),
            SetCommand::Contains(v),
            sorted,
        ),
    ensures
        reply == (SetReply::Membership { value: v, present: false }),
{
}

/// Whatever run of commands came before, `show` of the sorted editor lists the elements in
/// strictly ascending order.
pub proof fn law_sorted_listing_ascends(cmds: Seq<SetCommand>, reply: SetReply)
    requires
        set_reply_fits(reply, set_run(cmds), SetCommand::Show, true),
    ensures
        reply == SetReply::Empty || (reply matches SetReply::Listing { contents }
            && strictly_ascending(contents@) && contents@.to_set() == set_run(cmds)),
{
}

} // verus!
