//! The editor of a growable array of integers, kept in insertion order.

use crate::command::{read_value_argument, read_verb, value_argument, verb_of, Problem, Verb};
use crate::number::{parse_usize, usize_of};
use crate::text::{split_words, words};
use vstd::prelude::*;

verus! {

/// A command of the sequence editor, as read from one line.
#[derive(Clone, Copy, Debug, PartialEq, Eq, Structural)]
pub enum SeqCommand {
    /// The line holds no word.
    Blank,
    /// Append a value.
    Add(i32),
    /// Delete the element at an index.
    Remove(usize),
    /// List the elements.
    Show,
    /// Leave the editor.
    Exit,
    /// The line is no command.
    Invalid(Problem),
}

/// What the sequence editor answers to a command.
#[derive(Debug, PartialEq, Eq)]
pub enum SeqReply {
    /// Nothing was asked.
    Nothing,
    /// `value` was appended; `contents` are the elements after that.
    Added { value: i32, contents: Vec<i32> },
    /// `value` was deleted from `index`; `contents` are the elements after that.
    Removed { value: i32, index: usize, contents: Vec<i32> },
    /// The index of a `remove` is not below the length; nothing changed.
    OutOfBounds,
    /// The elements, in order; their count is the length of `contents`.
    Listing { contents: Vec<i32> },
    /// The editor is left.
    Exit,
    /// The line was no command; nothing changed.
    Invalid(Problem),
}

/// The command that a line spells for the sequence editor.
pub open spec fn seq_command(line: Seq<char>) -> SeqCommand {
    let w = words(line);
    if w.len() == 0 {
        SeqCommand::Blank
    } else {
        match verb_of(w[0]) {
            Some(Verb::Add) => match value_argument(w, Verb::Add) {
                Ok(v) => SeqCommand::Add(v),
                Err(p) => SeqCommand::Invalid(p),
            },
            Some(Verb::Remove) => if w.len() < 2 {
                SeqCommand::Invalid(Problem::Usage(Verb::Remove))
            } else {
                match usize_of(w[1]) {
                    Some(i) => SeqCommand::Remove(i),
                    None => SeqCommand::Invalid(Problem::InvalidIndex),
                }
            },
            Some(Verb::Show) => SeqCommand::Show,
            Some(Verb::Exit) => SeqCommand::Exit,
            _ => SeqCommand::Invalid(Problem::UnknownCommand),
        }
    }
}

/// The elements after a command, given the elements before it.
pub open spec fn seq_next(pre: Seq<i32>, cmd: SeqCommand) -> Seq<i32> {
    match cmd {
        SeqCommand::Add(v) => pre.push(v),
        SeqCommand::Remove(i) => if i < pre.len() {
            pre.remove(i as int)
        } else {
            pre
        },
        _ => pre,
    }
}

/// Whether `reply` is the answer to `cmd` on the elements `pre`.
pub open spec fn seq_reply_fits(reply: SeqReply, pre: Seq<i32>, cmd: SeqCommand) -> bool {
    match cmd {
        SeqCommand::Blank => reply == SeqReply::Nothing,
        SeqCommand::Add(v) => reply matches SeqReply::Added { value, contents } && value == v
            && contents@ == pre.push(v),
        SeqCommand::Remove(i) => if i < pre.len() {
            reply matches SeqReply::Removed { value, index, contents } && value == pre[i as int]
                && index == i && contents@ == pre.remove(i as int)
        } else {
            reply == SeqReply::OutOfBounds
        },
        SeqCommand::Show => reply matches SeqReply::Listing { contents } && contents@ == pre,
        SeqCommand::Exit => reply == SeqReply::Exit,
        SeqCommand::Invalid(p) => reply == SeqReply::Invalid(p),
    }
}

/// Reads a line as a command of the sequence editor.
pub fn parse_seq_command(line: &str) -> (cmd: SeqCommand)
    ensures
        cmd == seq_command(line@),
{
    let w = split_words(line);
    if w.len() == 0 {
        return SeqCommand::Blank;
    }
    match read_verb(w[0].as_str()) {
        Some(Verb::Add) => match read_value_argument(&w, Verb::Add) {
            Ok(v) => SeqCommand::Add(v),
            Err(p) => SeqCommand::Invalid(p),
        },
        Some(Verb::Remove) => {
            if w.len() < 2 {
                SeqCommand::Invalid(Problem::Usage(Verb::Remove))
            } else {
                match parse_usize(w[1].as_str()) {
                    Some(i) => SeqCommand::Remove(i),
                    None => SeqCommand::Invalid(Problem::InvalidIndex),
                }
            }
        },
        Some(Verb::Show) => SeqCommand::Show,
        Some(Verb::Exit) => SeqCommand::Exit,
        _ => SeqCommand::Invalid(Problem::UnknownCommand),
    }
}

/// The sequence editor: a growable array of integers.
pub struct SequenceEditor {
    items: Vec<i32>,
}

impl View for SequenceEditor {
    type V = Seq<i32>;

    closed spec fn view(&self) -> Seq<i32> {
        self.items@
    }
}

impl SequenceEditor {
    /// An editor that holds nothing.
    pub fn new() -> (e: Self)
        ensures
            e@ == Seq::<i32>::empty(),
    {
        SequenceEditor { items: Vec::new() }
    }

    /// The number of elements.
    pub fn len(&self) -> (n: usize)
        ensures
            n == self@.len(),
    {
        self.items.len()
    }

    /// The elements, in order.
    pub fn contents(&self) -> (v: Vec<i32>)
        ensures
            v@ == self@,
    {
        let v = self.items.clone();
        assert(v@ =~= self.items@);
        v
    }

    /// Appends `value`.
    pub fn add(&mut self, value: i32)
        ensures
            final(self)@ == old(self)@.push(value),
    {
        self.items.push(value);
    }

    /// Deletes the element at `index` and returns it, the later elements moving one place
    /// to the front; `None`, and nothing changes, where `index` is not below the length.
    pub fn remove(&mut self, index: usize) -> (r: Option<i32>)
        ensures
            index < old(self)@.len() ==> r == Some(old(self)@[index as int]) && final(self)@ == old(
                self,
            )@.remove(index as int),
            index >= old(self)@.len() ==> r.is_none() && final(self)@ == old(self)@,
    {
        if index < self.items.len() {
            Some(self.items.remove(index))
        } else {
            None
        }
    }

    /// Carries out a command and answers it.
    pub fn apply(&mut self, cmd: SeqCommand) -> (reply: SeqReply)
        ensures
            final(self)@ == seq_next(old(self)@, cmd),
            seq_reply_fits(reply, old(self)@, cmd),
    {
        match cmd {
            SeqCommand::Blank => SeqReply::Nothing,
            SeqCommand::Add(value) => {
                self.add(value);
                SeqReply::Added { value, contents: self.contents() }
            },
            SeqCommand::Remove(index) => match self.remove(index) {
                Some(value) => SeqReply::Removed { value, index, contents: self.contents() },
                None => SeqReply::OutOfBounds,
            },
            SeqCommand::Show => SeqReply::Listing { contents: self.contents() },
            SeqCommand::Exit => SeqReply::Exit,
            SeqCommand::Invalid(p) => SeqReply::Invalid(p),
        }
    }

    /// Reads one line, carries out the command that it spells and answers it.
    pub fn step(&mut self, line: &str) -> (reply: SeqReply)
        ensures
            final(self)@ == seq_next(old(self)@, seq_command(line@)),
            seq_reply_fits(reply, old(self)@, seq_command(line@)),
    {
        let cmd = parse_seq_command(line);
        self.apply(cmd)
    }
}

/// The elements after a run of commands on an editor that held nothing.
pub open spec fn seq_run(cmds: Seq<SeqCommand>) -> Seq<i32>
    decreases cmds.len(),
{
    if cmds.len() == 0 {
        Seq::empty()
    } else {
        seq_next(seq_run(cmds.drop_last()), cmds.last())
    }
}

/// The values that a run of commands appended, in the order in which it appended them.
pub open spec fn seq_added(cmds: Seq<SeqCommand>) -> Seq<i32>
    decreases cmds.len(),
{
    if cmds.len() == 0 {
        Seq::empty()
    } else {
        match cmds.last() {
            SeqCommand::Add(v) => seq_added(cmds.drop_last()).push(v),
            _ => seq_added(cmds.drop_last()),
        }
    }
}

/// For each element left after a run of commands, its place among the values appended: the
/// run carried out on the ordinals of the values in place of the values.
pub open spec fn seq_survivors(cmds: Seq<SeqCommand>) -> Seq<int>
    decreases cmds.len(),
{
    if cmds.len() == 0 {
        Seq::empty()
    } else {
        let before = seq_survivors(cmds.drop_last());
        match cmds.last() {
            SeqCommand::Add(v) => before.push(seq_added(cmds.drop_last()).len() as int),
            SeqCommand::Remove(i) => if i < before.len() {
                before.remove(i as int)
            } else {
                before
            },
            _ => before,
        }
    }
}

/// After any run of `add` and `remove` (and whatever else), the editor holds exactly the
/// appended values that no `remove` deleted, in the order in which they were appended: the
/// elements are the appended values at strictly ascending places.
pub proof fn law_survivors_keep_their_order(cmds: Seq<SeqCommand>)
    ensures
        seq_run(cmds).len() == seq_survivors(cmds).len(),
        forall|i: int|
            0 <= i < seq_run(cmds).len() ==> 0 <= #[trigger] seq_survivors(cmds)[i] < seq_added(
                cmds,
            ).len() && seq_run(cmds)[i] == seq_added(cmds)[seq_survivors(cmds)[i]],
        forall|i: int, j: int|
            0 <= i < j < seq_run(cmds).len() ==> seq_survivors(cmds)[i] < seq_survivors(cmds)[j],
    decreases cmds.len(),
{
    if cmds.len() > 0 {
        law_survivors_keep_their_order(cmds.drop_last());
    }
}

} // verus!
