//! The editor of a double-ended container of integers: values enter and leave at either end.
//!
//! The double-ended queue and the linked list are two instances of this one editor.

use crate::command::{read_value_argument, read_verb, value_argument, verb_of, Problem, Verb};
use crate::text::{split_words, words};
use std::collections::VecDeque;
use vstd::prelude::*;

verus! {

/// A command of the double-ended editor, as read from one line.
#[derive(Clone, Copy, Debug, PartialEq, Eq, Structural)]
pub enum EndsCommand {
    /// The line holds no word.
    Blank,
    /// Insert a value before the first element.
    AddFront(i32),
    /// Insert a value after the last element.
    AddBack(i32),
    /// Take the first element out.
    PopFront,
    /// Take the last element out.
    PopBack,
    /// List the elements from front to back.
    Show,
    /// Leave the editor.
    Exit,
    /// The line is no command.
    Invalid(Problem),
}

/// What the double-ended editor answers to a command.
#[derive(Debug, PartialEq, Eq)]
pub enum EndsReply {
    /// Nothing was asked.
    Nothing,
    /// `value` is the new first element; `contents` are the elements after that.
    AddedFront { value: i32, contents: Vec<i32> },
    /// `value` is the new last element; `contents` are the elements after that.
    AddedBack { value: i32, contents: Vec<i32> },
    /// `value` was the first element and is taken out; `contents` are the elements left.
    PoppedFront { value: i32, contents: Vec<i32> },
    /// `value` was the last element and is taken out; `contents` are the elements left.
    PoppedBack { value: i32, contents: Vec<i32> },
    /// There was no element to take out; nothing changed.
    Empty,
    /// The elements from front to back; their count is the length of `contents`.
    Listing { contents: Vec<i32> },
    /// The editor is left.
    Exit,
    /// The line was no command; nothing changed.
    Invalid(Problem),
}

/// The command that a line spells for the double-ended editor.
pub open spec fn ends_command(line: Seq<char>) -> EndsCommand {
    let w = words(line);
    if w.len() == 0 {
        EndsCommand::Blank
    } else {
        match verb_of(w[0]) {
            Some(Verb::AddFront) => match value_argument(w, Verb::AddFront) {
                Ok(v) => EndsCommand::AddFront(v),
                Err(p) => EndsCommand::Invalid(p),
            },
            Some(Verb::AddBack) => match value_argument(w, Verb::AddBack) {
                Ok(v) => EndsCommand::AddBack(v),
                Err(p) => EndsCommand::Invalid(p),
            },
            Some(Verb::PopFront) => EndsCommand::PopFront,
            Some(Verb::PopBack) => EndsCommand::PopBack,
            Some(Verb::Show) => EndsCommand::Show,
            Some(Verb::Exit) => EndsCommand::Exit,
            _ => EndsCommand::Invalid(Problem::UnknownCommand),
        }
    }
}

/// The elements after a command, given the elements before it, front first.
pub open spec fn ends_next(pre: Seq<i32>, cmd: EndsCommand) -> Seq<i32> {
    match cmd {
        EndsCommand::AddFront(v) => seq![v] + pre,
        EndsCommand::AddBack(v) => pre.push(v),
        EndsCommand::PopFront => if pre.len() > 0 {
            pre.drop_first()
        } else {
            pre
        },
        EndsCommand::PopBack => if pre.len() > 0 {
            pre.drop_last()
        } else {
            pre
        },
        _ => pre,
    }
}

/// Whether `reply` is the answer to `cmd` on the elements `pre`.
pub open spec fn ends_reply_fits(reply: EndsReply, pre: Seq<i32>, cmd: EndsCommand) -> bool {
    match cmd {
        EndsCommand::Blank => reply == EndsReply::Nothing,
        EndsCommand::AddFront(v) => reply matches EndsReply::AddedFront { value, contents }
            && value == v && contents@ == seq![v] + pre,
        EndsCommand::AddBack(v) => reply matches EndsReply::AddedBack { value, contents } && value
            == v && contents@ == pre.push(v),
        EndsCommand::PopFront => if pre.len() > 0 {
            reply matches EndsReply::PoppedFront { value, contents } && value == pre.first()
                && contents@ == pre.drop_first()
        } else {
            reply == EndsReply::Empty
        },
        EndsCommand::PopBack => if pre.len() > 0 {
            reply matches EndsReply::PoppedBack { value, contents } && value == pre.last()
                && contents@ == pre.drop_last()
        } else {
            reply == EndsReply::Empty
        },
        EndsCommand::Show => reply matches EndsReply::Listing { contents } && contents@ == pre,
        EndsCommand::Exit => reply == EndsReply::Exit,
        EndsCommand::Invalid(p) => reply == EndsReply::Invalid(p),
    }
}

/// Reads a line as a command of the double-ended editor.
pub fn parse_ends_command(line: &str) -> (cmd: EndsCommand)
    ensures
        cmd == ends_command(line@),
{
    let w = split_words(line);
    if w.len() == 0 {
        return EndsCommand::Blank;
    }
    match read_verb(w[0].as_str()) {
        Some(Verb::AddFront) => match read_value_argument(&w, Verb::AddFront) {
            Ok(v) => EndsCommand::AddFront(v),
            Err(p) => EndsCommand::Invalid(p),
        },
        Some(Verb::AddBack) => match read_value_argument(&w, Verb::AddBack) {
            Ok(v) => EndsCommand::AddBack(v),
            Err(p) => EndsCommand::Invalid(p),
        },
        Some(Verb::PopFront) => EndsCommand::PopFront,
        Some(Verb::PopBack) => EndsCommand::PopBack,
        Some(Verb::Show) => EndsCommand::Show,
        Some(Verb::Exit) => EndsCommand::Exit,
        _ => EndsCommand::Invalid(Problem::UnknownCommand),
    }
}

/// The double-ended editor: integers in a row, open at both ends.
pub struct EndsEditor {
    items: VecDeque<i32>,
}

impl View for EndsEditor {
    type V = Seq<i32>;

    closed spec fn view(&self) -> Seq<i32> {
        self.items@
    }
}

impl EndsEditor {
    /// An editor that holds nothing.
    pub fn new() -> (e: Self)
        ensures
            e@ == Seq::<i32>::empty(),
    {
        EndsEditor { items: VecDeque::new() }
    }

    /// The number of elements.
    pub fn len(&self) -> (n: usize)
        ensures
            n == self@.len(),
    {
        self.items.len()
    }

    /// The elements from front to back.
    pub fn contents(&self) -> (v: Vec<i32>)
        ensures
            v@ == self@,
    {
        let n = self.items.len();
        let mut v: Vec<i32> = Vec::new();
        let mut i: usize = 0;
        while i < n
            invariant
                n == self.items@.len(),
                i <= n,
                v@ == self.items@.take(i as int),
            decreases n - i,
        {
            v.push(self.items[i]);
            assert(v@ =~= self.items@.take(i + 1));
            i += 1;
        }
        assert(self.items@.take(n as int) =~= self.items@);
        v
    }

    /// Inserts `value` before the first element.
    pub fn add_front(&mut self, value: i32)
        ensures
            final(self)@ == seq![value] + old(self)@,
    {
        self.items.push_front(value);
    }

    /// Inserts `value` after the last element.
    pub fn add_back(&mut self, value: i32)
        ensures
            final(self)@ == old(self)@.push(value),
    {
        self.items.push_back(value);
    }

    /// Takes the first element out and returns it; `None`, and nothing changes, where there
    /// is no element.
    pub fn pop_front(&mut self) -> (r: Option<i32>)
        ensures
            old(self)@.len() > 0 ==> r == Some(old(self)@.first()) && final(self)@ == old(
                self,
            )@.drop_first(),
            old(self)@.len() == 0 ==> r.is_none() && final(self)@ == old(self)@,
    {
        self.items.pop_front()
    }

    /// Takes the last element out and returns it; `None`, and nothing changes, where there
    /// is no element.
    pub fn pop_back(&mut self) -> (r: Option<i32>)
        ensures
            old(self)@.len() > 0 ==> r == Some(old(self)@.last()) && final(self)@ == old(
                self,
            )@.drop_last(),
            old(self)@.len() == 0 ==> r.is_none() && final(self)@ == old(self)@,
    {
        self.items.pop_back()
    }

    /// Carries out a command and answers it.
    pub fn apply(&mut self, cmd: EndsCommand) -> (reply: EndsReply)
        ensures
            final(self)@ == ends_next(old(self)@, cmd),
            ends_reply_fits(reply, old(self)@, cmd),
    {
        match cmd {
            EndsCommand::Blank => EndsReply::Nothing,
            EndsCommand::AddFront(value) => {
                self.add_front(value);
                EndsReply::AddedFront { value, contents: self.contents() }
            },
            EndsCommand::AddBack(value) => {
                self.add_back(value);
                EndsReply::AddedBack { value, contents: self.contents() }
            },
            EndsCommand::PopFront => match self.pop_front() {
                Some(value) => EndsReply::PoppedFront { value, contents: self.contents() },
                None => EndsReply::Empty,
            },
            EndsCommand::PopBack => match self.pop_back() {
                Some(value) => EndsReply::PoppedBack { value, contents: self.contents() },
                None => EndsReply::Empty,
            },
            EndsCommand::Show => EndsReply::Listing { contents: self.contents() },
            EndsCommand::Exit => EndsReply::Exit,
            EndsCommand::Invalid(p) => EndsReply::Invalid(p),
        }
    }

    /// Reads one line, carries out the command that it spells and answers it.
    pub fn step(&mut self, line: &str) -> (reply: EndsReply)
        ensures
            final(self)@ == ends_next(old(self)@, ends_command(line@)),
            ends_reply_fits(reply, old(self)@, ends_command(line@)),
    {
        let cmd = parse_ends_command(line);
        self.apply(cmd)
    }
}

} // verus!
