//! The vocabulary that the editors share: verbs, arguments and what can be wrong with a line.

use crate::number::{i32_of, parse_i32};
use crate::text::{same_text, texts};
use vstd::prelude::*;

verus! {

/// A verb: the first word of a command.
#[derive(Clone, Copy, Debug, PartialEq, Eq, Structural)]
pub enum Verb {
    Add,
    Remove,
    Show,
    Exit,
    AddFront,
    AddBack,
    PopFront,
    PopBack,
    Get,
    Contains,
    Pop,
    Peek,
}

/// Why a line is no command of the editor that read it.
#[derive(Clone, Copy, Debug, PartialEq, Eq, Structural)]
pub enum Problem {
    /// The verb lacks an argument.
    Usage(Verb),
    /// An argument that must be a signed 32-bit integer is none.
    InvalidNumber,
    /// An argument that must be an index is none.
    InvalidIndex,
    /// The first word is no verb of this editor.
    UnknownCommand,
}

/// The verb that a word spells, if it spells one.
pub open spec fn verb_of(w: Seq<char>) -> Option<Verb> {
    if w == "add"@ {
        Some(Verb::Add)
    } else if w == "remove"@ {
        Some(Verb::Remove)
    } else if w == "show"@ {
        Some(Verb::Show)
    } else if w == "exit"@ {
        Some(Verb::Exit)
    } else if w == "add_front"@ {
        Some(Verb::AddFront)
    } else if w == "add_back"@ {
        Some(Verb::AddBack)
    } else if w == "pop_front"@ {
        Some(Verb::PopFront)
    } else if w == "pop_back"@ {
        Some(Verb::PopBack)
    } else if w == "get"@ {
        Some(Verb::Get)
    } else if w == "contains"@ {
        Some(Verb::Contains)
    } else if w == "pop"@ {
        Some(Verb::Pop)
    } else if w == "peek"@ {
        Some(Verb::Peek)
    } else {
        None
    }
}

/// Reads a word as a verb.
pub fn read_verb(w: &str) -> (v: Option<Verb>)
    ensures
        v == verb_of(w@),
{
    if same_text(w, "add") {
        Some(Verb::Add)
    } else if same_text(w, "remove") {
        Some(Verb::Remove)
    } else if same_text(w, "show") {
        Some(Verb::Show)
    } else if same_text(w, "exit") {
        Some(Verb::Exit)
    } else if same_text(w, "add_front") {
        Some(Verb::AddFront)
    } else if same_text(w, "add_back") {
        Some(Verb::AddBack)
    } else if same_text(w, "pop_front") {
        Some(Verb::PopFront)
    } else if same_text(w, "pop_back") {
        Some(Verb::PopBack)
    } else if same_text(w, "get") {
        Some(Verb::Get)
    } else if same_text(w, "contains") {
        Some(Verb::Contains)
    } else if same_text(w, "pop") {
        Some(Verb::Pop)
    } else if same_text(w, "peek") {
        Some(Verb::Peek)
    } else {
        None
    }
}

/// The word that spells a verb.
pub open spec fn verb_word(verb: Verb) -> Seq<char> {
    match verb {
        Verb::Add => "add"@,
        Verb::Remove => "remove"@,
        Verb::Show => "show"@,
        Verb::Exit => "exit"@,
        Verb::AddFront => "add_front"@,
        Verb::AddBack => "add_back"@,
        Verb::PopFront => "pop_front"@,
        Verb::PopBack => "pop_back"@,
        Verb::Get => "get"@,
        Verb::Contains => "contains"@,
        Verb::Pop => "pop"@,
        Verb::Peek => "peek"@,
    }
}

/// The word that spells a verb.
pub fn word_of(verb: Verb) -> (w: &'static str)
    ensures
        w@ == verb_word(verb),
{
    match verb {
        Verb::Add => "add",
        Verb::Remove => "remove",
        Verb::Show => "show",
        Verb::Exit => "exit",
        Verb::AddFront => "add_front",
        Verb::AddBack => "add_back",
        Verb::PopFront => "pop_front",
        Verb::PopBack => "pop_back",
        Verb::Get => "get",
        Verb::Contains => "contains",
        Verb::Pop => "pop",
        Verb::Peek => "peek",
    }
}

/// Each verb is read from its own word, and from no other: a word spells a verb exactly
/// when it is the word of that verb.
pub proof fn law_verbs_read_as_themselves(w: Seq<char>, verb: Verb)
    ensures
        verb_of(w) == Some(verb) <==> w == verb_word(verb),
{
    reveal_strlit("add");
    reveal_strlit("remove");
    reveal_strlit("show");
    reveal_strlit("exit");
    reveal_strlit("add_front");
    reveal_strlit("add_back");
    reveal_strlit("pop_front");
    reveal_strlit("pop_back");
    reveal_strlit("get");
    reveal_strlit("contains");
    reveal_strlit("pop");
    reveal_strlit("peek");
    if w == verb_word(verb) {
        assert(w.len() == verb_word(verb).len());
        assert(w.len() > 0 ==> w[0] == verb_word(verb)[0]);
        assert(w.len() > 4 ==> w[4] == verb_word(verb)[4]);
    }
}

/// The integer that the word after the verb writes: the value of `verb`'s one argument.
/// Without that word the line is a misuse of the verb; with one that is no signed 32-bit
/// integer it holds an invalid number.
pub open spec fn value_argument(w: Seq<Seq<char>>, verb: Verb) -> Result<i32, Problem> {
    if w.len() < 2 {
        Err(Problem::Usage(verb))
    } else {
        match i32_of(w[1]) {
            Some(v) => Ok(v),
            None => Err(Problem::InvalidNumber),
        }
    }
}

/// Reads the one integer argument of `verb` from the words of a line.
pub fn read_value_argument(w: &Vec<String>, verb: Verb) -> (r: Result<i32, Problem>)
    ensures
        r == value_argument(texts(w@), verb),
{
    if w.len() < 2 {
        Err(Problem::Usage(verb))
    } else {
        match parse_i32(w[1].as_str()) {
            Some(v) => Ok(v),
            None => Err(Problem::InvalidNumber),
        }
    }
}

} // verus!
