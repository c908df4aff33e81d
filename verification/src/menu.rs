//! The menu from which an editor is chosen, and the session that moves between the menu and
//! the chosen editor.

use crate::command::{verb_of, Problem, Verb};
use crate::ends::{
    ends_command, ends_next, ends_reply_fits, parse_ends_command, EndsCommand, EndsEditor,
    EndsReply,
};
use crate::heap::{
    heap_command, heap_next, heap_reply_fits, parse_heap_command, HeapCommand, HeapEditor,
    HeapReply,
};
use crate::maps::{
    map_next, map_reply_fits, map_request, parse_map_command, HashMapEditor, MapCommand, MapReply,
    MapRequest, TreeMapEditor,
};
use crate::number::{parse_u32, u32_of};
use crate::sequence::{
    parse_seq_command, seq_command, seq_next, seq_reply_fits, SeqCommand, SeqReply,
    SequenceEditor,
};
use crate::sets::{
    parse_set_command, set_command, set_next, set_reply_fits, HashSetEditor, SetCommand, SetReply,
    TreeSetEditor,
};
use crate::text::{split_words, words};
use vstd::multiset::Multiset;
use vstd::prelude::*;

verus! {

/// The kinds of container that the menu offers, in the order of their numbers 1 to 8.
#[derive(Clone, Copy, Debug, PartialEq, Eq, Structural)]
pub enum Kind {
    Sequence,
    Deque,
    List,
    HashMap,
    TreeMap,
    HashSet,
    TreeSet,
    Heap,
}

/// What a line means at the menu.
#[derive(Clone, Copy, Debug, PartialEq, Eq, Structural)]
pub enum Choice {
    /// One of the numbers 1 to 8: the editor of that kind opens.
    Open(Kind),
    /// The number 0: the program ends.
    Quit,
    /// The line is no number.
    NotANumber,
    /// The line is a number above 8.
    OutOfRange,
}

/// The kind that the menu offers under the number `n`.
pub open spec fn kind_of(n: u32) -> Option<Kind> {
    if n == 1 {
        Some(Kind::Sequence)
    } else if n == 2 {
        Some(Kind::Deque)
    } else if n == 3 {
        Some(Kind::List)
    } else if n == 4 {
        Some(Kind::HashMap)
    } else if n == 5 {
        Some(Kind::TreeMap)
    } else if n == 6 {
        Some(Kind::HashSet)
    } else if n == 7 {
        Some(Kind::TreeSet)
    } else if n == 8 {
        Some(Kind::Heap)
    } else {
        None
    }
}

/// The number that a line holds for the menu: the line is one unsigned 32-bit numeral, with
/// white space allowed before and after it.
pub open spec fn menu_number(line: Seq<char>) -> Option<u32> {
    let w = words(line);
    if w.len() == 1 {
        u32_of(w[0])
    } else {
        None
    }
}

/// What a line means at the menu.
pub open spec fn choice_of(line: Seq<char>) -> Choice {
    match menu_number(line) {
        None => Choice::NotANumber,
        Some(n) => if n == 0 {
            Choice::Quit
        } else {
            match kind_of(n) {
                Some(kind) => Choice::Open(kind),
                None => Choice::OutOfRange,
            }
        },
    }
}

/// Reads a line at the menu.
pub fn parse_choice(line: &str) -> (choice: Choice)
    ensures
        choice == choice_of(line@),
{
    let w = split_words(line);
    if w.len() != 1 {
        return Choice::NotANumber;
    }
    match parse_u32(w[0].as_str()) {
        None => Choice::NotANumber,
        Some(n) => {
            if n == 0 {
                Choice::Quit
            } else if n == 1 {
                Choice::Open(Kind::Sequence)
            } else if n == 2 {
                Choice::Open(Kind::Deque)
            } else if n == 3 {
                Choice::Open(Kind::List)
            } else if n == 4 {
                Choice::Open(Kind::HashMap)
            } else if n == 5 {
                Choice::Open(Kind::TreeMap)
            } else if n == 6 {
                Choice::Open(Kind::HashSet)
            } else if n == 7 {
                Choice::Open(Kind::TreeSet)
            } else if n == 8 {
                Choice::Open(Kind::Heap)
            } else {
                Choice::OutOfRange
            }
        },
    }
}

/// The verbs of the editor of `kind`, in the order in which the editor names them.
pub open spec fn verbs_of(kind: Kind) -> Seq<Verb> {
    match kind {
        Kind::Sequence => seq![Verb::Add, Verb::Remove, Verb::Show, Verb::Exit],
        Kind::Deque | Kind::List => seq![
            Verb::AddFront,
            Verb::AddBack,
            Verb::PopFront,
            Verb::PopBack,
            Verb::Show,
            Verb::Exit,
        ],
        Kind::HashMap | Kind::TreeMap => seq![
            Verb::Add,
            Verb::Get,
            Verb::Remove,
            Verb::Show,
            Verb::Exit,
        ],
        Kind::HashSet | Kind::TreeSet => seq![
            Verb::Add,
            Verb::Remove,
            Verb::Contains,
            Verb::Show,
            Verb::Exit,
        ],
        Kind::Heap => seq![Verb::Add, Verb::Pop, Verb::Peek, Verb::Show, Verb::Exit],
    }
}

/// The verbs of the editor of `kind`: what it names where a line starts with none of them.
pub fn valid_verbs(kind: Kind) -> (v: Vec<Verb>)
    ensures
        v@ == verbs_of(kind),
{
    let v = match kind {
        Kind::Sequence => vec![Verb::Add, Verb::Remove, Verb::Show, Verb::Exit],
        Kind::Deque | Kind::List => vec![
            Verb::AddFront,
            Verb::AddBack,
            Verb::PopFront,
            Verb::PopBack,
            Verb::Show,
            Verb::Exit,
        ],
        Kind::HashMap | Kind::TreeMap => vec![
            Verb::Add,
            Verb::Get,
            Verb::Remove,
            Verb::Show,
            Verb::Exit,
        ],
        Kind::HashSet | Kind::TreeSet => vec![
            Verb::Add,
            Verb::Remove,
            Verb::Contains,
            Verb::Show,
            Verb::Exit,
        ],
        Kind::Heap => vec![Verb::Add, Verb::Pop, Verb::Peek, Verb::Show, Verb::Exit],
    };
    assert(v@ =~= verbs_of(kind));
    v
}

/// Whether the editor of `kind` answers a line with "unknown command".
pub open spec fn is_unknown(kind: Kind, line: Seq<char>) -> bool {
    match kind {
        Kind::Sequence => seq_command(line) == SeqCommand::Invalid(Problem::UnknownCommand),
        Kind::Deque | Kind::List => ends_command(line) == EndsCommand::Invalid(
            Problem::UnknownCommand,
        ),
        Kind::HashMap | Kind::TreeMap => map_request(line) == MapRequest::Invalid(
            Problem::UnknownCommand,
        ),
        Kind::HashSet | Kind::TreeSet => set_command(line) == SetCommand::Invalid(
            Problem::UnknownCommand,
        ),
        Kind::Heap => heap_command(line) == HeapCommand::Invalid(Problem::UnknownCommand),
    }
}

/// Whether the editor of `kind` is left on a line.
pub open spec fn is_exit(kind: Kind, line: Seq<char>) -> bool {
    match kind {
        Kind::Sequence => seq_command(line) == SeqCommand::Exit,
        Kind::Deque | Kind::List => ends_command(line) == EndsCommand::Exit,
        Kind::HashMap | Kind::TreeMap => map_request(line) is Exit,
        Kind::HashSet | Kind::TreeSet => set_command(line) == SetCommand::Exit,
        Kind::Heap => heap_command(line) == HeapCommand::Exit,
    }
}

/// An editor answers "unknown command" exactly to the lines whose first word is none of
/// its verbs, and it is left exactly on the lines whose first word is its verb `exit`.
pub proof fn law_first_word_decides(kind: Kind, line: Seq<char>)
    requires
        words(line).len() > 0,
    ensures
        is_unknown(kind, line) <==> !(verb_of(words(line)[0]) matches Some(verb) && verbs_of(
            kind,
        ).contains(verb)),
        is_exit(kind, line) <==> verb_of(words(line)[0]) == Some(Verb::Exit),
{
    let vs = verbs_of(kind);
    assert(vs.len() >= 4);
    assert forall|verb: Verb| vs.contains(verb) <==> (exists|i: int|
        0 <= i < vs.len() && #[trigger] vs[i] == verb) by {}
    match verb_of(words(line)[0]) {
        Some(verb) => {
            if vs.contains(verb) {
            } else {
                assert(vs[0] != verb && vs[1] != verb && vs[2] != verb && vs[3] != verb);
                assert(vs.len() > 4 ==> vs[4] != verb);
                assert(vs.len() > 5 ==> vs[5] != verb);
            }
        },
        None => {},
    }
}

/// Where a session stands: at the menu, or in the editor of one kind with what it holds.
pub enum Session {
    Menu,
    Sequence(SequenceEditor),
    Deque(EndsEditor),
    List(EndsEditor),
    HashMap(HashMapEditor),
    TreeMap(TreeMapEditor),
    HashSet(HashSetEditor),
    TreeSet(TreeSetEditor),
    Heap(HeapEditor),
}

/// Where a session stands, each container as the value that it holds.
pub enum Place {
    Menu,
    Sequence(Seq<i32>),
    Deque(Seq<i32>),
    List(Seq<i32>),
    HashMap(Map<Seq<char>, i32>),
    TreeMap(Map<Seq<char>, i32>),
    HashSet(Set<i32>),
    TreeSet(Set<i32>),
    Heap(Multiset<i32>),
}

impl View for Session {
    type V = Place;

    open spec fn view(&self) -> Place {
        match *self {
            Session::Menu => Place::Menu,
            Session::Sequence(e) => Place::Sequence(e@),
            Session::Deque(e) => Place::Deque(e@),
            Session::List(e) => Place::List(e@),
            Session::HashMap(e) => Place::HashMap(e@),
            Session::TreeMap(e) => Place::TreeMap(e@),
            Session::HashSet(e) => Place::HashSet(e@),
            Session::TreeSet(e) => Place::TreeSet(e@),
            Session::Heap(e) => Place::Heap(e@),
        }
    }
}

/// What a session answers to a line: the answer of the menu, or that of the editor in which
/// the session stands.
#[derive(Debug, PartialEq, Eq)]
pub enum SessionReply {
    AtMenu(Choice),
    InSequence(SeqReply),
    InEnds(EndsReply),
    InMap(MapReply),
    InSet(SetReply),
    InHeap(HeapReply),
}

/// The editor of `kind`, holding nothing.
pub open spec fn opened(kind: Kind) -> Place {
    match kind {
        Kind::Sequence => Place::Sequence(Seq::empty()),
        Kind::Deque => Place::Deque(Seq::empty()),
        Kind::List => Place::List(Seq::empty()),
        Kind::HashMap => Place::HashMap(Map::empty()),
        Kind::TreeMap => Place::TreeMap(Map::empty()),
        Kind::HashSet => Place::HashSet(Set::empty()),
        Kind::TreeSet => Place::TreeSet(Set::empty()),
        Kind::Heap => Place::Heap(Multiset::empty()),
    }
}

/// Where a session stands after a line, given where it stood before: the menu opens an
/// editor on a number from 1 to 8 and stays the menu on every other line; an editor goes
/// back to the menu on `exit`, and on nothing else.
pub open spec fn session_next(pre: Place, line: Seq<char>) -> Place {
    match pre {
        Place::Menu => match choice_of(line) {
            Choice::Open(kind) => opened(kind),
            _ => Place::Menu,
        },
        Place::Sequence(s) => if seq_command(line) == SeqCommand::Exit {
            Place::Menu
        } else {
            Place::Sequence(seq_next(s, seq_command(line)))
        },
        Place::Deque(s) => if ends_command(line) == EndsCommand::Exit {
            Place::Menu
        } else {
            Place::Deque(ends_next(s, ends_command(line)))
        },
        Place::List(s) => if ends_command(line) == EndsCommand::Exit {
            Place::Menu
        } else {
            Place::List(ends_next(s, ends_command(line)))
        },
        Place::HashMap(m) => if map_request(line) is Exit {
            Place::Menu
        } else {
            Place::HashMap(map_next(m, map_request(line)))
        },
        Place::TreeMap(m) => if map_request(line) is Exit {
            Place::Menu
        } else {
            Place::TreeMap(map_next(m, map_request(line)))
        },
        Place::HashSet(s) => if set_command(line) == SetCommand::Exit {
            Place::Menu
        } else {
            Place::HashSet(set_next(s, set_command(line)))
        },
        Place::TreeSet(s) => if set_command(line) == SetCommand::Exit {
            Place::Menu
        } else {
            Place::TreeSet(set_next(s, set_command(line)))
        },
        Place::Heap(m) => if heap_command(line) == HeapCommand::Exit {
            Place::Menu
        } else {
            Place::Heap(heap_next(m, heap_command(line)))
        },
    }
}

/// Whether `reply` is the answer of a session that stands at `pre` to a line.
pub open spec fn session_reply_fits(reply: SessionReply, pre: Place, line: Seq<char>) -> bool {
    match pre {
        Place::Menu => reply == SessionReply::AtMenu(choice_of(line)),
        Place::Sequence(s) => reply matches SessionReply::InSequence(r) && seq_reply_fits(
            r,
            s,
            seq_command(line),
        ),
        Place::Deque(s) => reply matches SessionReply::InEnds(r) && ends_reply_fits(
            r,
            s,
            ends_command(line),
        ),
        Place::List(s) => reply matches SessionReply::InEnds(r) && ends_reply_fits(
            r,
            s,
            ends_command(line),
        ),
        Place::HashMap(m) => reply matches SessionReply::InMap(r) && map_reply_fits(
            r,
            m,
            map_request(line),
            false,
        ),
        Place::TreeMap(m) => reply matches SessionReply::InMap(r) && map_reply_fits(
            r,
            m,
            map_request(line),
            true,
        ),
        Place::HashSet(s) => reply matches SessionReply::InSet(r) && set_reply_fits(
            r,
            s,
            set_command(line),
            false,
        ),
        Place::TreeSet(s) => reply matches SessionReply::InSet(r) && set_reply_fits(
            r,
            s,
            set_command(line),
            true,
        ),
        Place::Heap(m) => reply matches SessionReply::InHeap(r) && heap_reply_fits(
            r,
            m,
            heap_command(line),
        ),
    }
}

impl Session {
    /// A session at the menu.
    pub fn new() -> (s: Self)
        ensures
            s@ == Place::Menu,
    {
        Session::Menu
    }

    /// The kind of the editor in which the session stands; `None` at the menu.
    pub fn kind(&self) -> (k: Option<Kind>)
        ensures
            k == match self@ {
                Place::Menu => None::<Kind>,
                Place::Sequence(_) => Some(Kind::Sequence),
                Place::Deque(_) => Some(Kind::Deque),
                Place::List(_) => Some(Kind::List),
                Place::HashMap(_) => Some(Kind::HashMap),
                Place::TreeMap(_) => Some(Kind::TreeMap),
                Place::HashSet(_) => Some(Kind::HashSet),
                Place::TreeSet(_) => Some(Kind::TreeSet),
                Place::Heap(_) => Some(Kind::Heap),
            },
    {
        match self {
            Session::Menu => None,
            Session::Sequence(_) => Some(Kind::Sequence),
            Session::Deque(_) => Some(Kind::Deque),
            Session::List(_) => Some(Kind::List),
            Session::HashMap(_) => Some(Kind::HashMap),
            Session::TreeMap(_) => Some(Kind::TreeMap),
            Session::HashSet(_) => Some(Kind::HashSet),
            Session::TreeSet(_) => Some(Kind::TreeSet),
            Session::Heap(_) => Some(Kind::Heap),
        }
    }

    /// The editor of `kind`, holding nothing.
    pub fn open(kind: Kind) -> (s: Self)
        ensures
            s@ == opened(kind),
    {
        match kind {
            Kind::Sequence => Session::Sequence(SequenceEditor::new()),
            Kind::Deque => Session::Deque(EndsEditor::new()),
            Kind::List => Session::List(EndsEditor::new()),
            Kind::HashMap => Session::HashMap(HashMapEditor::new()),
            Kind::TreeMap => Session::TreeMap(TreeMapEditor::new()),
            Kind::HashSet => Session::HashSet(HashSetEditor::new()),
            Kind::TreeSet => Session::TreeSet(TreeSetEditor::new()),
            Kind::Heap => Session::Heap(HeapEditor::new()),
        }
    }

    /// Takes one line: at the menu it is a choice, in an editor a command of that editor.
    pub fn feed(&mut self, line: &str) -> (reply: SessionReply)
        ensures
            final(self)@ == session_next(old(self)@, line@),
            session_reply_fits(reply, old(self)@, line@),
    {
        // The session waits at the menu while the place where it stood takes the line.
        let mut here = Session::Menu;
        std::mem::swap(self, &mut here);
        match here {
            Session::Menu => {
                let choice = parse_choice(line);
                match choice {
                    Choice::Open(kind) => {
                        *self = Session::open(kind);
                    },
                    _ => {},
                }
                SessionReply::AtMenu(choice)
            },
            Session::Sequence(mut e) => {
                let cmd = parse_seq_command(line);
                let reply = e.apply(cmd);
                if cmd != SeqCommand::Exit {
                    *self = Session::Sequence(e);
                }
                SessionReply::InSequence(reply)
            },
            Session::Deque(mut e) => {
                let cmd = parse_ends_command(line);
                let reply = e.apply(cmd);
                if cmd != EndsCommand::Exit {
                    *self = Session::Deque(e);
                }
                SessionReply::InEnds(reply)
            },
            Session::List(mut e) => {
                let cmd = parse_ends_command(line);
                let reply = e.apply(cmd);
                if cmd != EndsCommand::Exit {
                    *self = Session::List(e);
                }
                SessionReply::InEnds(reply)
            },
            Session::HashMap(mut e) => {
                let cmd = parse_map_command(line);
                let leaves = match &cmd {
                    MapCommand::Exit => true,
                    _ => false,
                };
                let reply = e.apply(cmd);
                if !leaves {
                    *self = Session::HashMap(e);
                }
                SessionReply::InMap(reply)
            },
            Session::TreeMap(mut e) => {
                let cmd = parse_map_command(line);
                let leaves = match &cmd {
                    MapCommand::Exit => true,
                    _ => false,
                };
                let reply = e.apply(cmd);
                if !leaves {
                    *self = Session::TreeMap(e);
                }
                SessionReply::InMap(reply)
            },
            Session::HashSet(mut e) => {
                let cmd = parse_set_command(line);
                let reply = e.apply(cmd);
                if cmd != SetCommand::Exit {
                    *self = Session::HashSet(e);
                }
                SessionReply::InSet(reply)
            },
            Session::TreeSet(mut e) => {
                let cmd = parse_set_command(line);
                let reply = e.apply(cmd);
                if cmd != SetCommand::Exit {
                    *self = Session::TreeSet(e);
                }
                SessionReply::InSet(reply)
            },
            Session::Heap(mut e) => {
                let cmd = parse_heap_command(line);
                let reply = e.apply(cmd);
                if cmd != HeapCommand::Exit {
                    *self = Session::Heap(e);
                }
                SessionReply::InHeap(reply)
            },
        }
    }
}

/// The kind of the editor at which a session stands; `None` at the menu.
pub open spec fn kind_at(place: Place) -> Option<Kind> {
    match place {
        Place::Menu => None,
        Place::Sequence(_) => Some(Kind::Sequence),
        Place::Deque(_) => Some(Kind::Deque),
        Place::List(_) => Some(Kind::List),
        Place::HashMap(_) => Some(Kind::HashMap),
        Place::TreeMap(_) => Some(Kind::TreeMap),
        Place::HashSet(_) => Some(Kind::HashSet),
        Place::TreeSet(_) => Some(Kind::TreeSet),
        Place::Heap(_) => Some(Kind::Heap),
    }
}

/// The menu opens the editor of a kind exactly on the number of that kind, and stays the
/// menu on every other line; an editor goes back to the menu exactly on `exit`, and else
/// stays the editor of its kind.
pub proof fn law_session_moves(pre: Place, line: Seq<char>)
    ensures
        pre is Menu ==> (session_next(pre, line) == match choice_of(line) {
            Choice::Open(kind) => opened(kind),
            _ => Place::Menu,
        }),
        forall|kind: Kind| #[trigger] kind_at(opened(kind)) == Some(kind),
        kind_at(pre) matches Some(kind) ==> (if is_exit(kind, line) {
            session_next(pre, line) is Menu
        } else {
            kind_at(session_next(pre, line)) == Some(kind)
        }),
{
}

} // verus!
