//! The editors of a map from text keys to integers: one keeps its entries in no order that
//! it promises, the other keeps them sorted by key.
//!
//! Both hold their entries in a vector, each key once: the first finds a key by looking at
//! every entry, the second keeps the vector sorted in the order of texts.

use crate::assoc::{
    as_map, distinct_keys, has_key, lemma_insert_at, lemma_map_keys, lemma_map_values,
    lemma_remove_at, lemma_sorted_insert, lemma_sorted_is_distinct, lemma_sorted_stays,
    lemma_text_lt_irreflexive, lemma_text_lt_total, lemma_text_lt_transitive, lemma_update_at,
    pairs, sorted_keys, text_less, text_lt,
};
use crate::command::{read_verb, verb_of, Problem, Verb};
use crate::number::{i32_of, parse_i32};
use crate::text::{same_text, split_words, words};
use vstd::prelude::*;

verus! {

/// A command of a map editor, as read from one line.
#[derive(Debug, PartialEq, Eq)]
pub enum MapCommand {
    /// The line holds no word.
    Blank,
    /// Give a key a value, in place of the one that it may have.
    Add(String, i32),
    /// Ask for the value of a key.
    Get(String),
    /// Delete a key with its value.
    Remove(String),
    /// List the entries.
    Show,
    /// Leave the editor.
    Exit,
    /// The line is no command.
    Invalid(Problem),
}

/// What a command of a map editor asks for, each key as the text that it holds.
pub enum MapRequest {
    Blank,
    Add(Seq<char>, i32),
    Get(Seq<char>),
    Remove(Seq<char>),
    Show,
    Exit,
    Invalid(Problem),
}

impl View for MapCommand {
    type V = MapRequest;

    open spec fn view(&self) -> MapRequest {
        match *self {
            MapCommand::Blank => MapRequest::Blank,
            MapCommand::Add(k, v) => MapRequest::Add(k@, v),
            MapCommand::Get(k) => MapRequest::Get(k@),
            MapCommand::Remove(k) => MapRequest::Remove(k@),
            MapCommand::Show => MapRequest::Show,
            MapCommand::Exit => MapRequest::Exit,
            MapCommand::Invalid(p) => MapRequest::Invalid(p),
        }
    }
}

/// What a map editor answers to a command.
#[derive(Debug, PartialEq, Eq)]
pub enum MapReply {
    /// Nothing was asked.
    Nothing,
    /// `key` now has `value`; the map now holds `size` keys.
    Stored { key: String, value: i32, size: usize },
    /// `key` has `value`.
    Found { key: String, value: i32 },
    /// The key of a `get` or a `remove` is none of the map; nothing changed.
    NotFound,
    /// `key` had `value` and is deleted; the map now holds `size` keys.
    Removed { key: String, value: i32, size: usize },
    /// The map holds nothing to list.
    Empty,
    /// The entries, each key once.
    Listing { entries: Vec<(String, i32)> },
    /// The editor is left.
    Exit,
    /// The line was no command; nothing changed.
    Invalid(Problem),
}

/// What a line asks of a map editor.
pub open spec fn map_request(line: Seq<char>) -> MapRequest {
    let w = words(line);
    if w.len() == 0 {
        MapRequest::Blank
    } else {
        match verb_of(w[0]) {
            Some(Verb::Add) => if w.len() < 3 {
                MapRequest::Invalid(Problem::Usage(Verb::Add))
            } else {
                match i32_of(w[2]) {
                    Some(v) => MapRequest::Add(w[1], v),
                    None => MapRequest::Invalid(Problem::InvalidNumber),
                }
            },
            Some(Verb::Get) => if w.len() < 2 {
                MapRequest::Invalid(Problem::Usage(Verb::Get))
            } else {
                MapRequest::Get(w[1])
            },
            Some(Verb::Remove) => if w.len() < 2 {
                MapRequest::Invalid(Problem::Usage(Verb::Remove))
            } else {
                MapRequest::Remove(w[1])
            },
            Some(Verb::Show) => MapRequest::Show,
            Some(Verb::Exit) => MapRequest::Exit,
            _ => MapRequest::Invalid(Problem::UnknownCommand),
        }
    }
}

/// The map after a command, given the map before it.
pub open spec fn map_next(pre: Map<Seq<char>, i32>, req: MapRequest) -> Map<Seq<char>, i32> {
    match req {
        MapRequest::Add(k, v) => pre.insert(k, v),
        MapRequest::Remove(k) => pre.remove(k),
        _ => pre,
    }
}

/// Whether `entries` lists the map `m`: each key once with its value, and no other key; by
/// ascending key where `sorted`.
pub open spec fn lists_map(
    entries: Seq<(String, i32)>,
    m: Map<Seq<char>, i32>,
    sorted: bool,
) -> bool {
    &&& distinct_keys(pairs(entries))
    &&& as_map(pairs(entries)) == m
    &&& sorted ==> sorted_keys(pairs(entries))
}

/// Whether `reply` is the answer to `req` on the map `pre`, from the editor that lists by
/// ascending key where `sorted`, and from the other one else.
pub open spec fn map_reply_fits(
    reply: MapReply,
    pre: Map<Seq<char>, i32>,
    req: MapRequest,
    sorted: bool,
) -> bool {
    match req {
        MapRequest::Blank => reply == MapReply::Nothing,
        MapRequest::Add(k, v) => reply matches MapReply::Stored { key, value, size } && key@ == k
            && value == v && size == pre.insert(k, v).len(),
        MapRequest::Get(k) => if pre.contains_key(k) {
            reply matches MapReply::Found { key, value } && key@ == k && value == pre[k]
        } else {
            reply == MapReply::NotFound
        },
        MapRequest::Remove(k) => if pre.contains_key(k) {
            reply matches MapReply::Removed { key, value, size } && key@ == k && value == pre[k]
                && size == pre.len() - 1
        } else {
            reply == MapReply::NotFound
        },
        MapRequest::Show => if pre.len() == 0 {
            reply == MapReply::Empty
        } else {
            reply matches MapReply::Listing { entries } && lists_map(entries@, pre, sorted)
        },
        MapRequest::Exit => reply == MapReply::Exit,
        MapRequest::Invalid(p) => reply == MapReply::Invalid(p),
    }
}

/// Reads a line as a command of a map editor.
pub fn parse_map_command(line: &str) -> (cmd: MapCommand)
    ensures
        cmd@ == map_request(line@),
{
    let w = split_words(line);
    if w.len() == 0 {
        return MapCommand::Blank;
    }
    match read_verb(w[0].as_str()) {
        Some(Verb::Add) => {
            if w.len() < 3 {
                MapCommand::Invalid(Problem::Usage(Verb::Add))
            } else {
                match parse_i32(w[2].as_str()) {
                    Some(v) => MapCommand::Add(w[1].clone(), v),
                    None => MapCommand::Invalid(Problem::InvalidNumber),
                }
            }
        },
        Some(Verb::Get) => {
            if w.len() < 2 {
                MapCommand::Invalid(Problem::Usage(Verb::Get))
            } else {
                MapCommand::Get(w[1].clone())
            }
        },
        Some(Verb::Remove) => {
            if w.len() < 2 {
                MapCommand::Invalid(Problem::Usage(Verb::Remove))
            } else {
                MapCommand::Remove(w[1].clone())
            }
        },
        Some(Verb::Show) => MapCommand::Show,
        Some(Verb::Exit) => MapCommand::Exit,
        _ => MapCommand::Invalid(Problem::UnknownCommand),
    }
}

/// A copy of the entries.
fn copy_entries(v: &Vec<(String, i32)>) -> (out: Vec<(String, i32)>)
    ensures
        pairs(out@) == pairs(v@),
{
    let mut out: Vec<(String, i32)> = Vec::new();
    let mut i: usize = 0;
    while i < v.len()
        invariant
            i <= v.len(),
            out@.len() == i,
            forall|j: int| 0 <= j < i ==> out@[j].0@ == v@[j].0@ && out@[j].1 == v@[j].1,
        decreases v.len() - i,
    {
        out.push((v[i].0.clone(), v[i].1));
        i += 1;
    }
    assert(pairs(out@) =~= pairs(v@));
    out
}

/// The index of the entry with the key `key`, if there is one.
fn position_of(v: &Vec<(String, i32)>, key: &str) -> (r: Option<usize>)
    ensures
        match r {
            Some(i) => i < v.len() && pairs(v@)[i as int].0 == key@,
            None => !has_key(pairs(v@), key@),
        },
{
    let mut i: usize = 0;
    while i < v.len()
        invariant
            i <= v.len(),
            forall|j: int| 0 <= j < i ==> (#[trigger] pairs(v@)[j]).0 != key@,
        decreases v.len() - i,
    {
        if same_text(v[i].0.as_str(), key) {
            return Some(i);
        }
        i += 1;
    }
    None
}

/// The first index whose key does not stand before `key`, and whether its key is `key`.
fn slot_of(v: &Vec<(String, i32)>, key: &str) -> (r: (usize, bool))
    requires
        sorted_keys(pairs(v@)),
    ensures
        r.0 <= v.len(),
        forall|j: int| 0 <= j < r.0 ==> text_lt((#[trigger] pairs(v@)[j]).0, key@),
        r.1 ==> r.0 < v.len() && pairs(v@)[r.0 as int].0 == key@,
        !r.1 && r.0 < v.len() ==> text_lt(key@, pairs(v@)[r.0 as int].0),
        r.1 == has_key(pairs(v@), key@),
{
    let mut i: usize = 0;
    while i < v.len() && text_less(v[i].0.as_str(), key)
        invariant
            i <= v.len(),
            forall|j: int| 0 <= j < i ==> text_lt((#[trigger] pairs(v@)[j]).0, key@),
        decreases v.len() - i,
    {
        i += 1;
    }
    let found = i < v.len() && same_text(v[i].0.as_str(), key);
    proof {
        let p = pairs(v@);
        if !found && i < v.len() {
            assert(p[i as int].0 == v@[i as int].0@);
            lemma_text_lt_total(p[i as int].0, key@);
        }
        if found {
            assert(p[i as int].0 == key@);
        } else if has_key(p, key@) {
            let j = choose|j: int| 0 <= j < p.len() && (#[trigger] p[j]).0 == key@;
            lemma_text_lt_irreflexive(key@);
            if j < i {
                assert(text_lt(p[j].0, key@));
            } else if j > i {
                assert(text_lt(p[i as int].0, p[j].0));
                lemma_text_lt_transitive(key@, p[i as int].0, p[j].0);
            }
        }
    }
    (i, found)
}

/// The editor of a map whose entries stand in no order that is promised: a vector of
/// entries with distinct keys.
pub struct HashMapEditor {
    entries: Vec<(String, i32)>,
}

impl View for HashMapEditor {
    type V = Map<Seq<char>, i32>;

    closed spec fn view(&self) -> Map<Seq<char>, i32> {
        as_map(pairs(self.entries@))
    }
}

impl HashMapEditor {
    /// No key occurs twice.
    #[verifier::type_invariant]
    closed spec fn wf(self) -> bool {
        distinct_keys(pairs(self.entries@))
    }

    /// An editor that holds nothing.
    pub fn new() -> (e: Self)
        ensures
            e@ == Map::<Seq<char>, i32>::empty(),
    {
        HashMapEditor { entries: Vec::new() }
    }

    /// The number of keys.
    pub fn len(&self) -> (n: usize)
        ensures
            self@.dom().finite(),
            n == self@.len(),
    {
        proof {
            use_type_invariant(self);
            lemma_map_keys(pairs(self.entries@));
            lemma_map_values(pairs(self.entries@));
        }
        self.entries.len()
    }

    /// The value of `key`; `None` where the map has no such key.
    pub fn get(&self, key: &str) -> (r: Option<i32>)
        ensures
            self@.contains_key(key@) ==> r == Some(self@[key@]),
            !self@.contains_key(key@) ==> r.is_none(),
    {
        proof {
            use_type_invariant(self);
            lemma_map_keys(pairs(self.entries@));
            lemma_map_values(pairs(self.entries@));
        }
        match position_of(&self.entries, key) {
            Some(i) => {
                assert(pairs(self.entries@)[i as int].1 == self.entries@[i as int].1);
                Some(self.entries[i].1)
            },
            None => None,
        }
    }

    /// Gives `key` the value `value`, in place of the one that it may have.
    pub fn add(&mut self, key: String, value: i32)
        ensures
            final(self)@ == old(self)@.insert(key@, value),
    {
        proof {
            use_type_invariant(&*self);
        }
        // Taken out while it changes, so that the editor is whole at every step.
        let mut entries: Vec<(String, i32)> = Vec::new();
        std::mem::swap(&mut self.entries, &mut entries);
        let ghost p = pairs(entries@);
        match position_of(&entries, key.as_str()) {
            Some(i) => {
                entries.set(i, (key, value));
                proof {
                    lemma_update_at(p, i as int, value);
                    assert(pairs(entries@) =~= p.update(i as int, (p[i as int].0, value)));
                }
            },
            None => {
                entries.push((key, value));
                proof {
                    lemma_insert_at(p, p.len() as int, key@, value);
                    assert(pairs(entries@) =~= p.insert(p.len() as int, (key@, value)));
                }
            },
        }
        self.entries = entries;
    }

    /// Deletes `key` and returns the value that it had; `None`, and nothing changes, where
    /// the map has no such key.
    pub fn remove(&mut self, key: &str) -> (r: Option<i32>)
        ensures
            final(self)@ == old(self)@.remove(key@),
            old(self)@.contains_key(key@) ==> r == Some(old(self)@[key@]),
            !old(self)@.contains_key(key@) ==> r.is_none(),
    {
        proof {
            use_type_invariant(&*self);
        }
        // Taken out while it changes, so that the editor is whole at every step.
        let mut entries: Vec<(String, i32)> = Vec::new();
        std::mem::swap(&mut self.entries, &mut entries);
        let ghost p = pairs(entries@);
        proof {
            lemma_map_keys(p);
            lemma_map_values(p);
        }
        let r = match position_of(&entries, key) {
            Some(i) => {
                let old_entry = entries.remove(i);
                proof {
                    lemma_remove_at(p, i as int);
                    assert(pairs(entries@) =~= p.remove(i as int));
                    assert(p[i as int].1 == old_entry.1);
                }
                Some(old_entry.1)
            },
            None => {
                assert(as_map(p).remove(key@) =~= as_map(p));
                None
            },
        };
        self.entries = entries;
        r
    }

    /// The entries, each key once, in no order that is promised.
    pub fn entries(&self) -> (v: Vec<(String, i32)>)
        ensures
            lists_map(v@, self@, false),
    {
        proof {
            use_type_invariant(self);
        }
        copy_entries(&self.entries)
    }

    /// Carries out a command and answers it.
    pub fn apply(&mut self, cmd: MapCommand) -> (reply: MapReply)
        ensures
            final(self)@ == map_next(old(self)@, cmd@),
            map_reply_fits(reply, old(self)@, cmd@, false),
    {
        match cmd {
            MapCommand::Blank => MapReply::Nothing,
            MapCommand::Add(key, value) => {
                let shown = key.clone();
                self.add(key, value);
                MapReply::Stored { key: shown, value, size: self.len() }
            },
            MapCommand::Get(key) => match self.get(key.as_str()) {
                Some(value) => MapReply::Found { key, value },
                None => MapReply::NotFound,
            },
            MapCommand::Remove(key) => {
                match self.remove(key.as_str()) {
                    Some(value) => MapReply::Removed { key, value, size: self.len() },
                    None => MapReply::NotFound,
                }
            },
            MapCommand::Show => if self.len() == 0 {
                MapReply::Empty
            } else {
                MapReply::Listing { entries: self.entries() }
            },
            MapCommand::Exit => MapReply::Exit,
            MapCommand::Invalid(p) => MapReply::Invalid(p),
        }
    }

    /// Reads one line, carries out the command that it spells and answers it.
    pub fn step(&mut self, line: &str) -> (reply: MapReply)
        ensures
            final(self)@ == map_next(old(self)@, map_request(line@)),
            map_reply_fits(reply, old(self)@, map_request(line@), false),
    {
        let cmd = parse_map_command(line);
        self.apply(cmd)
    }
}

/// The editor of a map whose entries stand sorted by key: a vector of entries, each key
/// before the one after it in the order of texts.
pub struct TreeMapEditor {
    entries: Vec<(String, i32)>,
}

impl View for TreeMapEditor {
    type V = Map<Seq<char>, i32>;

    closed spec fn view(&self) -> Map<Seq<char>, i32> {
        as_map(pairs(self.entries@))
    }
}

impl TreeMapEditor {
    /// Each key stands before the one after it.
    #[verifier::type_invariant]
    closed spec fn wf(self) -> bool {
        sorted_keys(pairs(self.entries@))
    }

    /// An editor that holds nothing.
    pub fn new() -> (e: Self)
        ensures
            e@ == Map::<Seq<char>, i32>::empty(),
    {
        TreeMapEditor { entries: Vec::new() }
    }

    /// The number of keys.
    pub fn len(&self) -> (n: usize)
        ensures
            self@.dom().finite(),
            n == self@.len(),
    {
        proof {
            use_type_invariant(self);
            lemma_sorted_is_distinct(pairs(self.entries@));
            lemma_map_keys(pairs(self.entries@));
            lemma_map_values(pairs(self.entries@));
        }
        self.entries.len()
    }

    /// The value of `key`; `None` where the map has no such key.
    pub fn get(&self, key: &str) -> (r: Option<i32>)
        ensures
            self@.contains_key(key@) ==> r == Some(self@[key@]),
            !self@.contains_key(key@) ==> r.is_none(),
    {
        proof {
            use_type_invariant(self);
            lemma_sorted_is_distinct(pairs(self.entries@));
            lemma_map_keys(pairs(self.entries@));
            lemma_map_values(pairs(self.entries@));
        }
        let (i, found) = slot_of(&self.entries, key);
        if found {
            assert(pairs(self.entries@)[i as int].1 == self.entries@[i as int].1);
            Some(self.entries[i].1)
        } else {
            None
        }
    }

    /// Gives `key` the value `value`, in place of the one that it may have.
    pub fn add(&mut self, key: String, value: i32)
        ensures
            final(self)@ == old(self)@.insert(key@, value),
    {
        proof {
            use_type_invariant(&*self);
        }
        // Taken out while it changes, so that the editor is whole at every step.
        let mut entries: Vec<(String, i32)> = Vec::new();
        std::mem::swap(&mut self.entries, &mut entries);
        let ghost p = pairs(entries@);
        proof {
            lemma_sorted_is_distinct(p);
        }
        let (i, found) = slot_of(&entries, key.as_str());
        if found {
            entries.set(i, (key, value));
            proof {
                lemma_update_at(p, i as int, value);
                lemma_sorted_stays(p, i as int, value);
                assert(pairs(entries@) =~= p.update(i as int, (p[i as int].0, value)));
            }
        } else {
            entries.insert(i, (key, value));
            proof {
                lemma_sorted_insert(p, i as int, key@, value);
                lemma_insert_at(p, i as int, key@, value);
                assert(pairs(entries@) =~= p.insert(i as int, (key@, value)));
            }
        }
        self.entries = entries;
    }

    /// Deletes `key` and returns the value that it had; `None`, and nothing changes, where
    /// the map has no such key.
    pub fn remove(&mut self, key: &str) -> (r: Option<i32>)
        ensures
            final(self)@ == old(self)@.remove(key@),
            old(self)@.contains_key(key@) ==> r == Some(old(self)@[key@]),
            !old(self)@.contains_key(key@) ==> r.is_none(),
    {
        proof {
            use_type_invariant(&*self);
        }
        // Taken out while it changes, so that the editor is whole at every step.
        let mut entries: Vec<(String, i32)> = Vec::new();
        std::mem::swap(&mut self.entries, &mut entries);
        let ghost p = pairs(entries@);
        proof {
            lemma_sorted_is_distinct(p);
            lemma_map_keys(p);
            lemma_map_values(p);
        }
        let (i, found) = slot_of(&entries, key);
        let r = if found {
            let old_entry = entries.remove(i);
            proof {
                lemma_remove_at(p, i as int);
                lemma_sorted_stays(p, i as int, 0);
                assert(pairs(entries@) =~= p.remove(i as int));
                assert(p[i as int].1 == old_entry.1);
            }
            Some(old_entry.1)
        } else {
            assert(as_map(p).remove(key@) =~= as_map(p));
            None
        };
        self.entries = entries;
        r
    }

    /// The entries, each key once, by ascending key.
    pub fn entries(&self) -> (v: Vec<(String, i32)>)
        ensures
            lists_map(v@, self@, true),
    {
        proof {
            use_type_invariant(self);
            lemma_sorted_is_distinct(pairs(self.entries@));
        }
        copy_entries(&self.entries)
    }

    /// Carries out a command and answers it.
    pub fn apply(&mut self, cmd: MapCommand) -> (reply: MapReply)
        ensures
            final(self)@ == map_next(old(self)@, cmd@),
            map_reply_fits(reply, old(self)@, cmd@, true),
    {
        match cmd {
            MapCommand::Blank => MapReply::Nothing,
            MapCommand::Add(key, value) => {
                let shown = key.clone();
                self.add(key, value);
                MapReply::Stored { key: shown, value, size: self.len() }
            },
            MapCommand::Get(key) => match self.get(key.as_str()) {
                Some(value) => MapReply::Found { key, value },
                None => MapReply::NotFound,
            },
            MapCommand::Remove(key) => {
                match self.remove(key.as_str()) {
                    Some(value) => MapReply::Removed { key, value, size: self.len() },
                    None => MapReply::NotFound,
                }
            },
            MapCommand::Show => if self.len() == 0 {
                MapReply::Empty
            } else {
                MapReply::Listing { entries: self.entries() }
            },
            MapCommand::Exit => MapReply::Exit,
            MapCommand::Invalid(p) => MapReply::Invalid(p),
        }
    }

    /// Reads one line, carries out the command that it spells and answers it.
    pub fn step(&mut self, line: &str) -> (reply: MapReply)
        ensures
            final(self)@ == map_next(old(self)@, map_request(line@)),
            map_reply_fits(reply, old(self)@, map_request(line@), true),
    {
        let cmd = parse_map_command(line);
        self.apply(cmd)
    }
}

/// The map after a run of commands on an editor that held nothing.
pub open spec fn map_run(reqs: Seq<MapRequest>) -> Map<Seq<char>, i32>
    decreases reqs.len(),
{
    if reqs.len() == 0 {
        Map::empty()
    } else {
        map_next(map_run(reqs.drop_last()), reqs.last())
    }
}

/// `get` of a key right after `add` of that key with a value finds this value.
pub proof fn law_get_after_add(
    pre: Map<Seq<char>, i32>,
    k: Seq<char>,
    v: i32,
    sorted: bool,
    reply: MapReply,
)
    requires
        map_reply_fits(reply, map_next(pre, MapRequest::Add(k, v)), MapRequest::Get(k), sorted),
    ensures
        reply matches MapReply::Found { key, value } && key@ == k && value == v,
{
}

/// `get` of a key right after `remove` of that key finds nothing.
pub proof fn law_get_after_remove(
    pre: Map<Seq<char>, i32>,
    k: Seq<char>,
    sorted: bool,
    reply: MapReply,
)
    requires
        map_reply_fits(reply, map_next(pre, MapRequest::Remove(k)), MapRequest::Get(k), sorted),
    ensures
        reply == MapReply::NotFound,
{
}

/// Whatever run of commands came before, `show` of the sorted editor lists the entries by
/// strictly ascending key.
pub proof fn law_sorted_listing_ascends(reqs: Seq<MapRequest>, reply: MapReply)
    requires
        map_reply_fits(reply, map_run(reqs), MapRequest::Show, true),
    ensures
        reply == MapReply::Empty || (reply matches MapReply::Listing { entries } && sorted_keys(
            pairs(entries@),
        ) && as_map(pairs(entries@)) == map_run(reqs)),
{
}

} // verus!
