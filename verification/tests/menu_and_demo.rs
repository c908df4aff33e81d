use collection_explorer::demo::{array_demo, demo_sequences, deque_demo, list_demo};
use collection_explorer::ends::EndsReply;
use collection_explorer::heap::HeapReply;
use collection_explorer::maps::MapReply;
use collection_explorer::command::{read_verb, word_of, Verb};
use collection_explorer::menu::{parse_choice, valid_verbs, Choice, Kind, Session, SessionReply};
use collection_explorer::sequence::SeqReply;
use collection_explorer::sets::SetReply;

#[test]
fn menu_numbers_open_their_editors() {
    assert_eq!(parse_choice("0"), Choice::Quit);
    assert_eq!(parse_choice("1"), Choice::Open(Kind::Sequence));
    assert_eq!(parse_choice("2"), Choice::Open(Kind::Deque));
    assert_eq!(parse_choice("3"), Choice::Open(Kind::List));
    assert_eq!(parse_choice("4"), Choice::Open(Kind::HashMap));
    assert_eq!(parse_choice("5"), Choice::Open(Kind::TreeMap));
    assert_eq!(parse_choice("6"), Choice::Open(Kind::HashSet));
    assert_eq!(parse_choice("7"), Choice::Open(Kind::TreeSet));
    assert_eq!(parse_choice("8"), Choice::Open(Kind::Heap));
    assert_eq!(parse_choice(" 3 \n"), Choice::Open(Kind::List));
    assert_eq!(parse_choice("+3"), Choice::Open(Kind::List));
    assert_eq!(parse_choice("003"), Choice::Open(Kind::List));
}

#[test]
fn menu_refuses_other_lines() {
    assert_eq!(parse_choice("9"), Choice::OutOfRange);
    assert_eq!(parse_choice("4294967295"), Choice::OutOfRange);
    assert_eq!(parse_choice("4294967296"), Choice::NotANumber);
    assert_eq!(parse_choice(""), Choice::NotANumber);
    assert_eq!(parse_choice("\n"), Choice::NotANumber);
    assert_eq!(parse_choice("one"), Choice::NotANumber);
    assert_eq!(parse_choice("-1"), Choice::NotANumber);
    assert_eq!(parse_choice("1 2"), Choice::NotANumber);
    assert_eq!(parse_choice("1.0"), Choice::NotANumber);
}

#[test]
fn session_goes_to_an_editor_and_back() {
    let mut s = Session::new();
    assert_eq!(s.kind(), None);
    assert_eq!(s.feed("nine"), SessionReply::AtMenu(Choice::NotANumber));
    assert_eq!(s.feed("9"), SessionReply::AtMenu(Choice::OutOfRange));
    assert_eq!(s.kind(), None);
    assert_eq!(s.feed("1"), SessionReply::AtMenu(Choice::Open(Kind::Sequence)));
    assert_eq!(s.kind(), Some(Kind::Sequence));
    assert_eq!(
        s.feed("add 4"),
        SessionReply::InSequence(SeqReply::Added { value: 4, contents: vec![4] })
    );
    assert_eq!(
        s.feed("0"),
        SessionReply::InSequence(SeqReply::Invalid(collection_explorer::command::Problem::UnknownCommand))
    );
    assert_eq!(s.kind(), Some(Kind::Sequence));
    assert_eq!(s.feed("exit"), SessionReply::InSequence(SeqReply::Exit));
    assert_eq!(s.kind(), None);
    assert_eq!(s.feed("1"), SessionReply::AtMenu(Choice::Open(Kind::Sequence)));
    assert_eq!(s.feed("show"), SessionReply::InSequence(SeqReply::Listing { contents: vec![] }));
    assert_eq!(s.feed("exit"), SessionReply::InSequence(SeqReply::Exit));
    assert_eq!(s.feed("0"), SessionReply::AtMenu(Choice::Quit));
    assert_eq!(s.kind(), None);
}

#[test]
fn double_ended_containers_scenario() {
    for choice in ["2", "3"] {
        let mut s = Session::new();
        s.feed(choice);
        assert_eq!(
            s.feed("add_front 1"),
            SessionReply::InEnds(EndsReply::AddedFront { value: 1, contents: vec![1] })
        );
        assert_eq!(
            s.feed("add_back 2"),
            SessionReply::InEnds(EndsReply::AddedBack { value: 2, contents: vec![1, 2] })
        );
        assert_eq!(
            s.feed("pop_front"),
            SessionReply::InEnds(EndsReply::PoppedFront { value: 1, contents: vec![2] })
        );
        assert_eq!(
            s.feed("pop_back"),
            SessionReply::InEnds(EndsReply::PoppedBack { value: 2, contents: vec![] })
        );
        assert_eq!(s.feed("pop_front"), SessionReply::InEnds(EndsReply::Empty));
        assert_eq!(s.feed("exit"), SessionReply::InEnds(EndsReply::Exit));
        assert_eq!(s.kind(), None);
    }
}

#[test]
fn hash_map_scenario() {
    let mut s = Session::new();
    assert_eq!(s.feed("4"), SessionReply::AtMenu(Choice::Open(Kind::HashMap)));
    assert_eq!(
        s.feed("add a 1"),
        SessionReply::InMap(MapReply::Stored { key: "a".to_string(), value: 1, size: 1 })
    );
    assert_eq!(
        s.feed("add b 2"),
        SessionReply::InMap(MapReply::Stored { key: "b".to_string(), value: 2, size: 2 })
    );
    assert_eq!(
        s.feed("remove a"),
        SessionReply::InMap(MapReply::Removed { key: "a".to_string(), value: 1, size: 1 })
    );
    assert_eq!(s.feed("get a"), SessionReply::InMap(MapReply::NotFound));
    assert_eq!(
        s.feed("get b"),
        SessionReply::InMap(MapReply::Found { key: "b".to_string(), value: 2 })
    );
    assert_eq!(s.feed("exit"), SessionReply::InMap(MapReply::Exit));
    assert_eq!(s.kind(), None);
}

#[test]
fn session_reaches_every_editor() {
    let mut s = Session::new();
    s.feed("5");
    assert_eq!(s.kind(), Some(Kind::TreeMap));
    s.feed("add b 2");
    s.feed("add a 1");
    assert_eq!(
        s.feed("show"),
        SessionReply::InMap(MapReply::Listing { entries: vec![("a".to_string(), 1), ("b".to_string(), 2)] })
    );
    s.feed("exit");
    s.feed("6");
    assert_eq!(s.kind(), Some(Kind::HashSet));
    assert_eq!(s.feed("add 1"), SessionReply::InSet(SetReply::Added { value: 1, size: 1 }));
    assert_eq!(s.feed("show"), SessionReply::InSet(SetReply::Listing { contents: vec![1] }));
    s.feed("exit");
    s.feed("7");
    assert_eq!(s.kind(), Some(Kind::TreeSet));
    s.feed("add 2");
    s.feed("add 1");
    assert_eq!(s.feed("show"), SessionReply::InSet(SetReply::Listing { contents: vec![1, 2] }));
    s.feed("exit");
    s.feed("8");
    assert_eq!(s.kind(), Some(Kind::Heap));
    s.feed("add 2");
    s.feed("add 9");
    assert_eq!(s.feed("pop"), SessionReply::InHeap(HeapReply::Popped { value: 9, size: 1 }));
    assert_eq!(s.feed("exit"), SessionReply::InHeap(HeapReply::Exit));
    assert_eq!(s.kind(), None);
}

#[test]
fn editors_start_empty_each_time() {
    let mut s = Session::new();
    s.feed("7");
    s.feed("add 1");
    s.feed("exit");
    s.feed("7");
    assert_eq!(s.feed("show"), SessionReply::InSet(SetReply::Empty));
}

#[test]
fn demonstration_shows_the_scripted_values() {
    let a = array_demo();
    assert_eq!(a.created, Vec::<i32>::new());
    assert_eq!(a.pushed, vec![10, 20, 30]);
    assert_eq!(a.length, 3);
    assert_eq!(a.second, 20);
    assert_eq!(a.inserted, vec![10, 15, 20, 30]);
    assert_eq!(a.removed, 20);
    assert_eq!(a.left, vec![10, 15, 30]);
    let d = deque_demo();
    assert_eq!(d.created, Vec::<i32>::new());
    assert_eq!(d.pushed_back, vec![100, 200]);
    assert_eq!(d.pushed_front, vec![50, 100, 200]);
    assert_eq!(d.popped, Some(50));
    assert_eq!(d.left, vec![100, 200]);
    assert_eq!(d.back, Some(200));
    let l = list_demo();
    assert_eq!(l.created, Vec::<i32>::new());
    assert_eq!(l.pushed_back, vec![5, 10, 15]);
    assert_eq!(l.pushed_front, vec![1, 5, 10, 15]);
    assert_eq!(l.popped, Some(1));
    assert_eq!(l.left, vec![5, 10, 15]);
    assert_eq!(l.length, 3);
    let all = demo_sequences();
    assert_eq!(all.array, a);
    assert_eq!(all.deque, d);
    assert_eq!(all.list, l);
}

#[test]
fn each_editor_names_its_verbs() {
    assert_eq!(valid_verbs(Kind::Sequence), vec![Verb::Add, Verb::Remove, Verb::Show, Verb::Exit]);
    let ends = vec![
        Verb::AddFront,
        Verb::AddBack,
        Verb::PopFront,
        Verb::PopBack,
        Verb::Show,
        Verb::Exit,
    ];
    assert_eq!(valid_verbs(Kind::Deque), ends);
    assert_eq!(valid_verbs(Kind::List), ends);
    let maps = vec![Verb::Add, Verb::Get, Verb::Remove, Verb::Show, Verb::Exit];
    assert_eq!(valid_verbs(Kind::HashMap), maps);
    assert_eq!(valid_verbs(Kind::TreeMap), maps);
    let sets = vec![Verb::Add, Verb::Remove, Verb::Contains, Verb::Show, Verb::Exit];
    assert_eq!(valid_verbs(Kind::HashSet), sets);
    assert_eq!(valid_verbs(Kind::TreeSet), sets);
    let heap = vec![Verb::Add, Verb::Pop, Verb::Peek, Verb::Show, Verb::Exit];
    assert_eq!(valid_verbs(Kind::Heap), heap);
}

#[test]
fn verbs_are_read_from_their_own_words() {
    let all = [
        Verb::Add,
        Verb::Remove,
        Verb::Show,
        Verb::Exit,
        Verb::AddFront,
        Verb::AddBack,
        Verb::PopFront,
        Verb::PopBack,
        Verb::Get,
        Verb::Contains,
        Verb::Pop,
        Verb::Peek,
    ];
    for verb in all {
        assert_eq!(read_verb(word_of(verb)), Some(verb));
    }
    assert_eq!(word_of(Verb::AddFront), "add_front");
    assert_eq!(word_of(Verb::Contains), "contains");
}

#[test]
fn unknown_commands_are_those_outside_the_list() {
    let words = [
        "add", "remove", "show", "exit", "add_front", "add_back", "pop_front", "pop_back", "get",
        "contains", "pop", "peek", "list", "quit",
    ];
    let kinds = [
        ("1", Kind::Sequence),
        ("2", Kind::Deque),
        ("3", Kind::List),
        ("4", Kind::HashMap),
        ("5", Kind::TreeMap),
        ("6", Kind::HashSet),
        ("7", Kind::TreeSet),
        ("8", Kind::Heap),
    ];
    let unknown = collection_explorer::command::Problem::UnknownCommand;
    for (number, kind) in kinds {
        for word in words {
            let mut s = Session::new();
            s.feed(number);
            let reply = s.feed(word);
            let refused = match reply {
                SessionReply::InSequence(SeqReply::Invalid(p)) => p == unknown,
                SessionReply::InEnds(EndsReply::Invalid(p)) => p == unknown,
                SessionReply::InMap(MapReply::Invalid(p)) => p == unknown,
                SessionReply::InSet(SetReply::Invalid(p)) => p == unknown,
                SessionReply::InHeap(HeapReply::Invalid(p)) => p == unknown,
                _ => false,
            };
            let listed = match read_verb(word) {
                Some(verb) => valid_verbs(kind).contains(&verb),
                None => false,
            };
            assert_eq!(refused, !listed, "{:?} in {:?}", word, kind);
        }
    }
}

#[test]
fn menu_reads_a_line_as_trimming_and_parsing_would() {
    let lines = [
        "", " ", "\n", "0", "0\n", " 0", "1\r\n", "\t8 ", "9", "12", "+4", "-4", "4 4", "4a", "a4",
        "٤", "4294967295", "4294967296", "00000000000000000005", "\u{3000}5\u{00A0}", "5\u{200B}",
        "++5", "5.", "0x5",
    ];
    for line in lines {
        let expected = match line.trim().parse::<u32>() {
            Err(_) => Choice::NotANumber,
            Ok(0) => Choice::Quit,
            Ok(1) => Choice::Open(Kind::Sequence),
            Ok(2) => Choice::Open(Kind::Deque),
            Ok(3) => Choice::Open(Kind::List),
            Ok(4) => Choice::Open(Kind::HashMap),
            Ok(5) => Choice::Open(Kind::TreeMap),
            Ok(6) => Choice::Open(Kind::HashSet),
            Ok(7) => Choice::Open(Kind::TreeSet),
            Ok(8) => Choice::Open(Kind::Heap),
            Ok(_) => Choice::OutOfRange,
        };
        assert_eq!(parse_choice(line), expected, "line {:?}", line);
    }
}
