use collection_explorer::command::{Problem, Verb};
use collection_explorer::maps::{
    parse_map_command, HashMapEditor, MapCommand, MapReply, TreeMapEditor,
};

#[test]
fn hash_map_add_remove_get() {
    let mut e = HashMapEditor::new();
    assert_eq!(e.step("add a 1"), MapReply::Stored { key: "a".to_string(), value: 1, size: 1 });
    assert_eq!(e.step("add b 2"), MapReply::Stored { key: "b".to_string(), value: 2, size: 2 });
    assert_eq!(e.step("remove a"), MapReply::Removed { key: "a".to_string(), value: 1, size: 1 });
    assert_eq!(e.step("get a"), MapReply::NotFound);
    assert_eq!(e.step("get b"), MapReply::Found { key: "b".to_string(), value: 2 });
}

#[test]
fn map_add_overwrites() {
    let mut h = HashMapEditor::new();
    let mut t = TreeMapEditor::new();
    for line in ["add k 1", "add k 2", "add j 7", "add k 3"] {
        h.step(line);
        t.step(line);
    }
    assert_eq!(h.len(), 2);
    assert_eq!(t.len(), 2);
    assert_eq!(h.get("k"), Some(3));
    assert_eq!(t.get("k"), Some(3));
    assert_eq!(h.get("j"), Some(7));
    assert_eq!(t.get("j"), Some(7));
    assert_eq!(h.get("i"), None);
    assert_eq!(t.get("i"), None);
    assert_eq!(t.step("add k 4"), MapReply::Stored { key: "k".to_string(), value: 4, size: 2 });
}

#[test]
fn get_after_add_and_after_remove() {
    let mut h = HashMapEditor::new();
    let mut t = TreeMapEditor::new();
    for key in ["x", "key", "ключ", "a-b", "0"] {
        h.add(key.to_string(), 11);
        t.add(key.to_string(), 11);
        assert_eq!(h.get(key), Some(11));
        assert_eq!(t.get(key), Some(11));
        assert_eq!(h.remove(key), Some(11));
        assert_eq!(t.remove(key), Some(11));
        assert_eq!(h.get(key), None);
        assert_eq!(t.get(key), None);
        assert_eq!(h.remove(key), None);
        assert_eq!(t.remove(key), None);
    }
}

#[test]
fn tree_map_lists_by_ascending_key() {
    let mut t = TreeMapEditor::new();
    assert_eq!(t.step("show"), MapReply::Empty);
    let lines = [
        "add pear 3",
        "add apple 1",
        "add zebra 9",
        "add Apple 0",
        "add fig 2",
        "remove pear",
        "add apple 5",
        "add b 4",
        "add a 8",
        "add ab 6",
    ];
    for line in lines {
        t.step(line);
    }
    let expected = vec![
        ("Apple".to_string(), 0),
        ("a".to_string(), 8),
        ("ab".to_string(), 6),
        ("apple".to_string(), 5),
        ("b".to_string(), 4),
        ("fig".to_string(), 2),
        ("zebra".to_string(), 9),
    ];
    assert_eq!(t.step("show"), MapReply::Listing { entries: expected.clone() });
    assert_eq!(t.entries(), expected);
    let mut sorted = expected.clone();
    sorted.sort();
    assert_eq!(sorted, expected);
}

#[test]
fn hash_map_lists_each_entry_once() {
    let mut h = HashMapEditor::new();
    assert_eq!(h.step("show"), MapReply::Empty);
    let lines =
        ["add pear 3", "add apple 1", "add zebra 9", "remove apple", "add pear 4", "add fig 2"];
    for line in lines {
        h.step(line);
    }
    let mut listed = match h.step("show") {
        MapReply::Listing { entries } => entries,
        other => panic!("no listing: {:?}", other),
    };
    listed.sort();
    assert_eq!(
        listed,
        vec![("fig".to_string(), 2), ("pear".to_string(), 4), ("zebra".to_string(), 9)]
    );
}

#[test]
fn map_lines_that_are_no_command() {
    assert_eq!(parse_map_command(""), MapCommand::Blank);
    assert_eq!(parse_map_command("add"), MapCommand::Invalid(Problem::Usage(Verb::Add)));
    assert_eq!(parse_map_command("add k"), MapCommand::Invalid(Problem::Usage(Verb::Add)));
    assert_eq!(parse_map_command("add k v"), MapCommand::Invalid(Problem::InvalidNumber));
    assert_eq!(parse_map_command("get"), MapCommand::Invalid(Problem::Usage(Verb::Get)));
    assert_eq!(parse_map_command("remove"), MapCommand::Invalid(Problem::Usage(Verb::Remove)));
    assert_eq!(parse_map_command("contains k"), MapCommand::Invalid(Problem::UnknownCommand));
    assert_eq!(parse_map_command("add 1 2"), MapCommand::Add("1".to_string(), 2));
    assert_eq!(parse_map_command(" get  k  extra"), MapCommand::Get("k".to_string()));
    assert_eq!(parse_map_command("remove k"), MapCommand::Remove("k".to_string()));
    assert_eq!(parse_map_command("show"), MapCommand::Show);
    assert_eq!(parse_map_command("exit"), MapCommand::Exit);
}

#[test]
fn map_errors_change_nothing() {
    let mut t = TreeMapEditor::new();
    t.step("add k 1");
    assert_eq!(t.step("add k"), MapReply::Invalid(Problem::Usage(Verb::Add)));
    assert_eq!(t.step("add k one"), MapReply::Invalid(Problem::InvalidNumber));
    assert_eq!(t.step("remove q"), MapReply::NotFound);
    assert_eq!(t.step("nonsense"), MapReply::Invalid(Problem::UnknownCommand));
    assert_eq!(t.step(""), MapReply::Nothing);
    assert_eq!(t.step("exit"), MapReply::Exit);
    assert_eq!(t.entries(), vec![("k".to_string(), 1)]);
}
