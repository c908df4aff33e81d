use collection_explorer::command::{Problem, Verb};
use collection_explorer::sets::{
    parse_set_command, HashSetEditor, SetCommand, SetReply, TreeSetEditor,
};

#[test]
fn second_add_is_refused() {
    let mut h = HashSetEditor::new();
    let mut t = TreeSetEditor::new();
    assert_eq!(h.step("add 4"), SetReply::Added { value: 4, size: 1 });
    assert_eq!(t.step("add 4"), SetReply::Added { value: 4, size: 1 });
    assert_eq!(h.step("add 4"), SetReply::AlreadyPresent { value: 4 });
    assert_eq!(t.step("add 4"), SetReply::AlreadyPresent { value: 4 });
    assert_eq!(h.len(), 1);
    assert_eq!(t.len(), 1);
}

#[test]
fn removed_value_is_no_element() {
    let mut h = HashSetEditor::new();
    let mut t = TreeSetEditor::new();
    for line in ["add 1", "add 2", "add 3"] {
        h.step(line);
        t.step(line);
    }
    assert_eq!(h.step("contains 2"), SetReply::Membership { value: 2, present: true });
    assert_eq!(t.step("contains 2"), SetReply::Membership { value: 2, present: true });
    assert_eq!(h.step("remove 2"), SetReply::Removed { value: 2, size: 2 });
    assert_eq!(t.step("remove 2"), SetReply::Removed { value: 2, size: 2 });
    assert_eq!(h.step("contains 2"), SetReply::Membership { value: 2, present: false });
    assert_eq!(t.step("contains 2"), SetReply::Membership { value: 2, present: false });
    assert_eq!(h.step("remove 2"), SetReply::NotPresent { value: 2 });
    assert_eq!(t.step("remove 2"), SetReply::NotPresent { value: 2 });
    assert!(!h.contains(2));
    assert!(t.contains(3));
}

#[test]
fn tree_set_lists_in_ascending_order() {
    let mut t = TreeSetEditor::new();
    assert_eq!(t.step("show"), SetReply::Empty);
    let lines = [
        "add 5",
        "add -1",
        "add 12",
        "add 0",
        "remove 5",
        "add 7",
        "add -2147483648",
        "add 2147483647",
        "add 7",
    ];
    for line in lines {
        t.step(line);
    }
    assert_eq!(
        t.step("show"),
        SetReply::Listing { contents: vec![i32::MIN, -1, 0, 7, 12, i32::MAX] }
    );
    assert_eq!(t.contents(), vec![i32::MIN, -1, 0, 7, 12, i32::MAX]);
}

#[test]
fn hash_set_lists_each_element_once() {
    let mut h = HashSetEditor::new();
    assert_eq!(h.step("show"), SetReply::Empty);
    for line in ["add 5", "add -1", "add 12", "add 5", "remove 12", "add 3"] {
        h.step(line);
    }
    let mut listed = match h.step("show") {
        SetReply::Listing { contents } => contents,
        other => panic!("no listing: {:?}", other),
    };
    listed.sort();
    assert_eq!(listed, vec![-1, 3, 5]);
}

#[test]
fn set_lines_that_are_no_command() {
    assert_eq!(parse_set_command(""), SetCommand::Blank);
    assert_eq!(parse_set_command("add"), SetCommand::Invalid(Problem::Usage(Verb::Add)));
    assert_eq!(parse_set_command("remove"), SetCommand::Invalid(Problem::Usage(Verb::Remove)));
    assert_eq!(parse_set_command("contains"), SetCommand::Invalid(Problem::Usage(Verb::Contains)));
    assert_eq!(parse_set_command("add x"), SetCommand::Invalid(Problem::InvalidNumber));
    assert_eq!(parse_set_command("remove x"), SetCommand::Invalid(Problem::InvalidNumber));
    assert_eq!(parse_set_command("contains x"), SetCommand::Invalid(Problem::InvalidNumber));
    assert_eq!(parse_set_command("get 1"), SetCommand::Invalid(Problem::UnknownCommand));
    assert_eq!(parse_set_command("contains 1"), SetCommand::Contains(1));
    assert_eq!(parse_set_command("remove -1"), SetCommand::Remove(-1));
    assert_eq!(parse_set_command("show"), SetCommand::Show);
    assert_eq!(parse_set_command("exit"), SetCommand::Exit);
}
