use collection_explorer::command::{Problem, Verb};
use collection_explorer::ends::{parse_ends_command, EndsCommand, EndsEditor, EndsReply};

#[test]
fn both_ends_take_and_give() {
    let mut e = EndsEditor::new();
    assert_eq!(e.step("add_front 1"), EndsReply::AddedFront { value: 1, contents: vec![1] });
    assert_eq!(e.step("add_back 2"), EndsReply::AddedBack { value: 2, contents: vec![1, 2] });
    assert_eq!(e.step("pop_front"), EndsReply::PoppedFront { value: 1, contents: vec![2] });
    assert_eq!(e.step("pop_back"), EndsReply::PoppedBack { value: 2, contents: vec![] });
    assert_eq!(e.len(), 0);
    assert_eq!(e.step("pop_front"), EndsReply::Empty);
    assert_eq!(e.step("pop_back"), EndsReply::Empty);
}

#[test]
fn ends_show_lists_front_to_back() {
    let mut e = EndsEditor::new();
    e.step("add_back 2");
    e.step("add_front 1");
    e.step("add_back 3");
    e.step("add_front 0");
    assert_eq!(e.step("show"), EndsReply::Listing { contents: vec![0, 1, 2, 3] });
    assert_eq!(e.contents(), vec![0, 1, 2, 3]);
    assert_eq!(e.pop_back(), Some(3));
    assert_eq!(e.pop_front(), Some(0));
    assert_eq!(e.contents(), vec![1, 2]);
}

#[test]
fn ends_lines_that_are_no_command() {
    assert_eq!(parse_ends_command(""), EndsCommand::Blank);
    assert_eq!(parse_ends_command("add_front"), EndsCommand::Invalid(Problem::Usage(Verb::AddFront)));
    assert_eq!(parse_ends_command("add_back"), EndsCommand::Invalid(Problem::Usage(Verb::AddBack)));
    assert_eq!(parse_ends_command("add_front x"), EndsCommand::Invalid(Problem::InvalidNumber));
    assert_eq!(parse_ends_command("add_back 1.0"), EndsCommand::Invalid(Problem::InvalidNumber));
    assert_eq!(parse_ends_command("add 1"), EndsCommand::Invalid(Problem::UnknownCommand));
    assert_eq!(parse_ends_command("pop"), EndsCommand::Invalid(Problem::UnknownCommand));
    assert_eq!(parse_ends_command("pop_front 3"), EndsCommand::PopFront);
    assert_eq!(parse_ends_command("add_back -9"), EndsCommand::AddBack(-9));
    assert_eq!(parse_ends_command("exit"), EndsCommand::Exit);
}
