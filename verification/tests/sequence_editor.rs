use collection_explorer::command::{Problem, Verb};
use collection_explorer::sequence::{parse_seq_command, SeqCommand, SeqReply, SequenceEditor};

#[test]
fn add_appends_and_reports_contents() {
    let mut e = SequenceEditor::new();
    assert_eq!(e.step("add 10"), SeqReply::Added { value: 10, contents: vec![10] });
    assert_eq!(e.step("add -3"), SeqReply::Added { value: -3, contents: vec![10, -3] });
    assert_eq!(e.step("add 10"), SeqReply::Added { value: 10, contents: vec![10, -3, 10] });
    assert_eq!(e.len(), 3);
    assert_eq!(e.contents(), vec![10, -3, 10]);
}

#[test]
fn remove_shifts_later_elements_left() {
    let mut e = SequenceEditor::new();
    e.step("add 1");
    e.step("add 2");
    e.step("add 3");
    assert_eq!(e.step("remove 1"), SeqReply::Removed { value: 2, index: 1, contents: vec![1, 3] });
    assert_eq!(e.step("remove 2"), SeqReply::OutOfBounds);
    assert_eq!(e.step("show"), SeqReply::Listing { contents: vec![1, 3] });
    assert_eq!(e.step("remove 0"), SeqReply::Removed { value: 1, index: 0, contents: vec![3] });
    assert_eq!(e.step("remove 0"), SeqReply::Removed { value: 3, index: 0, contents: vec![] });
    assert_eq!(e.step("remove 0"), SeqReply::OutOfBounds);
    assert_eq!(e.step("show"), SeqReply::Listing { contents: vec![] });
}

#[test]
fn survivors_keep_their_relative_order() {
    let mut e = SequenceEditor::new();
    for v in [5, 1, 4, 2, 3, 9, 7] {
        e.add(v);
    }
    assert_eq!(e.remove(1), Some(1));
    assert_eq!(e.remove(4), Some(9));
    e.add(8);
    assert_eq!(e.remove(0), Some(5));
    assert_eq!(e.remove(17), None);
    assert_eq!(e.contents(), vec![4, 2, 3, 7, 8]);
}

#[test]
fn sequence_lines_that_are_no_command() {
    assert_eq!(parse_seq_command(""), SeqCommand::Blank);
    assert_eq!(parse_seq_command("   \t "), SeqCommand::Blank);
    assert_eq!(parse_seq_command("add"), SeqCommand::Invalid(Problem::Usage(Verb::Add)));
    assert_eq!(parse_seq_command("add x"), SeqCommand::Invalid(Problem::InvalidNumber));
    assert_eq!(parse_seq_command("add 2147483648"), SeqCommand::Invalid(Problem::InvalidNumber));
    assert_eq!(parse_seq_command("remove"), SeqCommand::Invalid(Problem::Usage(Verb::Remove)));
    assert_eq!(parse_seq_command("remove -1"), SeqCommand::Invalid(Problem::InvalidIndex));
    assert_eq!(parse_seq_command("remove one"), SeqCommand::Invalid(Problem::InvalidIndex));
    assert_eq!(parse_seq_command("pop"), SeqCommand::Invalid(Problem::UnknownCommand));
    assert_eq!(parse_seq_command("ADD 1"), SeqCommand::Invalid(Problem::UnknownCommand));
    assert_eq!(parse_seq_command("7"), SeqCommand::Invalid(Problem::UnknownCommand));
}

#[test]
fn sequence_commands_ignore_further_words() {
    assert_eq!(parse_seq_command("add 1 2 3"), SeqCommand::Add(1));
    assert_eq!(parse_seq_command("  remove   +2  now"), SeqCommand::Remove(2));
    assert_eq!(parse_seq_command("show all"), SeqCommand::Show);
    assert_eq!(parse_seq_command("exit"), SeqCommand::Exit);
}

#[test]
fn sequence_errors_change_nothing() {
    let mut e = SequenceEditor::new();
    e.step("add 1");
    assert_eq!(e.step("add"), SeqReply::Invalid(Problem::Usage(Verb::Add)));
    assert_eq!(e.step("add one"), SeqReply::Invalid(Problem::InvalidNumber));
    assert_eq!(e.step("remove x"), SeqReply::Invalid(Problem::InvalidIndex));
    assert_eq!(e.step("frobnicate"), SeqReply::Invalid(Problem::UnknownCommand));
    assert_eq!(e.step(""), SeqReply::Nothing);
    assert_eq!(e.step("exit"), SeqReply::Exit);
    assert_eq!(e.contents(), vec![1]);
}
