use collection_explorer::command::{Problem, Verb};
use collection_explorer::heap::{parse_heap_command, HeapCommand, HeapEditor, HeapReply};

#[test]
fn pops_come_out_in_descending_order() {
    let mut e = HeapEditor::new();
    let values = [5, -3, 9, 9, 0, 2147483647, -2147483648, 7, 1, 9, 4, 4, 12, 6];
    for v in values {
        e.add(v);
    }
    let mut popped = Vec::new();
    while let Some(v) = e.pop() {
        popped.push(v);
    }
    let mut expected = values.to_vec();
    expected.sort();
    expected.reverse();
    assert_eq!(popped, expected);
    assert_eq!(e.len(), 0);
    assert_eq!(e.pop(), None);
}

#[test]
fn pops_descend_after_mixed_commands() {
    let mut e = HeapEditor::new();
    let mut seed: u32 = 12345;
    let mut held: Vec<i32> = Vec::new();
    for round in 0..400 {
        seed = seed.wrapping_mul(1664525).wrapping_add(1013904223);
        let v = ((seed >> 8) % 41) as i32 - 20;
        if round % 3 == 2 {
            held.sort();
            assert_eq!(e.pop(), held.pop());
        } else {
            e.add(v);
            held.push(v);
        }
        assert_eq!(e.len(), held.len());
        assert_eq!(e.peek(), held.iter().copied().max());
    }
    let mut last = i32::MAX;
    while let Some(v) = e.pop() {
        assert!(v <= last);
        last = v;
    }
}

#[test]
fn peek_keeps_the_size() {
    let mut e = HeapEditor::new();
    assert_eq!(e.step("peek"), HeapReply::Empty);
    assert_eq!(e.step("add 3"), HeapReply::Added { value: 3, size: 1 });
    assert_eq!(e.step("add 8"), HeapReply::Added { value: 8, size: 2 });
    assert_eq!(e.step("add 5"), HeapReply::Added { value: 5, size: 3 });
    assert_eq!(e.step("peek"), HeapReply::Top { value: 8 });
    assert_eq!(e.step("peek"), HeapReply::Top { value: 8 });
    assert_eq!(e.len(), 3);
    assert_eq!(e.step("pop"), HeapReply::Popped { value: 8, size: 2 });
    assert_eq!(e.step("pop"), HeapReply::Popped { value: 5, size: 1 });
    assert_eq!(e.step("pop"), HeapReply::Popped { value: 3, size: 0 });
    assert_eq!(e.step("pop"), HeapReply::Empty);
    assert_eq!(e.step("show"), HeapReply::NothingToList);
}

#[test]
fn empty_heap_tells_a_listing_from_a_fault() {
    let mut e = HeapEditor::new();
    assert_eq!(e.step("pop"), HeapReply::Empty);
    assert_eq!(e.step("peek"), HeapReply::Empty);
    assert_eq!(e.step("show"), HeapReply::NothingToList);
    assert_eq!(e.step("add 1"), HeapReply::Added { value: 1, size: 1 });
    assert_eq!(e.step("show"), HeapReply::Listing { contents: vec![1] });
    assert_eq!(e.step("pop"), HeapReply::Popped { value: 1, size: 0 });
    assert_eq!(e.step("pop"), HeapReply::Empty);
    assert_eq!(e.step("exit"), HeapReply::Exit);
    assert_eq!(e.len(), 0);
}

#[test]
fn heap_show_has_the_largest_first() {
    let mut e = HeapEditor::new();
    for v in [1, 2, 3, 4, 5, 6, 7] {
        e.add(v);
    }
    let listed = match e.step("show") {
        HeapReply::Listing { contents } => contents,
        other => panic!("no listing: {:?}", other),
    };
    assert_eq!(listed[0], 7);
    for k in 1..listed.len() {
        assert!(listed[(k - 1) / 2] >= listed[k]);
    }
    let mut sorted = listed.clone();
    sorted.sort();
    assert_eq!(sorted, vec![1, 2, 3, 4, 5, 6, 7]);
    assert_eq!(e.contents(), listed);
}

#[test]
fn heap_lines_that_are_no_command() {
    assert_eq!(parse_heap_command(""), HeapCommand::Blank);
    assert_eq!(parse_heap_command("add"), HeapCommand::Invalid(Problem::Usage(Verb::Add)));
    assert_eq!(parse_heap_command("add x"), HeapCommand::Invalid(Problem::InvalidNumber));
    assert_eq!(parse_heap_command("remove 1"), HeapCommand::Invalid(Problem::UnknownCommand));
    assert_eq!(parse_heap_command("pop 1"), HeapCommand::Pop);
    assert_eq!(parse_heap_command("peek"), HeapCommand::Peek);
    assert_eq!(parse_heap_command("add 6"), HeapCommand::Add(6));
    assert_eq!(parse_heap_command("show"), HeapCommand::Show);
    assert_eq!(parse_heap_command("exit"), HeapCommand::Exit);
}
