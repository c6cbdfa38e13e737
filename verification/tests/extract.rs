use doctest::block::{fence_block, CodeBlock, Document};
use doctest::events::MdEvent;
use doctest::extract::{extract_blocks, extract_from_events, ExtractError};

fn doc(body: &str) -> Document {
    Document { path: String::from("guide.md"), body: String::from(body) }
}

#[test]
fn no_fences_yields_no_blocks() {
    let blocks = extract_blocks(&doc("Intro text.\n\nA paragraph with *emphasis*.\n")).unwrap();
    assert_eq!(blocks.len(), 0);
}

#[test]
fn empty_document_yields_no_blocks() {
    let blocks = extract_blocks(&doc("")).unwrap();
    assert_eq!(blocks.len(), 0);
}

#[test]
fn single_fenced_region() {
    let blocks = extract_blocks(&doc("```lang\nhello\n```\n")).unwrap();
    assert_eq!(blocks.len(), 1);
    assert_eq!(blocks[0].annotation, "lang");
    assert_eq!(blocks[0].text(), "hello\n");
}

#[test]
fn empty_annotation_is_kept() {
    let blocks = extract_blocks(&doc("```\nbody\n```\n")).unwrap();
    assert_eq!(blocks.len(), 1);
    assert_eq!(blocks[0].annotation, "");
    assert_eq!(blocks[0].text(), "body\n");
}

#[test]
fn indented_code_is_not_a_fenced_region() {
    let blocks = extract_blocks(&doc("Intro.\n\n    x = 1\n")).unwrap();
    assert_eq!(blocks.len(), 0);
}

#[test]
fn multi_line_body_is_concatenated_in_order() {
    let blocks = extract_blocks(&doc("```lang\nline one\nline two\nline three\n```\n")).unwrap();
    assert_eq!(blocks.len(), 1);
    assert_eq!(blocks[0].text(), "line one\nline two\nline three\n");
}

#[test]
fn text_is_the_fragment_concatenation() {
    let none = CodeBlock { annotation: String::from("a"), texts: vec![] };
    assert_eq!(none.text(), "");
    let one = CodeBlock { annotation: String::from("a"), texts: vec![String::from("xy")] };
    assert_eq!(one.text(), "xy");
    let many = CodeBlock {
        annotation: String::from("a"),
        texts: vec![String::from("x"), String::from("y"), String::from("z")],
    };
    assert_eq!(many.text(), "xyz");
}

#[test]
fn refragmenting_keeps_text() {
    let many = CodeBlock {
        annotation: String::from("a"),
        texts: vec![String::from("line "), String::from("one\n")],
    };
    let one = CodeBlock { annotation: String::from("a"), texts: vec![many.text()] };
    assert_eq!(one.text(), many.text());
}

#[test]
fn nested_block_start_fails() {
    let events = vec![
        MdEvent::BlockStart(String::from("outer")),
        MdEvent::Text(String::from("body\n")),
        MdEvent::BlockStart(String::from("inner")),
    ];
    let r = extract_from_events(events);
    assert!(matches!(r, Err(ExtractError::NestedBlock)));
}

#[test]
fn end_without_open_block_fails() {
    let events = vec![
        MdEvent::Text(String::from("prose\n")),
        MdEvent::BlockEnd(String::from("lang")),
    ];
    let r = extract_from_events(events);
    assert!(matches!(r, Err(ExtractError::UnexpectedEndTag)));
}

#[test]
fn mismatched_end_annotation_fails() {
    let events = vec![
        MdEvent::BlockStart(String::from("lang-a")),
        MdEvent::Text(String::from("body\n")),
        MdEvent::BlockEnd(String::from("lang-b")),
    ];
    let r = extract_from_events(events);
    assert!(matches!(r, Err(ExtractError::UnexpectedEndTag)));
}

#[test]
fn unterminated_block_fails() {
    let events = vec![
        MdEvent::BlockStart(String::from("lang")),
        MdEvent::Text(String::from("body\n")),
    ];
    let r = extract_from_events(events);
    assert!(matches!(r, Err(ExtractError::UnterminatedBlock)));
}

#[test]
fn events_alone_reconstruct_blocks() {
    let events = vec![
        MdEvent::Other,
        MdEvent::Text(String::from("prose outside\n")),
        MdEvent::BlockStart(String::from("lang")),
        MdEvent::Text(String::from("one")),
        MdEvent::Other,
        MdEvent::Text(String::from("two")),
        MdEvent::BlockEnd(String::from("lang")),
        MdEvent::Text(String::from("more prose\n")),
    ];
    let blocks = extract_from_events(events).unwrap();
    assert_eq!(blocks.len(), 1);
    assert_eq!(blocks[0].annotation, "lang");
    assert_eq!(blocks[0].texts.len(), 2);
    assert_eq!(blocks[0].text(), "onetwo");
}

#[test]
fn round_trip_reproduces_block() {
    let annotation = "lang-a";
    let body = "line one\nline two\n";
    let serialized = fence_block(annotation, body);
    assert_eq!(serialized, "```lang-a\nline one\nline two\n```\n");
    let blocks = extract_blocks(&doc(&serialized)).unwrap();
    assert_eq!(blocks.len(), 1);
    assert_eq!(blocks[0].annotation, annotation);
    assert_eq!(blocks[0].text(), body);
    let again = extract_blocks(&doc(&fence_block(&blocks[0].annotation, &blocks[0].text())))
        .unwrap();
    assert_eq!(again.len(), 1);
    assert_eq!(again[0].annotation, annotation);
    assert_eq!(again[0].text(), body);
}

#[test]
fn guide_scenario_yields_two_blocks_in_order() {
    let body = "Intro text.\n```lang-a\nline one\nline two\n```\nMore prose.\n```lang-b\nx = 1\n```\n";
    let blocks = extract_blocks(&doc(body)).unwrap();
    assert_eq!(blocks.len(), 2);
    assert_eq!(blocks[0].annotation, "lang-a");
    assert_eq!(blocks[0].text(), "line one\nline two\n");
    assert_eq!(blocks[1].annotation, "lang-b");
    assert_eq!(blocks[1].text(), "x = 1\n");
}
