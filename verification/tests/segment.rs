use pulldown_cmark::{CodeBlockKind, CowStr, Event, Options, Parser, Tag};
use rust_markdown_notebook::notebook::{Cell, Notebook};
use rust_markdown_notebook::segment::{SegmentationError, State};

fn rust_fence() -> Tag<'static> {
    Tag::CodeBlock(CodeBlockKind::Fenced(CowStr::Borrowed("rust")))
}

fn events_of(markdown: &str) -> Vec<Event<'_>> {
    Parser::new_ext(markdown, Options::all()).collect()
}

fn code(source: &str) -> Cell {
    Cell::RustCode(source.to_string())
}

fn prose(content: &str) -> Cell {
    Cell::Markdown(content.to_string())
}

#[test]
fn empty_stream_is_an_empty_notebook() {
    assert_eq!(Notebook::from_events(Vec::new()), Ok(Notebook::new()));
    assert_eq!(Notebook::from_markdown(""), Ok(Notebook { cells: vec![] }));
}

#[test]
fn prose_alone_is_one_cell() {
    let notebook = Notebook::from_markdown("# Title\n\nHello *world*.\n").unwrap();
    assert_eq!(notebook.cells, vec![prose("# Title\n\nHello *world*.")]);
}

#[test]
fn fenced_rust_block_is_a_code_cell() {
    let notebook = Notebook::from_markdown("```rust\nlet a = 1;\n```\n").unwrap();
    assert_eq!(notebook.cells, vec![code("let a = 1;\n")]);
}

#[test]
fn trailing_prose_is_the_last_cell() {
    let notebook = Notebook::from_markdown("```rust\na\n```\n\nall done\n").unwrap();
    assert_eq!(notebook.cells, vec![code("a\n"), prose("all done")]);
}

#[test]
fn thematic_break_starts_a_new_prose_cell() {
    let notebook = Notebook::from_markdown("a markdown cell\n\n---\n\nanother cell\n").unwrap();
    assert_eq!(notebook.cells, vec![prose("a markdown cell"), prose("---\n\nanother cell")]);
}

#[test]
fn leading_break_flushes_nothing() {
    let notebook = Notebook::from_markdown("---\n\ntext\n").unwrap();
    assert_eq!(notebook.cells, vec![prose("---\n\ntext")]);
}

#[test]
fn adjacent_code_blocks_are_separate_cells() {
    let notebook = Notebook::from_markdown("```rust\na\n```\n```rust\nb\n```\n").unwrap();
    assert_eq!(notebook.cells, vec![code("a\n"), code("b\n")]);
}

#[test]
fn empty_code_block_is_an_empty_code_cell() {
    let notebook = Notebook::from_markdown("```rust\n```\n").unwrap();
    assert_eq!(notebook.cells, vec![code("")]);
}

#[test]
fn other_languages_stay_prose() {
    let notebook = Notebook::from_markdown("```python\nx = 1\n```\n").unwrap();
    assert_eq!(notebook.cells.len(), 1);
    assert!(matches!(&notebook.cells[0], Cell::Markdown(content) if content.contains("x = 1")));
    let tagged = Notebook::from_markdown("```rust,ignore\nx\n```\n").unwrap();
    assert!(matches!(&tagged.cells[0], Cell::Markdown(_)));
}

#[test]
fn mixed_document_keeps_document_order() {
    let markdown = "# Title\n\nintro\n\n---\n\nanother cell\n\n```rust\nlet a = 1;\n```\n\n## Do Stuff\n\n```rust\nb + c\n```\n\n---\n\nwe're done\n";
    let notebook = Notebook::from_markdown(markdown).unwrap();
    assert_eq!(
        notebook.cells,
        vec![
            prose("# Title\n\nintro"),
            prose("---\n\nanother cell"),
            code("let a = 1;\n"),
            prose("## Do Stuff"),
            code("b + c\n"),
            prose("---\n\nwe\u{2019}re done"),
        ]
    );
}

#[test]
fn text_events_inside_a_block_are_joined() {
    let events = vec![
        Event::Start(rust_fence()),
        Event::Text(CowStr::Borrowed("let a = 1;\n")),
        Event::Text(CowStr::Borrowed("a\n")),
        Event::End(rust_fence()),
    ];
    assert_eq!(Notebook::from_events(events).unwrap().cells, vec![code("let a = 1;\na\n")]);
}

#[test]
fn fence_is_recognized_whatever_holds_its_string() {
    let events = vec![
        Event::Start(Tag::CodeBlock(CodeBlockKind::Fenced(CowStr::from("rust".to_string())))),
        Event::Text(CowStr::from("x".to_string())),
        Event::End(Tag::CodeBlock(CodeBlockKind::Fenced(CowStr::from("rust".to_string())))),
    ];
    assert_eq!(Notebook::from_events(events).unwrap().cells, vec![code("x")]);
}

#[test]
fn anything_but_text_inside_a_block_is_refused() {
    let events = vec![Event::Start(rust_fence()), Event::Rule, Event::End(rust_fence())];
    assert_eq!(Notebook::from_events(events), Err(SegmentationError::NotText));
    let nested = vec![Event::Start(rust_fence()), Event::Start(rust_fence())];
    assert_eq!(Notebook::from_events(nested), Err(SegmentationError::NotText));
    let wrong_end = vec![
        Event::Start(rust_fence()),
        Event::End(Tag::CodeBlock(CodeBlockKind::Fenced(CowStr::Borrowed("python")))),
    ];
    assert_eq!(Notebook::from_events(wrong_end), Err(SegmentationError::NotText));
}

#[test]
fn unterminated_block_is_refused() {
    let events = vec![Event::Start(rust_fence()), Event::Text(CowStr::Borrowed("a"))];
    assert_eq!(Notebook::from_events(events), Err(SegmentationError::Unterminated));
    assert_eq!(State::RustCode(String::new()).finish(&mut Notebook::new()), Err(SegmentationError::Unterminated));
}

#[test]
fn failure_leaves_the_notebook_as_it_was() {
    let mut notebook = Notebook { cells: vec![code("kept")] };
    let state = State::RustCode("pending".to_string());
    assert!(matches!(state.parse(Event::SoftBreak, &mut notebook), Err(SegmentationError::NotText)));
    assert_eq!(notebook.cells, vec![code("kept")]);
}

#[test]
fn state_machine_steps_one_event_at_a_time() {
    let mut notebook = Notebook::new();
    let mut state = State::new();
    assert!(matches!(&state, State::Markdown(events) if events.is_empty()));
    let source = "text\n";
    for event in events_of(source) {
        state = state.parse(event, &mut notebook).unwrap();
    }
    assert!(matches!(&state, State::Markdown(events) if events.len() == 3));
    assert!(notebook.cells.is_empty());
    state = state.parse(Event::Start(rust_fence()), &mut notebook).unwrap();
    assert!(matches!(&state, State::RustCode(text) if text.is_empty()));
    assert_eq!(notebook.cells, vec![prose("text")]);
    state = state.parse(Event::Text(CowStr::Borrowed("a + b")), &mut notebook).unwrap();
    assert!(matches!(&state, State::RustCode(text) if text == "a + b"));
    state = state.parse(Event::End(rust_fence()), &mut notebook).unwrap();
    assert!(matches!(&state, State::Markdown(events) if events.is_empty()));
    assert_eq!(notebook.cells, vec![prose("text"), code("a + b")]);
    state = state.parse(Event::Rule, &mut notebook).unwrap();
    assert!(matches!(&state, State::Markdown(events) if events == &vec![Event::Rule]));
    assert_eq!(notebook.cells.len(), 2);
    assert_eq!(state.finish(&mut notebook), Ok(()));
    assert_eq!(notebook.cells, vec![prose("text"), code("a + b"), prose("---")]);
}

#[test]
fn from_events_agrees_with_from_markdown() {
    let markdown = "one\n\n```rust\nlet a = 1;\n```\n\ntwo\n";
    assert_eq!(Notebook::from_events(events_of(markdown)), Notebook::from_markdown(markdown));
}
