use pulldown_cmark::{CodeBlockKind, CowStr, Event, Options, Parser, Tag};
use rust_markdown_notebook::notebook::{
    Cell, EvaluatedRustCode, Notebook, RESULT_CLOSE, RESULT_OPEN, RUST,
};

fn fence() -> Tag<'static> {
    Tag::CodeBlock(CodeBlockKind::Fenced(CowStr::Borrowed("rust")))
}

fn evaluated(source: &str, output: &str) -> EvaluatedRustCode {
    EvaluatedRustCode {
        source: source.to_string(),
        output: output.to_string(),
        compiler_message: String::new(),
    }
}

#[test]
fn code_cell_renders_to_a_fenced_block() {
    let cell = Cell::RustCode("let a = 1;\n".to_string());
    assert_eq!(
        cell.output_markdown_event_iter(),
        vec![
            Event::Start(fence()),
            Event::Text(CowStr::Borrowed("let a = 1;\n")),
            Event::End(fence()),
        ]
    );
}

#[test]
fn prose_cell_renders_to_the_events_of_its_content() {
    let content = "# Title\n\nsome *text*";
    let cell = Cell::Markdown(content.to_string());
    let expected: Vec<Event> = Parser::new_ext(content, Options::all()).collect();
    assert_eq!(cell.output_markdown_event_iter(), expected);
    assert!(expected.len() > 3);
}

#[test]
fn annotation_has_the_fixed_structure() {
    let code = evaluated("a + b\n", "3");
    assert_eq!(
        code.annotated_source(),
        "a + b\n\n\n/* rust-markdown-notebook:result\n\n=>\n\n3\n\n*/"
    );
    assert_eq!(RUST, "rust");
    assert_eq!(RESULT_OPEN, "\n\n/* rust-markdown-notebook:result\n\n=>\n\n");
    assert_eq!(RESULT_CLOSE, "\n\n*/");
}

#[test]
fn annotation_keeps_output_lines_as_they_are() {
    let code = evaluated("t", "T {\n    x: 1,\n}");
    assert_eq!(
        code.annotated_source(),
        "t\n\n/* rust-markdown-notebook:result\n\n=>\n\nT {\n    x: 1,\n}\n\n*/"
    );
    assert_eq!(evaluated("", "").annotated_source(), format!("{}{}", RESULT_OPEN, RESULT_CLOSE));
}

#[test]
fn evaluated_cell_renders_source_and_output_in_one_block() {
    let cell = Cell::EvaluatedRustCode(evaluated("a + b\n", "3"));
    let events = cell.output_markdown_event_iter();
    assert_eq!(events.len(), 3);
    assert_eq!(events[0], Event::Start(fence()));
    assert_eq!(
        events[1],
        Event::Text(CowStr::Borrowed(
            "a + b\n\n\n/* rust-markdown-notebook:result\n\n=>\n\n3\n\n*/"
        ))
    );
    assert_eq!(events[2], Event::End(fence()));
}

#[test]
fn notebook_renders_cell_after_cell() {
    let notebook = Notebook {
        cells: vec![
            Cell::Markdown("intro".to_string()),
            Cell::RustCode("a\n".to_string()),
            Cell::EvaluatedRustCode(evaluated("b\n", "2")),
        ],
    };
    let mut expected: Vec<Event> = Vec::new();
    for cell in &notebook.cells {
        expected.extend(cell.output_markdown_event_iter());
    }
    assert_eq!(notebook.output_events(), expected);
    assert_eq!(expected.len(), 3 + 3 + 3);
    assert_eq!(Notebook::new().output_events(), Vec::new());
}

#[test]
fn notebook_renders_to_markup() {
    let notebook = Notebook {
        cells: vec![Cell::Markdown("# Title".to_string()), Cell::RustCode("let a = 1;\n".to_string())],
    };
    assert_eq!(
        notebook.to_markdown(),
        Some("# Title\n\n````rust\nlet a = 1;\n````".to_string())
    );
    assert_eq!(Notebook::new().to_markdown(), Some(String::new()));
}

#[test]
fn evaluated_notebook_shows_the_result_under_the_code() {
    let notebook = Notebook { cells: vec![Cell::EvaluatedRustCode(evaluated("a + b\n", "3"))] };
    assert_eq!(
        notebook.to_markdown(),
        Some(
            "\n````rust\na + b\n\n\n/* rust-markdown-notebook:result\n\n=>\n\n3\n\n*/\n````"
                .to_string()
        )
    );
}

#[test]
fn rendering_then_segmenting_keeps_the_cells() {
    let markdown = "# Title\n\nintro\n\n---\n\nsecond\n\n```rust\nlet a = 1;\n```\n\nbetween\n\n```rust\na + 1\n```\n\n---\n\nlast\n";
    let first = Notebook::from_markdown(markdown).unwrap();
    let rendered = first.to_markdown().unwrap();
    let second = Notebook::from_markdown(&rendered).unwrap();
    assert_eq!(second, first);
    assert_eq!(second.cells.len(), 6);
}

#[test]
fn segmenting_the_rendered_events_keeps_the_cells() {
    let notebook = Notebook {
        cells: vec![
            Cell::RustCode("let a = 1;\n".to_string()),
            Cell::Markdown("prose".to_string()),
            Cell::Markdown("---\n\nmore prose".to_string()),
            Cell::RustCode("a\n".to_string()),
        ],
    };
    let events = notebook.output_events();
    assert_eq!(Notebook::from_events(events), Ok(notebook.clone()));
}

#[test]
fn evaluated_cell_comes_back_as_code_with_its_annotation() {
    let notebook = Notebook { cells: vec![Cell::EvaluatedRustCode(evaluated("a\n", "1"))] };
    let back = Notebook::from_events(notebook.output_events()).unwrap();
    assert_eq!(
        back.cells,
        vec![Cell::RustCode("a\n\n\n/* rust-markdown-notebook:result\n\n=>\n\n1\n\n*/".to_string())]
    );
}

#[test]
fn source_events_carry_no_output() {
    let plain = Cell::RustCode("a\n".to_string());
    let with_output = Cell::EvaluatedRustCode(evaluated("a\n", "1"));
    let expected = vec![
        Event::Start(fence()),
        Event::Text(CowStr::Borrowed("a\n")),
        Event::End(fence()),
    ];
    assert_eq!(plain.markdown_events(), expected);
    assert_eq!(with_output.markdown_events(), expected);
    let prose = Cell::Markdown("some *text*".to_string());
    assert_eq!(prose.markdown_events(), prose.output_markdown_event_iter());
}
