//! The notebook: an ordered sequence of cells, and how it is rendered back to
//! markup.

use crate::markup::{
    fence_close, fence_close_event, fence_open, fence_open_event, markup_events, rendered_markup,
    text_event, text_node, to_events, to_markdown,
};
use crate::segment_laws::{cell_of, code_shaped};
use pulldown_cmark::Event;
use vstd::prelude::*;
use vstd::string::StringExecFns;

verus! {

/// The info string of the fenced blocks that are code cells.
pub const RUST: &'static str = "rust";

/// What stands between the source of an evaluated cell and its output.
pub const RESULT_OPEN: &'static str = "\n\n/* rust-markdown-notebook:result\n\n=>\n\n";

/// What stands after the output of an evaluated cell.
pub const RESULT_CLOSE: &'static str = "\n\n*/";

/// A code cell with the result of its most recent execution.
#[derive(Debug, Clone, PartialEq, Eq)]
pub struct EvaluatedRustCode {
    pub source: String,
    pub output: String,
    pub compiler_message: String,
}

/// One unit of a document.
#[derive(Debug, Clone, PartialEq, Eq)]
pub enum Cell {
    Markdown(String),
    RustCode(String),
    EvaluatedRustCode(EvaluatedRustCode),
}

/// The mathematical value of a `Cell`.
pub enum CellView {
    Markdown(Seq<char>),
    RustCode(Seq<char>),
    EvaluatedRustCode { source: Seq<char>, output: Seq<char>, compiler_message: Seq<char> },
}

impl View for Cell {
    type V = CellView;

    open spec fn view(&self) -> CellView {
        match self {
            Cell::Markdown(content) => CellView::Markdown(content@),
            Cell::RustCode(source) => CellView::RustCode(source@),
            Cell::EvaluatedRustCode(code) => CellView::EvaluatedRustCode {
                source: code.source@,
                output: code.output@,
                compiler_message: code.compiler_message@,
            },
        }
    }
}

/// The cells of a document, in document order.
#[derive(Debug, Clone, PartialEq, Eq)]
pub struct Notebook {
    pub cells: Vec<Cell>,
}

impl View for Notebook {
    type V = Seq<CellView>;

    open spec fn view(&self) -> Seq<CellView> {
        self.cells@.map_values(|cell: Cell| cell@)
    }
}

/// The text of an evaluated cell in the rendered document: the source,
/// followed by a comment block that holds the captured output.
pub open spec fn annotated(source: Seq<char>, output: Seq<char>) -> Seq<char> {
    source + RESULT_OPEN@ + output + RESULT_CLOSE@
}

/// The three events of a fenced code block that holds `text`.
pub open spec fn code_events(text: Seq<char>) -> Seq<Event<'static>> {
    seq![fence_open(RUST@), text_node(text), fence_close(RUST@)]
}

/// The events that a cell renders to: a prose cell to the events of its
/// content, a code cell to a fenced block of its source, an evaluated cell to
/// a fenced block of its source and output.
pub open spec fn cell_events(cell: CellView) -> Seq<Event<'static>> {
    match cell {
        CellView::Markdown(content) => markup_events(content),
        CellView::RustCode(source) => code_events(source),
        CellView::EvaluatedRustCode { source, output, .. } => code_events(annotated(source, output)),
    }
}

/// The events that a sequence of cells renders to, cell after cell.
pub open spec fn notebook_events(cells: Seq<CellView>) -> Seq<Event<'static>> {
    cells.map_values(|cell: CellView| cell_events(cell)).flatten()
}

/// The events of a fenced code block that holds `text`. They have the shape
/// of one code cell with that text.
fn to_code_events(text: &str) -> (events: Vec<Event<'static>>)
    ensures
        events@ == code_events(text@),
        code_shaped(events@),
        cell_of(events@) == CellView::RustCode(text@),
{
    let mut events: Vec<Event<'static>> = Vec::new();
    events.push(fence_open_event(RUST));
    events.push(text_event(text));
    events.push(fence_close_event(RUST));
    events
}

impl EvaluatedRustCode {
    /// The text of the cell in the rendered document.
    pub fn annotated_source(&self) -> (text: String)
        ensures
            text@ == annotated(self.source@, self.output@),
    {
        let mut text = self.source.clone();
        text.append(RESULT_OPEN);
        text.append(self.output.as_str());
        text.append(RESULT_CLOSE);
        text
    }
}

/// The events that a cell was made from: those of its content for a prose
/// cell, a fenced block of its source for a code cell, evaluated or not.
pub open spec fn source_events(cell: CellView) -> Seq<Event<'static>> {
    match cell {
        CellView::Markdown(content) => markup_events(content),
        CellView::RustCode(source) => code_events(source),
        CellView::EvaluatedRustCode { source, .. } => code_events(source),
    }
}

impl Cell {
    /// The events that the cell was made from, without any output.
    pub fn markdown_events<'a>(&'a self) -> (events: Vec<Event<'a>>)
        ensures
            events@ == source_events(self@),
    {
        match self {
            Cell::Markdown(content) => to_events(content.as_str()),
            Cell::RustCode(source) => to_code_events(source.as_str()),
            Cell::EvaluatedRustCode(code) => to_code_events(code.source.as_str()),
        }
    }

    /// The events that the cell renders to. Those of a code cell have the
    /// shape of one code cell: segmented again they give the source, and for
    /// an evaluated cell the source with its output.
    pub fn output_markdown_event_iter<'a>(&'a self) -> (events: Vec<Event<'a>>)
        ensures
            events@ == cell_events(self@),
            self@ matches CellView::RustCode(source) ==> code_shaped(events@) && cell_of(events@)
                == CellView::RustCode(source),
            self@ matches CellView::EvaluatedRustCode { source, output, .. } ==> code_shaped(
                events@,
            ) && cell_of(events@) == CellView::RustCode(annotated(source, output)),
    {
        match self {
            Cell::EvaluatedRustCode(code) => {
                let text = code.annotated_source();
                to_code_events(text.as_str())
            },
            Cell::RustCode(source) => to_code_events(source.as_str()),
            Cell::Markdown(content) => to_events(content.as_str()),
        }
    }
}

impl Notebook {
    /// A notebook without cells.
    pub fn new() -> (notebook: Notebook)
        ensures
            notebook@ == Seq::<CellView>::empty(),
    {
        let notebook = Notebook { cells: Vec::new() };
        notebook
    }

    /// The events that the notebook renders to, cell after cell.
    pub fn output_events<'a>(&'a self) -> (events: Vec<Event<'a>>)
        ensures
            events@ == notebook_events(self@),
    {
        let mut events: Vec<Event<'a>> = Vec::new();
        let mut i: usize = 0;
        while i < self.cells.len()
            invariant
                i <= self.cells.len(),
                events@ == notebook_events(self@.take(i as int)),
            decreases self.cells.len() - i,
        {
            let mut more = self.cells[i].output_markdown_event_iter();
            proof {
                let done = self@.take(i as int).map_values(|cell: CellView| cell_events(cell));
                assert(self@.take(i + 1).map_values(|cell: CellView| cell_events(cell)) =~= done.push(
                    cell_events(self@[i as int]),
                ));
                done.lemma_flatten_push(cell_events(self@[i as int]));
            }
            events.append(&mut more);
            i = i + 1;
        }
        assert(self@.take(i as int) =~= self@);
        events
    }

    /// The notebook as markup: the rendering of all its events, or nothing
    /// where the renderer reports a failure.
    pub fn to_markdown(&self) -> (markdown: Option<String>)
        ensures
            markdown.deep_view() == rendered_markup(notebook_events(self@)),
    {
        let events = self.output_events();
        to_markdown(&events)
    }
}

} // verus!
