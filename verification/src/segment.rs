//! Segmentation: the state machine that cuts a stream of markup events into
//! cells.

use crate::markup::{
    event_form, markup_events, rendered_markup, shape_of, to_events, to_markdown, EventForm,
    EventShape,
};
use crate::notebook::{Cell, CellView, Notebook, RUST};
use pulldown_cmark::Event;
use vstd::prelude::*;
use vstd::string::StringExecFns;

verus! {

/// Why a stream of events is no notebook.
#[derive(Debug, Clone, Copy, PartialEq, Eq, Structural)]
pub enum SegmentationError {
    /// Something other than text stands inside a code block.
    NotText,
    /// The stream ends inside a code block.
    Unterminated,
    /// The renderer reported a failure on the events of a prose cell.
    Unrendered,
}

/// The state of the segmenter between two events.
#[derive(Debug)]
pub enum State<'a> {
    /// Outside a code block, with the events of the prose seen so far.
    Markdown(Vec<Event<'a>>),
    /// Inside a code block, with the text seen so far.
    RustCode(String),
}

/// The mathematical value of a `State`.
pub enum StateView {
    Markdown(Seq<Event<'static>>),
    RustCode(Seq<char>),
}

impl<'a> View for State<'a> {
    type V = StateView;

    open spec fn view(&self) -> StateView {
        match self {
            State::Markdown(events) => StateView::Markdown(events@),
            State::RustCode(source) => StateView::RustCode(source@),
        }
    }
}

/// The state before the first event.
pub open spec fn initial() -> StateView {
    StateView::Markdown(Seq::empty())
}

/// The cells after pending prose is closed: unchanged where nothing is
/// pending, else one prose cell longer, with the rendering of the pending
/// events as its content.
pub open spec fn flushed(pending: Seq<Event<'static>>, cells: Seq<CellView>) -> Result<
    Seq<CellView>,
    SegmentationError,
> {
    if pending.len() == 0 {
        Ok(cells)
    } else {
        match rendered_markup(pending) {
            Some(content) => Ok(cells.push(CellView::Markdown(content))),
            None => Err(SegmentationError::Unrendered),
        }
    }
}

/// Whether an event opens a code cell.
pub open spec fn opens_code(event: Event<'static>) -> bool {
    event_form(event) == EventForm::FenceOpen(RUST@)
}

/// Whether an event closes a code cell.
pub open spec fn closes_code(event: Event<'static>) -> bool {
    event_form(event) == EventForm::FenceClose(RUST@)
}

/// One transition: the state and the cells after `event`, or the failure.
///
/// Outside a code block, the opening of a `rust` fence closes the pending
/// prose and enters the block; a thematic break closes the pending prose and
/// starts new prose with itself; any other event joins the pending prose.
/// Inside a code block, text joins the source; the closing of the `rust` fence
/// emits the code cell; anything else is a failure.
pub open spec fn step(state: StateView, event: Event<'static>, cells: Seq<CellView>) -> Result<
    (StateView, Seq<CellView>),
    SegmentationError,
> {
    match state {
        StateView::Markdown(pending) => {
            if opens_code(event) {
                match flushed(pending, cells) {
                    Ok(more) => Ok((StateView::RustCode(Seq::empty()), more)),
                    Err(error) => Err(error),
                }
            } else if event_form(event) is Rule {
                match flushed(pending, cells) {
                    Ok(more) => Ok((StateView::Markdown(seq![event]), more)),
                    Err(error) => Err(error),
                }
            } else {
                Ok((StateView::Markdown(pending.push(event)), cells))
            }
        },
        StateView::RustCode(source) => {
            if closes_code(event) {
                Ok((StateView::Markdown(Seq::empty()), cells.push(CellView::RustCode(source))))
            } else {
                match event_form(event) {
                    EventForm::Text(text) => Ok((StateView::RustCode(source + text), cells)),
                    _ => Err(SegmentationError::NotText),
                }
            }
        },
    }
}

/// The state and the cells after all of `events`, or the first failure.
pub open spec fn run(state: StateView, cells: Seq<CellView>, events: Seq<Event<'static>>) -> Result<
    (StateView, Seq<CellView>),
    SegmentationError,
>
    decreases events.len(),
{
    if events.len() == 0 {
        Ok((state, cells))
    } else {
        match step(state, events.first(), cells) {
            Ok((next, more)) => run(next, more, events.drop_first()),
            Err(error) => Err(error),
        }
    }
}

/// The cells at the end of input: pending prose is closed; an open code block
/// is a failure.
pub open spec fn finished(state: StateView, cells: Seq<CellView>) -> Result<
    Seq<CellView>,
    SegmentationError,
> {
    match state {
        StateView::Markdown(pending) => flushed(pending, cells),
        StateView::RustCode(_) => Err(SegmentationError::Unterminated),
    }
}

/// The cells of a stream of events.
pub open spec fn segmented(events: Seq<Event<'static>>) -> Result<Seq<CellView>, SegmentationError> {
    match run(initial(), Seq::empty(), events) {
        Ok((state, cells)) => finished(state, cells),
        Err(error) => Err(error),
    }
}

/// Closes pending prose: adds it to the notebook as one cell, where there is
/// any.
fn flush<'a>(pending: &Vec<Event<'a>>, notebook: &mut Notebook) -> (outcome: Result<
    (),
    SegmentationError,
>)
    ensures
        match flushed(pending@, old(notebook)@) {
            Ok(cells) => outcome is Ok && final(notebook)@ == cells,
            Err(error) => outcome == Err::<(), SegmentationError>(error) && final(notebook)@ == old(notebook)@,
        },
{
    if pending.len() == 0 {
        return Ok(());
    }
    match to_markdown(pending) {
        Some(content) => {
            notebook.cells.push(Cell::Markdown(content));
            Ok(())
        },
        None => Err(SegmentationError::Unrendered),
    }
}

/// Whether `info` is the info string of a code cell.
fn is_rust(info: &String) -> (yes: bool)
    ensures
        yes == (info@ == RUST@),
{
    let tag = String::from_str(RUST);
    *info == tag
}

impl<'a> State<'a> {
    /// The state before the first event.
    pub fn new() -> (state: Self)
        ensures
            state@ == initial(),
    {
        State::Markdown(Vec::new())
    }

    /// Takes one event: the state after it, with the cells that it completed
    /// added to the notebook. On a failure the notebook is as it was.
    pub fn parse(self, ev: Event<'a>, notebook: &mut Notebook) -> (outcome: Result<
        Self,
        SegmentationError,
    >)
        ensures
            match step(self@, ev, old(notebook)@) {
                Ok((next, cells)) => outcome matches Ok(state) && state@ == next && final(notebook)@ == cells,
                Err(error) => outcome matches Err(e) && e == error && final(notebook)@ == old(notebook)@,
            },
    {
        let shape = shape_of(&ev);
        match self {
            State::Markdown(mut events) => match shape {
                EventShape::FenceOpen(info) => {
                    if is_rust(&info) {
                        match flush(&events, notebook) {
                            Ok(()) => Ok(State::RustCode(String::new())),
                            Err(error) => Err(error),
                        }
                    } else {
                        events.push(ev);
                        Ok(State::Markdown(events))
                    }
                },
                EventShape::Rule => {
                    match flush(&events, notebook) {
                        Ok(()) => {
                            let mut fresh: Vec<Event<'a>> = Vec::new();
                            fresh.push(ev);
                            Ok(State::Markdown(fresh))
                        },
                        Err(error) => Err(error),
                    }
                },
                _ => {
                    events.push(ev);
                    Ok(State::Markdown(events))
                },
            },
            State::RustCode(mut source) => match shape {
                EventShape::Text(text) => {
                    source.append(text.as_str());
                    Ok(State::RustCode(source))
                },
                EventShape::FenceClose(info) => {
                    if is_rust(&info) {
                        notebook.cells.push(Cell::RustCode(source));
                        Ok(State::Markdown(Vec::new()))
                    } else {
                        Err(SegmentationError::NotText)
                    }
                },
                _ => Err(SegmentationError::NotText),
            },
        }
    }

    /// Ends the input: pending prose becomes the last cell; an open code
    /// block is a failure, and the notebook is then as it was.
    pub fn finish(self, notebook: &mut Notebook) -> (outcome: Result<(), SegmentationError>)
        ensures
            match finished(self@, old(notebook)@) {
                Ok(cells) => outcome is Ok && final(notebook)@ == cells,
                Err(error) => outcome == Err::<(), SegmentationError>(error) && final(notebook)@
                    == old(notebook)@,
            },
    {
        match self {
            State::Markdown(events) => flush(&events, notebook),
            State::RustCode(_) => Err(SegmentationError::Unterminated),
        }
    }
}

impl Notebook {
    /// The notebook that a stream of events segments into. No partial
    /// notebook is returned: a failure anywhere in the stream is the result.
    pub fn from_events<'a>(events: Vec<Event<'a>>) -> (outcome: Result<Notebook, SegmentationError>)
        ensures
            match segmented(events@) {
                Ok(cells) => outcome matches Ok(notebook) && notebook@ == cells,
                Err(error) => outcome matches Err(e) && e == error,
            },
    {
        let mut notebook = Notebook::new();
        let mut state = State::new();
        let ghost all = events@;
        assert(all.skip(0) =~= all);
        for ev in it: events.into_iter()
            invariant
                all == it.seq(),
                run(initial(), Seq::empty(), all) == run(state@, notebook@, all.skip(it.index())),
        {
            proof {
                let rest = all.skip(it.index());
                assert(rest.drop_first() =~= all.skip(it.index() + 1));
            }
            match state.parse(ev, &mut notebook) {
                Ok(next) => {
                    state = next;
                },
                Err(error) => {
                    return Err(error);
                },
            }
        }
        match state.finish(&mut notebook) {
            Ok(()) => Ok(notebook),
            Err(error) => Err(error),
        }
    }

    /// The notebook of a document.
    pub fn from_markdown(markdown: &str) -> (outcome: Result<Notebook, SegmentationError>)
        ensures
            match segmented(markup_events(markdown@)) {
                Ok(cells) => outcome matches Ok(notebook) && notebook@ == cells,
                Err(error) => outcome matches Err(e) && e == error,
            },
    {
        Notebook::from_events(to_events(markdown))
    }
}

} // verus!
