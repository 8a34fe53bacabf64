//! Markup events, as `pulldown_cmark` parses them from a document and
//! `pulldown_cmark_to_cmark` renders them back.
//!
//! An event is opaque here. What the notebook reads from one is its form; what
//! it makes are the three events of a fenced code block. The contracts of this
//! module are believed, not proved.

use pulldown_cmark::{CodeBlockKind, CowStr, Event, Options, Parser, Tag};
use pulldown_cmark_to_cmark::cmark;
use vstd::prelude::*;

verus! {

/// `pulldown_cmark::Event`, carried through as it is: nothing is known of what
/// a value of it holds but what the functions of this module say.
#[verifier::external_type_specification]
#[verifier::external_body]
pub struct ExEvent<'a>(Event<'a>);

/// What the notebook reads from one markup event.
#[derive(Debug, Clone, PartialEq, Eq)]
pub enum EventShape {
    /// The start of a fenced code block, with its info string.
    FenceOpen(String),
    /// The end of a fenced code block, with its info string.
    FenceClose(String),
    /// A text node.
    Text(String),
    /// A thematic break.
    Rule,
    /// Any other event.
    Other,
}

/// The mathematical value of an `EventShape`.
pub enum EventForm {
    FenceOpen(Seq<char>),
    FenceClose(Seq<char>),
    Text(Seq<char>),
    Rule,
    Other,
}

impl View for EventShape {
    type V = EventForm;

    open spec fn view(&self) -> EventForm {
        match self {
            EventShape::FenceOpen(info) => EventForm::FenceOpen(info@),
            EventShape::FenceClose(info) => EventForm::FenceClose(info@),
            EventShape::Text(text) => EventForm::Text(text@),
            EventShape::Rule => EventForm::Rule,
            EventShape::Other => EventForm::Other,
        }
    }
}

/// The form of an event: which of the five kinds it is, and the string it
/// carries.
pub uninterp spec fn event_form(event: Event<'static>) -> EventForm;

/// The events of a document, in document order.
pub uninterp spec fn markup_events(text: Seq<char>) -> Seq<Event<'static>>;

/// The markup that a sequence of events renders to, or nothing where the
/// renderer reports a failure.
pub uninterp spec fn rendered_markup(events: Seq<Event<'static>>) -> Option<Seq<char>>;

/// The event that starts a fenced code block with the given info string.
pub uninterp spec fn fence_open(info: Seq<char>) -> Event<'static>;

/// The event that ends a fenced code block with the given info string.
pub uninterp spec fn fence_close(info: Seq<char>) -> Event<'static>;

/// The event of a text node with the given text.
pub uninterp spec fn text_node(text: Seq<char>) -> Event<'static>;

/// Tells the variants of `pulldown_cmark::Event` apart: `Start` and `End` of
/// a `Tag::CodeBlock` that is `CodeBlockKind::Fenced`, `Text`, `Rule`, and the
/// rest. The strings are copied out as they stand.
#[verifier::external_body]
pub(crate) fn shape_of<'a>(event: &Event<'a>) -> (shape: EventShape)
    ensures
        shape@ == event_form(*event),
{
    match event {
        Event::Start(Tag::CodeBlock(CodeBlockKind::Fenced(info))) => EventShape::FenceOpen(info.to_string()),
        Event::End(Tag::CodeBlock(CodeBlockKind::Fenced(info))) => EventShape::FenceClose(info.to_string()),
        Event::Text(text) => EventShape::Text(text.to_string()),
        Event::Rule => EventShape::Rule,
        _ => EventShape::Other,
    }
}

/// `pulldown_cmark::Parser::new_ext` with all options, run to its end: the
/// events are `markup_events` of the text.
#[verifier::external_body]
pub(crate) fn to_events<'a>(markdown: &'a str) -> (events: Vec<Event<'a>>)
    ensures
        events@ == markup_events(markdown@),
{
    Parser::new_ext(markdown, Options::all()).collect()
}

/// `pulldown_cmark_to_cmark::cmark` into a fresh `String`: the text is
/// `rendered_markup` of the events.
#[verifier::external_body]
pub(crate) fn to_markdown<'a>(events: &Vec<Event<'a>>) -> (text: Option<String>)
    ensures
        text.deep_view() == rendered_markup(events@),
{
    let mut buf = String::new();
    match cmark(events.iter(), &mut buf) {
        Ok(_) => Some(buf),
        Err(_) => None,
    }
}

/// `Event::Start` of a `Tag::CodeBlock` that is `CodeBlockKind::Fenced` with
/// a copy of `info`: its form is the opening of a fence with that string.
#[verifier::external_body]
pub(crate) fn fence_open_event(info: &str) -> (event: Event<'static>)
    ensures
        event == fence_open(info@),
        event_form(event) == EventForm::FenceOpen(info@),
{
    Event::Start(Tag::CodeBlock(CodeBlockKind::Fenced(CowStr::from(info.to_string()))))
}

/// `Event::End` of a `Tag::CodeBlock` that is `CodeBlockKind::Fenced` with a
/// copy of `info`: its form is the closing of a fence with that string.
#[verifier::external_body]
pub(crate) fn fence_close_event(info: &str) -> (event: Event<'static>)
    ensures
        event == fence_close(info@),
        event_form(event) == EventForm::FenceClose(info@),
{
    Event::End(Tag::CodeBlock(CodeBlockKind::Fenced(CowStr::from(info.to_string()))))
}

/// `Event::Text` with a copy of `text`: its form is a text node with that
/// text.
#[verifier::external_body]
pub(crate) fn text_event(text: &str) -> (event: Event<'static>)
    ensures
        event == text_node(text@),
        event_form(event) == EventForm::Text(text@),
{
    Event::Text(CowStr::from(text.to_string()))
}

} // verus!
