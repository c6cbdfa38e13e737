//! The structural events the extractor consumes, and the trusted bridge to
//! the commonmark parser that emits them.

use pulldown_cmark::{CodeBlockKind, Event, Parser, Tag};
use vstd::prelude::*;

verus! {

/// Mathematical image of one structural event.
pub enum Ev {
    /// a fenced code region opens, carrying its info string
    Start(Seq<char>),
    /// a fenced code region closes, carrying the info string it reports
    End(Seq<char>),
    /// a literal text fragment
    Text(Seq<char>),
    /// any other structural construct; the extractor ignores it
    Other,
}

/// One structural event, as a plain value.
pub enum MdEvent {
    BlockStart(String),
    BlockEnd(String),
    Text(String),
    Other,
}

impl View for MdEvent {
    type V = Ev;

    open spec fn view(&self) -> Ev {
        match self {
            MdEvent::BlockStart(a) => Ev::Start(a@),
            MdEvent::BlockEnd(a) => Ev::End(a@),
            MdEvent::Text(t) => Ev::Text(t@),
            MdEvent::Other => Ev::Other,
        }
    }
}

/// The event sequence as its mathematical image.
pub open spec fn events_view(events: Seq<MdEvent>) -> Seq<Ev> {
    events.map_values(|e: MdEvent| e@)
}

/// The structural events that the underlying parser emits for a text.
pub uninterp spec fn events_of(text: Seq<char>) -> Seq<Ev>;

/// Relies on pulldown_cmark::Parser: the events it emits depend on the
/// parsed text alone. Fenced code-block boundaries carry the fence's info
/// string; indented code blocks and every other construct are reported
/// here as ignorable.
#[verifier::external_body]
pub(crate) fn parse_events(body: &str) -> (r: Vec<MdEvent>)
    ensures
        events_view(r@) == events_of(body@),
{
    Parser::new(body)
        .map(|event| match event {
            Event::Start(Tag::CodeBlock(CodeBlockKind::Fenced(a))) => {
                MdEvent::BlockStart(a.into_string())
            },
            Event::End(Tag::CodeBlock(CodeBlockKind::Fenced(a))) => {
                MdEvent::BlockEnd(a.into_string())
            },
            Event::Text(t) => MdEvent::Text(t.into_string()),
            _ => MdEvent::Other,
        })
        .collect()
}

} // verus!
