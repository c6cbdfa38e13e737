//! The block extractor: a single pass over a document's structural events
//! that reconstructs its fenced code regions.

use crate::block::{BlockModel, CodeBlock, Document};
use crate::events::{events_of, events_view, parse_events, Ev, MdEvent};
use vstd::prelude::*;

verus! {

/// Why extraction of a document was abandoned. Extraction is fail-fast: a
/// malformed document yields no blocks, not a best-effort subset.
#[derive(Clone, Copy, Debug, PartialEq, Eq, Structural)]
pub enum ExtractError {
    /// a fence opened while another fence was still open
    NestedBlock,
    /// a fence closed with no open fence, or with an annotation that does
    /// not match the open fence's annotation
    UnexpectedEndTag,
    /// the document ended while a fence was still open
    UnterminatedBlock,
}

/// The extractor's state: outside every fence, or inside the fence opened
/// with `annotation`, having accumulated `texts` so far.
pub enum ScanState {
    Outside,
    Inside { annotation: Seq<char>, texts: Seq<Seq<char>> },
}

/// The extraction state machine: consume `events` in order, starting in
/// state `st` with the blocks `done` already emitted.
pub open spec fn scan(events: Seq<Ev>, st: ScanState, done: Seq<BlockModel>) -> Result<
    Seq<BlockModel>,
    ExtractError,
>
    decreases events.len(),
{
    if events.len() == 0 {
        match st {
            ScanState::Outside => Result::Ok(done),
            ScanState::Inside { .. } => Result::Err(ExtractError::UnterminatedBlock),
        }
    } else {
        let rest = events.drop_first();
        match (st, events.first()) {
            (ScanState::Outside, Ev::Start(a)) => scan(
                rest,
                ScanState::Inside { annotation: a, texts: Seq::empty() },
                done,
            ),
            (ScanState::Inside { .. }, Ev::Start(_)) => Result::Err(ExtractError::NestedBlock),
            (ScanState::Outside, Ev::End(_)) => Result::Err(ExtractError::UnexpectedEndTag),
            (ScanState::Inside { annotation, texts }, Ev::End(a)) => if a == annotation {
                scan(rest, ScanState::Outside, done.push(BlockModel { annotation, texts }))
            } else {
                Result::Err(ExtractError::UnexpectedEndTag)
            },
            (ScanState::Outside, Ev::Text(_)) => scan(rest, ScanState::Outside, done),
            (ScanState::Inside { annotation, texts }, Ev::Text(t)) => scan(
                rest,
                ScanState::Inside { annotation, texts: texts.push(t) },
                done,
            ),
            (_, Ev::Other) => scan(rest, st, done),
        }
    }
}

/// What extraction of an event stream yields: the blocks in order of their
/// closing fence, or the first failure.
pub open spec fn extract_model(events: Seq<Ev>) -> Result<Seq<BlockModel>, ExtractError> {
    scan(events, ScanState::Outside, Seq::empty())
}

/// The extractor's result as its mathematical image.
pub open spec fn extraction_view(r: Result<Vec<CodeBlock>, ExtractError>) -> Result<
    Seq<BlockModel>,
    ExtractError,
> {
    match r {
        Result::Ok(blocks) => Result::Ok(blocks@.map_values(|b: CodeBlock| b@)),
        Result::Err(e) => Result::Err(e),
    }
}

/// The machine state that the executable extractor's accumulator stands for.
pub open spec fn state_of(annotation: Option<String>, texts: Seq<String>) -> ScanState {
    match annotation {
        Option::Some(a) => ScanState::Inside {
            annotation: a@,
            texts: texts.map_values(|t: String| t@),
        },
        Option::None => ScanState::Outside,
    }
}

/// Reconstruct every fenced code region of one event stream, in order of
/// its closing fence.
pub fn extract_from_events(events: Vec<MdEvent>) -> (r: Result<Vec<CodeBlock>, ExtractError>)
    ensures
        extraction_view(r) == extract_model(events_view(events@)),
{
    let ghost stream = events_view(events@);
    let mut blocks: Vec<CodeBlock> = Vec::new();
    let mut annotation: Option<String> = None;
    let mut texts: Vec<String> = Vec::new();
    let mut i: usize = 0;
    proof {
        assert(stream.skip(0) =~= stream);
        assert(texts@.map_values(|t: String| t@) =~= Seq::<Seq<char>>::empty());
        assert(blocks@.map_values(|b: CodeBlock| b@) =~= Seq::<BlockModel>::empty());
    }
    while i < events.len()
        invariant
            i <= events.len(),
            stream == events_view(events@),
            stream.len() == events.len(),
            extract_model(stream) == scan(
                stream.skip(i as int),
                state_of(annotation, texts@),
                blocks@.map_values(|b: CodeBlock| b@),
            ),
        decreases events.len() - i,
    {
        proof {
            assert(stream.skip(i as int).first() == events@[i as int]@);
            assert(stream.skip(i as int).drop_first() =~= stream.skip(i as int + 1));
        }
        match &events[i] {
            MdEvent::BlockStart(a) => {
                if annotation.is_some() {
                    return Result::Err(ExtractError::NestedBlock);
                }
                annotation = Some(a.clone());
                texts = Vec::new();
                proof {
                    assert(texts@.map_values(|t: String| t@) =~= Seq::<Seq<char>>::empty());
                }
            },
            MdEvent::BlockEnd(a) => {
                match annotation {
                    Option::Some(open) => {
                        if !open.eq(a) {
                            return Result::Err(ExtractError::UnexpectedEndTag);
                        }
                        let ghost pre_blocks = blocks@;
                        let ghost emitted_model = BlockModel {
                            annotation: open@,
                            texts: texts@.map_values(|t: String| t@),
                        };
                        let emitted = texts;
                        texts = Vec::new();
                        annotation = None;
                        blocks.push(CodeBlock { annotation: open, texts: emitted });
                        proof {
                            assert(texts@.map_values(|t: String| t@) =~= Seq::<Seq<char>>::empty());
                            assert(blocks@.map_values(|b: CodeBlock| b@) =~= pre_blocks.map_values(
                                |b: CodeBlock| b@,
                            ).push(emitted_model));
                        }
                    },
                    Option::None => {
                        return Result::Err(ExtractError::UnexpectedEndTag);
                    },
                }
            },
            MdEvent::Text(t) => {
                if annotation.is_some() {
                    let ghost pre_texts = texts@;
                    texts.push(t.clone());
                    proof {
                        assert(texts@.map_values(|t: String| t@) =~= pre_texts.map_values(
                            |t: String| t@,
                        ).push(t@));
                    }
                }
            },
            MdEvent::Other => {},
        }
        i = i + 1;
    }
    proof {
        assert(stream.skip(i as int) =~= Seq::<Ev>::empty());
    }
    if annotation.is_some() {
        return Result::Err(ExtractError::UnterminatedBlock);
    }
    Result::Ok(blocks)
}

/// Extract every fenced code region of one document, in order of its
/// closing fence in the text.
pub fn extract_blocks(doc: &Document) -> (r: Result<Vec<CodeBlock>, ExtractError>)
    ensures
        extraction_view(r) == extract_model(events_of(doc.body@)),
{
    let events = parse_events(doc.body.as_str());
    extract_from_events(events)
}

} // verus!
