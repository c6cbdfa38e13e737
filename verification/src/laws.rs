//! The laws of the extractor, proved once and for all over the state
//! machine that `extract_model` runs.

use crate::block::BlockModel;
use crate::events::Ev;
use crate::extract::{extract_model, scan, ExtractError, ScanState};
use vstd::prelude::*;

verus! {

/// Does the event open or close a fenced region?
pub open spec fn is_fence_boundary(e: Ev) -> bool {
    e is Start || e is End
}

/// No event of the stream opens or closes a fenced region.
pub open spec fn no_fence_boundaries(events: Seq<Ev>) -> bool {
    forall|i: int| 0 <= i < events.len() ==> !is_fence_boundary(#[trigger] events[i])
}

/// The text fragments of a stream, in order.
spec fn fragments_of(events: Seq<Ev>) -> Seq<Seq<char>>
    decreases events.len(),
{
    if events.len() == 0 {
        Seq::empty()
    } else {
        let rest = fragments_of(events.drop_first());
        match events.first() {
            Ev::Text(t) => seq![t] + rest,
            _ => rest,
        }
    }
}

/// Outside every fence, events that are no fence boundary change nothing.
proof fn lemma_scan_outside_ignores(pre: Seq<Ev>, rest: Seq<Ev>, done: Seq<BlockModel>)
    requires
        no_fence_boundaries(pre),
    ensures
        scan(pre + rest, ScanState::Outside, done) == scan(rest, ScanState::Outside, done),
    decreases pre.len(),
{
    if pre.len() == 0 {
        assert(pre + rest =~= rest);
    } else {
        let tail = pre.drop_first();
        assert((pre + rest).first() == pre[0]);
        assert((pre + rest).drop_first() =~= tail + rest);
        assert(!is_fence_boundary(pre[0]));
        assert(no_fence_boundaries(tail)) by {
            assert(forall|i: int| 0 <= i < tail.len() ==> #[trigger] tail[i] == pre[i + 1]);
        }
        lemma_scan_outside_ignores(tail, rest, done);
    }
}

/// Inside a fence, events that are no fence boundary only accumulate the
/// stream's text fragments, in order.
proof fn lemma_scan_inside_collects(
    mid: Seq<Ev>,
    rest: Seq<Ev>,
    a: Seq<char>,
    ts: Seq<Seq<char>>,
    done: Seq<BlockModel>,
)
    requires
        no_fence_boundaries(mid),
    ensures
        scan(mid + rest, ScanState::Inside { annotation: a, texts: ts }, done) == scan(
            rest,
            ScanState::Inside { annotation: a, texts: ts + fragments_of(mid) },
            done,
        ),
    decreases mid.len(),
{
    if mid.len() == 0 {
        assert(mid + rest =~= rest);
        assert(ts + fragments_of(mid) =~= ts);
    } else {
        let tail = mid.drop_first();
        assert((mid + rest).first() == mid[0]);
        assert((mid + rest).drop_first() =~= tail + rest);
        assert(!is_fence_boundary(mid[0]));
        assert(no_fence_boundaries(tail)) by {
            assert(forall|i: int| 0 <= i < tail.len() ==> #[trigger] tail[i] == mid[i + 1]);
        }
        match mid[0] {
            Ev::Text(t) => {
                lemma_scan_inside_collects(tail, rest, a, ts.push(t), done);
                assert(fragments_of(mid) == seq![t] + fragments_of(tail));
                assert(ts.push(t) + fragments_of(tail) =~= ts + fragments_of(mid));
            },
            _ => {
                lemma_scan_inside_collects(tail, rest, a, ts, done);
                assert(fragments_of(mid) == fragments_of(tail));
            },
        }
    }
}

/// A stream with no fence boundaries yields no blocks: a document with no
/// fenced regions extracts to the empty block sequence.
pub proof fn lemma_no_fences_no_blocks(events: Seq<Ev>)
    requires
        no_fence_boundaries(events),
    ensures
        extract_model(events) == Result::<Seq<BlockModel>, ExtractError>::Ok(Seq::empty()),
{
    lemma_scan_outside_ignores(events, Seq::empty(), Seq::empty());
    assert(events + Seq::<Ev>::empty() =~= events);
}

/// A stream holding exactly one fenced region, opened with annotation `a`
/// and holding the single fragment `t`, yields exactly one block: its
/// annotation is `a` and its body is `t`.
pub proof fn lemma_single_region(pre: Seq<Ev>, a: Seq<char>, t: Seq<char>, post: Seq<Ev>)
    requires
        no_fence_boundaries(pre),
        no_fence_boundaries(post),
    ensures
        ({
            let one = BlockModel { annotation: a, texts: seq![t] };
            extract_model(pre + seq![Ev::Start(a), Ev::Text(t), Ev::End(a)] + post)
                == Result::<Seq<BlockModel>, ExtractError>::Ok(seq![one])
        }),
        (BlockModel { annotation: a, texts: seq![t] }).text() == t,
{
    let mid = seq![Ev::Start(a), Ev::Text(t), Ev::End(a)];
    let events = pre + mid + post;
    assert(events =~= pre + (mid + post));
    lemma_scan_outside_ignores(pre, mid + post, Seq::empty());
    let s1 = mid + post;
    assert(s1.first() == Ev::Start(a));
    assert(s1.drop_first() =~= seq![Ev::Text(t), Ev::End(a)] + post);
    let s2 = seq![Ev::Text(t), Ev::End(a)] + post;
    assert(s2.first() == Ev::Text(t));
    assert(s2.drop_first() =~= seq![Ev::End(a)] + post);
    let s3 = seq![Ev::End(a)] + post;
    assert(s3.first() == Ev::End(a));
    assert(s3.drop_first() =~= post);
    assert(Seq::<Seq<char>>::empty().push(t) =~= seq![t]);
    let one = BlockModel { annotation: a, texts: seq![t] };
    assert(Seq::<BlockModel>::empty().push(one) =~= seq![one]);
    let none: Seq<BlockModel> = Seq::empty();
    assert(extract_model(events) == scan(s1, ScanState::Outside, none));
    assert(scan(s1, ScanState::Outside, none) == scan(
        s2,
        ScanState::Inside { annotation: a, texts: Seq::empty() },
        none,
    ));
    assert(scan(s2, ScanState::Inside { annotation: a, texts: Seq::empty() }, none) == scan(
        s3,
        ScanState::Inside { annotation: a, texts: seq![t] },
        none,
    ));
    assert(scan(s3, ScanState::Inside { annotation: a, texts: seq![t] }, none) == scan(
        post,
        ScanState::Outside,
        seq![one],
    ));
    lemma_scan_outside_ignores(post, Seq::empty(), seq![one]);
    assert(post + Seq::<Ev>::empty() =~= post);
    assert(scan(Seq::empty(), ScanState::Outside, seq![one]) == Result::<
        Seq<BlockModel>,
        ExtractError,
    >::Ok(seq![one]));
    seq![t].lemma_flatten_singleton();
}

/// A block whose single fragment is the concatenation of another block's
/// fragments has the same body: fragmentation does not change `text()`.
pub proof fn lemma_refragmenting_keeps_text(one: BlockModel, many: BlockModel)
    requires
        one.texts == seq![many.texts.flatten()],
    ensures
        one.text() == many.text(),
{
    one.texts.lemma_flatten_one_element();
}

/// A fence opening while a fence is already open fails the whole document
/// with `NestedBlock`; no blocks come out of it.
pub proof fn lemma_nested_start_fails(
    pre: Seq<Ev>,
    a: Seq<char>,
    mid: Seq<Ev>,
    b: Seq<char>,
    post: Seq<Ev>,
)
    requires
        no_fence_boundaries(pre),
        no_fence_boundaries(mid),
    ensures
        extract_model(pre + seq![Ev::Start(a)] + mid + seq![Ev::Start(b)] + post)
            == Result::<Seq<BlockModel>, ExtractError>::Err(ExtractError::NestedBlock),
{
    let events = pre + seq![Ev::Start(a)] + mid + seq![Ev::Start(b)] + post;
    let rest1 = seq![Ev::Start(a)] + (mid + (seq![Ev::Start(b)] + post));
    assert(events =~= pre + rest1);
    lemma_scan_outside_ignores(pre, rest1, Seq::empty());
    assert(rest1.first() == Ev::Start(a));
    assert(rest1.drop_first() =~= mid + (seq![Ev::Start(b)] + post));
    lemma_scan_inside_collects(mid, seq![Ev::Start(b)] + post, a, Seq::empty(), Seq::empty());
    let s2 = seq![Ev::Start(b)] + post;
    assert(s2.first() == Ev::Start(b));
}

/// A fence closing with no open fence fails the whole document with
/// `UnexpectedEndTag`.
pub proof fn lemma_end_without_open_fails(pre: Seq<Ev>, a: Seq<char>, post: Seq<Ev>)
    requires
        no_fence_boundaries(pre),
    ensures
        extract_model(pre + seq![Ev::End(a)] + post) == Result::<
            Seq<BlockModel>,
            ExtractError,
        >::Err(ExtractError::UnexpectedEndTag),
{
    let events = pre + seq![Ev::End(a)] + post;
    let rest1 = seq![Ev::End(a)] + post;
    assert(events =~= pre + rest1);
    lemma_scan_outside_ignores(pre, rest1, Seq::empty());
    assert(rest1.first() == Ev::End(a));
}

/// A fence closing with an annotation that does not match the open fence's
/// fails the whole document with `UnexpectedEndTag`.
pub proof fn lemma_mismatched_end_fails(
    pre: Seq<Ev>,
    a: Seq<char>,
    mid: Seq<Ev>,
    b: Seq<char>,
    post: Seq<Ev>,
)
    requires
        no_fence_boundaries(pre),
        no_fence_boundaries(mid),
        a != b,
    ensures
        extract_model(pre + seq![Ev::Start(a)] + mid + seq![Ev::End(b)] + post)
            == Result::<Seq<BlockModel>, ExtractError>::Err(ExtractError::UnexpectedEndTag),
{
    let events = pre + seq![Ev::Start(a)] + mid + seq![Ev::End(b)] + post;
    let rest1 = seq![Ev::Start(a)] + (mid + (seq![Ev::End(b)] + post));
    assert(events =~= pre + rest1);
    lemma_scan_outside_ignores(pre, rest1, Seq::empty());
    assert(rest1.first() == Ev::Start(a));
    assert(rest1.drop_first() =~= mid + (seq![Ev::End(b)] + post));
    lemma_scan_inside_collects(mid, seq![Ev::End(b)] + post, a, Seq::empty(), Seq::empty());
    let s2 = seq![Ev::End(b)] + post;
    assert(s2.first() == Ev::End(b));
}

/// The event-level serialization of an annotation and a body: an opening
/// fence carrying the annotation, the body as one fragment, a closing
/// fence carrying the same annotation.
pub open spec fn block_events(annotation: Seq<char>, body: Seq<char>) -> Seq<Ev> {
    seq![Ev::Start(annotation), Ev::Text(body), Ev::End(annotation)]
}

/// Round trip: extracting the serialized events of a block's annotation
/// and body yields exactly one block again, with the same annotation and
/// the same body.
pub proof fn lemma_round_trip(b: BlockModel)
    ensures
        ({
            let r = extract_model(block_events(b.annotation, b.text()));
            &&& r matches Result::Ok(blocks)
            &&& blocks == seq![BlockModel { annotation: b.annotation, texts: seq![b.text()] }]
            &&& blocks[0].annotation == b.annotation
            &&& blocks[0].text() == b.text()
        }),
{
    lemma_single_region(Seq::empty(), b.annotation, b.text(), Seq::empty());
    assert(Seq::<Ev>::empty() + block_events(b.annotation, b.text()) + Seq::<Ev>::empty()
        =~= block_events(b.annotation, b.text()));
}

} // verus!

