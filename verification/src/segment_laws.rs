//! What holds of segmentation for every stream of events.

use crate::markup::{event_form, rendered_markup};
use crate::notebook::{cell_events, notebook_events, CellView};
use crate::segment::{
    closes_code, flushed, initial, opens_code, run, segmented, step, SegmentationError, StateView,
};
use pulldown_cmark::Event;
use vstd::prelude::*;

verus! {

/// The events of one code cell: the opening of a `rust` fence, one text node,
/// and the closing of the fence.
pub open spec fn code_shaped(group: Seq<Event<'static>>) -> bool {
    &&& group.len() == 3
    &&& opens_code(group[0])
    &&& event_form(group[1]) is Text
    &&& closes_code(group[2])
}

/// The events of one prose cell: at least one event, none that opens a code
/// cell, no thematic break after the first event, and a rendering.
pub open spec fn prose_shaped(group: Seq<Event<'static>>) -> bool {
    &&& group.len() > 0
    &&& forall|i: int| 0 <= i < group.len() ==> !opens_code(#[trigger] group[i])
    &&& forall|i: int| 0 < i < group.len() ==> !(event_form(#[trigger] group[i]) is Rule)
    &&& rendered_markup(group) is Some
}

/// The cell that a group of events stands for.
pub open spec fn cell_of(group: Seq<Event<'static>>) -> CellView {
    if code_shaped(group) {
        CellView::RustCode(event_form(group[1])->Text_0)
    } else {
        CellView::Markdown(rendered_markup(group)->Some_0)
    }
}

/// Every group is one cell, and where prose follows prose a thematic break
/// stands between them.
pub open spec fn separated(groups: Seq<Seq<Event<'static>>>) -> bool {
    &&& forall|i: int| 0 <= i < groups.len() ==> code_shaped(#[trigger] groups[i]) || prose_shaped(groups[i])
    &&& forall|i: int|
        0 < i < groups.len() && !code_shaped(groups[i - 1]) && !code_shaped(#[trigger] groups[i])
            ==> event_form(groups[i][0]) is Rule
}

/// Running over two streams one after the other is running over their
/// concatenation.
pub proof fn lemma_run_concat(
    state: StateView,
    cells: Seq<CellView>,
    first: Seq<Event<'static>>,
    second: Seq<Event<'static>>,
)
    ensures
        run(state, cells, first + second) == match run(state, cells, first) {
            Ok((next, more)) => run(next, more, second),
            Err(error) => Err(error),
        },
    decreases first.len(),
{
    if first.len() > 0 {
        assert((first + second).drop_first() =~= first.drop_first() + second);
        match step(state, first.first(), cells) {
            Ok((next, more)) => {
                lemma_run_concat(next, more, first.drop_first(), second);
            },
            Err(error) => {},
        }
    }
}

/// Events that neither open a code cell nor are a thematic break join the
/// pending prose and complete no cell.
pub proof fn lemma_run_prose(
    pending: Seq<Event<'static>>,
    cells: Seq<CellView>,
    events: Seq<Event<'static>>,
)
    requires
        forall|i: int| 0 <= i < events.len() ==> !opens_code(#[trigger] events[i]),
        forall|i: int| 0 <= i < events.len() ==> !(event_form(#[trigger] events[i]) is Rule),
    ensures
        run(StateView::Markdown(pending), cells, events) == Ok::<
            (StateView, Seq<CellView>),
            SegmentationError,
        >((StateView::Markdown(pending + events), cells)),
    decreases events.len(),
{
    if events.len() > 0 {
        let rest = events.drop_first();
        lemma_run_prose(pending.push(events[0]), cells, rest);
        assert(pending.push(events[0]) + rest =~= pending + events);
    }
}

/// The cells completed after the first `count` groups: one for each group,
/// but for a last group of prose, which is still pending.
pub open spec fn settled(groups: Seq<Seq<Event<'static>>>, count: int) -> Seq<CellView> {
    if count > 0 && !code_shaped(groups[count - 1]) {
        groups.take(count - 1).map_values(|group: Seq<Event<'static>>| cell_of(group))
    } else {
        groups.take(count).map_values(|group: Seq<Event<'static>>| cell_of(group))
    }
}

/// The prose pending after the first `count` groups.
pub open spec fn pending(groups: Seq<Seq<Event<'static>>>, count: int) -> Seq<Event<'static>> {
    if count > 0 && !code_shaped(groups[count - 1]) {
        groups[count - 1]
    } else {
        Seq::empty()
    }
}

/// Where the segmenter stands after the first `count` groups of a separated
/// stream.
pub proof fn lemma_run_groups(groups: Seq<Seq<Event<'static>>>, count: int)
    requires
        separated(groups),
        0 <= count <= groups.len(),
    ensures
        run(initial(), Seq::empty(), groups.take(count).flatten()) == Ok::<
            (StateView, Seq<CellView>),
            SegmentationError,
        >((StateView::Markdown(pending(groups, count)), settled(groups, count))),
    decreases count,
{
    if count == 0 {
        assert(groups.take(0) =~= Seq::<Seq<Event<'static>>>::empty());
        assert(groups.take(0).flatten() =~= Seq::<Event<'static>>::empty());
        assert(settled(groups, 0) =~= Seq::<CellView>::empty());
    } else {
        let before = groups.take(count - 1);
        let group = groups[count - 1];
        lemma_run_groups(groups, count - 1);
        assert(groups.take(count) =~= before.push(group));
        before.lemma_flatten_push(group);
        lemma_run_concat(initial(), Seq::empty(), before.flatten(), group);
        let held = pending(groups, count - 1);
        let cells = settled(groups, count - 1);
        let closed = groups.take(count - 1).map_values(|group: Seq<Event<'static>>| cell_of(group));
        // The cells once the prose that is pending before this group is closed.
        assert(flushed(held, cells) == Ok::<Seq<CellView>, SegmentationError>(closed)) by {
            if count - 1 > 0 && !code_shaped(groups[count - 2]) {
                assert(prose_shaped(groups[count - 2]));
                assert(groups.take(count - 1) =~= groups.take(count - 2).push(groups[count - 2]));
                assert(closed =~= cells.push(cell_of(groups[count - 2])));
            }
        }
        if code_shaped(group) {
            let text = event_form(group[1])->Text_0;
            assert(group.first() == group[0]);
            assert(group.drop_first().first() == group[1]);
            assert(group.drop_first().drop_first().first() == group[2]);
            assert(group.drop_first().drop_first().drop_first().len() == 0);
            assert(Seq::<char>::empty() + text =~= text);
            reveal_with_fuel(run, 4);
            assert(settled(groups, count) =~= closed.push(cell_of(group)));
            assert(run(StateView::Markdown(held), cells, group) == Ok::<
                (StateView, Seq<CellView>),
                SegmentationError,
            >((StateView::Markdown(Seq::empty()), closed.push(CellView::RustCode(text)))));
        } else {
            assert(prose_shaped(group));
            let rest = group.drop_first();
            assert forall|i: int| 0 <= i < rest.len() implies !opens_code(#[trigger] rest[i]) by {
                assert(rest[i] == group[i + 1]);
            }
            assert forall|i: int| 0 <= i < rest.len() implies !(event_form(#[trigger] rest[i]) is Rule) by {
                assert(rest[i] == group[i + 1]);
            }
            assert(!opens_code(group[0]));
            assert(settled(groups, count) =~= closed);
            if event_form(group[0]) is Rule {
                lemma_run_prose(seq![group[0]], closed, rest);
                assert(seq![group[0]] + rest =~= group);
            } else {
                // Prose that does not start with a break follows no prose.
                assert(held.len() == 0) by {
                    if count - 1 > 0 && !code_shaped(groups[count - 2]) {
                        assert(event_form(groups[count - 1][0]) is Rule);
                    }
                }
                assert(cells =~= closed);
                lemma_run_prose(held.push(group[0]), cells, rest);
                assert(held.push(group[0]) + rest =~= group);
            }
        }
    }
}

/// Cell boundaries survive: a stream that is made of the events of code
/// cells and of prose cells, with a thematic break wherever prose follows
/// prose, segments into exactly those cells, in that order.
pub proof fn lemma_cells_survive(groups: Seq<Seq<Event<'static>>>)
    requires
        separated(groups),
    ensures
        segmented(groups.flatten()) == Ok::<Seq<CellView>, SegmentationError>(
            groups.map_values(|group: Seq<Event<'static>>| cell_of(group)),
        ),
{
    let count = groups.len() as int;
    lemma_run_groups(groups, count);
    assert(groups.take(count) =~= groups);
    let cells = groups.map_values(|group: Seq<Event<'static>>| cell_of(group));
    if count > 0 && !code_shaped(groups[count - 1]) {
        assert(prose_shaped(groups[count - 1]));
        assert(groups =~= groups.take(count - 1).push(groups[count - 1]));
        assert(cells =~= settled(groups, count).push(cell_of(groups[count - 1])));
    } else {
        assert(cells =~= settled(groups, count));
    }
}

/// A notebook survives its own rendering: where the events that its cells
/// render to are separated, segmenting the events of the whole notebook gives
/// one cell for each cell, in order: the cell that the events of a code cell
/// stand for, and a prose cell with the rendering of the events of a prose
/// cell.
pub proof fn lemma_notebook_survives(cells: Seq<CellView>)
    requires
        separated(cells.map_values(|cell: CellView| cell_events(cell))),
    ensures
        segmented(notebook_events(cells)) == Ok::<Seq<CellView>, SegmentationError>(
            cells.map_values(|cell: CellView| cell_of(cell_events(cell))),
        ),
{
    let groups = cells.map_values(|cell: CellView| cell_events(cell));
    lemma_cells_survive(groups);
    assert(groups.map_values(|group: Seq<Event<'static>>| cell_of(group)) =~= cells.map_values(
        |cell: CellView| cell_of(cell_events(cell)),
    ));
}

} // verus!
