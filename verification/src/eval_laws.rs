//! What holds of an evaluation pass in every state.

use crate::eval::{
    advance, captured, pass_over, start, turn, unrun, Outcome, Pass, Phase, StepView,
};
use crate::kernel::classification;
use crate::notebook::CellView;
use crate::program::{merged, program_text};
use vstd::prelude::*;

verus! {

/// A refused cell changes nothing: where the next cell is a code cell whose
/// text is refused, the step reports the failure for that cell, the program
/// holds the records it held, and every cell is what it was.
pub proof fn lemma_refusal_is_atomic(pass: Pass, cells: Seq<CellView>)
    requires
        pass.phase is Idle,
        pass.next < cells.len(),
        cells[pass.next as int] matches CellView::RustCode(source) && classification(source) is Err,
    ensures
        advance(pass, cells).0.records == pass.records,
        advance(pass, cells).0.next == pass.next,
        advance(pass, cells).0.phase is Aborted,
        advance(pass, cells).1 == cells,
        advance(pass, cells).2 is Failed,
{
}

/// An aborted pass evaluates nothing more: every further step reports that
/// the pass is halted and changes neither the pass nor the cells.
pub proof fn lemma_aborted_pass_stays(pass: Pass, cells: Seq<CellView>)
    requires
        pass.phase is Aborted,
    ensures
        advance(pass, cells) == (pass, cells, StepView::Halted),
{
}

/// A step never takes a record away and never changes the source of a cell:
/// the records before it are a prefix of the records after it, there are as
/// many cells as before, and prose stays as it is.
pub proof fn lemma_step_keeps_what_is_there(pass: Pass, cells: Seq<CellView>)
    ensures
        pass.records.is_prefix_of(advance(pass, cells).0.records),
        advance(pass, cells).1.len() == cells.len(),
        forall|i: int|
            0 <= i < cells.len() && !(cells[i] is RustCode) ==> #[trigger] advance(pass, cells).1[i]
                == cells[i],
        forall|i: int|
            0 <= i < cells.len() && cells[i] is RustCode ==> (#[trigger] advance(pass, cells).1[i]
                == cells[i] || (advance(pass, cells).1[i] matches CellView::EvaluatedRustCode {
                source,
                ..
            } && source == cells[i]->RustCode_0)),
{
}

/// The program that a step hands out is the text of all records up to and
/// with the cell it names.
pub proof fn lemma_run_is_current_program(pass: Pass, cells: Seq<CellView>)
    requires
        advance(pass, cells).2 is Run,
    ensures
        advance(pass, cells).2 matches StepView::Run { cell, program } && cell == pass.next
            && program_text(merged(advance(pass, cells).0.records)) == Some(program),
{
}

/// What a turn leaves in a code cell that is classified: the cell keeps its
/// source, and holds what the toolchain returned for the program made of all
/// records up to and with this cell; where there is no such program, it holds
/// the fixed failure for that. The record of the cell is added to the
/// program either way.
pub proof fn lemma_turn_records_the_run(
    pass: Pass,
    cells: Seq<CellView>,
    toolchain: spec_fn(Seq<char>) -> Outcome,
)
    requires
        pass.phase is Idle,
        pass.next < cells.len(),
        cells[pass.next as int] matches CellView::RustCode(source) && classification(source) is Ok,
    ensures
        ({
            let source = cells[pass.next as int]->RustCode_0;
            let records = pass.records.push(classification(source)->Ok_0);
            let turned = turn(pass, cells, toolchain);
            &&& turned.0 == (Pass { records, next: pass.next + 1, phase: Phase::Idle })
            &&& turned.1[pass.next as int] == match program_text(merged(records)) {
                Some(program) => CellView::EvaluatedRustCode {
                    source,
                    output: captured(toolchain(program)).0,
                    compiler_message: captured(toolchain(program)).1,
                },
                None => unrun(source),
            }
        }),
{
}

/// A turn of an idle pass touches one cell: every other cell is what it was
/// and there are as many cells as before; the pass either moves one cell on
/// and is idle again, or it is aborted where it stood, with the records and
/// the cells it had.
pub proof fn lemma_turn_is_local(
    pass: Pass,
    cells: Seq<CellView>,
    toolchain: spec_fn(Seq<char>) -> Outcome,
)
    requires
        pass.phase is Idle,
        pass.next < cells.len(),
    ensures
        turn(pass, cells, toolchain).1.len() == cells.len(),
        forall|i: int|
            0 <= i < cells.len() && i != pass.next ==> #[trigger] turn(pass, cells, toolchain).1[i]
                == cells[i],
        (turn(pass, cells, toolchain).0.phase is Idle && turn(pass, cells, toolchain).0.next
            == pass.next + 1) || (turn(pass, cells, toolchain) == (
            Pass { phase: Phase::Aborted, ..pass },
            cells,
        )),
{
}

/// A turn looks at the next cell only: over two notebooks that hold the same
/// cell there, the pass after the turn is the same, and so is that cell.
pub proof fn lemma_turn_reads_one_cell(
    pass: Pass,
    first: Seq<CellView>,
    second: Seq<CellView>,
    toolchain: spec_fn(Seq<char>) -> Outcome,
)
    requires
        pass.phase is Idle,
        pass.next < first.len(),
        pass.next < second.len(),
        first[pass.next as int] == second[pass.next as int],
    ensures
        turn(pass, first, toolchain).0 == turn(pass, second, toolchain).0,
        turn(pass, first, toolchain).1[pass.next as int] == turn(pass, second, toolchain).1[pass.next as int],
{
}

/// A pass goes forward only: the cells before the place where it stands are
/// what they were at its end, and there are as many cells as before.
pub proof fn lemma_pass_keeps_earlier_cells(
    pass: Pass,
    cells: Seq<CellView>,
    toolchain: spec_fn(Seq<char>) -> Outcome,
)
    ensures
        pass_over(pass, cells, toolchain).1.len() == cells.len(),
        forall|i: int|
            0 <= i < pass.next && i < cells.len() ==> #[trigger] pass_over(
                pass,
                cells,
                toolchain,
            ).1[i] == cells[i],
    decreases cells.len() - pass.next,
{
    if pass.phase is Idle && pass.next < cells.len() {
        let turned = turn(pass, cells, toolchain);
        lemma_turn_is_local(pass, cells, toolchain);
        if turned.0.phase is Idle && turned.0.next == pass.next + 1 {
            lemma_pass_keeps_earlier_cells(turned.0, turned.1, toolchain);
        }
    }
}

/// Later cells do not reach back, from any idle state: over a notebook and
/// over one that goes on after it, a pass leaves the same cells where both
/// have cells.
pub proof fn lemma_pass_over_prefix(
    pass: Pass,
    short: Seq<CellView>,
    long: Seq<CellView>,
    toolchain: spec_fn(Seq<char>) -> Outcome,
)
    requires
        pass.phase is Idle,
        pass.next <= short.len() <= long.len(),
        short == long.take(short.len() as int),
    ensures
        pass_over(pass, short, toolchain).1 == pass_over(pass, long, toolchain).1.take(
            short.len() as int,
        ),
    decreases short.len() - pass.next,
{
    let count = short.len() as int;
    if pass.next == count {
        lemma_pass_keeps_earlier_cells(pass, long, toolchain);
        assert(pass_over(pass, long, toolchain).1.take(count) =~= short);
    } else {
        assert(short[pass.next as int] == long[pass.next as int]);
        lemma_turn_is_local(pass, short, toolchain);
        lemma_turn_is_local(pass, long, toolchain);
        lemma_turn_reads_one_cell(pass, short, long, toolchain);
        let turned_short = turn(pass, short, toolchain);
        let turned_long = turn(pass, long, toolchain);
        assert(turned_short.1 =~= turned_long.1.take(count)) by {
            assert forall|i: int| 0 <= i < count implies turned_short.1[i] == turned_long.1[i] by {
                if i != pass.next {
                    assert(short[i] == long[i]);
                }
            }
        }
        if turned_short.0.phase is Idle && turned_short.0.next == pass.next + 1 {
            lemma_pass_over_prefix(turned_short.0, turned_short.1, turned_long.1, toolchain);
        }
    }
}

/// Removing later cells does not change what earlier cells hold after a pass:
/// with the same toolchain, a pass over a notebook and a pass over a notebook
/// that goes on after it leave the same source, output and message in every
/// cell of the shorter one.
pub proof fn lemma_later_cells_do_not_reach_back(
    short: Seq<CellView>,
    long: Seq<CellView>,
    toolchain: spec_fn(Seq<char>) -> Outcome,
)
    requires
        short.is_prefix_of(long),
    ensures
        forall|i: int|
            0 <= i < short.len() ==> #[trigger] pass_over(start(), short, toolchain).1[i]
                == pass_over(start(), long, toolchain).1[i],
{
    assert(short =~= long.take(short.len() as int));
    lemma_pass_over_prefix(start(), short, long, toolchain);
    lemma_pass_keeps_earlier_cells(start(), short, toolchain);
    lemma_pass_keeps_earlier_cells(start(), long, toolchain);
    assert forall|i: int| 0 <= i < short.len() implies #[trigger] pass_over(
        start(),
        short,
        toolchain,
    ).1[i] == pass_over(start(), long, toolchain).1[i] by {
        assert(pass_over(start(), long, toolchain).1.take(short.len() as int)[i] == pass_over(
            start(),
            long,
            toolchain,
        ).1[i]);
    }
}

/// Whether the cell at `index` is a code cell whose text is refused.
pub open spec fn refused_at(cells: Seq<CellView>, index: int) -> bool {
    0 <= index < cells.len() && (cells[index] matches CellView::RustCode(source)
        && classification(source) is Err)
}

/// A pass up to a refused cell, from any idle state before it: it ends with
/// the records of the pass over the cells before the refused one, and leaves
/// the refused cell and all cells after it as they were.
pub proof fn lemma_pass_over_refusal(
    pass: Pass,
    cells: Seq<CellView>,
    index: int,
    toolchain: spec_fn(Seq<char>) -> Outcome,
)
    requires
        pass.phase is Idle,
        pass.next <= index,
        refused_at(cells, index),
    ensures
        pass_over(pass, cells, toolchain).0.records == pass_over(
            pass,
            cells.take(index),
            toolchain,
        ).0.records,
        forall|i: int|
            index <= i < cells.len() ==> #[trigger] pass_over(pass, cells, toolchain).1[i]
                == cells[i],
        pass_over(pass, cells, toolchain).0.phase is Aborted,
    decreases index - pass.next,
{
    let short = cells.take(index);
    if pass.next < index {
        lemma_turn_is_local(pass, short, toolchain);
        lemma_turn_is_local(pass, cells, toolchain);
        lemma_turn_reads_one_cell(pass, short, cells, toolchain);
        let turned_short = turn(pass, short, toolchain);
        let turned = turn(pass, cells, toolchain);
        if turned.0.phase is Idle && turned.0.next == pass.next + 1 {
            assert(turned_short.1 =~= turned.1.take(index)) by {
                assert forall|i: int| 0 <= i < index implies turned_short.1[i] == turned.1[i] by {
                    if i != pass.next {
                        assert(short[i] == cells[i]);
                    }
                }
            }
            assert(turned.1[index] == cells[index]);
            lemma_pass_over_refusal(turned.0, turned.1, index, toolchain);
        }
    }
}

/// A refused cell is as if the notebook ended before it: with the same
/// toolchain, the pass over the whole notebook leaves in the cells before the
/// refused one what a pass over those cells alone leaves there, holds the
/// same records at its end, and leaves the refused cell and every later cell
/// as they were.
pub proof fn lemma_refused_cell_ends_the_pass(
    cells: Seq<CellView>,
    index: int,
    toolchain: spec_fn(Seq<char>) -> Outcome,
)
    requires
        refused_at(cells, index),
    ensures
        forall|i: int|
            0 <= i < index ==> #[trigger] pass_over(start(), cells, toolchain).1[i] == pass_over(
                start(),
                cells.take(index),
                toolchain,
            ).1[i],
        forall|i: int|
            index <= i < cells.len() ==> #[trigger] pass_over(start(), cells, toolchain).1[i]
                == cells[i],
        pass_over(start(), cells, toolchain).0.records == pass_over(
            start(),
            cells.take(index),
            toolchain,
        ).0.records,
        pass_over(start(), cells, toolchain).0.phase is Aborted,
{
    lemma_pass_over_refusal(start(), cells, index, toolchain);
    assert(cells.take(index).is_prefix_of(cells));
    lemma_later_cells_do_not_reach_back(cells.take(index), cells, toolchain);
}

} // verus!
