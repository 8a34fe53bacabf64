//! What holds of the accumulated program and of its text for every sequence
//! of records.

use crate::kernel::{Form, Record};
use crate::program::{body_text, effect_text, effects_text, lemma_merged_push, merged, program_text, tail_text, SPACE};
use vstd::prelude::*;

verus! {

/// The records of the first evaluations, up to and with the one at `index`.
pub open spec fn evaluated(records: Seq<Record>, index: int) -> Seq<Record> {
    records.take(index + 1)
}

/// The text that is synthesized when the record at `index` is evaluated.
pub open spec fn program_at(records: Seq<Record>, index: int) -> Option<Seq<char>> {
    program_text(merged(evaluated(records, index)))
}

/// Synthesis is a function of the records alone: the same records give the
/// same text, however often it is asked for.
pub proof fn lemma_synthesis_is_deterministic(first: Seq<Record>, second: Seq<Record>)
    requires
        first == second,
    ensures
        program_text(merged(first)) == program_text(merged(second)),
{
}

/// Accumulation only grows: after one more record, all declarations that
/// were there are there, in their order and before the new ones, and so are
/// all forms.
pub proof fn lemma_accumulation_is_monotonic(records: Seq<Record>, record: Record)
    ensures
        merged(records).items.is_prefix_of(merged(records.push(record)).items),
        merged(records).top_levels.is_prefix_of(merged(records.push(record)).top_levels),
        merged(records.push(record)).items == merged(records).items + record.items,
        merged(records.push(record)).top_levels == merged(records).top_levels + record.top_levels,
{
    lemma_merged_push(records, record);
}

/// What is synthesized for a cell depends on that cell and on those before it
/// only: two passes that agree up to a cell synthesize the same text for it,
/// whatever cells follow, and whether any follow at all.
pub proof fn lemma_later_records_do_not_matter(first: Seq<Record>, second: Seq<Record>, index: int)
    requires
        0 <= index < first.len(),
        0 <= index < second.len(),
        first.take(index + 1) == second.take(index + 1),
    ensures
        program_at(first, index) == program_at(second, index),
{
}

/// The declarations of an earlier cell are part of every later program: they
/// stand among the declarations from which the text at a later cell is made,
/// at the place they had.
pub proof fn lemma_declarations_stay_visible(records: Seq<Record>, early: int, late: int)
    requires
        0 <= early <= late < records.len(),
    ensures
        merged(evaluated(records, early)).items.is_prefix_of(merged(evaluated(records, late)).items),
        merged(evaluated(records, early)).top_levels.is_prefix_of(
            merged(evaluated(records, late)).top_levels,
        ),
    decreases late - early,
{
    if early < late {
        lemma_declarations_stay_visible(records, early, late - 1);
        assert(evaluated(records, late) =~= evaluated(records, late - 1).push(records[late]));
        lemma_merged_push(evaluated(records, late - 1), records[late]);
    }
}

/// Only the last form is a value: once a form is added, the form that was
/// last is rendered for its effect, and the new form as the tail.
pub proof fn lemma_only_last_form_is_value(forms: Seq<Form>, form: Form)
    ensures
        body_text(forms.push(form)) == effects_text(forms) + tail_text(form),
        forms.len() > 0 ==> effects_text(forms) == effects_text(forms.drop_last()) + effect_text(
            forms.last(),
        ) + SPACE@,
{
    assert(forms.push(form).drop_last() =~= forms);
}

} // verus!
