//! The growing program: the records of all evaluated cells, and the source
//! text that is synthesized from them.

use crate::kernel::{Code, Form, Record, TopLevel};
use vstd::prelude::*;
use vstd::string::StringExecFns;

verus! {

/// Opens the routine that evaluates the top-level forms.
pub const EVAL_OPEN: &'static str =
    "fn eval_context () -> impl std :: any :: Any + std :: fmt :: Debug { ";

/// Closes the routine that evaluates the top-level forms.
pub const EVAL_CLOSE: &'static str = " }";

/// The entry point that prints what the evaluation routine returns.
pub const ENTRY: &'static str = "fn main () { print ! (\"{:#?}\" , eval_context ()) }";

/// The entry point of a program without top-level forms.
pub const IDLE_ENTRY: &'static str = "fn main () { }";

/// What ends an expression that is evaluated for its effect only.
pub const TERMINATOR: &'static str = " ;";

/// What stands between two forms.
pub const SPACE: &'static str = " ";

/// What ends a line.
pub const NEWLINE: &'static str = "\n";

/// A form that is not the last: a statement as it is, an expression with a
/// terminator, so that its value is dropped.
pub open spec fn effect_text(form: Form) -> Seq<char> {
    match form {
        Form::Stmt(text) => text,
        Form::Expr(text) => text + TERMINATOR@,
    }
}

/// The last form: as it is, so that an expression keeps its value.
pub open spec fn tail_text(form: Form) -> Seq<char> {
    match form {
        Form::Stmt(text) => text,
        Form::Expr(text) => text,
    }
}

/// Forms rendered for their effect, each followed by a space.
pub open spec fn effects_text(forms: Seq<Form>) -> Seq<char>
    decreases forms.len(),
{
    if forms.len() == 0 {
        Seq::empty()
    } else {
        effects_text(forms.drop_last()) + effect_text(forms.last()) + SPACE@
    }
}

/// The body of the evaluation routine: every form but the last for its
/// effect, the last as the value of the routine.
pub open spec fn body_text(forms: Seq<Form>) -> Seq<char>
    recommends
        forms.len() > 0,
{
    effects_text(forms.drop_last()) + tail_text(forms.last())
}

/// Declarations, one per line, in order.
pub open spec fn lines_text(items: Seq<Seq<char>>) -> Seq<char>
    decreases items.len(),
{
    if items.len() == 0 {
        Seq::empty()
    } else {
        lines_text(items.drop_last()) + items.last() + NEWLINE@
    }
}

/// What follows the declarations: the evaluation routine and the entry point
/// that prints its value, or an idle entry point where there is no form.
pub open spec fn entry_text(forms: Seq<Form>) -> Seq<char> {
    if forms.len() == 0 {
        IDLE_ENTRY@ + NEWLINE@
    } else {
        EVAL_OPEN@ + body_text(forms) + EVAL_CLOSE@ + NEWLINE@ + ENTRY@ + NEWLINE@
    }
}

/// The source text of a program with these declarations and forms; nothing
/// where it has neither.
pub open spec fn program_text(record: Record) -> Option<Seq<char>> {
    if record.items.len() == 0 && record.top_levels.len() == 0 {
        None
    } else {
        Some(lines_text(record.items) + entry_text(record.top_levels))
    }
}

/// All declarations of `records` in record order, and all their forms in
/// record order.
pub open spec fn merged(records: Seq<Record>) -> Record {
    Record {
        items: records.map_values(|r: Record| r.items).flatten(),
        top_levels: records.map_values(|r: Record| r.top_levels).flatten(),
    }
}

/// The records of the cells evaluated so far, in the order of evaluation.
#[derive(Debug, PartialEq, Eq)]
pub struct File(pub Vec<Code>);

impl View for File {
    type V = Seq<Record>;

    open spec fn view(&self) -> Seq<Record> {
        self.0@.map_values(|code: Code| code@)
    }
}

impl Default for File {
    fn default() -> (file: File)
        ensures
            file@ == Seq::<Record>::empty(),
    {
        let file = File(Vec::new());
        file
    }
}

/// A record added at the end adds its declarations at the end of all
/// declarations and its forms at the end of all forms; what was there stays,
/// in its order.
pub proof fn lemma_merged_push(records: Seq<Record>, record: Record)
    ensures
        merged(records.push(record)).items == merged(records).items + record.items,
        merged(records.push(record)).top_levels == merged(records).top_levels + record.top_levels,
{
    let items = records.map_values(|r: Record| r.items);
    let top_levels = records.map_values(|r: Record| r.top_levels);
    assert(records.push(record).map_values(|r: Record| r.items) =~= items.push(record.items));
    assert(records.push(record).map_values(|r: Record| r.top_levels) =~= top_levels.push(
        record.top_levels,
    ));
    items.lemma_flatten_push(record.items);
    top_levels.lemma_flatten_push(record.top_levels);
}

impl Code {
    /// The record that holds the declarations of `self` followed by those of
    /// `other`, and the forms of `self` followed by those of `other`.
    fn absorb(&mut self, other: &Code)
        ensures
            final(self)@.items == old(self)@.items + other@.items,
            final(self)@.top_levels == old(self)@.top_levels + other@.top_levels,
    {
        let items = other.items();
        let mut i: usize = 0;
        while i < items.len()
            invariant
                i <= items.len(),
                items@.map_values(|text: String| text@) == other@.items,
                self@.items == old(self)@.items + other@.items.take(i as int),
                self@.top_levels == old(self)@.top_levels,
            decreases items.len() - i,
        {
            self.push_item(items[i].clone());
            i = i + 1;
        }
        let top_levels = other.top_levels();
        let mut j: usize = 0;
        while j < top_levels.len()
            invariant
                j <= top_levels.len(),
                top_levels@.map_values(|form: TopLevel| form@) == other@.top_levels,
                self@.items == old(self)@.items + other@.items,
                self@.top_levels == old(self)@.top_levels + other@.top_levels.take(j as int),
            decreases top_levels.len() - j,
        {
            self.push_top_level(clone_top_level(&top_levels[j]));
            j = j + 1;
        }
    }
}

/// A copy of a top-level form.
fn clone_top_level(form: &TopLevel) -> (copy: TopLevel)
    ensures
        copy@ == form@,
{
    match form {
        TopLevel::Stmt(text) => TopLevel::Stmt(text.clone()),
        TopLevel::Expr(text) => TopLevel::Expr(text.clone()),
    }
}

impl File {
    /// A program without records.
    pub fn new() -> (file: File)
        ensures
            file@ == Seq::<Record>::empty(),
    {
        File::default()
    }

    /// The number of records.
    pub fn len(&self) -> (n: usize)
        ensures
            n == self@.len(),
    {
        self.0.len()
    }

    /// Adds the record of one more evaluated cell. Nothing that was there is
    /// removed or moved.
    pub fn push(&mut self, code: Code)
        ensures
            final(self)@ == old(self)@.push(code@),
    {
        self.0.push(code);
    }

    /// All declarations and all forms of the program as they stand now, each
    /// in record order.
    pub fn snapshot(&self) -> (all: Code)
        ensures
            all@ == merged(self@),
    {
        let mut all = Code::default();
        let mut i: usize = 0;
        while i < self.0.len()
            invariant
                i <= self.0.len(),
                all@ == merged(self@.take(i as int)),
            decreases self.0.len() - i,
        {
            proof {
                lemma_merged_push(self@.take(i as int), self@[i as int]);
                assert(self@.take(i + 1) =~= self@.take(i as int).push(self@[i as int]));
            }
            all.absorb(&self.0[i]);
            i = i + 1;
        }
        assert(self@.take(i as int) =~= self@);
        all
    }

    /// The source text of the program as it stands now.
    pub fn to_source(&self) -> (source: Option<String>)
        ensures
            source.deep_view() == program_text(merged(self@)),
    {
        self.snapshot().to_source()
    }
}

impl Code {
    /// The text of the declarations, one per line.
    fn lines(&self) -> (text: String)
        ensures
            text@ == lines_text(self@.items),
    {
        let items = self.items();
        let mut text = String::new();
        let mut i: usize = 0;
        while i < items.len()
            invariant
                i <= items.len(),
                items@.map_values(|text: String| text@) == self@.items,
                text@ == lines_text(self@.items.take(i as int)),
            decreases items.len() - i,
        {
            proof {
                let next = self@.items.take(i + 1);
                assert(next.drop_last() =~= self@.items.take(i as int));
            }
            text.append(items[i].as_str());
            text.append(NEWLINE);
            i = i + 1;
        }
        assert(self@.items.take(i as int) =~= self@.items);
        text
    }

    /// The body of the evaluation routine.
    fn body(&self) -> (text: String)
        requires
            self@.top_levels.len() > 0,
        ensures
            text@ == body_text(self@.top_levels),
    {
        let forms = self.top_levels();
        let last: usize = forms.len() - 1;
        let mut text = String::new();
        let mut i: usize = 0;
        let ghost effects = self@.top_levels.drop_last();
        while i < last
            invariant
                i <= last,
                last + 1 == forms.len(),
                forms@.map_values(|form: TopLevel| form@) == self@.top_levels,
                effects == self@.top_levels.drop_last(),
                text@ == effects_text(effects.take(i as int)),
            decreases last - i,
        {
            proof {
                let next = effects.take(i + 1);
                assert(next.drop_last() =~= effects.take(i as int));
            }
            match &forms[i] {
                TopLevel::Stmt(form) => {
                    text.append(form.as_str());
                },
                TopLevel::Expr(form) => {
                    text.append(form.as_str());
                    text.append(TERMINATOR);
                },
            }
            text.append(SPACE);
            i = i + 1;
        }
        assert(effects.take(i as int) =~= effects);
        match &forms[last] {
            TopLevel::Stmt(form) => {
                text.append(form.as_str());
            },
            TopLevel::Expr(form) => {
                text.append(form.as_str());
            },
        }
        text
    }

    /// The source text of a program made of this record alone.
    pub fn to_source(&self) -> (source: Option<String>)
        ensures
            source.deep_view() == program_text(self@),
    {
        if self.items().len() == 0 && self.top_levels().len() == 0 {
            return None;
        }
        let mut text = self.lines();
        if self.top_levels().len() == 0 {
            text.append(IDLE_ENTRY);
            text.append(NEWLINE);
        } else {
            let body = self.body();
            text.append(EVAL_OPEN);
            text.append(body.as_str());
            text.append(EVAL_CLOSE);
            text.append(NEWLINE);
            text.append(ENTRY);
            text.append(NEWLINE);
        }
        Some(text)
    }
}

} // verus!
