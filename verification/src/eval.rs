//! One evaluation pass over a notebook, as a state machine.
//!
//! The pass itself runs no program. `Evaluation::step` says what is to be done
//! next; where that is to run a program, the caller runs it and hands the
//! outcome to `Evaluation::record`.

use crate::kernel::{classification, ClassificationError, Code, Record};
use crate::notebook::{Cell, CellView, EvaluatedRustCode, Notebook};
use crate::program::{merged, program_text, File};
use vstd::pervasive::unreached;
use vstd::prelude::*;
use vstd::string::{StringExecFns, StringSliceAdditionalSpecFns};
use vstd::utf8::{decode_utf8, encode_utf8_decode_utf8, valid_utf8};

verus! {

/// What is recorded as the output of a cell whose program could not be run.
pub const NO_OUTPUT: &'static str = "error";

/// What is recorded as the message of a cell for which there is no program.
pub const NO_PROGRAM: &'static str = "empty file";

/// What is recorded as the message of a run whose diagnostics are no text.
pub const NOT_TEXT: &'static str = "diagnostics are not UTF-8";

/// `std::str::from_utf8`: the bytes as a string slice when they are valid
/// UTF-8, nothing otherwise. The slice is made of the very bytes it was given.
#[verifier::external_body]
fn str_from_utf8(bytes: &[u8]) -> (text: Option<&str>)
    ensures
        text is Some <==> valid_utf8(bytes@),
        text matches Some(s) ==> s.spec_bytes() == bytes@,
{
    std::str::from_utf8(bytes).ok()
}

/// The text that a buffer of captured process output encodes, where it
/// encodes one.
pub fn u8s_to_text(buf: &Vec<u8>) -> (text: Option<String>)
    ensures
        text is Some <==> valid_utf8(buf@),
        text matches Some(s) ==> s@ == decode_utf8(buf@),
{
    broadcast use encode_utf8_decode_utf8;

    match str_from_utf8(buf.as_slice()) {
        Some(s) => Some(s.to_owned()),
        None => None,
    }
}

/// The text that a buffer of captured process output encodes.
pub fn u8s_to_string(buf: &Vec<u8>) -> (text: String)
    requires
        valid_utf8(buf@),
    ensures
        text@ == decode_utf8(buf@),
{
    match u8s_to_text(buf) {
        Some(text) => text,
        None => unreached(),
    }
}

/// How the run of a program ended.
#[derive(Debug, Clone, PartialEq, Eq)]
pub enum Outcome {
    /// The toolchain ran; these are the bytes it wrote.
    Finished { stdout: Vec<u8>, stderr: Vec<u8> },
    /// The toolchain could not be run; this is why.
    Failed(String),
}

/// The text that bytes encode, or `marker` where they encode none.
pub open spec fn text_or(bytes: Seq<u8>, marker: Seq<char>) -> Seq<char> {
    if valid_utf8(bytes) {
        decode_utf8(bytes)
    } else {
        marker
    }
}

/// The output and the message that are recorded for an outcome: what the
/// toolchain wrote, each stream as its text or as a fixed marker where it is
/// no text; or a fixed output and the reason why the toolchain did not run.
pub open spec fn captured(outcome: Outcome) -> (Seq<char>, Seq<char>) {
    match outcome {
        Outcome::Finished { stdout, stderr } => (
            text_or(stdout@, NO_OUTPUT@),
            text_or(stderr@, NOT_TEXT@),
        ),
        Outcome::Failed(reason) => (NO_OUTPUT@, reason@),
    }
}

/// Where a pass stands.
#[derive(Debug, Clone, Copy, PartialEq, Eq, Structural)]
pub enum Phase {
    /// Between two cells.
    Idle,
    /// A program has been handed out and its outcome is awaited.
    Running,
    /// A cell was refused; the pass is over.
    Aborted,
}

/// What `Evaluation::step` asks of its caller.
#[derive(Debug, PartialEq, Eq)]
pub enum Step {
    /// Every cell has been seen.
    Done,
    /// The pass was aborted earlier.
    Halted,
    /// The cell needed no run; the pass has moved past it.
    Passed { cell: usize },
    /// Run this program, then call `record` with the outcome.
    Run { cell: usize, program: String },
    /// The cell was refused, and the pass is aborted.
    Failed { cell: usize, error: ClassificationError },
}

/// The mathematical value of a `Step`.
pub enum StepView {
    Done,
    Halted,
    Passed { cell: nat },
    Run { cell: nat, program: Seq<char> },
    Failed { cell: nat, consumed: nat, remainder: Seq<char> },
}

impl View for Step {
    type V = StepView;

    open spec fn view(&self) -> StepView {
        match self {
            Step::Done => StepView::Done,
            Step::Halted => StepView::Halted,
            Step::Passed { cell } => StepView::Passed { cell: *cell as nat },
            Step::Run { cell, program } => StepView::Run { cell: *cell as nat, program: program@ },
            Step::Failed { cell, error } => StepView::Failed {
                cell: *cell as nat,
                consumed: error.consumed as nat,
                remainder: error.remainder@,
            },
        }
    }
}

/// The mathematical value of an `Evaluation`: the records of the cells
/// evaluated so far, the index of the cell that is next, and the phase.
pub struct Pass {
    pub records: Seq<Record>,
    pub next: nat,
    pub phase: Phase,
}

/// The state of one evaluation pass: the program accumulated so far and the
/// place in the notebook.
#[derive(Debug)]
pub struct Evaluation {
    file: File,
    next: usize,
    phase: Phase,
}

impl View for Evaluation {
    type V = Pass;

    closed spec fn view(&self) -> Pass {
        Pass { records: self.file@, next: self.next as nat, phase: self.phase }
    }
}

/// The cell that stands for a code cell without a program.
pub open spec fn unrun(source: Seq<char>) -> CellView {
    CellView::EvaluatedRustCode { source, output: NO_OUTPUT@, compiler_message: NO_PROGRAM@ }
}

/// One step of a pass over `cells`: the pass and the cells after it, and what
/// is asked of the caller.
///
/// An aborted pass stays as it is. A pass that awaits an outcome asks for the
/// same run again. Otherwise the next cell is looked at: prose and evaluated
/// cells are passed; a code cell is classified, and either refused, which
/// aborts the pass and changes neither program nor cells, or added to the
/// program, whose text is then to be run.
pub open spec fn advance(pass: Pass, cells: Seq<CellView>) -> (Pass, Seq<CellView>, StepView) {
    if pass.phase is Aborted {
        (pass, cells, StepView::Halted)
    } else if pass.next >= cells.len() {
        (pass, cells, StepView::Done)
    } else if pass.phase is Running {
        match program_text(merged(pass.records)) {
            Some(program) => (pass, cells, StepView::Run { cell: pass.next, program }),
            None => (Pass { phase: Phase::Idle, ..pass }, cells, StepView::Passed { cell: pass.next }),
        }
    } else {
        match cells[pass.next as int] {
            CellView::RustCode(source) => match classification(source) {
                Err((consumed, remainder)) => (
                    Pass { phase: Phase::Aborted, ..pass },
                    cells,
                    StepView::Failed { cell: pass.next, consumed, remainder },
                ),
                Ok(record) => {
                    let records = pass.records.push(record);
                    match program_text(merged(records)) {
                        Some(program) => (
                            Pass { records, phase: Phase::Running, ..pass },
                            cells,
                            StepView::Run { cell: pass.next, program },
                        ),
                        None => (
                            Pass { records, next: pass.next + 1, ..pass },
                            cells.update(pass.next as int, unrun(source)),
                            StepView::Passed { cell: pass.next },
                        ),
                    }
                },
            },
            _ => (Pass { next: pass.next + 1, ..pass }, cells, StepView::Passed { cell: pass.next }),
        }
    }
}

/// Whether an outcome is taken: a run must be awaited, for a code cell.
pub open spec fn awaited(pass: Pass, cells: Seq<CellView>) -> bool {
    pass.phase is Running && pass.next < cells.len() && cells[pass.next as int] is RustCode
}

/// The pass and the cells after an outcome is recorded: the code cell becomes
/// an evaluated cell with the same source, and the pass moves past it. An
/// outcome that is not awaited changes nothing.
pub open spec fn recorded(pass: Pass, cells: Seq<CellView>, outcome: Outcome) -> (
    Pass,
    Seq<CellView>,
) {
    if awaited(pass, cells) {
        (
            Pass { next: pass.next + 1, phase: Phase::Idle, ..pass },
            cells.update(
                pass.next as int,
                CellView::EvaluatedRustCode {
                    source: cells[pass.next as int]->RustCode_0,
                    output: captured(outcome).0,
                    compiler_message: captured(outcome).1,
                },
            ),
        )
    } else {
        (pass, cells)
    }
}

/// The text that a buffer encodes, or the marker where it encodes none.
fn text_or_marker(buf: &Vec<u8>, marker: &str) -> (text: String)
    ensures
        text@ == text_or(buf@, marker@),
{
    match u8s_to_text(buf) {
        Some(text) => text,
        None => String::from_str(marker),
    }
}

/// One turn of a pass with a toolchain: one step and, where the step asks for
/// a run, the recording of what the toolchain returns for that program.
pub open spec fn turn(
    pass: Pass,
    cells: Seq<CellView>,
    toolchain: spec_fn(Seq<char>) -> Outcome,
) -> (Pass, Seq<CellView>) {
    let stepped = advance(pass, cells);
    match stepped.2 {
        StepView::Run { cell, program } => recorded(stepped.0, stepped.1, toolchain(program)),
        _ => (stepped.0, stepped.1),
    }
}

/// The pass before the first cell.
pub open spec fn start() -> Pass {
    Pass { records: Seq::empty(), next: 0, phase: Phase::Idle }
}

/// A whole pass from an idle state: turn after turn, cell by cell, until the
/// last cell is passed or a cell is refused.
pub open spec fn pass_over(
    pass: Pass,
    cells: Seq<CellView>,
    toolchain: spec_fn(Seq<char>) -> Outcome,
) -> (Pass, Seq<CellView>)
    decreases cells.len() - pass.next,
{
    if pass.phase is Idle && pass.next < cells.len() {
        let turned = turn(pass, cells, toolchain);
        if turned.0.phase is Idle && turned.0.next == pass.next + 1 && turned.1.len()
            == cells.len() {
            pass_over(turned.0, turned.1, toolchain)
        } else {
            turned
        }
    } else {
        (pass, cells)
    }
}

/// Puts an evaluated cell in the place of the code cell at `index`.
fn replace(notebook: &mut Notebook, index: usize, source: String, output: String, message: String)
    requires
        index < old(notebook)@.len(),
    ensures
        final(notebook)@ == old(notebook)@.update(
            index as int,
            CellView::EvaluatedRustCode {
                source: source@,
                output: output@,
                compiler_message: message@,
            },
        ),
{
    let cell = Cell::EvaluatedRustCode(
        EvaluatedRustCode { source, output, compiler_message: message },
    );
    notebook.cells.set(index, cell);
}

impl Evaluation {
    /// A pass that has seen no cell.
    pub fn new() -> (evaluation: Evaluation)
        ensures
            evaluation@ == start(),
    {
        Evaluation { file: File::new(), next: 0, phase: Phase::Idle }
    }

    /// The program accumulated so far.
    pub fn file(&self) -> (file: &File)
        ensures
            file@ == self@.records,
    {
        &self.file
    }

    /// The index of the cell that is next.
    pub fn position(&self) -> (next: usize)
        ensures
            next == self@.next,
    {
        self.next
    }

    /// Where the pass stands.
    pub fn phase(&self) -> (phase: Phase)
        ensures
            phase == self@.phase,
    {
        self.phase
    }

    /// Takes one step of the pass.
    pub fn step(&mut self, notebook: &mut Notebook) -> (step: Step)
        ensures
            advance(old(self)@, old(notebook)@) == (final(self)@, final(notebook)@, step@),
    {
        if let Phase::Aborted = self.phase {
            return Step::Halted;
        }
        if self.next >= notebook.cells.len() {
            return Step::Done;
        }
        let cell = self.next;
        if let Phase::Running = self.phase {
            return match self.file.to_source() {
                Some(program) => Step::Run { cell, program },
                None => {
                    self.phase = Phase::Idle;
                    Step::Passed { cell }
                },
            };
        }
        let source = match &notebook.cells[cell] {
            Cell::RustCode(source) => source.clone(),
            _ => {
                self.next = cell + 1;
                return Step::Passed { cell };
            },
        };
        match Code::try_from(source.as_str()) {
            Err(error) => {
                self.phase = Phase::Aborted;
                Step::Failed { cell, error }
            },
            Ok(code) => {
                self.file.push(code);
                match self.file.to_source() {
                    Some(program) => {
                        self.phase = Phase::Running;
                        Step::Run { cell, program }
                    },
                    None => {
                        replace(
                            notebook,
                            cell,
                            source,
                            String::from_str(NO_OUTPUT),
                            String::from_str(NO_PROGRAM),
                        );
                        self.next = cell + 1;
                        Step::Passed { cell }
                    },
                }
            },
        }
    }

    /// Records the outcome of the run that `step` asked for, whatever it is.
    /// Returns whether the outcome was taken.
    pub fn record(&mut self, notebook: &mut Notebook, outcome: Outcome) -> (taken: bool)
        ensures
            taken == awaited(old(self)@, old(notebook)@),
            recorded(old(self)@, old(notebook)@, outcome) == (final(self)@, final(notebook)@),
    {
        if self.phase != Phase::Running || self.next >= notebook.cells.len() {
            return false;
        }
        let cell = self.next;
        let source = match &notebook.cells[cell] {
            Cell::RustCode(source) => source.clone(),
            _ => {
                return false;
            },
        };
        let (output, message) = match outcome {
            Outcome::Finished { stdout, stderr } => (
                text_or_marker(&stdout, NO_OUTPUT),
                text_or_marker(&stderr, NOT_TEXT),
            ),
            Outcome::Failed(reason) => (String::from_str(NO_OUTPUT), reason),
        };
        replace(notebook, cell, source, output, message);
        self.next = cell + 1;
        self.phase = Phase::Idle;
        true
    }
}

} // verus!
