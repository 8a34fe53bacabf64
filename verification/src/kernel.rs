//! Fragments of one code cell: how a cell's text is classified into
//! declarations and top-level forms.

use crate::syntax::{
    expr_split, item_split, lex, stmt_split, token_text, try_parse_expr, try_parse_item,
    try_parse_stmt,
};
use vstd::prelude::*;
use vstd::string::StrSliceExecFns;

verus! {

/// An executable top-level form of a cell, as printed tokens.
#[derive(Debug, Clone, PartialEq, Eq)]
pub enum TopLevel {
    Stmt(String),
    Expr(String),
}

/// The mathematical value of a `TopLevel`.
pub enum Form {
    Stmt(Seq<char>),
    Expr(Seq<char>),
}

impl View for TopLevel {
    type V = Form;

    open spec fn view(&self) -> Form {
        match self {
            TopLevel::Stmt(text) => Form::Stmt(text@),
            TopLevel::Expr(text) => Form::Expr(text@),
        }
    }
}

/// One classified piece of a cell's text, as printed tokens.
#[derive(Debug, Clone, PartialEq, Eq)]
pub enum Fragment {
    Item(String),
    Stmt(String),
    Expr(String),
}

/// The mathematical value of a `Fragment`.
pub enum Piece {
    Item(Seq<char>),
    Stmt(Seq<char>),
    Expr(Seq<char>),
}

impl View for Fragment {
    type V = Piece;

    open spec fn view(&self) -> Piece {
        match self {
            Fragment::Item(text) => Piece::Item(text@),
            Fragment::Stmt(text) => Piece::Stmt(text@),
            Fragment::Expr(text) => Piece::Expr(text@),
        }
    }
}

impl Piece {
    /// The printed tokens of the piece.
    pub open spec fn text(self) -> Seq<char> {
        match self {
            Piece::Item(text) => text,
            Piece::Stmt(text) => text,
            Piece::Expr(text) => text,
        }
    }

    /// The piece as a top-level form; a declaration is none, and stands here
    /// as a statement.
    pub open spec fn form(self) -> Form {
        match self {
            Piece::Expr(text) => Form::Expr(text),
            _ => Form::Stmt(self.text()),
        }
    }
}

/// The mathematical value of a `Code`: the declarations and the top-level
/// forms of one cell, each in source order.
pub struct Record {
    pub items: Seq<Seq<char>>,
    pub top_levels: Seq<Form>,
}

/// The declarations among `pieces`, in order.
pub open spec fn items_of(pieces: Seq<Piece>) -> Seq<Seq<char>> {
    pieces.filter(|p: Piece| p is Item).map_values(|p: Piece| p.text())
}

/// The top-level forms among `pieces`, in order.
pub open spec fn top_levels_of(pieces: Seq<Piece>) -> Seq<Form> {
    pieces.filter(|p: Piece| !(p is Item)).map_values(|p: Piece| p.form())
}

/// The record that holds `pieces`: every piece stands in exactly one of the
/// two containers.
pub open spec fn record_of(pieces: Seq<Piece>) -> Record {
    Record { items: items_of(pieces), top_levels: top_levels_of(pieces) }
}

/// A parse attempt counts when it matched and left strictly less text; one
/// that does not count stands for no match.
pub open spec fn counted(split: Option<(Seq<char>, Seq<char>)>, text: Seq<char>) -> Option<
    (Seq<char>, Seq<char>),
> {
    match split {
        Some((node, rest)) => if rest.len() < text.len() {
            split
        } else {
            None
        },
        None => None,
    }
}

/// The piece at the start of printed tokens and the text after it. The
/// grammars are tried in a fixed order: declaration, then statement, then
/// expression; the first whose attempt counts decides.
pub open spec fn printed_piece(text: Seq<char>) -> Option<(Piece, Seq<char>)> {
    match counted(item_split(text), text) {
        Some((node, rest)) => Some((Piece::Item(node), rest)),
        None => match counted(stmt_split(text), text) {
            Some((node, rest)) => Some((Piece::Stmt(node), rest)),
            None => match counted(expr_split(text), text) {
                Some((node, rest)) => Some((Piece::Expr(node), rest)),
                None => None,
            },
        },
    }
}

/// The piece at the start of any text and the printed tokens after it: the
/// text is printed as tokens first, and what an attempt leaves is measured
/// against that print. Text that is no token sequence has no piece.
pub open spec fn first_piece(text: Seq<char>) -> Option<(Piece, Seq<char>)> {
    match token_text(text) {
        Some(printed) => printed_piece(printed),
        None => None,
    }
}

/// The pieces that classification finds in a text, and what it could not
/// consume.
pub struct Trace {
    pub pieces: Seq<Piece>,
    pub remainder: Seq<char>,
}

/// Classification of printed tokens from their start: pieces are taken one
/// after another until the text is exhausted or no grammar matches.
pub open spec fn trace(text: Seq<char>) -> Trace
    decreases text.len(),
{
    match printed_piece(text) {
        Some((piece, rest)) => if 0 < text.len() && rest.len() < text.len() {
            let tail = trace(rest);
            Trace { pieces: seq![piece] + tail.pieces, remainder: tail.remainder }
        } else {
            Trace { pieces: Seq::empty(), remainder: text }
        },
        None => Trace { pieces: Seq::empty(), remainder: text },
    }
}

/// Why a cell's text was refused: how many pieces were classified before the
/// failure, and the text that no grammar could consume.
#[derive(Debug, Clone, PartialEq, Eq)]
pub struct ClassificationError {
    pub consumed: usize,
    pub remainder: String,
}

/// What classification of printed tokens returns: the record of all pieces
/// when nothing is left over, else the failure.
pub open spec fn trace_outcome(text: Seq<char>) -> Result<Record, (nat, Seq<char>)> {
    let found = trace(text);
    if found.remainder.len() == 0 {
        Ok(record_of(found.pieces))
    } else {
        Err((found.pieces.len(), found.remainder))
    }
}

/// What classification of a cell's source returns: the source is printed as
/// tokens and the print is classified; source that is no token sequence is
/// refused whole, before any piece.
pub open spec fn classification(source: Seq<char>) -> Result<Record, (nat, Seq<char>)> {
    match token_text(source) {
        Some(text) => trace_outcome(text),
        None => Err((0, source)),
    }
}

/// The fragments of one code cell.
#[derive(Debug, PartialEq, Eq)]
pub struct Code {
    items: Vec<String>,
    top_levels: Vec<TopLevel>,
}

impl View for Code {
    type V = Record;

    closed spec fn view(&self) -> Record {
        Record {
            items: self.items@.map_values(|text: String| text@),
            top_levels: self.top_levels@.map_values(|form: TopLevel| form@),
        }
    }
}

impl Default for Code {
    fn default() -> (code: Code)
        ensures
            code@.items == Seq::<Seq<char>>::empty(),
            code@.top_levels == Seq::<Form>::empty(),
    {
        let code = Code { items: Vec::new(), top_levels: Vec::new() };
        code
    }
}

/// Pushing a piece onto a sequence adds it to the end of its container and
/// leaves the other container as it was.
pub proof fn lemma_record_push(pieces: Seq<Piece>, piece: Piece)
    ensures
        piece is Item ==> record_of(pieces.push(piece)) == (Record {
            items: items_of(pieces).push(piece.text()),
            top_levels: top_levels_of(pieces),
        }),
        !(piece is Item) ==> record_of(pieces.push(piece)) == (Record {
            items: items_of(pieces),
            top_levels: top_levels_of(pieces).push(piece.form()),
        }),
{
    reveal(Seq::filter);
    assert(pieces.push(piece).drop_last() =~= pieces);
    if piece is Item {
        assert(items_of(pieces.push(piece)) =~= items_of(pieces).push(piece.text()));
    } else {
        assert(top_levels_of(pieces.push(piece)) =~= top_levels_of(pieces).push(piece.form()));
    }
}

/// Keeps a parse attempt only where it counts: where it matched and its
/// remainder is shorter than the text of `size` characters it was run on.
pub fn accept(split: Option<(String, String)>, size: usize) -> (kept: Option<(String, String)>)
    ensures
        kept is Some <==> (split matches Some((_, rest)) && rest@.len() < size),
        kept is Some ==> kept == split,
{
    match split {
        Some((node, rest)) => {
            if rest.as_str().unicode_len() < size {
                Some((node, rest))
            } else {
                None
            }
        },
        None => None,
    }
}

/// The fragment at the start of any text, and the printed tokens after it.
pub fn first_fragment(text: &str) -> (first: Option<(Fragment, String)>)
    ensures
        first is Some <==> first_piece(text@) is Some,
        first matches Some((fragment, rest)) ==> first_piece(text@) == Some((fragment@, rest@)),
{
    match lex(text) {
        Some(printed) => printed_fragment(printed.as_str()),
        None => None,
    }
}

/// The fragment at the start of printed tokens, and the text after it. Every
/// attempt starts from the same text: one that fails consumes nothing.
fn printed_fragment(text: &str) -> (first: Option<(Fragment, String)>)
    ensures
        first is Some <==> printed_piece(text@) is Some,
        first matches Some((fragment, rest)) ==> printed_piece(text@) == Some(
            (fragment@, rest@),
        ),
{
    let size = text.unicode_len();
    if let Some((node, rest)) = accept(try_parse_item(text), size) {
        return Some((Fragment::Item(node), rest));
    }
    if let Some((node, rest)) = accept(try_parse_stmt(text), size) {
        return Some((Fragment::Stmt(node), rest));
    }
    if let Some((node, rest)) = accept(try_parse_expr(text), size) {
        return Some((Fragment::Expr(node), rest));
    }
    None
}

impl Code {
    /// The declarations of the cell, in source order.
    pub fn items(&self) -> (items: &Vec<String>)
        ensures
            items@.map_values(|text: String| text@) == self@.items,
    {
        &self.items
    }

    /// The top-level forms of the cell, in source order.
    pub fn top_levels(&self) -> (top_levels: &Vec<TopLevel>)
        ensures
            top_levels@.map_values(|form: TopLevel| form@) == self@.top_levels,
    {
        &self.top_levels
    }

    /// Adds a declaration after those that are there.
    pub(crate) fn push_item(&mut self, text: String)
        ensures
            final(self)@.items == old(self)@.items.push(text@),
            final(self)@.top_levels == old(self)@.top_levels,
    {
        self.items.push(text);
    }

    /// Adds a top-level form after those that are there.
    pub(crate) fn push_top_level(&mut self, form: TopLevel)
        ensures
            final(self)@.items == old(self)@.items,
            final(self)@.top_levels == old(self)@.top_levels.push(form@),
    {
        self.top_levels.push(form);
    }

    /// Adds a fragment at the end of the container it belongs to.
    fn push(&mut self, fragment: Fragment, Ghost(pieces): Ghost<Seq<Piece>>)
        requires
            old(self)@ == record_of(pieces),
        ensures
            final(self)@ == record_of(pieces.push(fragment@)),
    {
        proof {
            lemma_record_push(pieces, fragment@);
        }
        match fragment {
            Fragment::Item(text) => self.push_item(text),
            Fragment::Stmt(text) => self.push_top_level(TopLevel::Stmt(text)),
            Fragment::Expr(text) => self.push_top_level(TopLevel::Expr(text)),
        }
    }

    /// Classifies any text from its start to its end: the text is printed as
    /// tokens, and pieces are taken off the print one after another. The
    /// result is all or nothing: either every piece of the text stands in the
    /// record, or the text is refused with the count of pieces before the
    /// failure and the text that was left.
    pub fn parse(text: &str) -> (outcome: Result<Code, ClassificationError>)
        ensures
            match outcome {
                Ok(code) => classification(text@) == Ok::<Record, (nat, Seq<char>)>(code@),
                Err(error) => classification(text@) == Err::<Record, (nat, Seq<char>)>(
                    (error.consumed as nat, error.remainder@),
                ),
            },
    {
        let printed = match lex(text) {
            Some(printed) => printed,
            None => {
                return Err(ClassificationError { consumed: 0, remainder: text.to_owned() });
            },
        };
        let mut code = Code::default();
        proof {
            reveal(Seq::filter);
            assert(record_of(Seq::empty()).items =~= code@.items);
            assert(record_of(Seq::empty()).top_levels =~= code@.top_levels);
            assert(Seq::<Piece>::empty() + trace(printed@).pieces =~= trace(printed@).pieces);
        }
        let limit: usize = printed.as_str().unicode_len();
        let ghost whole = printed@;
        let mut rest: String = printed;
        let mut consumed: usize = 0;
        let ghost mut done: Seq<Piece> = Seq::empty();
        loop
            invariant
                token_text(text@) == Some(whole),
                code@ == record_of(done),
                consumed == done.len(),
                done.len() + rest@.len() <= limit,
                trace(whole).pieces == done + trace(rest@).pieces,
                trace(whole).remainder == trace(rest@).remainder,
            decreases rest@.len(),
        {
            if rest.as_str().unicode_len() == 0 {
                proof {
                    assert(done + Seq::<Piece>::empty() =~= done);
                }
                return Ok(code);
            }
            match printed_fragment(rest.as_str()) {
                Some((fragment, tail)) => {
                    proof {
                        assert(done + (seq![fragment@] + trace(tail@).pieces) =~= done.push(
                            fragment@,
                        ) + trace(tail@).pieces);
                    }
                    code.push(fragment, Ghost(done));
                    proof {
                        done = done.push(fragment@);
                    }
                    consumed = consumed + 1;
                    rest = tail;
                },
                None => {
                    proof {
                        assert(done + Seq::<Piece>::empty() =~= done);
                    }
                    return Err(ClassificationError { consumed, remainder: rest });
                },
            }
        }
    }

    /// Classifies the source text of one code cell.
    pub fn try_from(source: &str) -> (outcome: Result<Code, ClassificationError>)
        ensures
            match outcome {
                Ok(code) => classification(source@) == Ok::<Record, (nat, Seq<char>)>(code@),
                Err(error) => classification(source@) == Err::<Record, (nat, Seq<char>)>(
                    (error.consumed as nat, error.remainder@),
                ),
            },
    {
        Code::parse(source)
    }
}

} // verus!
