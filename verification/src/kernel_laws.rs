//! What holds of classification for every text.

use crate::kernel::{
    classification, counted, first_piece, items_of, printed_piece, top_levels_of, trace, Piece,
};
use crate::syntax::{item_split, token_text};
use vstd::prelude::*;

verus! {

/// Declarations come first: where the attempt to read a declaration at the
/// start of printed tokens counts, the piece there is that declaration,
/// whatever the other two grammars say of the same text.
pub proof fn lemma_declaration_wins(text: Seq<char>)
    requires
        counted(item_split(text), text) is Some,
    ensures
        printed_piece(text) matches Some((piece, rest)) && piece is Item && item_split(text)
            == Some((piece.text(), rest)),
        text.len() > 0 ==> trace(text).pieces.len() > 0 && trace(text).pieces[0] is Item,
{
}

/// The same of any text: where the attempt to read a declaration at the
/// start of its print counts, the first piece of the text is that
/// declaration.
pub proof fn lemma_declaration_wins_in_source(source: Seq<char>)
    requires
        token_text(source) matches Some(printed) && counted(item_split(printed), printed) is Some,
    ensures
        first_piece(source) matches Some((piece, _)) && piece is Item,
{
}

/// Every piece stands in exactly one container: the declarations and the
/// forms of a sequence of pieces are together as many as the pieces.
pub proof fn lemma_no_piece_lost(pieces: Seq<Piece>)
    ensures
        items_of(pieces).len() + top_levels_of(pieces).len() == pieces.len(),
    decreases pieces.len(),
{
    reveal(Seq::filter);
    if pieces.len() > 0 {
        lemma_no_piece_lost(pieces.drop_last());
    }
}

/// A source that is accepted is consumed whole: it is a token sequence,
/// nothing of its print is left after the last piece, and the record holds as
/// many declarations and forms as there are pieces.
pub proof fn lemma_accepted_is_consumed(source: Seq<char>)
    requires
        classification(source) is Ok,
    ensures
        token_text(source) matches Some(printed) && trace(printed).remainder.len() == 0 && (
        classification(source) matches Ok(record) && record.items.len() + record.top_levels.len()
            == trace(printed).pieces.len()),
{
    lemma_no_piece_lost(trace(token_text(source)->Some_0).pieces);
}

/// A source that is refused yields no record: either it is no token sequence
/// and is handed back whole, or the failure names the pieces before it and
/// the text that was left, which is not empty.
pub proof fn lemma_refused_is_whole(source: Seq<char>)
    requires
        classification(source) is Err,
    ensures
        classification(source) matches Err((consumed, remainder)) && match token_text(source) {
            Some(printed) => consumed == trace(printed).pieces.len() && remainder == trace(
                printed,
            ).remainder && remainder.len() > 0,
            None => consumed == 0 && remainder == source,
        },
{
}

} // verus!
