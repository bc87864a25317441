//! The items of haitaka_types and std that the parser relies on.
use core::str::FromStr;
use haitaka_types::Move;
use std::time::Duration;
use vstd::prelude::*;

verus! {

/// A shogi move of haitaka_types.
#[verifier::external_type_specification]
#[verifier::external_body]
pub struct ExMove(Move);

pub open spec fn is_file_char(c: char) -> bool {
    '1' <= c <= '9'
}

pub open spec fn is_rank_char(c: char) -> bool {
    'a' <= c <= 'i'
}

/// A square such as `7g`: a file digit followed by a rank letter.
pub open spec fn square_text(w: Seq<char>) -> bool {
    w.len() == 2 && is_file_char(w[0]) && is_rank_char(w[1])
}

/// The one-letter piece names of either colour.
pub open spec fn is_piece_letter(c: char) -> bool {
    c == 'p' || c == 'l' || c == 'n' || c == 's' || c == 'g' || c == 'r' || c == 'b' || c == 'k'
        || c == 'P' || c == 'L' || c == 'N' || c == 'S' || c == 'G' || c == 'R' || c == 'B'
        || c == 'K'
}

/// The letters of the pieces that can promote, of either colour.
pub open spec fn is_promotable_letter(c: char) -> bool {
    c == 'p' || c == 'l' || c == 'n' || c == 's' || c == 'b' || c == 'r' || c == 'P' || c == 'L'
        || c == 'N' || c == 'S' || c == 'B' || c == 'R'
}

/// The piece names that haitaka_types reads: one piece letter, or `+` and a
/// letter of a piece that can promote (anything after those two is not read).
pub open spec fn piece_text(w: Seq<char>) -> bool {
    ||| w.len() == 1 && is_piece_letter(w[0])
    ||| w.len() >= 2 && w[0] == '+' && is_promotable_letter(w[1])
}

/// The strings that `Move::from_str` of haitaka_types accepts. With a `*` in
/// it, a drop: the text before the first `*` names a piece and the text after
/// it is a square. Without one, a board move: two squares and an optional `+`.
pub open spec fn move_text_accepted(s: Seq<char>) -> bool {
    ||| exists|p: int|
        0 <= p < s.len() && s[p] == '*' && (forall|q: int| 0 <= q < p ==> s[q] != '*')
            && piece_text(s.subrange(0, p)) && square_text(s.subrange(p + 1, s.len() as int))
    ||| (forall|q: int| 0 <= q < s.len() ==> s[q] != '*') && (s.len() == 4 || (s.len() == 5
        && s[4] == '+')) && square_text(s.subrange(0, 2)) && square_text(s.subrange(2, 4))
}

/// The move that `Move::from_str` of haitaka_types gives for the text `s`.
pub uninterp spec fn usi_move_of(s: Seq<char>) -> Move;

/// Calls `Move::from_str` of haitaka_types. The contract states which strings
/// it accepts, as its source shows them, and names the move it gives by
/// `usi_move_of`; which piece and squares that move holds is not stated.
#[verifier::external_body]
pub(crate) fn move_from_str(s: &str) -> (r: Option<Move>)
    ensures
        move_text_accepted(s@) ==> r == Some(usi_move_of(s@)),
        !move_text_accepted(s@) ==> r is None,
{
    Move::from_str(s).ok()
}

/// `Move` of haitaka_types derives `Clone` and `Copy`: a clone is the same move.
/// The derived `Clone` impls of the message types that hold moves call it.
pub assume_specification[ <Move as Clone>::clone ](m: &Move) -> (r: Move)
    ensures
        r == *m,
;

/// `Duration` of std is `Copy`: a clone is the same duration. The derived
/// `Clone` impls of the message types that hold durations call it.
pub assume_specification[ <Duration as Clone>::clone ](d: &Duration) -> (r: Duration)
    ensures
        r == *d,
;

/// Calls `String::from_iter` of std on the characters `v[a..b]`: the string
/// holds exactly those characters, in order.
#[verifier::external_body]
pub(crate) fn string_from_chars(v: &Vec<char>, a: usize, b: usize) -> (r: String)
    requires
        a <= b <= v.len(),
    ensures
        r@ == v@.subrange(a as int, b as int),
{
    String::from_iter(&v[a..b])
}

/// The duration that `Duration::from_millis` gives for `ms` milliseconds.
pub uninterp spec fn duration_of_millis(ms: u64) -> Duration;

/// Calls `Duration::from_millis` of std, which returns for every argument;
/// its result is named by `duration_of_millis`.
#[verifier::external_body]
pub(crate) fn duration_from_millis(ms: u64) -> (d: Duration)
    ensures
        d == duration_of_millis(ms),
{
    Duration::from_millis(ms)
}

} // verus!
