//! Reading tokens of a line: keywords, numbers, moves and texts.
use crate::grammar::{find_word, i32_at, is_drop_letter, is_move_text, millis_at, move_run, moves_between, u16_at, u32_at, u64_at};
use crate::outside::{
    duration_from_millis, is_file_char, is_rank_char, move_from_str, move_text_accepted,
    string_from_chars, usi_move_of,
};
use crate::text::{parse_i32, parse_u16, parse_u32, parse_u64, text, toks_wf, word, word_is};
use haitaka_types::Move;
use std::time::Duration;
use vstd::prelude::*;

verus! {

/// The input of a line parser: the characters of the line and its tokens.
pub open spec fn line_wf(v: &Vec<char>, ts: &Vec<(usize, usize)>) -> bool {
    toks_wf(v@, ts@)
}

/// The text of tokens `a..b`.
pub fn parse_tokens(v: &Vec<char>, ts: &Vec<(usize, usize)>, a: usize, b: usize) -> (r: String)
    requires
        line_wf(v, ts),
        a < b <= ts.len(),
    ensures
        r@ == text(v@, ts@, a as int, b as int),
{
    let (start, _) = ts[a];
    let (_, end) = ts[b - 1];
    assert(ts@[a as int].0 < ts@[a as int].1);
    if a < b - 1 {
        assert(ts@[a as int].1 <= ts@[b - 1].0);
    }
    string_from_chars(v, start, end)
}

/// The text of token `i`.
pub fn word_string(v: &Vec<char>, ts: &Vec<(usize, usize)>, i: usize) -> (r: String)
    requires
        line_wf(v, ts),
        i < ts.len(),
    ensures
        r@ == word(v@, ts@, i as int),
{
    let (a, b) = ts[i];
    string_from_chars(v, a, b)
}

/// Whether token `k` exists and spells `lit`.
pub fn word_at_is(v: &Vec<char>, ts: &Vec<(usize, usize)>, k: usize, lit: &str) -> (r: bool)
    requires
        toks_wf(v@, ts@),
    ensures
        r == (k < ts.len() && word(v@, ts@, k as int) == lit@),
{
    k < ts.len() && word_is(v, ts, k, lit)
}

fn is_file(c: char) -> (r: bool)
    ensures
        r == is_file_char(c),
{
    c >= '1' && c <= '9'
}

fn is_rank(c: char) -> (r: bool)
    ensures
        r == is_rank_char(c),
{
    c >= 'a' && c <= 'i'
}

fn is_drop(c: char) -> (r: bool)
    ensures
        r == is_drop_letter(c),
{
    c == 'P' || c == 'L' || c == 'N' || c == 'S' || c == 'G' || c == 'B' || c == 'R'
}

/// Whether token `i` is a move in USI notation.
pub fn is_move_word(v: &Vec<char>, ts: &Vec<(usize, usize)>, i: usize) -> (r: bool)
    requires
        toks_wf(v@, ts@),
        i < ts.len(),
    ensures
        r == is_move_text(word(v@, ts@, i as int)),
{
    let (a, b) = ts[i];
    let ghost w = word(v@, ts@, i as int);
    let len = b - a;
    if len == 4 || len == 5 {
        assert(w[0] == v@[a as int] && w[1] == v@[a + 1] && w[2] == v@[a + 2] && w[3] == v@[a + 3]);
        let board = (len == 4 || v[a + 4] == '+') && is_file(v[a]) && is_rank(v[a + 1])
            && is_file(v[a + 2]) && is_rank(v[a + 3]);
        if len == 5 {
            assert(w[4] == v@[a + 4]);
        }
        let drop = len == 4 && is_drop(v[a]) && v[a + 1] == '*' && is_file(v[a + 2]) && is_rank(
            v[a + 3],
        );
        board || drop
    } else {
        false
    }
}

pub proof fn lemma_move_text_accepted(w: Seq<char>)
    requires
        is_move_text(w),
    ensures
        move_text_accepted(w),
{
    if w.len() == 4 && is_drop_letter(w[0]) && w[1] == '*' && is_file_char(w[2]) && is_rank_char(w[3]) {
        assert(w.subrange(0, 1)[0] == w[0]);
        assert(w.subrange(2, 4)[0] == w[2] && w.subrange(2, 4)[1] == w[3]);
        assert(w.subrange(1int + 1, w.len() as int) =~= w.subrange(2, 4));
        assert(forall|q: int| 0 <= q < 1 ==> w[q] != '*');
    } else {
        assert(w.subrange(0, 2)[0] == w[0] && w.subrange(0, 2)[1] == w[1]);
        assert(w.subrange(2, 4)[0] == w[2] && w.subrange(2, 4)[1] == w[3]);
        assert forall|q: int| 0 <= q < w.len() implies w[q] != '*' by {
            if q == 4 {
                assert(w[4] == '+');
            }
        }
    }
}

/// The move that token `i` spells, if it is a move in USI notation.
pub fn parse_move(v: &Vec<char>, ts: &Vec<(usize, usize)>, i: usize) -> (r: Option<Move>)
    requires
        line_wf(v, ts),
        i < ts.len(),
    ensures
        r == if is_move_text(word(v@, ts@, i as int)) {
            Some(usi_move_of(word(v@, ts@, i as int)))
        } else {
            None
        },
{
    if !is_move_word(v, ts, i) {
        return None;
    }
    let (a, b) = ts[i];
    let s = string_from_chars(v, a, b);
    proof {
        lemma_move_text_accepted(word(v@, ts@, i as int));
    }
    move_from_str(s.as_str())
}

/// The first token at or after `i` that is not a move.
pub fn move_run_exec(v: &Vec<char>, ts: &Vec<(usize, usize)>, i: usize) -> (r: usize)
    requires
        toks_wf(v@, ts@),
        i <= ts.len(),
    ensures
        r == move_run(v@, ts@, i as int),
        i <= r <= ts.len(),
        forall|j: int| i <= j < r ==> is_move_text(#[trigger] word(v@, ts@, j)),
{
    let mut j = i;
    while j < ts.len() && is_move_word(v, ts, j)
        invariant
            i <= j <= ts.len(),
            toks_wf(v@, ts@),
            move_run(v@, ts@, j as int) == move_run(v@, ts@, i as int),
            forall|t: int| i <= t < j ==> is_move_text(#[trigger] word(v@, ts@, t)),
        decreases ts.len() - j,
    {
        j = j + 1;
    }
    j
}

/// The moves that tokens `a..b` spell.
pub fn parse_moves(v: &Vec<char>, ts: &Vec<(usize, usize)>, a: usize, b: usize) -> (r: Vec<Move>)
    requires
        line_wf(v, ts),
        a <= b <= ts.len(),
        forall|j: int| a <= j < b ==> is_move_text(#[trigger] word(v@, ts@, j)),
    ensures
        r@ == moves_between(v@, ts@, a as int, b as int),
{
    let mut out: Vec<Move> = Vec::new();
    let mut j = a;
    while j < b
        invariant
            a <= j <= b <= ts.len(),
            line_wf(v, ts),
            forall|t: int| a <= t < b ==> is_move_text(#[trigger] word(v@, ts@, t)),
            out@ == moves_between(v@, ts@, a as int, j as int),
        decreases b - j,
    {
        assert(is_move_text(word(v@, ts@, j as int)));
        match parse_move(v, ts, j) {
            Some(m) => {
                out.push(m);
            },
            None => {},
        }
        j = j + 1;
        assert(out@ =~= moves_between(v@, ts@, a as int, j as int));
    }
    out
}

/// The first token at or after `i` that spells `lit`.
pub fn find_word_exec(v: &Vec<char>, ts: &Vec<(usize, usize)>, i: usize, lit: &str) -> (r: usize)
    requires
        toks_wf(v@, ts@),
        i <= ts.len(),
    ensures
        r == find_word(v@, ts@, i as int, lit@),
        i <= r <= ts.len(),
{
    let mut j = i;
    while j < ts.len() && !word_is(v, ts, j, lit)
        invariant
            i <= j <= ts.len(),
            toks_wf(v@, ts@),
            find_word(v@, ts@, j as int, lit@) == find_word(v@, ts@, i as int, lit@),
        decreases ts.len() - j,
    {
        j = j + 1;
    }
    j
}

pub fn u16_at_exec(v: &Vec<char>, ts: &Vec<(usize, usize)>, i: usize) -> (r: Option<u16>)
    requires
        toks_wf(v@, ts@),
    ensures
        r == u16_at(v@, ts@, i as int),
{
    if i < ts.len() {
        let (a, b) = ts[i];
        parse_u16(v, a, b)
    } else {
        None
    }
}

pub fn u32_at_exec(v: &Vec<char>, ts: &Vec<(usize, usize)>, i: usize) -> (r: Option<u32>)
    requires
        toks_wf(v@, ts@),
    ensures
        r == u32_at(v@, ts@, i as int),
{
    if i < ts.len() {
        let (a, b) = ts[i];
        parse_u32(v, a, b)
    } else {
        None
    }
}

pub fn u64_at_exec(v: &Vec<char>, ts: &Vec<(usize, usize)>, i: usize) -> (r: Option<u64>)
    requires
        toks_wf(v@, ts@),
    ensures
        r == u64_at(v@, ts@, i as int),
{
    if i < ts.len() {
        let (a, b) = ts[i];
        parse_u64(v, a, b)
    } else {
        None
    }
}

pub fn i32_at_exec(v: &Vec<char>, ts: &Vec<(usize, usize)>, i: usize) -> (r: Option<i32>)
    requires
        toks_wf(v@, ts@),
    ensures
        r == i32_at(v@, ts@, i as int),
{
    if i < ts.len() {
        let (a, b) = ts[i];
        parse_i32(v, a, b)
    } else {
        None
    }
}

/// A time in milliseconds at token `i`.
pub fn millis_at_exec(v: &Vec<char>, ts: &Vec<(usize, usize)>, i: usize) -> (r: Option<Duration>)
    requires
        toks_wf(v@, ts@),
    ensures
        r == millis_at(v@, ts@, i as int),
{
    match u64_at_exec(v, ts, i) {
        Some(ms) => Some(duration_from_millis(ms)),
        None => None,
    }
}

} // verus!
