//! The USI grammar, stated over the tokens of one line.
//!
//! A line is read token by token. From the first token on, the parser looks
//! for a keyword whose command matches the rest of the line; tokens before it
//! are skipped. A line on which no command matches is an unknown message.
//! GUI commands and engine commands share this one grammar.
use crate::engine::{
    BestMoveParams, EngineMessageView, IdParamsView, InfoParamView, OptionParamView, ScoreBound,
    StatusCheck,
};
use crate::gui::{empty_params, EngineParamsView, GameStatus, GuiMessageView, MateParam};
use crate::outside::{duration_of_millis, is_file_char, is_rank_char, usi_move_of};
use crate::text::{eq_ignore_case, i32_tok, seg_tokens, text, u16_tok, u32_tok, u64_tok, word};
use haitaka_types::Move;
use std::time::Duration;
use vstd::prelude::*;

verus! {

/// A command found on a line: one of the GUI or one of the engine.
pub enum CommandView {
    Gui(GuiMessageView),
    Engine(EngineMessageView),
}

/// The letters of the pieces that can be dropped.
pub open spec fn is_drop_letter(c: char) -> bool {
    c == 'P' || c == 'L' || c == 'N' || c == 'S' || c == 'G' || c == 'B' || c == 'R'
}

/// A move in USI notation: `7g7f`, `8h2b+` or `P*5e`.
pub open spec fn is_move_text(w: Seq<char>) -> bool {
    ||| (w.len() == 4 || (w.len() == 5 && w[4] == '+')) && is_file_char(w[0]) && is_rank_char(w[1])
        && is_file_char(w[2]) && is_rank_char(w[3])
    ||| w.len() == 4 && is_drop_letter(w[0]) && w[1] == '*' && is_file_char(w[2]) && is_rank_char(
        w[3],
    )
}

/// The first token at or after `i` that is not a move.
pub open spec fn move_run(s: Seq<char>, ts: Seq<(usize, usize)>, i: int) -> int
    decreases ts.len() - i,
{
    if i >= ts.len() || !is_move_text(word(s, ts, i)) {
        i
    } else {
        move_run(s, ts, i + 1)
    }
}

/// The moves that tokens `a..b` spell.
pub open spec fn moves_between(s: Seq<char>, ts: Seq<(usize, usize)>, a: int, b: int) -> Seq<Move> {
    Seq::new((b - a) as nat, |j: int| usi_move_of(word(s, ts, a + j)))
}

/// The first token at or after `i` that spells `lit`.
pub open spec fn find_word(s: Seq<char>, ts: Seq<(usize, usize)>, i: int, lit: Seq<char>) -> int
    decreases ts.len() - i,
{
    if i >= ts.len() || word(s, ts, i) == lit {
        i
    } else {
        find_word(s, ts, i + 1, lit)
    }
}

/// A command made of its keyword alone.
pub open spec fn alone(ts: Seq<(usize, usize)>, k: int) -> bool {
    k + 1 == ts.len()
}

// ---------------------------------------------------------------- GUI commands

/// `debug [on | off]`
pub open spec fn debug_cmd(s: Seq<char>, ts: Seq<(usize, usize)>, k: int) -> Option<GuiMessageView> {
    if k + 1 == ts.len() {
        Some(GuiMessageView::Debug(true))
    } else if k + 2 == ts.len() && (word(s, ts, k + 1) == "on"@ || word(s, ts, k + 1) == "off"@) {
        Some(GuiMessageView::Debug(word(s, ts, k + 1) != "off"@))
    } else {
        None
    }
}

/// `setoption name <id> [value <x>]`
pub open spec fn setoption_cmd(s: Seq<char>, ts: Seq<(usize, usize)>, k: int) -> Option<
    GuiMessageView,
> {
    let n = ts.len() as int;
    if k + 2 < n && word(s, ts, k + 1) == "name"@ {
        let v = find_word(s, ts, k + 2, "value"@);
        if v == k + 2 {
            None
        } else if v >= n {
            Some(GuiMessageView::SetOption { name: text(s, ts, k + 2, n), value: None })
        } else if v + 1 < n {
            Some(
                GuiMessageView::SetOption {
                    name: text(s, ts, k + 2, v),
                    value: Some(text(s, ts, v + 1, n)),
                },
            )
        } else {
            None
        }
    } else {
        None
    }
}

/// `register later` or `register name <x> code <y>`
pub open spec fn register_cmd(s: Seq<char>, ts: Seq<(usize, usize)>, k: int) -> Option<
    GuiMessageView,
> {
    let n = ts.len() as int;
    if k + 2 == n && word(s, ts, k + 1) == "later"@ {
        Some(GuiMessageView::Register { name: None, code: None })
    } else if k + 2 < n && word(s, ts, k + 1) == "name"@ {
        let c = find_word(s, ts, k + 2, "code"@);
        if k + 2 < c && c + 1 < n {
            Some(
                GuiMessageView::Register {
                    name: Some(text(s, ts, k + 2, c)),
                    code: Some(text(s, ts, c + 1, n)),
                },
            )
        } else {
            None
        }
    } else {
        None
    }
}

/// The optional `moves <m>...` at the end of `position`, starting at token `i`.
pub open spec fn position_moves(s: Seq<char>, ts: Seq<(usize, usize)>, i: int) -> Option<
    Option<Seq<Move>>,
> {
    let n = ts.len() as int;
    if i >= n {
        Some(None)
    } else if word(s, ts, i) == "moves"@ && move_run(s, ts, i + 1) == n {
        Some(Some(moves_between(s, ts, i + 1, n)))
    } else {
        None
    }
}

/// `position startpos [moves <m>...]` or `position sfen <sfen> [moves <m>...]`
pub open spec fn position_cmd(s: Seq<char>, ts: Seq<(usize, usize)>, k: int) -> Option<
    GuiMessageView,
> {
    let n = ts.len() as int;
    if k + 1 < n && word(s, ts, k + 1) == "startpos"@ {
        match position_moves(s, ts, k + 2) {
            Some(moves) => Some(GuiMessageView::Position { sfen: None, moves }),
            None => None,
        }
    } else if k + 2 < n && word(s, ts, k + 1) == "sfen"@ {
        let m = find_word(s, ts, k + 2, "moves"@);
        if m > k + 2 {
            match position_moves(s, ts, m) {
                Some(moves) => Some(
                    GuiMessageView::Position { sfen: Some(text(s, ts, k + 2, m)), moves },
                ),
                None => None,
            }
        } else {
            None
        }
    } else {
        None
    }
}

/// A time in milliseconds at token `i`.
pub open spec fn millis_at(s: Seq<char>, ts: Seq<(usize, usize)>, i: int) -> Option<Duration> {
    if 0 <= i < ts.len() {
        match u64_tok(word(s, ts, i)) {
            Some(ms) => Some(duration_of_millis(ms)),
            None => None,
        }
    } else {
        None
    }
}

/// A `u16` at token `i`.
pub open spec fn u16_at(s: Seq<char>, ts: Seq<(usize, usize)>, i: int) -> Option<u16> {
    if 0 <= i < ts.len() {
        u16_tok(word(s, ts, i))
    } else {
        None
    }
}

/// A `u32` at token `i`.
pub open spec fn u32_at(s: Seq<char>, ts: Seq<(usize, usize)>, i: int) -> Option<u32> {
    if 0 <= i < ts.len() {
        u32_tok(word(s, ts, i))
    } else {
        None
    }
}

/// A `u64` at token `i`.
pub open spec fn u64_at(s: Seq<char>, ts: Seq<(usize, usize)>, i: int) -> Option<u64> {
    if 0 <= i < ts.len() {
        u64_tok(word(s, ts, i))
    } else {
        None
    }
}

/// An `i32` at token `i`.
pub open spec fn i32_at(s: Seq<char>, ts: Seq<(usize, usize)>, i: int) -> Option<i32> {
    if 0 <= i < ts.len() {
        i32_tok(word(s, ts, i))
    } else {
        None
    }
}

/// One parameter of `go`, starting at token `i`: the parameters with it set,
/// and the token after it.
pub open spec fn go_param(
    s: Seq<char>,
    ts: Seq<(usize, usize)>,
    i: int,
    p: EngineParamsView,
) -> Option<(EngineParamsView, int)> {
    let t = word(s, ts, i);
    if t == "searchmoves"@ {
        let e = move_run(s, ts, i + 1);
        if e > i + 1 {
            Some((EngineParamsView { searchmoves: Some(moves_between(s, ts, i + 1, e)), ..p }, e))
        } else {
            None
        }
    } else if t == "ponder"@ {
        Some((EngineParamsView { ponder: true, ..p }, i + 1))
    } else if t == "infinite"@ {
        Some((EngineParamsView { infinite: true, ..p }, i + 1))
    } else if t == "btime"@ {
        match millis_at(s, ts, i + 1) {
            Some(d) => Some((EngineParamsView { btime: Some(d), ..p }, i + 2)),
            None => None,
        }
    } else if t == "wtime"@ {
        match millis_at(s, ts, i + 1) {
            Some(d) => Some((EngineParamsView { wtime: Some(d), ..p }, i + 2)),
            None => None,
        }
    } else if t == "binc"@ {
        match millis_at(s, ts, i + 1) {
            Some(d) => Some((EngineParamsView { binc: Some(d), ..p }, i + 2)),
            None => None,
        }
    } else if t == "winc"@ {
        match millis_at(s, ts, i + 1) {
            Some(d) => Some((EngineParamsView { winc: Some(d), ..p }, i + 2)),
            None => None,
        }
    } else if t == "byoyomi"@ {
        match millis_at(s, ts, i + 1) {
            Some(d) => Some((EngineParamsView { byoyomi: Some(d), ..p }, i + 2)),
            None => None,
        }
    } else if t == "movetime"@ {
        match millis_at(s, ts, i + 1) {
            Some(d) => Some((EngineParamsView { movetime: Some(d), ..p }, i + 2)),
            None => None,
        }
    } else if t == "movestogo"@ {
        match u16_at(s, ts, i + 1) {
            Some(x) => Some((EngineParamsView { movestogo: Some(x), ..p }, i + 2)),
            None => None,
        }
    } else if t == "depth"@ {
        match u16_at(s, ts, i + 1) {
            Some(x) => Some((EngineParamsView { depth: Some(x), ..p }, i + 2)),
            None => None,
        }
    } else if t == "nodes"@ {
        match u32_at(s, ts, i + 1) {
            Some(x) => Some((EngineParamsView { nodes: Some(x), ..p }, i + 2)),
            None => None,
        }
    } else if t == "mate"@ {
        if i + 1 < ts.len() && word(s, ts, i + 1) == "infinite"@ {
            Some((EngineParamsView { mate: Some(MateParam::Infinite), ..p }, i + 2))
        } else {
            match millis_at(s, ts, i + 1) {
                Some(d) => Some((EngineParamsView { mate: Some(MateParam::Timeout(d)), ..p }, i + 2)),
                None => None,
            }
        }
    } else {
        None
    }
}

/// The parameters of `go` from token `i` to the end of the line, applied in
/// order to `p`.
pub open spec fn go_params(s: Seq<char>, ts: Seq<(usize, usize)>, i: int, p: EngineParamsView) -> Option<
    EngineParamsView,
>
    decreases ts.len() - i,
{
    if i >= ts.len() {
        Some(p)
    } else {
        match go_param(s, ts, i, p) {
            Some((q, j)) => if i < j <= ts.len() {
                go_params(s, ts, j, q)
            } else {
                None
            },
            None => None,
        }
    }
}

/// `go <param>...`
pub open spec fn go_cmd(s: Seq<char>, ts: Seq<(usize, usize)>, k: int) -> Option<GuiMessageView> {
    match go_params(s, ts, k + 1, empty_params()) {
        Some(p) => Some(GuiMessageView::Go(p)),
        None => None,
    }
}

/// `gameover win | lose | draw`
pub open spec fn gameover_cmd(s: Seq<char>, ts: Seq<(usize, usize)>, k: int) -> Option<
    GuiMessageView,
> {
    if k + 2 == ts.len() {
        let t = word(s, ts, k + 1);
        if t == "win"@ {
            Some(GuiMessageView::GameOver(GameStatus::Win))
        } else if t == "lose"@ {
            Some(GuiMessageView::GameOver(GameStatus::Lose))
        } else if t == "draw"@ {
            Some(GuiMessageView::GameOver(GameStatus::Draw))
        } else {
            None
        }
    } else {
        None
    }
}

// ------------------------------------------------------------- engine commands

/// `id name <x>` or `id author <x>`
pub open spec fn id_cmd(s: Seq<char>, ts: Seq<(usize, usize)>, k: int) -> Option<EngineMessageView> {
    let n = ts.len() as int;
    if k + 2 < n && word(s, ts, k + 1) == "name"@ {
        Some(EngineMessageView::Id(IdParamsView::Name(text(s, ts, k + 2, n))))
    } else if k + 2 < n && word(s, ts, k + 1) == "author"@ {
        Some(EngineMessageView::Id(IdParamsView::Author(text(s, ts, k + 2, n))))
    } else {
        None
    }
}

/// `bestmove <move> [ponder <move>]`, `bestmove resign` or `bestmove win`
pub open spec fn bestmove_cmd(s: Seq<char>, ts: Seq<(usize, usize)>, k: int) -> Option<
    EngineMessageView,
> {
    let n = ts.len() as int;
    if k + 2 == n && word(s, ts, k + 1) == "resign"@ {
        Some(EngineMessageView::BestMove(BestMoveParams::Resign))
    } else if k + 2 == n && word(s, ts, k + 1) == "win"@ {
        Some(EngineMessageView::BestMove(BestMoveParams::Win))
    } else if k + 1 < n && is_move_text(word(s, ts, k + 1)) {
        let m = usi_move_of(word(s, ts, k + 1));
        if k + 2 == n {
            Some(EngineMessageView::BestMove(BestMoveParams::BestMove { bestmove: m, ponder: None }))
        } else if k + 4 == n && word(s, ts, k + 2) == "ponder"@ && is_move_text(word(s, ts, k + 3)) {
            Some(
                EngineMessageView::BestMove(
                    BestMoveParams::BestMove {
                        bestmove: m,
                        ponder: Some(usi_move_of(word(s, ts, k + 3))),
                    },
                ),
            )
        } else {
            None
        }
    } else {
        None
    }
}

/// `checking`, `ok` or `error` as the last token, at `k + 1`.
pub open spec fn status_at(s: Seq<char>, ts: Seq<(usize, usize)>, k: int) -> Option<StatusCheck> {
    if k + 2 == ts.len() {
        let t = word(s, ts, k + 1);
        if t == "checking"@ {
            Some(StatusCheck::Checking)
        } else if t == "ok"@ {
            Some(StatusCheck::Okay)
        } else if t == "error"@ {
            Some(StatusCheck::Error)
        } else {
            None
        }
    } else {
        None
    }
}

/// `true` or `false`, in any case.
pub open spec fn bool_text(w: Seq<char>) -> Option<bool> {
    if eq_ignore_case(w, "true"@) {
        Some(true)
    } else if eq_ignore_case(w, "false"@) {
        Some(false)
    } else {
        None
    }
}

/// A string default, where `<empty>` (in any case) stands for the empty string.
pub open spec fn empty_conv(w: Seq<char>) -> Seq<char> {
    if eq_ignore_case(w, "<empty>"@) {
        Seq::empty()
    } else {
        w
    }
}

/// The clauses `default <n>`, `min <n>`, `max <n>` of a spin option, from
/// token `i`, in any order; a later clause overrides an earlier one.
pub open spec fn spin_clauses(
    s: Seq<char>,
    ts: Seq<(usize, usize)>,
    i: int,
    d: Option<i32>,
    lo: Option<i32>,
    hi: Option<i32>,
) -> Option<(Option<i32>, Option<i32>, Option<i32>)>
    decreases ts.len() - i,
{
    if i >= ts.len() {
        Some((d, lo, hi))
    } else {
        match i32_at(s, ts, i + 1) {
            Some(x) => {
                let t = word(s, ts, i);
                if t == "default"@ {
                    spin_clauses(s, ts, i + 2, Some(x), lo, hi)
                } else if t == "min"@ {
                    spin_clauses(s, ts, i + 2, d, Some(x), hi)
                } else if t == "max"@ {
                    spin_clauses(s, ts, i + 2, d, lo, Some(x))
                } else {
                    None
                }
            },
            None => None,
        }
    }
}

/// Whether token `i` is `default` or `var`.
pub open spec fn is_combo_key(s: Seq<char>, ts: Seq<(usize, usize)>, i: int) -> bool {
    word(s, ts, i) == "default"@ || word(s, ts, i) == "var"@
}

/// The first token at or after `i` that is `default` or `var`.
pub open spec fn combo_run(s: Seq<char>, ts: Seq<(usize, usize)>, i: int) -> int
    decreases ts.len() - i,
{
    if i >= ts.len() || is_combo_key(s, ts, i) {
        i
    } else {
        combo_run(s, ts, i + 1)
    }
}

/// The clauses `default <x>` and `var <x>` of a combo option, from token `i`.
pub open spec fn combo_clauses(
    s: Seq<char>,
    ts: Seq<(usize, usize)>,
    i: int,
    d: Option<Seq<char>>,
    vars: Seq<Seq<char>>,
) -> Option<(Option<Seq<char>>, Seq<Seq<char>>)>
    decreases ts.len() - i,
{
    if i >= ts.len() {
        Some((d, vars))
    } else if is_combo_key(s, ts, i) {
        let e = combo_run(s, ts, i + 1);
        if i + 1 < e <= ts.len() {
            if word(s, ts, i) == "default"@ {
                combo_clauses(s, ts, e, Some(text(s, ts, i + 1, e)), vars)
            } else {
                combo_clauses(s, ts, e, d, vars.push(text(s, ts, i + 1, e)))
            }
        } else {
            None
        }
    } else {
        None
    }
}

/// The optional `default <x>` of a string or filename option, at token `i`.
pub open spec fn string_default(s: Seq<char>, ts: Seq<(usize, usize)>, i: int) -> Option<
    Option<Seq<char>>,
> {
    if i == ts.len() {
        Some(None)
    } else if i + 2 == ts.len() && word(s, ts, i) == "default"@ {
        Some(Some(empty_conv(word(s, ts, i + 1))))
    } else {
        None
    }
}

/// `check [default <true | false>]`, the part after `type`, from token `i`.
pub open spec fn check_option(s: Seq<char>, ts: Seq<(usize, usize)>, name: Seq<char>, i: int) -> Option<
    OptionParamView,
> {
    let n = ts.len() as int;
    if i == n {
        Some(OptionParamView::Check { name, default: None })
    } else if i + 2 == n && word(s, ts, i) == "default"@ && bool_text(word(s, ts, i + 1)) is Some {
        Some(OptionParamView::Check { name, default: bool_text(word(s, ts, i + 1)) })
    } else {
        None
    }
}

/// `spin [default <n>] [min <n>] [max <n>]`, from token `i`.
pub open spec fn spin_option(s: Seq<char>, ts: Seq<(usize, usize)>, name: Seq<char>, i: int) -> Option<
    OptionParamView,
> {
    match spin_clauses(s, ts, i, None, None, None) {
        Some((d, lo, hi)) => Some(OptionParamView::Spin { name, default: d, min: lo, max: hi }),
        None => None,
    }
}

/// `combo [default <x>] [var <x>]...`, from token `i`.
pub open spec fn combo_option(s: Seq<char>, ts: Seq<(usize, usize)>, name: Seq<char>, i: int) -> Option<
    OptionParamView,
> {
    match combo_clauses(s, ts, i, None, Seq::empty()) {
        Some((d, vars)) => Some(OptionParamView::Combo { name, default: d, vars }),
        None => None,
    }
}

/// `string [default <x>]`, from token `i`.
pub open spec fn string_option(s: Seq<char>, ts: Seq<(usize, usize)>, name: Seq<char>, i: int) -> Option<
    OptionParamView,
> {
    match string_default(s, ts, i) {
        Some(d) => Some(OptionParamView::String { name, default: d }),
        None => None,
    }
}

/// `button`, from token `i`.
pub open spec fn button_option(ts: Seq<(usize, usize)>, name: Seq<char>, i: int) -> Option<
    OptionParamView,
> {
    if i == ts.len() {
        Some(OptionParamView::Button { name })
    } else {
        None
    }
}

/// `filename [default <x>]`, from token `i`.
pub open spec fn filename_option(s: Seq<char>, ts: Seq<(usize, usize)>, name: Seq<char>, i: int) -> Option<
    OptionParamView,
> {
    match string_default(s, ts, i) {
        Some(d) => Some(OptionParamView::Filename { name, default: d }),
        None => None,
    }
}

/// The part of an option after `type <kind>`, from token `i`.
pub open spec fn option_body(
    s: Seq<char>,
    ts: Seq<(usize, usize)>,
    name: Seq<char>,
    kind: Seq<char>,
    i: int,
) -> Option<OptionParamView> {
    if kind == "check"@ {
        check_option(s, ts, name, i)
    } else if kind == "spin"@ {
        spin_option(s, ts, name, i)
    } else if kind == "combo"@ {
        combo_option(s, ts, name, i)
    } else if kind == "string"@ {
        string_option(s, ts, name, i)
    } else if kind == "button"@ {
        button_option(ts, name, i)
    } else if kind == "filename"@ {
        filename_option(s, ts, name, i)
    } else {
        None
    }
}

/// `option name <id> type <kind> ...`
pub open spec fn option_cmd(s: Seq<char>, ts: Seq<(usize, usize)>, k: int) -> Option<
    EngineMessageView,
> {
    let n = ts.len() as int;
    if k + 2 < n && word(s, ts, k + 1) == "name"@ {
        let t = find_word(s, ts, k + 2, "type"@);
        if k + 2 < t && t + 1 < n {
            match option_body(s, ts, text(s, ts, k + 2, t), word(s, ts, t + 1), t + 2) {
                Some(o) => Some(EngineMessageView::Option(o)),
                None => None,
            }
        } else {
            None
        }
    } else {
        None
    }
}

/// An optional `lowerbound` or `upperbound` at token `j`; `b` if there is none.
pub open spec fn bound_at(s: Seq<char>, ts: Seq<(usize, usize)>, j: int, b: ScoreBound) -> (
    ScoreBound,
    int,
) {
    if j < ts.len() && word(s, ts, j) == "lowerbound"@ {
        (ScoreBound::Lower, j + 1)
    } else if j < ts.len() && word(s, ts, j) == "upperbound"@ {
        (ScoreBound::Upper, j + 1)
    } else {
        (b, j)
    }
}

/// `score cp <n> [bound]`, at token `i`.
pub open spec fn score_cp_param(s: Seq<char>, ts: Seq<(usize, usize)>, i: int) -> Option<
    (InfoParamView, int),
> {
    match i32_at(s, ts, i + 2) {
        Some(v) => {
            let (b, j) = bound_at(s, ts, i + 3, ScoreBound::Exact);
            Some((InfoParamView::ScoreCp(v, b), j))
        },
        None => None,
    }
}

/// `score mate <n | + | -> [bound]`, at token `i`.
pub open spec fn score_mate_param(s: Seq<char>, ts: Seq<(usize, usize)>, i: int) -> Option<
    (InfoParamView, int),
> {
    let t = word(s, ts, i + 2);
    let first: Option<(Option<i32>, ScoreBound)> = if t == "+"@ {
        Some((None, ScoreBound::MatePlus))
    } else if t == "-"@ {
        Some((None, ScoreBound::MateMin))
    } else {
        match i32_tok(t) {
            Some(v) => Some((Some(v), ScoreBound::Exact)),
            None => None,
        }
    };
    match first {
        Some((v, b0)) => {
            let (b, j) = bound_at(s, ts, i + 3, b0);
            Some((InfoParamView::ScoreMate(v, b), j))
        },
        None => None,
    }
}

/// `score cp ...` or `score mate ...`, at token `i`.
pub open spec fn score_param(s: Seq<char>, ts: Seq<(usize, usize)>, i: int) -> Option<
    (InfoParamView, int),
> {
    if i + 2 < ts.len() && word(s, ts, i + 1) == "cp"@ {
        score_cp_param(s, ts, i)
    } else if i + 2 < ts.len() && word(s, ts, i + 1) == "mate"@ {
        score_mate_param(s, ts, i)
    } else {
        None
    }
}

/// `currline [<cpunr>] <move>...`, at token `i`.
pub open spec fn currline_param(s: Seq<char>, ts: Seq<(usize, usize)>, i: int) -> (
    InfoParamView,
    int,
) {
    let cpu = u16_at(s, ts, i + 1);
    let j = if cpu is Some {
        i + 2
    } else {
        i + 1
    };
    let e = move_run(s, ts, j);
    (InfoParamView::CurrLine { cpu_nr: cpu, line: moves_between(s, ts, j, e) }, e)
}

/// A parameter followed by a number, at token `i`.
pub open spec fn numeric_param(s: Seq<char>, ts: Seq<(usize, usize)>, i: int) -> Option<
    InfoParamView,
> {
    let t = word(s, ts, i);
    if t == "depth"@ {
        match u16_at(s, ts, i + 1) {
            Some(x) => Some(InfoParamView::Depth(x)),
            None => None,
        }
    } else if t == "seldepth"@ {
        match u16_at(s, ts, i + 1) {
            Some(x) => Some(InfoParamView::SelDepth(x)),
            None => None,
        }
    } else if t == "time"@ {
        match millis_at(s, ts, i + 1) {
            Some(x) => Some(InfoParamView::Time(x)),
            None => None,
        }
    } else if t == "nodes"@ {
        match u64_at(s, ts, i + 1) {
            Some(x) => Some(InfoParamView::Nodes(x)),
            None => None,
        }
    } else if t == "currmovenumber"@ {
        match u16_at(s, ts, i + 1) {
            Some(x) => Some(InfoParamView::CurrMoveNumber(x)),
            None => None,
        }
    } else if t == "hashfull"@ {
        match u16_at(s, ts, i + 1) {
            Some(x) => Some(InfoParamView::HashFull(x)),
            None => None,
        }
    } else if t == "nps"@ {
        match u64_at(s, ts, i + 1) {
            Some(x) => Some(InfoParamView::Nps(x)),
            None => None,
        }
    } else if t == "cpuload"@ {
        match u16_at(s, ts, i + 1) {
            Some(x) => Some(InfoParamView::CpuLoad(x)),
            None => None,
        }
    } else if t == "multipv"@ {
        match u16_at(s, ts, i + 1) {
            Some(x) => Some(InfoParamView::MultiPv(x)),
            None => None,
        }
    } else {
        None
    }
}

/// One item of `info`, at token `i`: the item and the token after it.
pub open spec fn info_param(s: Seq<char>, ts: Seq<(usize, usize)>, i: int) -> Option<
    (InfoParamView, int),
> {
    let n = ts.len() as int;
    let t = word(s, ts, i);
    if numeric_param(s, ts, i) is Some {
        Some((numeric_param(s, ts, i)->0, i + 2))
    } else if t == "currmove"@ {
        if i + 1 < n && is_move_text(word(s, ts, i + 1)) {
            Some((InfoParamView::CurrMove(usi_move_of(word(s, ts, i + 1))), i + 2))
        } else {
            None
        }
    } else if t == "string"@ {
        if i + 1 < n {
            Some((InfoParamView::String(text(s, ts, i + 1, n)), n))
        } else {
            None
        }
    } else if t == "pv"@ || t == "refutation"@ {
        let e = move_run(s, ts, i + 1);
        if e > i + 1 {
            let moves = moves_between(s, ts, i + 1, e);
            if t == "pv"@ {
                Some((InfoParamView::Pv(moves), e))
            } else {
                Some((InfoParamView::Refutation(moves), e))
            }
        } else {
            None
        }
    } else if t == "currline"@ {
        Some(currline_param(s, ts, i))
    } else if t == "score"@ {
        score_param(s, ts, i)
    } else {
        None
    }
}

/// The items of `info` from token `i` to the end of the line, after `acc`.
pub open spec fn info_params(
    s: Seq<char>,
    ts: Seq<(usize, usize)>,
    i: int,
    acc: Seq<InfoParamView>,
) -> Option<Seq<InfoParamView>>
    decreases ts.len() - i,
{
    if i >= ts.len() {
        Some(acc)
    } else {
        match info_param(s, ts, i) {
            Some((p, j)) => if i < j <= ts.len() {
                info_params(s, ts, j, acc.push(p))
            } else {
                None
            },
            None => None,
        }
    }
}

// ------------------------------------------------------------------ dispatch

pub open spec fn gui_cmd(m: Option<GuiMessageView>) -> Option<CommandView> {
    match m {
        Some(g) => Some(CommandView::Gui(g)),
        None => None,
    }
}

pub open spec fn engine_cmd(m: Option<EngineMessageView>) -> Option<CommandView> {
    match m {
        Some(e) => Some(CommandView::Engine(e)),
        None => None,
    }
}

/// A GUI command whose keyword is token `k`.
pub open spec fn gui_cmd_at(s: Seq<char>, ts: Seq<(usize, usize)>, k: int) -> Option<GuiMessageView> {
    let t = word(s, ts, k);
    if t == "usi"@ {
        if alone(ts, k) { Some(GuiMessageView::Usi) } else { None }
    } else if t == "debug"@ {
        debug_cmd(s, ts, k)
    } else if t == "isready"@ {
        if alone(ts, k) { Some(GuiMessageView::IsReady) } else { None }
    } else if t == "setoption"@ {
        setoption_cmd(s, ts, k)
    } else if t == "register"@ {
        register_cmd(s, ts, k)
    } else if t == "usinewgame"@ {
        if alone(ts, k) { Some(GuiMessageView::UsiNewGame) } else { None }
    } else if t == "position"@ {
        position_cmd(s, ts, k)
    } else if t == "go"@ {
        go_cmd(s, ts, k)
    } else if t == "stop"@ {
        if alone(ts, k) { Some(GuiMessageView::Stop) } else { None }
    } else if t == "ponderhit"@ {
        if alone(ts, k) { Some(GuiMessageView::PonderHit) } else { None }
    } else if t == "gameover"@ {
        gameover_cmd(s, ts, k)
    } else if t == "quit"@ {
        if alone(ts, k) { Some(GuiMessageView::Quit) } else { None }
    } else {
        None
    }
}

/// An engine command whose keyword is token `k`.
pub open spec fn engine_cmd_at(s: Seq<char>, ts: Seq<(usize, usize)>, k: int) -> Option<
    EngineMessageView,
> {
    let t = word(s, ts, k);
    if t == "id"@ {
        id_cmd(s, ts, k)
    } else if t == "usiok"@ {
        if alone(ts, k) { Some(EngineMessageView::UsiOk) } else { None }
    } else if t == "readyok"@ {
        if alone(ts, k) { Some(EngineMessageView::ReadyOk) } else { None }
    } else if t == "bestmove"@ {
        bestmove_cmd(s, ts, k)
    } else if t == "copyprotection"@ {
        match status_at(s, ts, k) {
            Some(st) => Some(EngineMessageView::CopyProtection(st)),
            None => None,
        }
    } else if t == "registration"@ {
        match status_at(s, ts, k) {
            Some(st) => Some(EngineMessageView::Registration(st)),
            None => None,
        }
    } else if t == "option"@ {
        option_cmd(s, ts, k)
    } else if t == "info"@ {
        match info_params(s, ts, k + 1, Seq::empty()) {
            Some(items) => Some(EngineMessageView::Info(items)),
            None => None,
        }
    } else {
        None
    }
}

/// The command whose keyword is token `k`, if the rest of the line matches it.
pub open spec fn cmd_at(s: Seq<char>, ts: Seq<(usize, usize)>, k: int) -> Option<CommandView> {
    if gui_cmd_at(s, ts, k) is Some {
        gui_cmd(gui_cmd_at(s, ts, k))
    } else {
        engine_cmd(engine_cmd_at(s, ts, k))
    }
}

/// The first command on the line at or after token `k`.
pub open spec fn scan(s: Seq<char>, ts: Seq<(usize, usize)>, k: int) -> Option<CommandView>
    decreases ts.len() - k,
{
    if k >= ts.len() {
        None
    } else if cmd_at(s, ts, k) is Some {
        cmd_at(s, ts, k)
    } else {
        scan(s, ts, k + 1)
    }
}

/// The tokens of a line.
pub open spec fn line_tokens(l: Seq<char>) -> Seq<(usize, usize)> {
    seg_tokens(l, 0, l.len() as int)
}

/// The GUI message on the line `l`: the GUI command that the scan finds, or
/// an unknown message holding the line without its outer separators.
pub open spec fn gui_line(l: Seq<char>) -> GuiMessageView {
    let ts = line_tokens(l);
    match scan(l, ts, 0) {
        Some(CommandView::Gui(g)) => g,
        _ => GuiMessageView::Unknown(text(l, ts, 0, ts.len() as int)),
    }
}

/// The engine message on the line `l`.
pub open spec fn engine_line(l: Seq<char>) -> EngineMessageView {
    let ts = line_tokens(l);
    match scan(l, ts, 0) {
        Some(CommandView::Engine(e)) => e,
        _ => EngineMessageView::Unknown(text(l, ts, 0, ts.len() as int)),
    }
}

} // verus!
