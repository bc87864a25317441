//! Reading the GUI commands of a line.
use crate::grammar::{
    debug_cmd, gameover_cmd, go_cmd, go_param, go_params, gui_cmd_at, position_cmd,
    position_moves, register_cmd, setoption_cmd,
};
use crate::gui::{
    empty_params, opt_moves_view, EngineParams, GameStatus, GuiMessage, GuiMessageView, MateParam,
};
use crate::text::{toks_wf, word_is};
use crate::words::{
    find_word_exec, line_wf, millis_at_exec, move_run_exec, parse_moves, parse_tokens, u16_at_exec,
    u32_at_exec, word_at_is,
};
use haitaka_types::Move;
use vstd::prelude::*;

verus! {

pub open spec fn gui_opt_view(o: Option<GuiMessage>) -> Option<GuiMessageView> {
    match o {
        Some(m) => Some(m@),
        None => None,
    }
}

fn parse_debug(v: &Vec<char>, ts: &Vec<(usize, usize)>, k: usize) -> (r: Option<GuiMessage>)
    requires
        toks_wf(v@, ts@),
        k < ts.len(),
    ensures
        gui_opt_view(r) == debug_cmd(v@, ts@, k as int),
{
    let n = ts.len();
    if n - k == 1 {
        Some(GuiMessage::Debug(true))
    } else if n - k == 2 && (word_is(v, ts, k + 1, "on") || word_is(v, ts, k + 1, "off")) {
        Some(GuiMessage::Debug(!word_is(v, ts, k + 1, "off")))
    } else {
        None
    }
}

fn parse_setoption(v: &Vec<char>, ts: &Vec<(usize, usize)>, k: usize) -> (r: Option<
    GuiMessage,
>)
    requires
        line_wf(v, ts),
        k < ts.len(),
    ensures
        gui_opt_view(r) == setoption_cmd(v@, ts@, k as int),
{
    let n = ts.len();
    if n - k > 2 && word_is(v, ts, k + 1, "name") {
        let at = find_word_exec(v, ts, k + 2, "value");
        if at == k + 2 {
            None
        } else if at >= n {
            Some(GuiMessage::SetOption { name: parse_tokens(v, ts, k + 2, n), value: None })
        } else if at + 1 < n {
            let name = parse_tokens(v, ts, k + 2, at);
            let value = parse_tokens(v, ts, at + 1, n);
            Some(GuiMessage::SetOption { name, value: Some(value) })
        } else {
            None
        }
    } else {
        None
    }
}

fn parse_register(v: &Vec<char>, ts: &Vec<(usize, usize)>, k: usize) -> (r: Option<
    GuiMessage,
>)
    requires
        line_wf(v, ts),
        k < ts.len(),
    ensures
        gui_opt_view(r) == register_cmd(v@, ts@, k as int),
{
    let n = ts.len();
    if n - k == 2 && word_is(v, ts, k + 1, "later") {
        Some(GuiMessage::Register { name: None, code: None })
    } else if n - k > 2 && word_is(v, ts, k + 1, "name") {
        let c = find_word_exec(v, ts, k + 2, "code");
        if k + 2 < c && c < n && c + 1 < n {
            let name = parse_tokens(v, ts, k + 2, c);
            let code = parse_tokens(v, ts, c + 1, n);
            Some(GuiMessage::Register { name: Some(name), code: Some(code) })
        } else {
            None
        }
    } else {
        None
    }
}

fn parse_position_moves(v: &Vec<char>, ts: &Vec<(usize, usize)>, i: usize) -> (r: Option<
    Option<Vec<Move>>,
>)
    requires
        line_wf(v, ts),
        i <= ts.len(),
    ensures
        match r {
            Some(m) => position_moves(v@, ts@, i as int) == Some(opt_moves_view(m)),
            None => position_moves(v@, ts@, i as int) is None,
        },
{
    let n = ts.len();
    if i >= n {
        Some(None)
    } else if word_is(v, ts, i, "moves") {
        let e = move_run_exec(v, ts, i + 1);
        if e == n {
            Some(Some(parse_moves(v, ts, i + 1, n)))
        } else {
            None
        }
    } else {
        None
    }
}

fn parse_position(v: &Vec<char>, ts: &Vec<(usize, usize)>, k: usize) -> (r: Option<
    GuiMessage,
>)
    requires
        line_wf(v, ts),
        k < ts.len(),
    ensures
        gui_opt_view(r) == position_cmd(v@, ts@, k as int),
{
    let n = ts.len();
    if n - k > 1 && word_is(v, ts, k + 1, "startpos") {
        match parse_position_moves(v, ts, k + 2) {
            Some(moves) => Some(GuiMessage::Position { sfen: None, moves }),
            None => None,
        }
    } else if n - k > 2 && word_is(v, ts, k + 1, "sfen") {
        let m = find_word_exec(v, ts, k + 2, "moves");
        if m > k + 2 {
            match parse_position_moves(v, ts, m) {
                Some(moves) => {
                    let sfen = parse_tokens(v, ts, k + 2, m);
                    Some(GuiMessage::Position { sfen: Some(sfen), moves })
                },
                None => None,
            }
        } else {
            None
        }
    } else {
        None
    }
}

/// One parameter of `go` at token `i`, applied to `p`.
fn parse_go_param(v: &Vec<char>, ts: &Vec<(usize, usize)>, i: usize, p: EngineParams) -> (r: Option<
    (EngineParams, usize),
>)
    requires
        line_wf(v, ts),
        i < ts.len(),
    ensures
        match r {
            Some((q, j)) => go_param(v@, ts@, i as int, p@) == Some((q@, j as int)) && i < j
                <= ts.len(),
            None => go_param(v@, ts@, i as int, p@) is None,
        },
{
    let n = ts.len();
    if word_is(v, ts, i, "searchmoves") {
        let e = move_run_exec(v, ts, i + 1);
        if e > i + 1 {
            let moves = parse_moves(v, ts, i + 1, e);
            Some((p.searchmoves(moves), e))
        } else {
            None
        }
    } else if word_is(v, ts, i, "ponder") {
        Some((p.ponder(), i + 1))
    } else if word_is(v, ts, i, "infinite") {
        Some((p.infinite(), i + 1))
    } else if word_is(v, ts, i, "btime") {
        match millis_at_exec(v, ts, i + 1) {
            Some(d) => Some((p.btime(d), i + 2)),
            None => None,
        }
    } else if word_is(v, ts, i, "wtime") {
        match millis_at_exec(v, ts, i + 1) {
            Some(d) => Some((p.wtime(d), i + 2)),
            None => None,
        }
    } else if word_is(v, ts, i, "binc") {
        match millis_at_exec(v, ts, i + 1) {
            Some(d) => Some((p.binc(d), i + 2)),
            None => None,
        }
    } else if word_is(v, ts, i, "winc") {
        match millis_at_exec(v, ts, i + 1) {
            Some(d) => Some((p.winc(d), i + 2)),
            None => None,
        }
    } else if word_is(v, ts, i, "byoyomi") {
        match millis_at_exec(v, ts, i + 1) {
            Some(d) => Some((p.byoyomi(d), i + 2)),
            None => None,
        }
    } else if word_is(v, ts, i, "movetime") {
        match millis_at_exec(v, ts, i + 1) {
            Some(d) => Some((p.movetime(d), i + 2)),
            None => None,
        }
    } else if word_is(v, ts, i, "movestogo") {
        match u16_at_exec(v, ts, i + 1) {
            Some(x) => Some((p.movestogo(x), i + 2)),
            None => None,
        }
    } else if word_is(v, ts, i, "depth") {
        match u16_at_exec(v, ts, i + 1) {
            Some(x) => Some((p.depth(x), i + 2)),
            None => None,
        }
    } else if word_is(v, ts, i, "nodes") {
        match u32_at_exec(v, ts, i + 1) {
            Some(x) => Some((p.nodes(x), i + 2)),
            None => None,
        }
    } else if word_is(v, ts, i, "mate") {
        if word_at_is(v, ts, i + 1, "infinite") {
            Some((p.mate(MateParam::Infinite), i + 2))
        } else {
            match millis_at_exec(v, ts, i + 1) {
                Some(d) => Some((p.mate(MateParam::Timeout(d)), i + 2)),
                None => None,
            }
        }
    } else {
        None
    }
}

fn parse_go(v: &Vec<char>, ts: &Vec<(usize, usize)>, k: usize) -> (r: Option<GuiMessage>)
    requires
        line_wf(v, ts),
        k < ts.len(),
    ensures
        gui_opt_view(r) == go_cmd(v@, ts@, k as int),
{
    let n = ts.len();
    let mut p = EngineParams::new();
    let mut i = k + 1;
    while i < n
        invariant
            line_wf(v, ts),
            n == ts.len(),
            k + 1 <= i <= n,
            go_params(v@, ts@, i as int, p@) == go_params(v@, ts@, k + 1, empty_params()),
        decreases n - i,
    {
        match parse_go_param(v, ts, i, p) {
            Some((q, j)) => {
                p = q;
                i = j;
            },
            None => {
                return None;
            },
        }
    }
    Some(GuiMessage::Go(p))
}

fn parse_gameover(v: &Vec<char>, ts: &Vec<(usize, usize)>, k: usize) -> (r: Option<GuiMessage>)
    requires
        toks_wf(v@, ts@),
        k < ts.len(),
    ensures
        gui_opt_view(r) == gameover_cmd(v@, ts@, k as int),
{
    if ts.len() - k == 2 {
        if word_is(v, ts, k + 1, "win") {
            Some(GuiMessage::GameOver(GameStatus::Win))
        } else if word_is(v, ts, k + 1, "lose") {
            Some(GuiMessage::GameOver(GameStatus::Lose))
        } else if word_is(v, ts, k + 1, "draw") {
            Some(GuiMessage::GameOver(GameStatus::Draw))
        } else {
            None
        }
    } else {
        None
    }
}

/// A command made of its keyword alone.
fn alone_exec(ts: &Vec<(usize, usize)>, k: usize, m: GuiMessage) -> (r: Option<GuiMessage>)
    requires
        k < ts.len(),
    ensures
        r == if k + 1 == ts.len() { Some(m) } else { None::<GuiMessage> },
{
    if ts.len() - k == 1 {
        Some(m)
    } else {
        None
    }
}

/// The GUI command whose keyword is token `k`, if the rest of the line matches it.
pub fn gui_cmd_at_exec(v: &Vec<char>, ts: &Vec<(usize, usize)>, k: usize) -> (r: Option<
    GuiMessage,
>)
    requires
        line_wf(v, ts),
        k < ts.len(),
    ensures
        gui_opt_view(r) == gui_cmd_at(v@, ts@, k as int),
{
    if word_is(v, ts, k, "usi") {
        alone_exec(ts, k, GuiMessage::Usi)
    } else if word_is(v, ts, k, "debug") {
        parse_debug(v, ts, k)
    } else if word_is(v, ts, k, "isready") {
        alone_exec(ts, k, GuiMessage::IsReady)
    } else if word_is(v, ts, k, "setoption") {
        parse_setoption(v, ts, k)
    } else if word_is(v, ts, k, "register") {
        parse_register(v, ts, k)
    } else if word_is(v, ts, k, "usinewgame") {
        alone_exec(ts, k, GuiMessage::UsiNewGame)
    } else if word_is(v, ts, k, "position") {
        parse_position(v, ts, k)
    } else if word_is(v, ts, k, "go") {
        parse_go(v, ts, k)
    } else if word_is(v, ts, k, "stop") {
        alone_exec(ts, k, GuiMessage::Stop)
    } else if word_is(v, ts, k, "ponderhit") {
        alone_exec(ts, k, GuiMessage::PonderHit)
    } else if word_is(v, ts, k, "gameover") {
        parse_gameover(v, ts, k)
    } else if word_is(v, ts, k, "quit") {
        alone_exec(ts, k, GuiMessage::Quit)
    } else {
        None
    }
}

} // verus!
