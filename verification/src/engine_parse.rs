//! Reading the engine commands of a line.
use crate::engine::{
    infos_view, strings_view, BestMoveParams, EngineMessage, EngineMessageView, IdParams, InfoParam,
    InfoParamView, OptionParam, OptionParamView, ScoreBound, StatusCheck,
};
use crate::grammar::{
    bestmove_cmd, bool_text, bound_at, button_option, check_option, combo_clauses, combo_option,
    combo_run, currline_param, empty_conv, engine_cmd_at, filename_option, id_cmd, info_param,
    info_params, numeric_param, option_body, option_cmd, score_cp_param, score_mate_param,
    score_param, spin_clauses, spin_option, status_at, string_default, string_option,
};
use crate::gui::opt_string_view;
use crate::text::{chars_eq_ignore_case, toks_wf, word, word_is};
use crate::words::{
    find_word_exec, i32_at_exec, line_wf, millis_at_exec, move_run_exec, parse_move, parse_moves,
    parse_tokens, u16_at_exec, u64_at_exec, word_string,
};
use vstd::prelude::*;

verus! {

pub open spec fn engine_opt_view(o: Option<EngineMessage>) -> Option<EngineMessageView> {
    match o {
        Some(m) => Some(m@),
        None => None,
    }
}

pub open spec fn option_opt_view(o: Option<OptionParam>) -> Option<OptionParamView> {
    match o {
        Some(m) => Some(m@),
        None => None,
    }
}

pub open spec fn info_opt_view(o: Option<InfoParam>) -> Option<InfoParamView> {
    match o {
        Some(m) => Some(m@),
        None => None,
    }
}

fn parse_id(v: &Vec<char>, ts: &Vec<(usize, usize)>, k: usize) -> (r: Option<EngineMessage>)
    requires
        line_wf(v, ts),
        k < ts.len(),
    ensures
        engine_opt_view(r) == id_cmd(v@, ts@, k as int),
{
    let n = ts.len();
    if n - k > 2 && word_is(v, ts, k + 1, "name") {
        Some(EngineMessage::Id(IdParams::Name(parse_tokens(v, ts, k + 2, n))))
    } else if n - k > 2 && word_is(v, ts, k + 1, "author") {
        Some(EngineMessage::Id(IdParams::Author(parse_tokens(v, ts, k + 2, n))))
    } else {
        None
    }
}

fn parse_bestmove(v: &Vec<char>, ts: &Vec<(usize, usize)>, k: usize) -> (r: Option<
    EngineMessage,
>)
    requires
        line_wf(v, ts),
        k < ts.len(),
    ensures
        engine_opt_view(r) == bestmove_cmd(v@, ts@, k as int),
{
    let n = ts.len();
    if n - k == 2 && word_is(v, ts, k + 1, "resign") {
        Some(EngineMessage::BestMove(BestMoveParams::Resign))
    } else if n - k == 2 && word_is(v, ts, k + 1, "win") {
        Some(EngineMessage::BestMove(BestMoveParams::Win))
    } else if n - k > 1 {
        match parse_move(v, ts, k + 1) {
            Some(m) => {
                if n - k == 2 {
                    Some(EngineMessage::BestMove(BestMoveParams::BestMove { bestmove: m, ponder: None }))
                } else if n - k == 4 && word_is(v, ts, k + 2, "ponder") {
                    match parse_move(v, ts, k + 3) {
                        Some(pm) => Some(
                            EngineMessage::BestMove(
                                BestMoveParams::BestMove { bestmove: m, ponder: Some(pm) },
                            ),
                        ),
                        None => None,
                    }
                } else {
                    None
                }
            },
            None => None,
        }
    } else {
        None
    }
}

fn parse_status_check(v: &Vec<char>, ts: &Vec<(usize, usize)>, k: usize) -> (r: Option<StatusCheck>)
    requires
        toks_wf(v@, ts@),
        k < ts.len(),
    ensures
        r == status_at(v@, ts@, k as int),
{
    if ts.len() - k == 2 {
        if word_is(v, ts, k + 1, "checking") {
            Some(StatusCheck::Checking)
        } else if word_is(v, ts, k + 1, "ok") {
            Some(StatusCheck::Okay)
        } else if word_is(v, ts, k + 1, "error") {
            Some(StatusCheck::Error)
        } else {
            None
        }
    } else {
        None
    }
}

fn bool_exec(v: &Vec<char>, ts: &Vec<(usize, usize)>, i: usize) -> (r: Option<bool>)
    requires
        toks_wf(v@, ts@),
        i < ts.len(),
    ensures
        r == bool_text(word(v@, ts@, i as int)),
{
    let (a, b) = ts[i];
    if chars_eq_ignore_case(v, a, b, "true") {
        Some(true)
    } else if chars_eq_ignore_case(v, a, b, "false") {
        Some(false)
    } else {
        None
    }
}

fn empty_conv_exec(v: &Vec<char>, ts: &Vec<(usize, usize)>, i: usize) -> (r: String)
    requires
        line_wf(v, ts),
        i < ts.len(),
    ensures
        r@ == empty_conv(word(v@, ts@, i as int)),
{
    let (a, b) = ts[i];
    if chars_eq_ignore_case(v, a, b, "<empty>") {
        String::new()
    } else {
        word_string(v, ts, i)
    }
}

fn string_default_exec(v: &Vec<char>, ts: &Vec<(usize, usize)>, i: usize) -> (r: Option<
    Option<String>,
>)
    requires
        line_wf(v, ts),
        i <= ts.len(),
    ensures
        match r {
            Some(d) => string_default(v@, ts@, i as int) == Some(opt_string_view(d)),
            None => string_default(v@, ts@, i as int) is None,
        },
{
    let n = ts.len();
    if i == n {
        Some(None)
    } else if n - i == 2 && word_is(v, ts, i, "default") {
        Some(Some(empty_conv_exec(v, ts, i + 1)))
    } else {
        None
    }
}

fn spin_clauses_exec(v: &Vec<char>, ts: &Vec<(usize, usize)>, i0: usize) -> (r: Option<
    (Option<i32>, Option<i32>, Option<i32>),
>)
    requires
        toks_wf(v@, ts@),
        i0 <= ts.len(),
    ensures
        r == spin_clauses(v@, ts@, i0 as int, None, None, None),
{
    let n = ts.len();
    let mut d: Option<i32> = None;
    let mut lo: Option<i32> = None;
    let mut hi: Option<i32> = None;
    let mut i = i0;
    while i < n
        invariant
            toks_wf(v@, ts@),
            n == ts.len(),
            i0 <= i <= n,
            spin_clauses(v@, ts@, i as int, d, lo, hi) == spin_clauses(v@, ts@, i0 as int, None, None, None),
        decreases n - i,
    {
        match i32_at_exec(v, ts, i + 1) {
            Some(x) => {
                if word_is(v, ts, i, "default") {
                    d = Some(x);
                } else if word_is(v, ts, i, "min") {
                    lo = Some(x);
                } else if word_is(v, ts, i, "max") {
                    hi = Some(x);
                } else {
                    return None;
                }
                i = i + 2;
            },
            None => {
                return None;
            },
        }
    }
    Some((d, lo, hi))
}

/// A spin option named `name`, whose clauses start at token `i`.
fn parse_spin_option(v: &Vec<char>, ts: &Vec<(usize, usize)>, name: String, i: usize) -> (r: Option<OptionParam>)
    requires
        toks_wf(v@, ts@),
        i <= ts.len(),
    ensures
        option_opt_view(r) == spin_option(v@, ts@, name@, i as int),
{
    match spin_clauses_exec(v, ts, i) {
        Some((d, lo, hi)) => Some(OptionParam::Spin { name, default: d, min: lo, max: hi }),
        None => None,
    }
}

fn combo_run_exec(v: &Vec<char>, ts: &Vec<(usize, usize)>, i: usize) -> (r: usize)
    requires
        toks_wf(v@, ts@),
        i <= ts.len(),
    ensures
        r == combo_run(v@, ts@, i as int),
        i <= r <= ts.len(),
{
    let mut j = i;
    while j < ts.len() && !(word_is(v, ts, j, "default") || word_is(v, ts, j, "var"))
        invariant
            toks_wf(v@, ts@),
            i <= j <= ts.len(),
            combo_run(v@, ts@, j as int) == combo_run(v@, ts@, i as int),
        decreases ts.len() - j,
    {
        j = j + 1;
    }
    j
}

fn combo_clauses_exec(v: &Vec<char>, ts: &Vec<(usize, usize)>, i0: usize) -> (r: Option<
    (Option<String>, Vec<String>),
>)
    requires
        line_wf(v, ts),
        i0 <= ts.len(),
    ensures
        match r {
            Some((d, vars)) => combo_clauses(v@, ts@, i0 as int, None, Seq::empty()) == Some(
                (opt_string_view(d), strings_view(vars)),
            ),
            None => combo_clauses(v@, ts@, i0 as int, None, Seq::empty()) is None,
        },
{
    let n = ts.len();
    let mut d: Option<String> = None;
    let mut vars: Vec<String> = Vec::new();
    let mut i = i0;
    assert(strings_view(vars) =~= Seq::<Seq<char>>::empty());
    while i < n
        invariant
            line_wf(v, ts),
            n == ts.len(),
            i0 <= i <= n,
            combo_clauses(v@, ts@, i as int, opt_string_view(d), strings_view(vars))
                == combo_clauses(v@, ts@, i0 as int, None, Seq::empty()),
        decreases n - i,
    {
        let is_default = word_is(v, ts, i, "default");
        if is_default || word_is(v, ts, i, "var") {
            let e = combo_run_exec(v, ts, i + 1);
            if e > i + 1 {
                let t = parse_tokens(v, ts, i + 1, e);
                if is_default {
                    d = Some(t);
                } else {
                    let ghost old_vars = strings_view(vars);
                    let ghost tv = t@;
                    vars.push(t);
                    assert(strings_view(vars) =~= old_vars.push(tv));
                }
                i = e;
            } else {
                return None;
            }
        } else {
            return None;
        }
    }
    Some((d, vars))
}

/// A combo option named `name`, whose clauses start at token `i`.
fn parse_combo_option(v: &Vec<char>, ts: &Vec<(usize, usize)>, name: String, i: usize) -> (r: Option<
    OptionParam,
>)
    requires
        line_wf(v, ts),
        i <= ts.len(),
    ensures
        option_opt_view(r) == combo_option(v@, ts@, name@, i as int),
{
    match combo_clauses_exec(v, ts, i) {
        Some((d, vars)) => Some(OptionParam::Combo { name, default: d, vars }),
        None => None,
    }
}

/// A check option named `name`, whose default would stand at token `i`.
fn parse_check_option(v: &Vec<char>, ts: &Vec<(usize, usize)>, name: String, i: usize) -> (r: Option<OptionParam>)
    requires
        toks_wf(v@, ts@),
        i <= ts.len(),
    ensures
        option_opt_view(r) == check_option(v@, ts@, name@, i as int),
{
    let n = ts.len();
    if i == n {
        Some(OptionParam::Check { name, default: None })
    } else if n - i == 2 && word_is(v, ts, i, "default") {
        match bool_exec(v, ts, i + 1) {
            Some(b) => Some(OptionParam::Check { name, default: Some(b) }),
            None => None,
        }
    } else {
        None
    }
}

/// A string option named `name`, whose default would stand at token `i`.
fn parse_string_option(v: &Vec<char>, ts: &Vec<(usize, usize)>, name: String, i: usize) -> (r: Option<
    OptionParam,
>)
    requires
        line_wf(v, ts),
        i <= ts.len(),
    ensures
        option_opt_view(r) == string_option(v@, ts@, name@, i as int),
{
    match string_default_exec(v, ts, i) {
        Some(d) => Some(OptionParam::String { name, default: d }),
        None => None,
    }
}

/// A button option named `name`, whose type word ends the line at token `i`.
fn parse_button_option(ts: &Vec<(usize, usize)>, name: String, i: usize) -> (r: Option<OptionParam>)
    requires
        i <= ts.len(),
    ensures
        option_opt_view(r) == button_option(ts@, name@, i as int),
{
    if i == ts.len() {
        Some(OptionParam::Button { name })
    } else {
        None
    }
}

/// A filename option named `name`, whose default would stand at token `i`.
fn parse_filename_option(v: &Vec<char>, ts: &Vec<(usize, usize)>, name: String, i: usize) -> (r: Option<
    OptionParam,
>)
    requires
        line_wf(v, ts),
        i <= ts.len(),
    ensures
        option_opt_view(r) == filename_option(v@, ts@, name@, i as int),
{
    match string_default_exec(v, ts, i) {
        Some(d) => Some(OptionParam::Filename { name, default: d }),
        None => None,
    }
}

fn option_body_exec(
    v: &Vec<char>,
    ts: &Vec<(usize, usize)>,
    name: String,
    kind: usize,
    i: usize,
) -> (r: Option<OptionParam>)
    requires
        line_wf(v, ts),
        kind < ts.len(),
        i <= ts.len(),
    ensures
        option_opt_view(r) == option_body(v@, ts@, name@, word(v@, ts@, kind as int), i as int),
{
    if word_is(v, ts, kind, "check") {
        parse_check_option(v, ts, name, i)
    } else if word_is(v, ts, kind, "spin") {
        parse_spin_option(v, ts, name, i)
    } else if word_is(v, ts, kind, "combo") {
        parse_combo_option(v, ts, name, i)
    } else if word_is(v, ts, kind, "string") {
        parse_string_option(v, ts, name, i)
    } else if word_is(v, ts, kind, "button") {
        parse_button_option(ts, name, i)
    } else if word_is(v, ts, kind, "filename") {
        parse_filename_option(v, ts, name, i)
    } else {
        None
    }
}

fn parse_option(v: &Vec<char>, ts: &Vec<(usize, usize)>, k: usize) -> (r: Option<
    EngineMessage,
>)
    requires
        line_wf(v, ts),
        k < ts.len(),
    ensures
        engine_opt_view(r) == option_cmd(v@, ts@, k as int),
{
    let n = ts.len();
    if n - k > 2 && word_is(v, ts, k + 1, "name") {
        let t = find_word_exec(v, ts, k + 2, "type");
        if k + 2 < t && t < n && t + 1 < n {
            let name = parse_tokens(v, ts, k + 2, t);
            match option_body_exec(v, ts, name, t + 1, t + 2) {
                Some(o) => Some(EngineMessage::Option(o)),
                None => None,
            }
        } else {
            None
        }
    } else {
        None
    }
}

fn bound_exec(v: &Vec<char>, ts: &Vec<(usize, usize)>, j: usize, b: ScoreBound) -> (r: (
    ScoreBound,
    usize,
))
    requires
        toks_wf(v@, ts@),
        j <= ts.len(),
    ensures
        (r.0, r.1 as int) == bound_at(v@, ts@, j as int, b),
        j <= r.1 <= ts.len(),
{
    if j < ts.len() && word_is(v, ts, j, "lowerbound") {
        (ScoreBound::Lower, j + 1)
    } else if j < ts.len() && word_is(v, ts, j, "upperbound") {
        (ScoreBound::Upper, j + 1)
    } else {
        (b, j)
    }
}

/// `score cp <n> [bound]`, at token `i`, where `i + 2` is a token.
fn parse_score_cp(v: &Vec<char>, ts: &Vec<(usize, usize)>, i: usize) -> (r: Option<(InfoParam, usize)>)
    requires
        toks_wf(v@, ts@),
        i + 2 < ts.len(),
    ensures
        match r {
            Some((p, j)) => score_cp_param(v@, ts@, i as int) == Some((p@, j as int)) && i < j
                <= ts.len(),
            None => score_cp_param(v@, ts@, i as int) is None,
        },
{
    match i32_at_exec(v, ts, i + 2) {
        Some(x) => {
            let (b, j) = bound_exec(v, ts, i + 3, ScoreBound::Exact);
            Some((InfoParam::ScoreCp(x, b), j))
        },
        None => None,
    }
}

/// `score mate <n | + | -> [bound]`, at token `i`, where `i + 2` is a token.
fn parse_score_mate(v: &Vec<char>, ts: &Vec<(usize, usize)>, i: usize) -> (r: Option<(InfoParam, usize)>)
    requires
        toks_wf(v@, ts@),
        i + 2 < ts.len(),
    ensures
        match r {
            Some((p, j)) => score_mate_param(v@, ts@, i as int) == Some((p@, j as int)) && i < j
                <= ts.len(),
            None => score_mate_param(v@, ts@, i as int) is None,
        },
{
    let first: Option<(Option<i32>, ScoreBound)> = if word_is(v, ts, i + 2, "+") {
        Some((None, ScoreBound::MatePlus))
    } else if word_is(v, ts, i + 2, "-") {
        Some((None, ScoreBound::MateMin))
    } else {
        match i32_at_exec(v, ts, i + 2) {
            Some(x) => Some((Some(x), ScoreBound::Exact)),
            None => None,
        }
    };
    match first {
        Some((x, b0)) => {
            let (b, j) = bound_exec(v, ts, i + 3, b0);
            Some((InfoParam::ScoreMate(x, b), j))
        },
        None => None,
    }
}

fn parse_score(v: &Vec<char>, ts: &Vec<(usize, usize)>, i: usize) -> (r: Option<(InfoParam, usize)>)
    requires
        toks_wf(v@, ts@),
        i < ts.len(),
    ensures
        match r {
            Some((p, j)) => score_param(v@, ts@, i as int) == Some((p@, j as int)) && i < j
                <= ts.len(),
            None => score_param(v@, ts@, i as int) is None,
        },
{
    let n = ts.len();
    if n - i > 2 && word_is(v, ts, i + 1, "cp") {
        parse_score_cp(v, ts, i)
    } else if n - i > 2 && word_is(v, ts, i + 1, "mate") {
        parse_score_mate(v, ts, i)
    } else {
        None
    }
}

fn parse_currline(v: &Vec<char>, ts: &Vec<(usize, usize)>, i: usize) -> (r: (InfoParam, usize))
    requires
        line_wf(v, ts),
        i < ts.len(),
    ensures
        (r.0@, r.1 as int) == currline_param(v@, ts@, i as int),
        i < r.1 <= ts.len(),
{
    let cpu = u16_at_exec(v, ts, i + 1);
    let j = if cpu.is_some() {
        i + 2
    } else {
        i + 1
    };
    let e = move_run_exec(v, ts, j);
    let line = parse_moves(v, ts, j, e);
    (InfoParam::CurrLine { cpu_nr: cpu, line }, e)
}

fn parse_numeric_param(v: &Vec<char>, ts: &Vec<(usize, usize)>, i: usize) -> (r: Option<InfoParam>)
    requires
        toks_wf(v@, ts@),
        i < ts.len(),
    ensures
        info_opt_view(r) == numeric_param(v@, ts@, i as int),
{
    if word_is(v, ts, i, "depth") {
        match u16_at_exec(v, ts, i + 1) {
            Some(x) => Some(InfoParam::Depth(x)),
            None => None,
        }
    } else if word_is(v, ts, i, "seldepth") {
        match u16_at_exec(v, ts, i + 1) {
            Some(x) => Some(InfoParam::SelDepth(x)),
            None => None,
        }
    } else if word_is(v, ts, i, "time") {
        match millis_at_exec(v, ts, i + 1) {
            Some(x) => Some(InfoParam::Time(x)),
            None => None,
        }
    } else if word_is(v, ts, i, "nodes") {
        match u64_at_exec(v, ts, i + 1) {
            Some(x) => Some(InfoParam::Nodes(x)),
            None => None,
        }
    } else if word_is(v, ts, i, "currmovenumber") {
        match u16_at_exec(v, ts, i + 1) {
            Some(x) => Some(InfoParam::CurrMoveNumber(x)),
            None => None,
        }
    } else if word_is(v, ts, i, "hashfull") {
        match u16_at_exec(v, ts, i + 1) {
            Some(x) => Some(InfoParam::HashFull(x)),
            None => None,
        }
    } else if word_is(v, ts, i, "nps") {
        match u64_at_exec(v, ts, i + 1) {
            Some(x) => Some(InfoParam::Nps(x)),
            None => None,
        }
    } else if word_is(v, ts, i, "cpuload") {
        match u16_at_exec(v, ts, i + 1) {
            Some(x) => Some(InfoParam::CpuLoad(x)),
            None => None,
        }
    } else if word_is(v, ts, i, "multipv") {
        match u16_at_exec(v, ts, i + 1) {
            Some(x) => Some(InfoParam::MultiPv(x)),
            None => None,
        }
    } else {
        None
    }
}

fn parse_info_param(v: &Vec<char>, ts: &Vec<(usize, usize)>, i: usize) -> (r: Option<
    (InfoParam, usize),
>)
    requires
        line_wf(v, ts),
        i < ts.len(),
    ensures
        match r {
            Some((p, j)) => info_param(v@, ts@, i as int) == Some((p@, j as int)) && i < j
                <= ts.len(),
            None => info_param(v@, ts@, i as int) is None,
        },
{
    let n = ts.len();
    match parse_numeric_param(v, ts, i) {
        Some(p) => {
            return Some((p, i + 2));
        },
        None => {},
    }
    if word_is(v, ts, i, "currmove") {
        if n - i > 1 {
            match parse_move(v, ts, i + 1) {
                Some(m) => Some((InfoParam::CurrMove(m), i + 2)),
                None => None,
            }
        } else {
            None
        }
    } else if word_is(v, ts, i, "string") {
        if n - i > 1 {
            Some((InfoParam::String(parse_tokens(v, ts, i + 1, n)), n))
        } else {
            None
        }
    } else if word_is(v, ts, i, "pv") || word_is(v, ts, i, "refutation") {
        let e = move_run_exec(v, ts, i + 1);
        if e > i + 1 {
            let moves = parse_moves(v, ts, i + 1, e);
            if word_is(v, ts, i, "pv") {
                Some((InfoParam::Pv(moves), e))
            } else {
                Some((InfoParam::Refutation(moves), e))
            }
        } else {
            None
        }
    } else if word_is(v, ts, i, "currline") {
        Some(parse_currline(v, ts, i))
    } else if word_is(v, ts, i, "score") {
        parse_score(v, ts, i)
    } else {
        None
    }
}

fn parse_info(v: &Vec<char>, ts: &Vec<(usize, usize)>, k: usize) -> (r: Option<
    Vec<InfoParam>,
>)
    requires
        line_wf(v, ts),
        k < ts.len(),
    ensures
        match r {
            Some(items) => info_params(v@, ts@, k + 1, Seq::empty()) == Some(infos_view(items)),
            None => info_params(v@, ts@, k + 1, Seq::empty()) is None,
        },
{
    let n = ts.len();
    let mut items: Vec<InfoParam> = Vec::new();
    let mut i = k + 1;
    assert(infos_view(items) =~= Seq::<InfoParamView>::empty());
    while i < n
        invariant
            line_wf(v, ts),
            n == ts.len(),
            k + 1 <= i <= n,
            info_params(v@, ts@, i as int, infos_view(items)) == info_params(
                v@,
                ts@,
                k + 1,
                Seq::empty(),
            ),
        decreases n - i,
    {
        match parse_info_param(v, ts, i) {
            Some((p, j)) => {
                let ghost old_items = infos_view(items);
                let ghost pv = p@;
                items.push(p);
                assert(infos_view(items) =~= old_items.push(pv));
                i = j;
            },
            None => {
                return None;
            },
        }
    }
    Some(items)
}

/// The engine command whose keyword is token `k`, if the rest of the line matches it.
pub fn engine_cmd_at_exec(v: &Vec<char>, ts: &Vec<(usize, usize)>, k: usize) -> (r: Option<
    EngineMessage,
>)
    requires
        line_wf(v, ts),
        k < ts.len(),
    ensures
        engine_opt_view(r) == engine_cmd_at(v@, ts@, k as int),
{
    let n = ts.len();
    if word_is(v, ts, k, "id") {
        parse_id(v, ts, k)
    } else if word_is(v, ts, k, "usiok") {
        if n - k == 1 {
            Some(EngineMessage::UsiOk)
        } else {
            None
        }
    } else if word_is(v, ts, k, "readyok") {
        if n - k == 1 {
            Some(EngineMessage::ReadyOk)
        } else {
            None
        }
    } else if word_is(v, ts, k, "bestmove") {
        parse_bestmove(v, ts, k)
    } else if word_is(v, ts, k, "copyprotection") {
        match parse_status_check(v, ts, k) {
            Some(st) => Some(EngineMessage::CopyProtection(st)),
            None => None,
        }
    } else if word_is(v, ts, k, "registration") {
        match parse_status_check(v, ts, k) {
            Some(st) => Some(EngineMessage::Registration(st)),
            None => None,
        }
    } else if word_is(v, ts, k, "option") {
        parse_option(v, ts, k)
    } else if word_is(v, ts, k, "info") {
        match parse_info(v, ts, k) {
            Some(items) => Some(EngineMessage::Info(items)),
            None => None,
        }
    } else {
        None
    }
}

} // verus!
