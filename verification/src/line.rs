//! Parsing one line into a GUI or an engine message.
use crate::engine::EngineMessage;
use crate::engine_parse::engine_cmd_at_exec;
use crate::grammar::{cmd_at, engine_line, gui_line, line_tokens, scan, CommandView};
use crate::gui::GuiMessage;
use crate::gui_parse::gui_cmd_at_exec;
use crate::text::tokenize;
use crate::words::{line_wf, parse_tokens};
use vstd::prelude::*;

verus! {

/// A command found on a line.
pub enum Command {
    Gui(GuiMessage),
    Engine(EngineMessage),
}

impl View for Command {
    type V = CommandView;

    open spec fn view(&self) -> CommandView {
        match self {
            Command::Gui(g) => CommandView::Gui(g@),
            Command::Engine(e) => CommandView::Engine(e@),
        }
    }
}

pub open spec fn cmd_opt_view(o: Option<Command>) -> Option<CommandView> {
    match o {
        Some(c) => Some(c@),
        None => None,
    }
}

fn cmd_at_exec(v: &Vec<char>, ts: &Vec<(usize, usize)>, k: usize) -> (r: Option<Command>)
    requires
        line_wf(v, ts),
        k < ts.len(),
    ensures
        cmd_opt_view(r) == cmd_at(v@, ts@, k as int),
{
    match gui_cmd_at_exec(v, ts, k) {
        Some(g) => Some(Command::Gui(g)),
        None => match engine_cmd_at_exec(v, ts, k) {
            Some(e) => Some(Command::Engine(e)),
            None => None,
        },
    }
}

/// The first command of the line, trying each token in turn as its keyword.
fn scan_exec(v: &Vec<char>, ts: &Vec<(usize, usize)>) -> (r: Option<Command>)
    requires
        line_wf(v, ts),
    ensures
        cmd_opt_view(r) == scan(v@, ts@, 0),
{
    let mut k: usize = 0;
    while k < ts.len()
        invariant
            line_wf(v, ts),
            k <= ts.len(),
            scan(v@, ts@, k as int) == scan(v@, ts@, 0),
        decreases ts.len() - k,
    {
        match cmd_at_exec(v, ts, k) {
            Some(c) => {
                return Some(c);
            },
            None => {},
        }
        k = k + 1;
    }
    None
}

/// The GUI message on a line that holds at least one token.
pub fn gui_parse_line(line: &Vec<char>) -> (r: GuiMessage)
    requires
        line_tokens(line@).len() > 0,
    ensures
        r@ == gui_line(line@),
{
    let ts = tokenize(line, 0, line.len());
    match scan_exec(line, &ts) {
        Some(Command::Gui(g)) => g,
        _ => GuiMessage::Unknown(parse_tokens(line, &ts, 0, ts.len())),
    }
}

/// The engine message on a line that holds at least one token.
pub fn engine_parse_line(line: &Vec<char>) -> (r: EngineMessage)
    requires
        line_tokens(line@).len() > 0,
    ensures
        r@ == engine_line(line@),
{
    let ts = tokenize(line, 0, line.len());
    match scan_exec(line, &ts) {
        Some(Command::Engine(e)) => e,
        _ => EngineMessage::Unknown(parse_tokens(line, &ts, 0, ts.len())),
    }
}

} // verus!
