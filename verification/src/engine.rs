//! Messages that the engine sends to the GUI.
use crate::gui::opt_string_view;
use haitaka_types::Move;
use std::time::Duration;
use vstd::prelude::*;

verus! {

/// The argument of `id`.
#[derive(Debug, Clone, PartialEq, Eq)]
pub enum IdParams {
    Name(String),
    Author(String),
}

pub enum IdParamsView {
    Name(Seq<char>),
    Author(Seq<char>),
}

impl View for IdParams {
    type V = IdParamsView;

    open spec fn view(&self) -> IdParamsView {
        match self {
            IdParams::Name(s) => IdParamsView::Name(s@),
            IdParams::Author(s) => IdParamsView::Author(s@),
        }
    }
}

/// The argument of `bestmove`.
#[derive(Debug, Clone, Copy, PartialEq, Eq)]
pub enum BestMoveParams {
    BestMove { bestmove: Move, ponder: Option<Move> },
    Resign,
    Win,
}

/// The state reported by `copyprotection` and `registration`.
#[derive(Debug, Clone, Copy, PartialEq, Eq)]
pub enum StatusCheck {
    Checking,
    Okay,
    Error,
}

/// An option that the engine offers, with its type.
#[derive(Debug, Clone, PartialEq, Eq)]
#[allow(inconsistent_fields)]
pub enum OptionParam {
    Check { name: String, default: Option<bool> },
    Spin { name: String, default: Option<i32>, min: Option<i32>, max: Option<i32> },
    Combo { name: String, default: Option<String>, vars: Vec<String> },
    String { name: String, default: Option<String> },
    Button { name: String },
    Filename { name: String, default: Option<String> },
}

#[allow(inconsistent_fields)]
pub enum OptionParamView {
    Check { name: Seq<char>, default: Option<bool> },
    Spin { name: Seq<char>, default: Option<i32>, min: Option<i32>, max: Option<i32> },
    Combo { name: Seq<char>, default: Option<Seq<char>>, vars: Seq<Seq<char>> },
    String { name: Seq<char>, default: Option<Seq<char>> },
    Button { name: Seq<char> },
    Filename { name: Seq<char>, default: Option<Seq<char>> },
}

pub open spec fn strings_view(v: Vec<String>) -> Seq<Seq<char>> {
    v@.map_values(|s: String| s@)
}

impl View for OptionParam {
    type V = OptionParamView;

    open spec fn view(&self) -> OptionParamView {
        match self {
            OptionParam::Check { name, default } => OptionParamView::Check {
                name: name@,
                default: *default,
            },
            OptionParam::Spin { name, default, min, max } => OptionParamView::Spin {
                name: name@,
                default: *default,
                min: *min,
                max: *max,
            },
            OptionParam::Combo { name, default, vars } => OptionParamView::Combo {
                name: name@,
                default: opt_string_view(*default),
                vars: strings_view(*vars),
            },
            OptionParam::String { name, default } => OptionParamView::String {
                name: name@,
                default: opt_string_view(*default),
            },
            OptionParam::Button { name } => OptionParamView::Button { name: name@ },
            OptionParam::Filename { name, default } => OptionParamView::Filename {
                name: name@,
                default: opt_string_view(*default),
            },
        }
    }
}

/// How a reported score bounds the true score.
#[derive(Debug, Clone, Copy, PartialEq, Eq)]
pub enum ScoreBound {
    Exact,
    Lower,
    Upper,
    MatePlus,
    MateMin,
}

/// One item of an `info` message.
#[derive(Debug, Clone, PartialEq, Eq)]
pub enum InfoParam {
    Depth(u16),
    SelDepth(u16),
    Time(Duration),
    Nodes(u64),
    CurrMoveNumber(u16),
    CurrMove(Move),
    HashFull(u16),
    Nps(u64),
    CpuLoad(u16),
    MultiPv(u16),
    String(String),
    Pv(Vec<Move>),
    Refutation(Vec<Move>),
    CurrLine { cpu_nr: Option<u16>, line: Vec<Move> },
    ScoreCp(i32, ScoreBound),
    ScoreMate(Option<i32>, ScoreBound),
}

pub enum InfoParamView {
    Depth(u16),
    SelDepth(u16),
    Time(Duration),
    Nodes(u64),
    CurrMoveNumber(u16),
    CurrMove(Move),
    HashFull(u16),
    Nps(u64),
    CpuLoad(u16),
    MultiPv(u16),
    String(Seq<char>),
    Pv(Seq<Move>),
    Refutation(Seq<Move>),
    CurrLine { cpu_nr: Option<u16>, line: Seq<Move> },
    ScoreCp(i32, ScoreBound),
    ScoreMate(Option<i32>, ScoreBound),
}

impl View for InfoParam {
    type V = InfoParamView;

    open spec fn view(&self) -> InfoParamView {
        match self {
            InfoParam::Depth(n) => InfoParamView::Depth(*n),
            InfoParam::SelDepth(n) => InfoParamView::SelDepth(*n),
            InfoParam::Time(t) => InfoParamView::Time(*t),
            InfoParam::Nodes(n) => InfoParamView::Nodes(*n),
            InfoParam::CurrMoveNumber(n) => InfoParamView::CurrMoveNumber(*n),
            InfoParam::CurrMove(m) => InfoParamView::CurrMove(*m),
            InfoParam::HashFull(n) => InfoParamView::HashFull(*n),
            InfoParam::Nps(n) => InfoParamView::Nps(*n),
            InfoParam::CpuLoad(n) => InfoParamView::CpuLoad(*n),
            InfoParam::MultiPv(n) => InfoParamView::MultiPv(*n),
            InfoParam::String(s) => InfoParamView::String(s@),
            InfoParam::Pv(v) => InfoParamView::Pv(v@),
            InfoParam::Refutation(v) => InfoParamView::Refutation(v@),
            InfoParam::CurrLine { cpu_nr, line } => InfoParamView::CurrLine {
                cpu_nr: *cpu_nr,
                line: line@,
            },
            InfoParam::ScoreCp(v, b) => InfoParamView::ScoreCp(*v, *b),
            InfoParam::ScoreMate(v, b) => InfoParamView::ScoreMate(*v, *b),
        }
    }
}

pub open spec fn infos_view(v: Vec<InfoParam>) -> Seq<InfoParamView> {
    v@.map_values(|p: InfoParam| p@)
}

/// A message from the engine to the GUI.
#[derive(Debug, Clone, PartialEq, Eq)]
pub enum EngineMessage {
    Id(IdParams),
    UsiOk,
    ReadyOk,
    BestMove(BestMoveParams),
    CopyProtection(StatusCheck),
    Registration(StatusCheck),
    Option(OptionParam),
    Info(Vec<InfoParam>),
    Unknown(String),
}

pub enum EngineMessageView {
    Id(IdParamsView),
    UsiOk,
    ReadyOk,
    BestMove(BestMoveParams),
    CopyProtection(StatusCheck),
    Registration(StatusCheck),
    Option(OptionParamView),
    Info(Seq<InfoParamView>),
    Unknown(Seq<char>),
}

impl View for EngineMessage {
    type V = EngineMessageView;

    open spec fn view(&self) -> EngineMessageView {
        match self {
            EngineMessage::Id(p) => EngineMessageView::Id(p@),
            EngineMessage::UsiOk => EngineMessageView::UsiOk,
            EngineMessage::ReadyOk => EngineMessageView::ReadyOk,
            EngineMessage::BestMove(p) => EngineMessageView::BestMove(*p),
            EngineMessage::CopyProtection(s) => EngineMessageView::CopyProtection(*s),
            EngineMessage::Registration(s) => EngineMessageView::Registration(*s),
            EngineMessage::Option(p) => EngineMessageView::Option(p@),
            EngineMessage::Info(v) => EngineMessageView::Info(infos_view(*v)),
            EngineMessage::Unknown(s) => EngineMessageView::Unknown(s@),
        }
    }
}

} // verus!
