//! Messages that the GUI sends to the engine.
use haitaka_types::Move;
use std::time::Duration;
use vstd::prelude::*;

verus! {

/// The result of a game, as `gameover` reports it.
#[derive(Debug, Clone, Copy, PartialEq, Eq)]
pub enum GameStatus {
    Win,
    Lose,
    Draw,
}

/// The argument of `go mate`: a time limit, or no limit.
#[derive(Debug, Clone, Copy, PartialEq, Eq)]
pub enum MateParam {
    Timeout(Duration),
    Infinite,
}

/// The search parameters of a `go` command.
#[derive(Debug, Clone, PartialEq, Eq)]
pub struct EngineParams {
    pub searchmoves: Option<Vec<Move>>,
    pub ponder: bool,
    pub btime: Option<Duration>,
    pub wtime: Option<Duration>,
    pub binc: Option<Duration>,
    pub winc: Option<Duration>,
    pub byoyomi: Option<Duration>,
    pub movestogo: Option<u16>,
    pub depth: Option<u16>,
    pub nodes: Option<u32>,
    pub mate: Option<MateParam>,
    pub movetime: Option<Duration>,
    pub infinite: bool,
}

/// The value of an [`EngineParams`], with its move list as a sequence.
pub struct EngineParamsView {
    pub searchmoves: Option<Seq<Move>>,
    pub ponder: bool,
    pub btime: Option<Duration>,
    pub wtime: Option<Duration>,
    pub binc: Option<Duration>,
    pub winc: Option<Duration>,
    pub byoyomi: Option<Duration>,
    pub movestogo: Option<u16>,
    pub depth: Option<u16>,
    pub nodes: Option<u32>,
    pub mate: Option<MateParam>,
    pub movetime: Option<Duration>,
    pub infinite: bool,
}

pub open spec fn opt_moves_view(o: Option<Vec<Move>>) -> Option<Seq<Move>> {
    match o {
        Some(v) => Some(v@),
        None => None,
    }
}

pub open spec fn opt_string_view(o: Option<String>) -> Option<Seq<char>> {
    match o {
        Some(s) => Some(s@),
        None => None,
    }
}

impl View for EngineParams {
    type V = EngineParamsView;

    open spec fn view(&self) -> EngineParamsView {
        EngineParamsView {
            searchmoves: opt_moves_view(self.searchmoves),
            ponder: self.ponder,
            btime: self.btime,
            wtime: self.wtime,
            binc: self.binc,
            winc: self.winc,
            byoyomi: self.byoyomi,
            movestogo: self.movestogo,
            depth: self.depth,
            nodes: self.nodes,
            mate: self.mate,
            movetime: self.movetime,
            infinite: self.infinite,
        }
    }
}

/// The parameters of a bare `go`: nothing set.
pub open spec fn empty_params() -> EngineParamsView {
    EngineParamsView {
        searchmoves: None,
        ponder: false,
        btime: None,
        wtime: None,
        binc: None,
        winc: None,
        byoyomi: None,
        movestogo: None,
        depth: None,
        nodes: None,
        mate: None,
        movetime: None,
        infinite: false,
    }
}

impl EngineParams {
    /// Parameters with nothing set.
    pub fn new() -> (r: Self)
        ensures
            r@ == empty_params(),
    {
        EngineParams {
            searchmoves: None,
            ponder: false,
            btime: None,
            wtime: None,
            binc: None,
            winc: None,
            byoyomi: None,
            movestogo: None,
            depth: None,
            nodes: None,
            mate: None,
            movetime: None,
            infinite: false,
        }
    }

    /// Restricts the search to `moves`.
    pub fn searchmoves(self, moves: Vec<Move>) -> (r: Self)
        ensures
            r@ == (EngineParamsView { searchmoves: Some(moves@), ..self@ }),
    {
        EngineParams { searchmoves: Some(moves), ..self }
    }

    /// Asks for a search in pondering mode.
    pub fn ponder(self) -> (r: Self)
        ensures
            r@ == (EngineParamsView { ponder: true, ..self@ }),
    {
        EngineParams { ponder: true, ..self }
    }

    /// Sets the time left for black.
    pub fn btime(self, t: Duration) -> (r: Self)
        ensures
            r@ == (EngineParamsView { btime: Some(t), ..self@ }),
    {
        EngineParams { btime: Some(t), ..self }
    }

    /// Sets the time left for white.
    pub fn wtime(self, t: Duration) -> (r: Self)
        ensures
            r@ == (EngineParamsView { wtime: Some(t), ..self@ }),
    {
        EngineParams { wtime: Some(t), ..self }
    }

    /// Sets the increment per move for black.
    pub fn binc(self, t: Duration) -> (r: Self)
        ensures
            r@ == (EngineParamsView { binc: Some(t), ..self@ }),
    {
        EngineParams { binc: Some(t), ..self }
    }

    /// Sets the increment per move for white.
    pub fn winc(self, t: Duration) -> (r: Self)
        ensures
            r@ == (EngineParamsView { winc: Some(t), ..self@ }),
    {
        EngineParams { winc: Some(t), ..self }
    }

    /// Sets the byoyomi time.
    pub fn byoyomi(self, t: Duration) -> (r: Self)
        ensures
            r@ == (EngineParamsView { byoyomi: Some(t), ..self@ }),
    {
        EngineParams { byoyomi: Some(t), ..self }
    }

    /// Sets the number of moves to the next time control.
    pub fn movestogo(self, n: u16) -> (r: Self)
        ensures
            r@ == (EngineParamsView { movestogo: Some(n), ..self@ }),
    {
        EngineParams { movestogo: Some(n), ..self }
    }

    /// Limits the search depth.
    pub fn depth(self, n: u16) -> (r: Self)
        ensures
            r@ == (EngineParamsView { depth: Some(n), ..self@ }),
    {
        EngineParams { depth: Some(n), ..self }
    }

    /// Limits the number of nodes searched.
    pub fn nodes(self, n: u32) -> (r: Self)
        ensures
            r@ == (EngineParamsView { nodes: Some(n), ..self@ }),
    {
        EngineParams { nodes: Some(n), ..self }
    }

    /// Asks for a mate search.
    pub fn mate(self, m: MateParam) -> (r: Self)
        ensures
            r@ == (EngineParamsView { mate: Some(m), ..self@ }),
    {
        EngineParams { mate: Some(m), ..self }
    }

    /// Sets the exact time to search.
    pub fn movetime(self, t: Duration) -> (r: Self)
        ensures
            r@ == (EngineParamsView { movetime: Some(t), ..self@ }),
    {
        EngineParams { movetime: Some(t), ..self }
    }

    /// Asks for a search until `stop`.
    pub fn infinite(self) -> (r: Self)
        ensures
            r@ == (EngineParamsView { infinite: true, ..self@ }),
    {
        EngineParams { infinite: true, ..self }
    }
}

/// A message from the GUI to the engine.
#[derive(Debug, Clone, PartialEq, Eq)]
#[allow(inconsistent_fields)]
pub enum GuiMessage {
    Usi,
    Debug(bool),
    IsReady,
    SetOption { name: String, value: Option<String> },
    Register { name: Option<String>, code: Option<String> },
    UsiNewGame,
    Position { sfen: Option<String>, moves: Option<Vec<Move>> },
    Go(EngineParams),
    Stop,
    PonderHit,
    GameOver(GameStatus),
    Quit,
    Unknown(String),
}

/// The value of a [`GuiMessage`], with strings and lists as sequences.
#[allow(inconsistent_fields)]
pub enum GuiMessageView {
    Usi,
    Debug(bool),
    IsReady,
    SetOption { name: Seq<char>, value: Option<Seq<char>> },
    Register { name: Option<Seq<char>>, code: Option<Seq<char>> },
    UsiNewGame,
    Position { sfen: Option<Seq<char>>, moves: Option<Seq<Move>> },
    Go(EngineParamsView),
    Stop,
    PonderHit,
    GameOver(GameStatus),
    Quit,
    Unknown(Seq<char>),
}

impl View for GuiMessage {
    type V = GuiMessageView;

    open spec fn view(&self) -> GuiMessageView {
        match self {
            GuiMessage::Usi => GuiMessageView::Usi,
            GuiMessage::Debug(b) => GuiMessageView::Debug(*b),
            GuiMessage::IsReady => GuiMessageView::IsReady,
            GuiMessage::SetOption { name, value } => GuiMessageView::SetOption {
                name: name@,
                value: opt_string_view(*value),
            },
            GuiMessage::Register { name, code } => GuiMessageView::Register {
                name: opt_string_view(*name),
                code: opt_string_view(*code),
            },
            GuiMessage::UsiNewGame => GuiMessageView::UsiNewGame,
            GuiMessage::Position { sfen, moves } => GuiMessageView::Position {
                sfen: opt_string_view(*sfen),
                moves: opt_moves_view(*moves),
            },
            GuiMessage::Go(p) => GuiMessageView::Go(p@),
            GuiMessage::Stop => GuiMessageView::Stop,
            GuiMessage::PonderHit => GuiMessageView::PonderHit,
            GuiMessage::GameOver(s) => GuiMessageView::GameOver(*s),
            GuiMessage::Quit => GuiMessageView::Quit,
            GuiMessage::Unknown(s) => GuiMessageView::Unknown(s@),
        }
    }
}

} // verus!
