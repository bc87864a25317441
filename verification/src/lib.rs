//! A verified parser for the USI (Universal Shogi Interface) protocol.
//!
//! GUI-to-engine messages are parsed into [`GuiMessage`] values and
//! engine-to-GUI messages into [`EngineMessage`] values, one message per line.
pub mod engine;
pub mod command_laws;
pub mod engine_parse;
pub mod grammar;
pub mod gui;
pub mod gui_parse;
pub mod laws;
pub mod line;
pub mod outside;
pub mod parser;
pub mod text;
pub mod words;

pub use engine::{BestMoveParams, EngineMessage, IdParams, InfoParam, OptionParam, ScoreBound, StatusCheck};
pub use gui::{EngineParams, GameStatus, GuiMessage, MateParam};
pub use parser::{EngineMessageStream, GuiMessageStream, ParseError};
