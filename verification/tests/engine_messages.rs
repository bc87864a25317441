use haitaka_types::Move;
use haitaka_usi::{
    BestMoveParams, EngineMessage, EngineMessageStream, GuiMessage, IdParams, InfoParam,
    OptionParam, ParseError, ScoreBound, StatusCheck,
};
use std::time::Duration;

fn mv(s: &str) -> Move {
    s.parse::<Move>().unwrap()
}

fn eng(s: &str) -> EngineMessage {
    EngineMessage::parse(s).unwrap()
}

#[test]
fn bestmove_with_and_without_ponder() {
    assert_eq!(
        eng("bestmove 3c3d\n"),
        EngineMessage::BestMove(BestMoveParams::BestMove { bestmove: mv("3c3d"), ponder: None })
    );
    assert_eq!(
        eng("bestmove 7g7f ponder 8c8d\n"),
        EngineMessage::BestMove(BestMoveParams::BestMove {
            bestmove: mv("7g7f"),
            ponder: Some(mv("8c8d"))
        })
    );
    assert_eq!(eng("bestmove resign\n"), EngineMessage::BestMove(BestMoveParams::Resign));
    assert_eq!(eng("bestmove win\n"), EngineMessage::BestMove(BestMoveParams::Win));
    assert_eq!(eng("bestmove 7g7x\n"), EngineMessage::Unknown("bestmove 7g7x".to_string()));
}

#[test]
fn moves_come_from_haitaka_types() {
    let m = mv("P*5e");
    assert!(m.is_drop());
    assert_eq!(
        eng("bestmove P*5e\n"),
        EngineMessage::BestMove(BestMoveParams::BestMove { bestmove: m, ponder: None })
    );
    assert_ne!(
        eng("bestmove 7g7f\n"),
        EngineMessage::BestMove(BestMoveParams::BestMove { bestmove: mv("7g7f+"), ponder: None })
    );
}

#[test]
fn id_name_and_author() {
    assert_eq!(eng("id name Haitaka  0.1\n"), EngineMessage::Id(IdParams::Name("Haitaka  0.1".to_string())));
    assert_eq!(eng("id author tofutofu\n"), EngineMessage::Id(IdParams::Author("tofutofu".to_string())));
    assert_eq!(eng("id name\n"), EngineMessage::Unknown("id name".to_string()));
}

#[test]
fn usiok_and_readyok() {
    assert_eq!(eng("usiok\n"), EngineMessage::UsiOk);
    assert_eq!(eng("readyok\n"), EngineMessage::ReadyOk);
}

#[test]
fn copyprotection_and_registration() {
    assert_eq!(eng("copyprotection checking\n"), EngineMessage::CopyProtection(StatusCheck::Checking));
    assert_eq!(eng("copyprotection ok\n"), EngineMessage::CopyProtection(StatusCheck::Okay));
    assert_eq!(eng("registration error\n"), EngineMessage::Registration(StatusCheck::Error));
    assert_eq!(eng("registration\n"), EngineMessage::Unknown("registration".to_string()));
}

#[test]
fn option_check() {
    assert_eq!(
        eng("option name USI_Ponder type check default TRUE\n"),
        EngineMessage::Option(OptionParam::Check { name: "USI_Ponder".to_string(), default: Some(true) })
    );
    assert_eq!(
        eng("option name Null Move type check default false\n"),
        EngineMessage::Option(OptionParam::Check { name: "Null Move".to_string(), default: Some(false) })
    );
    assert_eq!(
        eng("option name X type check\n"),
        EngineMessage::Option(OptionParam::Check { name: "X".to_string(), default: None })
    );
}

#[test]
fn option_spin() {
    assert_eq!(
        eng("option name USI_Hash type spin default 16 min 1 max 1024\n"),
        EngineMessage::Option(OptionParam::Spin {
            name: "USI_Hash".to_string(),
            default: Some(16),
            min: Some(1),
            max: Some(1024)
        })
    );
    assert_eq!(
        eng("option name Contempt type spin min -100 default +0\n"),
        EngineMessage::Option(OptionParam::Spin {
            name: "Contempt".to_string(),
            default: Some(0),
            min: Some(-100),
            max: None
        })
    );
    assert_eq!(
        eng("option name Big type spin max -2147483648\n"),
        EngineMessage::Option(OptionParam::Spin {
            name: "Big".to_string(),
            default: None,
            min: None,
            max: Some(i32::MIN)
        })
    );
    assert_eq!(
        eng("option name Big type spin max 2147483648\n"),
        EngineMessage::Unknown("option name Big type spin max 2147483648".to_string())
    );
}

#[test]
fn option_combo() {
    assert_eq!(
        eng("option name Style type combo default Normal var Solid var Normal var Risky Play\n"),
        EngineMessage::Option(OptionParam::Combo {
            name: "Style".to_string(),
            default: Some("Normal".to_string()),
            vars: vec!["Solid".to_string(), "Normal".to_string(), "Risky Play".to_string()]
        })
    );
}

#[test]
fn option_string_button_filename() {
    assert_eq!(
        eng("option name Book type string default <empty>\n"),
        EngineMessage::Option(OptionParam::String { name: "Book".to_string(), default: Some(String::new()) })
    );
    assert_eq!(
        eng("option name Book type string default <EMPTY>\n"),
        EngineMessage::Option(OptionParam::String { name: "Book".to_string(), default: Some(String::new()) })
    );
    assert_eq!(
        eng("option name Book type string default book.db\n"),
        EngineMessage::Option(OptionParam::String { name: "Book".to_string(), default: Some("book.db".to_string()) })
    );
    assert_eq!(
        eng("option name Clear Hash type button\n"),
        EngineMessage::Option(OptionParam::Button { name: "Clear Hash".to_string() })
    );
    assert_eq!(
        eng("option name EvalDir type filename default eval\n"),
        EngineMessage::Option(OptionParam::Filename { name: "EvalDir".to_string(), default: Some("eval".to_string()) })
    );
    assert_eq!(
        eng("option name EvalDir type filename\n"),
        EngineMessage::Option(OptionParam::Filename { name: "EvalDir".to_string(), default: None })
    );
    assert_eq!(
        eng("option name X type colour\n"),
        EngineMessage::Unknown("option name X type colour".to_string())
    );
}

#[test]
fn info_numbers_score_and_pv() {
    assert_eq!(
        eng("info depth 10 seldepth 12 time 1000 nodes 123456 nps 123456 score cp -50 lowerbound pv 7g7f 3c3d\n"),
        EngineMessage::Info(vec![
            InfoParam::Depth(10),
            InfoParam::SelDepth(12),
            InfoParam::Time(Duration::from_millis(1000)),
            InfoParam::Nodes(123456),
            InfoParam::Nps(123456),
            InfoParam::ScoreCp(-50, ScoreBound::Lower),
            InfoParam::Pv(vec![mv("7g7f"), mv("3c3d")]),
        ])
    );
}

#[test]
fn info_score_mate() {
    assert_eq!(eng("info score mate +\n"), EngineMessage::Info(vec![InfoParam::ScoreMate(None, ScoreBound::MatePlus)]));
    assert_eq!(eng("info score mate -\n"), EngineMessage::Info(vec![InfoParam::ScoreMate(None, ScoreBound::MateMin)]));
    assert_eq!(eng("info score mate -3\n"), EngineMessage::Info(vec![InfoParam::ScoreMate(Some(-3), ScoreBound::Exact)]));
    assert_eq!(
        eng("info score mate 5 upperbound\n"),
        EngineMessage::Info(vec![InfoParam::ScoreMate(Some(5), ScoreBound::Upper)])
    );
    assert_eq!(eng("info score cp 12\n"), EngineMessage::Info(vec![InfoParam::ScoreCp(12, ScoreBound::Exact)]));
}

#[test]
fn info_other_items() {
    assert_eq!(
        eng("info currmove P*5e currmovenumber 3 hashfull 500 cpuload 900 multipv 2 refutation 7g7f 3c3d currline 1 2g2f 8c8d\n"),
        EngineMessage::Info(vec![
            InfoParam::CurrMove(mv("P*5e")),
            InfoParam::CurrMoveNumber(3),
            InfoParam::HashFull(500),
            InfoParam::CpuLoad(900),
            InfoParam::MultiPv(2),
            InfoParam::Refutation(vec![mv("7g7f"), mv("3c3d")]),
            InfoParam::CurrLine { cpu_nr: Some(1), line: vec![mv("2g2f"), mv("8c8d")] },
        ])
    );
    assert_eq!(
        eng("info currline 7g7f\n"),
        EngineMessage::Info(vec![InfoParam::CurrLine { cpu_nr: None, line: vec![mv("7g7f")] }])
    );
}

#[test]
fn info_string_takes_the_rest_of_the_line() {
    assert_eq!(
        eng("info depth 3 string hello  depth 4\n"),
        EngineMessage::Info(vec![InfoParam::Depth(3), InfoParam::String("hello  depth 4".to_string())])
    );
    assert_eq!(eng("info\n"), EngineMessage::Info(vec![]));
    assert_eq!(eng("info depth\n"), EngineMessage::Unknown("info depth".to_string()));
}

#[test]
fn gui_commands_are_unknown_to_the_engine_side() {
    assert_eq!(eng("usi\n"), EngineMessage::Unknown("usi".to_string()));
    assert_eq!(eng("go depth 3\n"), EngineMessage::Unknown("go depth 3".to_string()));
}

#[test]
fn a_line_is_not_both_a_gui_and_an_engine_message() {
    for line in ["usi\n", "usiok\n", "foo usi\n", "usi bestmove 7g7f\n", "nothing here\n"] {
        let g = GuiMessage::parse(line).unwrap();
        let e = EngineMessage::parse(line).unwrap();
        assert!(matches!(g, GuiMessage::Unknown(_)) || matches!(e, EngineMessage::Unknown(_)));
    }
    assert_eq!(
        EngineMessage::parse("usi bestmove 7g7f\n"),
        Ok(EngineMessage::BestMove(BestMoveParams::BestMove { bestmove: mv("7g7f"), ponder: None }))
    );
}

#[test]
fn engine_parse_errors() {
    assert_eq!(EngineMessage::parse("usiok"), Err(ParseError::MissingNewline));
    assert_eq!(EngineMessage::parse(" \n"), Ok(EngineMessage::Unknown(String::new())));
    assert_eq!(EngineMessage::parse("usiok\n\x0c"), Ok(EngineMessage::UsiOk));
    assert_eq!(EngineMessage::parse_no_nl("readyok"), Ok(EngineMessage::ReadyOk));
    assert_eq!(EngineMessage::parse_no_nl(""), Ok(EngineMessage::Unknown(String::new())));
}

#[test]
fn engine_first_valid() {
    assert_eq!(
        EngineMessage::parse_first_valid("hi\nusi\nreadyok\nusiok\n"),
        Some(EngineMessage::ReadyOk)
    );
    assert_eq!(EngineMessage::parse_first_valid("hi\nusi\n"), None);
}

#[test]
fn engine_stream() {
    let mut s = EngineMessageStream::new("id name X\nusiok\n\nbestmove resign\n");
    assert_eq!(s.next(), Some(EngineMessage::Id(IdParams::Name("X".to_string()))));
    assert_eq!(s.next(), Some(EngineMessage::UsiOk));
    assert_eq!(s.next(), Some(EngineMessage::BestMove(BestMoveParams::Resign)));
    assert_eq!(s.next(), None);
    let mut p = EngineMessageStream::parse("readyok\n");
    assert_eq!(p.next(), Some(EngineMessage::ReadyOk));
    assert!(matches!(EngineMessageStream::try_parse("readyok"), Err(ParseError::MissingNewline)));
    assert!(matches!(EngineMessageStream::try_parse(""), Err(ParseError::MissingNewline)));
    let mut e = EngineMessageStream::new("\n\x0c");
    assert_eq!(e.next(), Some(EngineMessage::Unknown(String::new())));
    assert_eq!(e.next(), None);
    assert_eq!(EngineMessage::parse("\n\x0c"), Ok(EngineMessage::Unknown(String::new())));
    assert_eq!(EngineMessage::parse_first_valid("\n"), None);
}

#[test]
fn engine_only_first_message_returned() {
    assert_eq!(EngineMessage::parse("usiok\nreadyok\n"), EngineMessage::parse("usiok\n"));
}
