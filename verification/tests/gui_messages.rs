use haitaka_types::Move;
use haitaka_usi::{EngineParams, GameStatus, GuiMessage, GuiMessageStream, MateParam, ParseError};
use std::time::Duration;

fn mv(s: &str) -> Move {
    s.parse::<Move>().unwrap()
}

fn gui(s: &str) -> GuiMessage {
    GuiMessage::parse(s).unwrap()
}

#[test]
fn usi_parses() {
    assert_eq!(gui("usi\n"), GuiMessage::Usi);
}

#[test]
fn first_valid_skips_unknown_lines_and_leading_tokens() {
    assert_eq!(GuiMessage::parse_first_valid("yo\nyo usinewgame\n"), Some(GuiMessage::UsiNewGame));
}

#[test]
fn first_valid_none_when_all_unknown() {
    assert_eq!(GuiMessage::parse_first_valid("yo\nbestmove 7g7f\n"), None);
}

#[test]
fn missing_newline_is_an_error() {
    assert_eq!(GuiMessage::parse("usi"), Err(ParseError::MissingNewline));
    assert_eq!(GuiMessage::parse("usi\nisready"), Err(ParseError::MissingNewline));
}

#[test]
fn input_without_newline_is_an_error() {
    assert_eq!(GuiMessage::parse(""), Err(ParseError::MissingNewline));
    assert_eq!(GuiMessage::parse("   "), Err(ParseError::MissingNewline));
    assert_eq!(GuiMessage::parse("usi\n\x0cx"), Err(ParseError::MissingNewline));
}

#[test]
fn input_without_message_is_unknown_with_no_text() {
    assert_eq!(GuiMessage::parse("\n"), Ok(GuiMessage::Unknown(String::new())));
    assert_eq!(GuiMessage::parse("\n  \n\t\x0c\n"), Ok(GuiMessage::Unknown(String::new())));
    assert_eq!(GuiMessage::parse_no_nl("   "), Ok(GuiMessage::Unknown(String::new())));
    assert_eq!(GuiMessage::parse_no_nl(""), Ok(GuiMessage::Unknown(String::new())));
    assert_eq!(GuiMessage::parse_first_valid("\n"), None);
    let mut s = GuiMessageStream::new(" \n");
    assert_eq!(s.next(), Some(GuiMessage::Unknown(String::new())));
    assert_eq!(s.next(), None);
}

#[test]
fn stream_over_blank_input_yields_what_parse_returns() {
    for input in ["\n", " \n", "\n\x0c", "\r\n\t\n"] {
        let mut s = GuiMessageStream::new(input);
        assert_eq!(Ok(s.next().unwrap()), GuiMessage::parse(input));
        assert_eq!(s.next(), None);
    }
}

#[test]
fn any_ascii_whitespace_may_follow_the_last_newline() {
    assert_eq!(GuiMessage::parse("usi\n\x0c"), Ok(GuiMessage::Usi));
    assert_eq!(GuiMessage::parse("usi\n\n\x0c \t"), Ok(GuiMessage::Usi));
    assert_eq!(GuiMessage::parse("usi\nisready\n\x0c"), Ok(GuiMessage::Usi));
    let mut s = GuiMessageStream::new("usi\n\x0c\nquit\n\x0c");
    assert_eq!(s.next(), Some(GuiMessage::Usi));
    assert_eq!(s.next(), Some(GuiMessage::Quit));
    assert_eq!(s.next(), None);
}

#[test]
fn trailing_separators_after_newline_are_accepted() {
    assert_eq!(GuiMessage::parse("usi\n  \t"), Ok(GuiMessage::Usi));
    assert_eq!(GuiMessage::parse("isready\r\n"), Ok(GuiMessage::IsReady));
    assert_eq!(GuiMessage::parse("\n\n  stop  \r"), Ok(GuiMessage::Stop));
}

#[test]
fn parse_no_nl_needs_no_newline() {
    assert_eq!(GuiMessage::parse_no_nl("usi"), Ok(GuiMessage::Usi));
    assert_eq!(GuiMessage::parse_no_nl("quit\nusi"), Ok(GuiMessage::Quit));
}

#[test]
fn only_the_first_message_is_returned() {
    assert_eq!(GuiMessage::parse("usi\nquit\n"), GuiMessage::parse("usi\n"));
}

#[test]
fn parse_and_parse_no_nl_agree_on_terminated_input() {
    for s in ["usi\n", "go depth 3\nstop\n", "hello\n", "\n"] {
        assert_eq!(GuiMessage::parse(s), GuiMessage::parse_no_nl(s));
    }
}

#[test]
fn debug_on_and_off() {
    assert_eq!(gui("debug\n"), GuiMessage::Debug(true));
    assert_eq!(gui("debug on\n"), GuiMessage::Debug(true));
    assert_eq!(gui("debug off\n"), GuiMessage::Debug(false));
    assert_eq!(gui("debug maybe\n"), GuiMessage::Unknown("debug maybe".to_string()));
}

#[test]
fn simple_commands() {
    assert_eq!(gui("isready\n"), GuiMessage::IsReady);
    assert_eq!(gui("usinewgame\n"), GuiMessage::UsiNewGame);
    assert_eq!(gui("stop\n"), GuiMessage::Stop);
    assert_eq!(gui("ponderhit\n"), GuiMessage::PonderHit);
    assert_eq!(gui("quit\n"), GuiMessage::Quit);
    assert_eq!(gui("usi now\n"), GuiMessage::Unknown("usi now".to_string()));
}

#[test]
fn setoption_with_and_without_value() {
    assert_eq!(
        gui("setoption name USI_Hash value 256\n"),
        GuiMessage::SetOption { name: "USI_Hash".to_string(), value: Some("256".to_string()) }
    );
    assert_eq!(
        gui("setoption name Style  Name value a  b\n"),
        GuiMessage::SetOption { name: "Style  Name".to_string(), value: Some("a  b".to_string()) }
    );
    assert_eq!(
        gui("setoption name USI_Ponder\n"),
        GuiMessage::SetOption { name: "USI_Ponder".to_string(), value: None }
    );
    assert_eq!(
        gui("setoption name X value\n"),
        GuiMessage::Unknown("setoption name X value".to_string())
    );
}

#[test]
fn register_later_and_with_name_and_code() {
    assert_eq!(gui("register later\n"), GuiMessage::Register { name: None, code: None });
    assert_eq!(
        gui("register name Taro Yamada code 1234\n"),
        GuiMessage::Register {
            name: Some("Taro Yamada".to_string()),
            code: Some("1234".to_string())
        }
    );
}

#[test]
fn position_startpos() {
    assert_eq!(gui("position startpos\n"), GuiMessage::Position { sfen: None, moves: None });
    assert_eq!(
        gui("position startpos moves 7g7f 3c3d 8h2b+ P*5e\n"),
        GuiMessage::Position {
            sfen: None,
            moves: Some(vec![mv("7g7f"), mv("3c3d"), mv("8h2b+"), mv("P*5e")])
        }
    );
    assert_eq!(gui("position startpos moves\n"), GuiMessage::Position { sfen: None, moves: Some(vec![]) });
    assert_eq!(
        gui("position startpos moves 7g7f zz\n"),
        GuiMessage::Unknown("position startpos moves 7g7f zz".to_string())
    );
}

#[test]
fn position_sfen() {
    let sfen = "lnsgkgsnl/1r5b1/ppppppppp/9/9/9/PPPPPPPPP/1B5R1/LNSGKGSNL b - 1";
    assert_eq!(
        gui(&format!("position sfen {} moves 7g7f\n", sfen)),
        GuiMessage::Position { sfen: Some(sfen.to_string()), moves: Some(vec![mv("7g7f")]) }
    );
    assert_eq!(
        gui(&format!("position sfen {}\n", sfen)),
        GuiMessage::Position { sfen: Some(sfen.to_string()), moves: None }
    );
}

#[test]
fn go_with_all_parameters() {
    let expected = EngineParams::new()
        .btime(Duration::from_millis(1000))
        .wtime(Duration::from_millis(2000))
        .binc(Duration::from_millis(10))
        .winc(Duration::from_millis(20))
        .byoyomi(Duration::from_millis(300))
        .movestogo(40)
        .depth(5)
        .nodes(100000)
        .mate(MateParam::Infinite)
        .movetime(Duration::from_millis(1500))
        .ponder()
        .searchmoves(vec![mv("7g7f"), mv("2g2f")])
        .infinite();
    let msg = gui(
        "go btime 1000 wtime 2000 binc 10 winc 20 byoyomi 300 movestogo 40 depth 5 nodes 100000 mate infinite movetime 1500 ponder searchmoves 7g7f 2g2f infinite\n",
    );
    assert_eq!(msg, GuiMessage::Go(expected));
}

#[test]
fn go_bare_and_mate_timeout() {
    assert_eq!(gui("go\n"), GuiMessage::Go(EngineParams::new()));
    let p = EngineParams::new().mate(MateParam::Timeout(Duration::from_millis(5000)));
    assert_eq!(gui("go mate 5000\n"), GuiMessage::Go(p));
}

#[test]
fn go_later_parameter_overrides_earlier() {
    let p = EngineParams::new().depth(7);
    assert_eq!(gui("go depth 3 depth 7\n"), GuiMessage::Go(p));
}

#[test]
fn go_number_out_of_range_is_unknown() {
    assert_eq!(gui("go depth 70000\n"), GuiMessage::Unknown("go depth 70000".to_string()));
    assert_eq!(gui("go depth -1\n"), GuiMessage::Unknown("go depth -1".to_string()));
    let p = EngineParams::new().depth(65535);
    assert_eq!(gui("go depth 65535\n"), GuiMessage::Go(p));
}

#[test]
fn engine_params_builders() {
    let p = EngineParams::new();
    assert_eq!(p.searchmoves, None);
    assert!(!p.ponder && !p.infinite);
    let p = p.nodes(12).ponder();
    assert_eq!(p.nodes, Some(12));
    assert!(p.ponder);
    assert_eq!(p.depth, None);
}

#[test]
fn gameover_results() {
    assert_eq!(gui("gameover win\n"), GuiMessage::GameOver(GameStatus::Win));
    assert_eq!(gui("gameover lose\n"), GuiMessage::GameOver(GameStatus::Lose));
    assert_eq!(gui("gameover draw\n"), GuiMessage::GameOver(GameStatus::Draw));
    assert_eq!(gui("gameover\n"), GuiMessage::Unknown("gameover".to_string()));
}

#[test]
fn unknown_keeps_the_line_text() {
    assert_eq!(gui("hello world\n"), GuiMessage::Unknown("hello world".to_string()));
    assert_eq!(gui("  foo \t bar  \n"), GuiMessage::Unknown("foo \t bar".to_string()));
}

#[test]
fn engine_commands_are_unknown_to_the_gui_side() {
    assert_eq!(gui("usiok\n"), GuiMessage::Unknown("usiok".to_string()));
    assert_eq!(gui("bestmove 7g7f\n"), GuiMessage::Unknown("bestmove 7g7f".to_string()));
}

#[test]
fn stream_yields_each_message_in_order() {
    let mut s = GuiMessageStream::new("usi\n\n  isready\nfoo\r\nquit\n");
    assert_eq!(s.next(), Some(GuiMessage::Usi));
    assert_eq!(s.next(), Some(GuiMessage::IsReady));
    assert_eq!(s.next(), Some(GuiMessage::Unknown("foo".to_string())));
    assert_eq!(s.next(), Some(GuiMessage::Quit));
    assert_eq!(s.next(), None);
    assert_eq!(s.next(), None);
}

#[test]
fn stream_parse_and_try_parse() {
    let mut s = GuiMessageStream::parse("stop\n");
    assert_eq!(s.next(), Some(GuiMessage::Stop));
    assert!(GuiMessageStream::try_parse("stop").is_err());
    assert!(matches!(GuiMessageStream::try_parse("stop"), Err(ParseError::MissingNewline)));
    assert!(GuiMessageStream::try_parse(" \n").is_ok());
    assert!(matches!(GuiMessageStream::try_parse(""), Err(ParseError::MissingNewline)));
    assert!(GuiMessageStream::try_parse("stop\n").is_ok());
}

#[test]
fn stream_first_message_is_parse_result() {
    let input = "go depth 2\nstop\n";
    let mut s = GuiMessageStream::new(input);
    assert_eq!(Ok(s.next().unwrap()), GuiMessage::parse(input));
}

fn collect_gui(input: &str) -> Vec<GuiMessage> {
    let mut s = GuiMessageStream::new(input);
    let mut out = Vec::new();
    while let Some(m) = s.next() {
        out.push(m);
    }
    out
}

#[test]
fn stream_of_concatenation_is_concatenation_of_streams() {
    let a = "usi\n  foo bar\n";
    let b = "\nisready\ngo depth 1\n";
    let mut both = collect_gui(a);
    both.extend(collect_gui(b));
    assert_eq!(collect_gui(&format!("{}{}", a, b)), both);
}

#[test]
fn single_line_parses_as_its_message() {
    assert_eq!(GuiMessage::parse("  position startpos \n"), Ok(GuiMessage::Position { sfen: None, moves: None }));
    assert_eq!(GuiMessage::parse("\tyo  yo\t\n"), Ok(GuiMessage::Unknown("yo  yo".to_string())));
}

#[test]
fn stream_message_k_is_parse_of_line_k() {
    let lines = ["usi\n", "yo\n", "go depth 2\n", "bestmove 7g7f\n", "quit\n"];
    let input: String = lines.concat();
    let mut s = GuiMessageStream::new(&input);
    for l in lines {
        assert_eq!(Ok(s.next().unwrap()), GuiMessage::parse(l));
    }
    assert_eq!(s.next(), None);
    let first = lines.iter().map(|l| GuiMessage::parse(l).unwrap()).find(|m| !matches!(m, GuiMessage::Unknown(_)));
    assert_eq!(GuiMessage::parse_first_valid(&input), first);
}
