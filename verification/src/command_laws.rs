//! Properties of single commands, stated over the words of a line.
use crate::engine::{BestMoveParams, EngineMessageView, IdParamsView, InfoParamView, OptionParamView, ScoreBound};
use crate::grammar::{
    cmd_at, engine_cmd_at, engine_line, find_word, go_param, go_params, gui_cmd_at, is_move_text,
    move_run, gui_line, info_param, info_params, line_tokens, scan,
    CommandView,
};
use crate::gui::{empty_params, EngineParamsView, GuiMessageView, MateParam};
use crate::outside::{duration_of_millis, usi_move_of};
use crate::text::{eq_ignore_case, i32_tok, is_digit, nat_tok, text, u16_tok, u32_tok, u64_tok, word};
use vstd::prelude::*;

verus! {

/// The words of a line, in order.
pub open spec fn line_words(l: Seq<char>) -> Seq<Seq<char>> {
    Seq::new(line_tokens(l).len(), |j: int| word(l, line_tokens(l), j))
}

/// The bound of a centipawn score is the one that its bound word names:
/// `info score cp <n> upperbound` reports an upper bound, `lowerbound` a
/// lower bound, and a score with no bound word an exact one.
pub proof fn law_score_cp_bound(l: Seq<char>, x: Seq<char>, n: i32)
    requires
        i32_tok(x) == Some(n),
    ensures
        line_words(l) == seq!["info"@, "score"@, "cp"@, x, "upperbound"@] ==> engine_line(l)
            == EngineMessageView::Info(seq![InfoParamView::ScoreCp(n, ScoreBound::Upper)]),
        line_words(l) == seq!["info"@, "score"@, "cp"@, x, "lowerbound"@] ==> engine_line(l)
            == EngineMessageView::Info(seq![InfoParamView::ScoreCp(n, ScoreBound::Lower)]),
        line_words(l) == seq!["info"@, "score"@, "cp"@, x] ==> engine_line(l)
            == EngineMessageView::Info(seq![InfoParamView::ScoreCp(n, ScoreBound::Exact)]),
{
    let ts = line_tokens(l);
    let ws = line_words(l);
    if ws.len() >= 4 && ws[0] == "info"@ && ws[1] == "score"@ && ws[2] == "cp"@ && ws[3] == x {
        lemma_keywords();
        assert(word(l, ts, 0) == ws[0]);
        assert(word(l, ts, 1) == ws[1]);
        assert(word(l, ts, 2) == ws[2]);
        assert(word(l, ts, 3) == ws[3]);
        assert(crate::grammar::i32_at(l, ts, 3) == Some(n));
        if ws.len() == 5 {
            assert(word(l, ts, 4) == ws[4]);
            if ws[4] == "upperbound"@ {
                assert(info_param(l, ts, 1) == Some((InfoParamView::ScoreCp(n, ScoreBound::Upper), 5int)));
                lemma_info_one(l, InfoParamView::ScoreCp(n, ScoreBound::Upper));
            } else if ws[4] == "lowerbound"@ {
                assert(info_param(l, ts, 1) == Some((InfoParamView::ScoreCp(n, ScoreBound::Lower), 5int)));
                lemma_info_one(l, InfoParamView::ScoreCp(n, ScoreBound::Lower));
            }
        } else if ws.len() == 4 {
            assert(info_param(l, ts, 1) == Some((InfoParamView::ScoreCp(n, ScoreBound::Exact), 4int)));
            lemma_info_one(l, InfoParamView::ScoreCp(n, ScoreBound::Exact));
        }
    }
}

/// The bound of a mate score is the one that its bound word names, as for a
/// centipawn score; `+` and `-` stand for a mate of unknown length for the
/// engine and for its opponent.
pub proof fn law_score_mate_bound(l: Seq<char>, x: Seq<char>, n: i32)
    requires
        i32_tok(x) == Some(n),
    ensures
        line_words(l) == seq!["info"@, "score"@, "mate"@, x, "upperbound"@] ==> engine_line(l)
            == EngineMessageView::Info(seq![InfoParamView::ScoreMate(Some(n), ScoreBound::Upper)]),
        line_words(l) == seq!["info"@, "score"@, "mate"@, x, "lowerbound"@] ==> engine_line(l)
            == EngineMessageView::Info(seq![InfoParamView::ScoreMate(Some(n), ScoreBound::Lower)]),
        line_words(l) == seq!["info"@, "score"@, "mate"@, x] ==> engine_line(l)
            == EngineMessageView::Info(seq![InfoParamView::ScoreMate(Some(n), ScoreBound::Exact)]),
        line_words(l) == seq!["info"@, "score"@, "mate"@, "+"@] ==> engine_line(l)
            == EngineMessageView::Info(seq![InfoParamView::ScoreMate(None, ScoreBound::MatePlus)]),
        line_words(l) == seq!["info"@, "score"@, "mate"@, "-"@] ==> engine_line(l)
            == EngineMessageView::Info(seq![InfoParamView::ScoreMate(None, ScoreBound::MateMin)]),
{
    let ts = line_tokens(l);
    let ws = line_words(l);
    if ws.len() >= 4 && ws[0] == "info"@ && ws[1] == "score"@ && ws[2] == "mate"@ {
        lemma_keywords();
        assert(word(l, ts, 0) == ws[0]);
        assert(word(l, ts, 1) == ws[1]);
        assert(word(l, ts, 2) == ws[2]);
        assert(word(l, ts, 3) == ws[3]);
        if ws[3] == x {
            assert(x != "+"@ && x != "-"@) by {
                if x == "+"@ || x == "-"@ {
                    assert(x.drop_first().len() == 0);
                }
            }
            if ws.len() == 5 {
                assert(word(l, ts, 4) == ws[4]);
                if ws[4] == "upperbound"@ {
                    assert(info_param(l, ts, 1) == Some((InfoParamView::ScoreMate(Some(n), ScoreBound::Upper), 5int)));
                    lemma_info_one(l, InfoParamView::ScoreMate(Some(n), ScoreBound::Upper));
                } else if ws[4] == "lowerbound"@ {
                    assert(info_param(l, ts, 1) == Some((InfoParamView::ScoreMate(Some(n), ScoreBound::Lower), 5int)));
                    lemma_info_one(l, InfoParamView::ScoreMate(Some(n), ScoreBound::Lower));
                }
            } else if ws.len() == 4 {
                assert(info_param(l, ts, 1) == Some((InfoParamView::ScoreMate(Some(n), ScoreBound::Exact), 4int)));
                lemma_info_one(l, InfoParamView::ScoreMate(Some(n), ScoreBound::Exact));
            }
        }
        if ws.len() == 4 && ws[3] == "+"@ {
            assert(info_param(l, ts, 1) == Some((InfoParamView::ScoreMate(None, ScoreBound::MatePlus), 4int)));
            lemma_info_one(l, InfoParamView::ScoreMate(None, ScoreBound::MatePlus));
        }
        if ws.len() == 4 && ws[3] == "-"@ {
            assert(info_param(l, ts, 1) == Some((InfoParamView::ScoreMate(None, ScoreBound::MateMin), 4int)));
            lemma_info_one(l, InfoParamView::ScoreMate(None, ScoreBound::MateMin));
        }
    }
}

/// Every move of a piece on the board, `<file><rank><file><rank>` with files
/// `1`-`9` and ranks `a`-`i`, with or without a trailing `+`, is a move:
/// `bestmove` with it reads as that move, with no ponder move.
pub proof fn law_bestmove_board_move(l: Seq<char>, f1: char, r1: char, f2: char, r2: char, promote: bool)
    requires
        '1' <= f1 <= '9',
        'a' <= r1 <= 'i',
        '1' <= f2 <= '9',
        'a' <= r2 <= 'i',
    ensures
        ({
            let m = if promote { seq![f1, r1, f2, r2, '+'] } else { seq![f1, r1, f2, r2] };
            line_words(l) == seq!["bestmove"@, m] ==> engine_line(l) == EngineMessageView::BestMove(
                BestMoveParams::BestMove { bestmove: usi_move_of(m), ponder: None },
            )
        }),
{
    let ts = line_tokens(l);
    let ws = line_words(l);
    let m = if promote { seq![f1, r1, f2, r2, '+'] } else { seq![f1, r1, f2, r2] };
    if ws == seq!["bestmove"@, m] {
        assert(ws.len() == 2);
        assert(ts.len() == 2);
        lemma_keywords();
        assert(word(l, ts, 0) == ws[0]);
        assert(word(l, ts, 1) == ws[1]);
        assert(word(l, ts, 1) == m);
        assert(m[0] == f1 && m[1] == r1 && m[2] == f2 && m[3] == r2);
        assert(promote ==> m.len() == 5 && m[4] == '+');
        assert(!promote ==> m.len() == 4);
        lemma_engine_first(
            l,
            EngineMessageView::BestMove(
                BestMoveParams::BestMove { bestmove: usi_move_of(m), ponder: None },
            ),
        );
    }
}

/// `id name <x>` and `id author <x>` hold all the text of the line from the
/// third word to the end of the last one, separators between words kept.
pub proof fn law_id_holds_rest_of_line(l: Seq<char>)
    requires
        line_words(l).len() >= 3,
        line_words(l)[0] == "id"@,
    ensures
        line_words(l)[1] == "author"@ ==> engine_line(l) == EngineMessageView::Id(
            IdParamsView::Author(l.subrange(line_tokens(l)[2].0 as int, line_tokens(l).last().1 as int)),
        ),
        line_words(l)[1] == "name"@ ==> engine_line(l) == EngineMessageView::Id(
            IdParamsView::Name(l.subrange(line_tokens(l)[2].0 as int, line_tokens(l).last().1 as int)),
        ),
{
    let ts = line_tokens(l);
    let ws = line_words(l);
    lemma_keywords();
    assert(word(l, ts, 0) == ws[0]);
    assert(word(l, ts, 1) == ws[1]);
    assert(ts.last() == ts[ts.len() - 1]);
    if ws[1] == "author"@ {
        lemma_engine_first(
            l,
            EngineMessageView::Id(
                IdParamsView::Author(l.subrange(ts[2].0 as int, ts.last().1 as int)),
            ),
        );
    } else if ws[1] == "name"@ {
        lemma_engine_first(
            l,
            EngineMessageView::Id(
                IdParamsView::Name(l.subrange(ts[2].0 as int, ts.last().1 as int)),
            ),
        );
    }
}

/// Every drop of a piece that can be dropped, `<P|L|N|S|G|B|R>*<file><rank>`
/// with a file `1`-`9` and a rank `a`-`i`, is a move: `bestmove` with it reads
/// as that move, with no ponder move.
pub proof fn law_bestmove_drop(l: Seq<char>, c: char, f: char, r: char)
    requires
        c == 'P' || c == 'L' || c == 'N' || c == 'S' || c == 'G' || c == 'B' || c == 'R',
        '1' <= f <= '9',
        'a' <= r <= 'i',
    ensures
        line_words(l) == seq!["bestmove"@, seq![c, '*', f, r]] ==> engine_line(l)
            == EngineMessageView::BestMove(
            BestMoveParams::BestMove { bestmove: usi_move_of(seq![c, '*', f, r]), ponder: None },
        ),
{
    let ts = line_tokens(l);
    let ws = line_words(l);
    let m = seq![c, '*', f, r];
    if ws == seq!["bestmove"@, m] {
        assert(ws.len() == 2);
        assert(ts.len() == 2);
        lemma_keywords();
        assert(word(l, ts, 0) == ws[0]);
        assert(word(l, ts, 1) == ws[1]);
        assert(word(l, ts, 1) == m);
        assert(m.len() == 4 && m[0] == c && m[1] == '*' && m[2] == f && m[3] == r);
        lemma_engine_first(
            l,
            EngineMessageView::BestMove(
                BestMoveParams::BestMove { bestmove: usi_move_of(m), ponder: None },
            ),
        );
    }
}

/// The default of a filename option, like that of a string option, is its
/// word, where `<empty>` in any case stands for the empty string; the name is
/// the word between `name` and `type`.
pub proof fn law_filename_default(l: Seq<char>, nm: Seq<char>, x: Seq<char>)
    requires
        nm != "type"@,
    ensures
        line_words(l) == seq!["option"@, "name"@, nm, "type"@, "filename"@, "default"@, x]
            ==> engine_line(l) == EngineMessageView::Option(
            OptionParamView::Filename {
                name: nm,
                default: Some(if eq_ignore_case(x, "<empty>"@) { Seq::empty() } else { x }),
            },
        ),
        line_words(l) == seq!["option"@, "name"@, nm, "type"@, "string"@, "default"@, x]
            ==> engine_line(l) == EngineMessageView::Option(
            OptionParamView::String {
                name: nm,
                default: Some(if eq_ignore_case(x, "<empty>"@) { Seq::empty() } else { x }),
            },
        ),
        line_words(l) == seq!["option"@, "name"@, nm, "type"@, "filename"@] ==> engine_line(l)
            == EngineMessageView::Option(OptionParamView::Filename { name: nm, default: None }),
{
    let ts = line_tokens(l);
    let ws = line_words(l);
    let d: Seq<char> = if eq_ignore_case(x, "<empty>"@) { Seq::empty() } else { x };
    if ws.len() == 7 && ws[0] == "option"@ && ws[1] == "name"@ && ws[2] == nm && ws[3] == "type"@
        && ws[5] == "default"@ && ws[6] == x {
        lemma_keywords();
        assert(word(l, ts, 0) == ws[0]);
        assert(word(l, ts, 1) == ws[1]);
        assert(word(l, ts, 2) == ws[2]);
        assert(word(l, ts, 3) == ws[3]);
        assert(word(l, ts, 4) == ws[4]);
        assert(word(l, ts, 5) == ws[5]);
        assert(word(l, ts, 6) == ws[6]);
        assert(find_word(l, ts, 3, "type"@) == 3);
        assert(find_word(l, ts, 2, "type"@) == 3);
        assert(text(l, ts, 2, 3) == nm);
        if ws[4] == "filename"@ {
            lemma_engine_first(
                l,
                EngineMessageView::Option(OptionParamView::Filename { name: nm, default: Some(d) }),
            );
        } else if ws[4] == "string"@ {
            lemma_engine_first(
                l,
                EngineMessageView::Option(OptionParamView::String { name: nm, default: Some(d) }),
            );
        }
    }
    if ws == seq!["option"@, "name"@, nm, "type"@, "filename"@] {
        assert(ws.len() == 5);
        lemma_keywords();
        assert(word(l, ts, 0) == ws[0]);
        assert(word(l, ts, 1) == ws[1]);
        assert(word(l, ts, 2) == ws[2]);
        assert(word(l, ts, 3) == ws[3]);
        assert(word(l, ts, 4) == ws[4]);
        assert(find_word(l, ts, 3, "type"@) == 3);
        assert(find_word(l, ts, 2, "type"@) == 3);
        assert(text(l, ts, 2, 3) == nm);
        lemma_engine_first(
            l,
            EngineMessageView::Option(OptionParamView::Filename { name: nm, default: None }),
        );
    }
}

/// After `go <params>`, `ponder` is set exactly when a `ponder` word was read,
/// and `infinite` exactly when an `infinite` word was read that is not the
/// argument of `mate` (as in `go mate infinite`). The line is taken to start
/// with its only `go`, so that the command read is the one of the whole line.
pub proof fn law_go_flags(l: Seq<char>)
    requires
        line_words(l).len() > 0,
        line_words(l)[0] == "go"@,
        forall|j: int| 0 < j < line_words(l).len() ==> line_words(l)[j] != "go"@,
    ensures
        gui_line(l) matches GuiMessageView::Go(p) ==> (p.ponder <==> exists|j: int|
            0 < j < line_words(l).len() && #[trigger] line_words(l)[j] == "ponder"@),
        gui_line(l) matches GuiMessageView::Go(p) ==> (p.infinite <==> exists|j: int|
            0 < j < line_words(l).len() && #[trigger] line_words(l)[j] == "infinite"@ && line_words(l)[j
                - 1] != "mate"@),
{
    let ts = line_tokens(l);
    let ws = line_words(l);
    let n = ts.len() as int;
    lemma_keywords();
    assert forall|j: int| 0 <= j < n implies #[trigger] word(l, ts, j) == ws[j] by {}
    if gui_line(l) is Go {
        let k = lemma_scan_go(l, ts, 0);
        assert(word(l, ts, k) == ws[k]);
        assert(k == 0);
        lemma_go_params_flags(l, ts, 1, empty_params());
        let p = gui_line(l)->Go_0;
        assert(go_params(l, ts, 1, empty_params()) == Some(p));
        if exists|j: int| 0 < j < n && #[trigger] ws[j] == "infinite"@ && ws[j - 1] != "mate"@ {
            let j = choose|j: int| 0 < j < n && #[trigger] ws[j] == "infinite"@ && ws[j - 1] != "mate"@;
            assert(word(l, ts, j) == "infinite"@ && !(j > 1 && word(l, ts, j - 1) == "mate"@));
        }
        if exists|j: int| 1 <= j < n && #[trigger] word(l, ts, j) == "infinite"@ && !(j > 1 && word(l, ts, j - 1) == "mate"@) {
            let j = choose|j: int| 1 <= j < n && #[trigger] word(l, ts, j) == "infinite"@ && !(j > 1 && word(l, ts, j - 1) == "mate"@);
            assert(ws[j] == "infinite"@ && ws[j - 1] != "mate"@);
        }
        if exists|j: int| 0 < j < n && #[trigger] ws[j] == "ponder"@ {
            let j = choose|j: int| 0 < j < n && #[trigger] ws[j] == "ponder"@;
            assert(word(l, ts, j) == "ponder"@);
        }
        if exists|j: int| 1 <= j < n && #[trigger] word(l, ts, j) == "ponder"@ {
            let j = choose|j: int| 1 <= j < n && #[trigger] word(l, ts, j) == "ponder"@;
            assert(ws[j] == "ponder"@);
        }
    }
}

/// A `go` message read from a line comes from a `go` word at the token where
/// the scan stops.
proof fn lemma_scan_go(l: Seq<char>, ts: Seq<(usize, usize)>, k: int) -> (r: int)
    requires
        0 <= k,
        scan(l, ts, k) matches Some(CommandView::Gui(g)) && g is Go,
    ensures
        k <= r < ts.len(),
        word(l, ts, r) == "go"@,
        gui_cmd_at(l, ts, r) == Some(GuiMessageView::Go(go_params(l, ts, r + 1, empty_params())->0)),
        go_params(l, ts, r + 1, empty_params()) is Some,
        scan(l, ts, k) == Some(CommandView::Gui(GuiMessageView::Go(go_params(l, ts, r + 1, empty_params())->0))),
    decreases ts.len() - k,
{
    lemma_keywords();
    if cmd_at(l, ts, k) is Some {
        k
    } else {
        lemma_scan_go(l, ts, k + 1)
    }
}

/// Each time parameter of `go` sets its own field and no other: `go` with one
/// of them reads as the parameters of `EngineParams::new()` with that one
/// field set to the duration of the given milliseconds.
pub proof fn law_go_time_param(l: Seq<char>, x: Seq<char>)
    ensures
        line_words(l) == seq!["go"@, "btime"@, x] && u64_tok(x) is Some ==> gui_line(l) == GuiMessageView::Go(
            EngineParamsView { btime: Some(duration_of_millis(u64_tok(x)->0)), ..empty_params() },
        ),
        line_words(l) == seq!["go"@, "wtime"@, x] && u64_tok(x) is Some ==> gui_line(l) == GuiMessageView::Go(
            EngineParamsView { wtime: Some(duration_of_millis(u64_tok(x)->0)), ..empty_params() },
        ),
        line_words(l) == seq!["go"@, "binc"@, x] && u64_tok(x) is Some ==> gui_line(l) == GuiMessageView::Go(
            EngineParamsView { binc: Some(duration_of_millis(u64_tok(x)->0)), ..empty_params() },
        ),
        line_words(l) == seq!["go"@, "winc"@, x] && u64_tok(x) is Some ==> gui_line(l) == GuiMessageView::Go(
            EngineParamsView { winc: Some(duration_of_millis(u64_tok(x)->0)), ..empty_params() },
        ),
        line_words(l) == seq!["go"@, "byoyomi"@, x] && u64_tok(x) is Some ==> gui_line(l) == GuiMessageView::Go(
            EngineParamsView { byoyomi: Some(duration_of_millis(u64_tok(x)->0)), ..empty_params() },
        ),
        line_words(l) == seq!["go"@, "movetime"@, x] && u64_tok(x) is Some ==> gui_line(l) == GuiMessageView::Go(
            EngineParamsView { movetime: Some(duration_of_millis(u64_tok(x)->0)), ..empty_params() },
        ),
{
    if line_words(l) == seq!["go"@, "btime"@, x] && u64_tok(x) is Some {
        lemma_go_btime(l, x);
    }
    if line_words(l) == seq!["go"@, "wtime"@, x] && u64_tok(x) is Some {
        lemma_go_wtime(l, x);
    }
    if line_words(l) == seq!["go"@, "binc"@, x] && u64_tok(x) is Some {
        lemma_go_binc(l, x);
    }
    if line_words(l) == seq!["go"@, "winc"@, x] && u64_tok(x) is Some {
        lemma_go_winc(l, x);
    }
    if line_words(l) == seq!["go"@, "byoyomi"@, x] && u64_tok(x) is Some {
        lemma_go_byoyomi(l, x);
    }
    if line_words(l) == seq!["go"@, "movetime"@, x] && u64_tok(x) is Some {
        lemma_go_movetime(l, x);
    }
}

/// `movestogo`, `depth` and `nodes` each set their own field and no other.
pub proof fn law_go_count_param(l: Seq<char>, x: Seq<char>)
    ensures
        line_words(l) == seq!["go"@, "movestogo"@, x] && u16_tok(x) is Some ==> gui_line(l) == GuiMessageView::Go(
            EngineParamsView { movestogo: Some(u16_tok(x)->0), ..empty_params() },
        ),
        line_words(l) == seq!["go"@, "depth"@, x] && u16_tok(x) is Some ==> gui_line(l) == GuiMessageView::Go(
            EngineParamsView { depth: Some(u16_tok(x)->0), ..empty_params() },
        ),
        line_words(l) == seq!["go"@, "nodes"@, x] && u32_tok(x) is Some ==> gui_line(l) == GuiMessageView::Go(
            EngineParamsView { nodes: Some(u32_tok(x)->0), ..empty_params() },
        ),
{
    if line_words(l) == seq!["go"@, "movestogo"@, x] && u16_tok(x) is Some {
        lemma_go_movestogo(l, x);
    }
    if line_words(l) == seq!["go"@, "depth"@, x] && u16_tok(x) is Some {
        lemma_go_depth(l, x);
    }
    if line_words(l) == seq!["go"@, "nodes"@, x] && u32_tok(x) is Some {
        lemma_go_nodes(l, x);
    }
}

/// `mate`, `ponder` and `infinite` each set their own field and no other, and
/// `go` alone reads as the parameters of `EngineParams::new()`.
pub proof fn law_go_other_params(l: Seq<char>, x: Seq<char>)
    ensures
        line_words(l) == seq!["go"@, "mate"@, x] && u64_tok(x) is Some ==> gui_line(l) == GuiMessageView::Go(
            EngineParamsView { mate: Some(MateParam::Timeout(duration_of_millis(u64_tok(x)->0))), ..empty_params() },
        ),
        line_words(l) == seq!["go"@, "mate"@, "infinite"@] ==> gui_line(l) == GuiMessageView::Go(
            EngineParamsView { mate: Some(MateParam::Infinite), ..empty_params() },
        ),
        line_words(l) == seq!["go"@, "ponder"@] ==> gui_line(l) == GuiMessageView::Go(
            EngineParamsView { ponder: true, ..empty_params() },
        ),
        line_words(l) == seq!["go"@, "infinite"@] ==> gui_line(l) == GuiMessageView::Go(
            EngineParamsView { infinite: true, ..empty_params() },
        ),
        line_words(l) == seq!["go"@] ==> gui_line(l) == GuiMessageView::Go(
            empty_params(),
        ),
{
    if line_words(l) == seq!["go"@, "mate"@, x] && u64_tok(x) is Some {
        lemma_go_mate_time(l, x);
    }
    if line_words(l) == seq!["go"@, "mate"@, "infinite"@] {
        lemma_go_mate_infinite(l, x);
    }
    if line_words(l) == seq!["go"@, "ponder"@] {
        lemma_go_ponder(l, x);
    }
    if line_words(l) == seq!["go"@, "infinite"@] {
        lemma_go_infinite(l, x);
    }
    if line_words(l) == seq!["go"@] {
        lemma_go_alone(l, x);
    }
}

proof fn lemma_go_btime(l: Seq<char>, x: Seq<char>)
    requires
        line_words(l) == seq!["go"@, "btime"@, x],
        u64_tok(x) is Some,
    ensures
        gui_line(l) == GuiMessageView::Go(EngineParamsView { btime: Some(duration_of_millis(u64_tok(x)->0)), ..empty_params() }),
{
    let ts = line_tokens(l);
    let ws = line_words(l);
    let q = EngineParamsView { btime: Some(duration_of_millis(u64_tok(x)->0)), ..empty_params() };
    lemma_keywords();
    assert forall|j: int| 0 <= j < ts.len() implies #[trigger] word(l, ts, j) == ws[j] by {}
    assert(ws.len() == 3);
    assert(word(l, ts, 0) == "go"@);
    assert(word(l, ts, 1) == "btime"@);
    assert(word(l, ts, 2) == x);
    if ts.len() > 1 {
        assert(go_param(l, ts, 1, empty_params()) == Some((q, ts.len() as int)));
    }
    assert(go_params(l, ts, ts.len() as int, q) == Some(q));
    assert(go_params(l, ts, 1, empty_params()) == Some(q));
    lemma_go_line(l, q);
}

proof fn lemma_go_wtime(l: Seq<char>, x: Seq<char>)
    requires
        line_words(l) == seq!["go"@, "wtime"@, x],
        u64_tok(x) is Some,
    ensures
        gui_line(l) == GuiMessageView::Go(EngineParamsView { wtime: Some(duration_of_millis(u64_tok(x)->0)), ..empty_params() }),
{
    let ts = line_tokens(l);
    let ws = line_words(l);
    let q = EngineParamsView { wtime: Some(duration_of_millis(u64_tok(x)->0)), ..empty_params() };
    lemma_keywords();
    assert forall|j: int| 0 <= j < ts.len() implies #[trigger] word(l, ts, j) == ws[j] by {}
    assert(ws.len() == 3);
    assert(word(l, ts, 0) == "go"@);
    assert(word(l, ts, 1) == "wtime"@);
    assert(word(l, ts, 2) == x);
    if ts.len() > 1 {
        assert(go_param(l, ts, 1, empty_params()) == Some((q, ts.len() as int)));
    }
    assert(go_params(l, ts, ts.len() as int, q) == Some(q));
    assert(go_params(l, ts, 1, empty_params()) == Some(q));
    lemma_go_line(l, q);
}

proof fn lemma_go_binc(l: Seq<char>, x: Seq<char>)
    requires
        line_words(l) == seq!["go"@, "binc"@, x],
        u64_tok(x) is Some,
    ensures
        gui_line(l) == GuiMessageView::Go(EngineParamsView { binc: Some(duration_of_millis(u64_tok(x)->0)), ..empty_params() }),
{
    let ts = line_tokens(l);
    let ws = line_words(l);
    let q = EngineParamsView { binc: Some(duration_of_millis(u64_tok(x)->0)), ..empty_params() };
    lemma_keywords();
    assert forall|j: int| 0 <= j < ts.len() implies #[trigger] word(l, ts, j) == ws[j] by {}
    assert(ws.len() == 3);
    assert(word(l, ts, 0) == "go"@);
    assert(word(l, ts, 1) == "binc"@);
    assert(word(l, ts, 2) == x);
    if ts.len() > 1 {
        assert(go_param(l, ts, 1, empty_params()) == Some((q, ts.len() as int)));
    }
    assert(go_params(l, ts, ts.len() as int, q) == Some(q));
    assert(go_params(l, ts, 1, empty_params()) == Some(q));
    lemma_go_line(l, q);
}

proof fn lemma_go_winc(l: Seq<char>, x: Seq<char>)
    requires
        line_words(l) == seq!["go"@, "winc"@, x],
        u64_tok(x) is Some,
    ensures
        gui_line(l) == GuiMessageView::Go(EngineParamsView { winc: Some(duration_of_millis(u64_tok(x)->0)), ..empty_params() }),
{
    let ts = line_tokens(l);
    let ws = line_words(l);
    let q = EngineParamsView { winc: Some(duration_of_millis(u64_tok(x)->0)), ..empty_params() };
    lemma_keywords();
    assert forall|j: int| 0 <= j < ts.len() implies #[trigger] word(l, ts, j) == ws[j] by {}
    assert(ws.len() == 3);
    assert(word(l, ts, 0) == "go"@);
    assert(word(l, ts, 1) == "winc"@);
    assert(word(l, ts, 2) == x);
    if ts.len() > 1 {
        assert(go_param(l, ts, 1, empty_params()) == Some((q, ts.len() as int)));
    }
    assert(go_params(l, ts, ts.len() as int, q) == Some(q));
    assert(go_params(l, ts, 1, empty_params()) == Some(q));
    lemma_go_line(l, q);
}

proof fn lemma_go_byoyomi(l: Seq<char>, x: Seq<char>)
    requires
        line_words(l) == seq!["go"@, "byoyomi"@, x],
        u64_tok(x) is Some,
    ensures
        gui_line(l) == GuiMessageView::Go(EngineParamsView { byoyomi: Some(duration_of_millis(u64_tok(x)->0)), ..empty_params() }),
{
    let ts = line_tokens(l);
    let ws = line_words(l);
    let q = EngineParamsView { byoyomi: Some(duration_of_millis(u64_tok(x)->0)), ..empty_params() };
    lemma_keywords();
    assert forall|j: int| 0 <= j < ts.len() implies #[trigger] word(l, ts, j) == ws[j] by {}
    assert(ws.len() == 3);
    assert(word(l, ts, 0) == "go"@);
    assert(word(l, ts, 1) == "byoyomi"@);
    assert(word(l, ts, 2) == x);
    if ts.len() > 1 {
        assert(go_param(l, ts, 1, empty_params()) == Some((q, ts.len() as int)));
    }
    assert(go_params(l, ts, ts.len() as int, q) == Some(q));
    assert(go_params(l, ts, 1, empty_params()) == Some(q));
    lemma_go_line(l, q);
}

proof fn lemma_go_movetime(l: Seq<char>, x: Seq<char>)
    requires
        line_words(l) == seq!["go"@, "movetime"@, x],
        u64_tok(x) is Some,
    ensures
        gui_line(l) == GuiMessageView::Go(EngineParamsView { movetime: Some(duration_of_millis(u64_tok(x)->0)), ..empty_params() }),
{
    let ts = line_tokens(l);
    let ws = line_words(l);
    let q = EngineParamsView { movetime: Some(duration_of_millis(u64_tok(x)->0)), ..empty_params() };
    lemma_keywords();
    assert forall|j: int| 0 <= j < ts.len() implies #[trigger] word(l, ts, j) == ws[j] by {}
    assert(ws.len() == 3);
    assert(word(l, ts, 0) == "go"@);
    assert(word(l, ts, 1) == "movetime"@);
    assert(word(l, ts, 2) == x);
    if ts.len() > 1 {
        assert(go_param(l, ts, 1, empty_params()) == Some((q, ts.len() as int)));
    }
    assert(go_params(l, ts, ts.len() as int, q) == Some(q));
    assert(go_params(l, ts, 1, empty_params()) == Some(q));
    lemma_go_line(l, q);
}

proof fn lemma_go_movestogo(l: Seq<char>, x: Seq<char>)
    requires
        line_words(l) == seq!["go"@, "movestogo"@, x],
        u16_tok(x) is Some,
    ensures
        gui_line(l) == GuiMessageView::Go(EngineParamsView { movestogo: Some(u16_tok(x)->0), ..empty_params() }),
{
    let ts = line_tokens(l);
    let ws = line_words(l);
    let q = EngineParamsView { movestogo: Some(u16_tok(x)->0), ..empty_params() };
    lemma_keywords();
    assert forall|j: int| 0 <= j < ts.len() implies #[trigger] word(l, ts, j) == ws[j] by {}
    assert(ws.len() == 3);
    assert(word(l, ts, 0) == "go"@);
    assert(word(l, ts, 1) == "movestogo"@);
    assert(word(l, ts, 2) == x);
    if ts.len() > 1 {
        assert(go_param(l, ts, 1, empty_params()) == Some((q, ts.len() as int)));
    }
    assert(go_params(l, ts, ts.len() as int, q) == Some(q));
    assert(go_params(l, ts, 1, empty_params()) == Some(q));
    lemma_go_line(l, q);
}

proof fn lemma_go_depth(l: Seq<char>, x: Seq<char>)
    requires
        line_words(l) == seq!["go"@, "depth"@, x],
        u16_tok(x) is Some,
    ensures
        gui_line(l) == GuiMessageView::Go(EngineParamsView { depth: Some(u16_tok(x)->0), ..empty_params() }),
{
    let ts = line_tokens(l);
    let ws = line_words(l);
    let q = EngineParamsView { depth: Some(u16_tok(x)->0), ..empty_params() };
    lemma_keywords();
    assert forall|j: int| 0 <= j < ts.len() implies #[trigger] word(l, ts, j) == ws[j] by {}
    assert(ws.len() == 3);
    assert(word(l, ts, 0) == "go"@);
    assert(word(l, ts, 1) == "depth"@);
    assert(word(l, ts, 2) == x);
    if ts.len() > 1 {
        assert(go_param(l, ts, 1, empty_params()) == Some((q, ts.len() as int)));
    }
    assert(go_params(l, ts, ts.len() as int, q) == Some(q));
    assert(go_params(l, ts, 1, empty_params()) == Some(q));
    lemma_go_line(l, q);
}

proof fn lemma_go_nodes(l: Seq<char>, x: Seq<char>)
    requires
        line_words(l) == seq!["go"@, "nodes"@, x],
        u32_tok(x) is Some,
    ensures
        gui_line(l) == GuiMessageView::Go(EngineParamsView { nodes: Some(u32_tok(x)->0), ..empty_params() }),
{
    let ts = line_tokens(l);
    let ws = line_words(l);
    let q = EngineParamsView { nodes: Some(u32_tok(x)->0), ..empty_params() };
    lemma_keywords();
    assert forall|j: int| 0 <= j < ts.len() implies #[trigger] word(l, ts, j) == ws[j] by {}
    assert(ws.len() == 3);
    assert(word(l, ts, 0) == "go"@);
    assert(word(l, ts, 1) == "nodes"@);
    assert(word(l, ts, 2) == x);
    if ts.len() > 1 {
        assert(go_param(l, ts, 1, empty_params()) == Some((q, ts.len() as int)));
    }
    assert(go_params(l, ts, ts.len() as int, q) == Some(q));
    assert(go_params(l, ts, 1, empty_params()) == Some(q));
    lemma_go_line(l, q);
}

proof fn lemma_go_mate_time(l: Seq<char>, x: Seq<char>)
    requires
        line_words(l) == seq!["go"@, "mate"@, x],
        u64_tok(x) is Some,
    ensures
        gui_line(l) == GuiMessageView::Go(EngineParamsView { mate: Some(MateParam::Timeout(duration_of_millis(u64_tok(x)->0))), ..empty_params() }),
{
    let ts = line_tokens(l);
    let ws = line_words(l);
    let q = EngineParamsView { mate: Some(MateParam::Timeout(duration_of_millis(u64_tok(x)->0))), ..empty_params() };
    lemma_keywords();
    assert forall|j: int| 0 <= j < ts.len() implies #[trigger] word(l, ts, j) == ws[j] by {}
    assert(ws.len() == 3);
    assert(word(l, ts, 0) == "go"@);
    assert(word(l, ts, 1) == "mate"@);
    assert(word(l, ts, 2) == x);
    if ts.len() > 1 {
        assert(go_param(l, ts, 1, empty_params()) == Some((q, ts.len() as int)));
    }
    assert(go_params(l, ts, ts.len() as int, q) == Some(q));
    assert(go_params(l, ts, 1, empty_params()) == Some(q));
    lemma_go_line(l, q);
}

proof fn lemma_go_mate_infinite(l: Seq<char>, x: Seq<char>)
    requires
        line_words(l) == seq!["go"@, "mate"@, "infinite"@],
    ensures
        gui_line(l) == GuiMessageView::Go(EngineParamsView { mate: Some(MateParam::Infinite), ..empty_params() }),
{
    let ts = line_tokens(l);
    let ws = line_words(l);
    let q = EngineParamsView { mate: Some(MateParam::Infinite), ..empty_params() };
    lemma_keywords();
    assert forall|j: int| 0 <= j < ts.len() implies #[trigger] word(l, ts, j) == ws[j] by {}
    assert(ws.len() == 3);
    assert(word(l, ts, 0) == "go"@);
    assert(word(l, ts, 1) == "mate"@);
    assert(word(l, ts, 2) == "infinite"@);
    if ts.len() > 1 {
        assert(go_param(l, ts, 1, empty_params()) == Some((q, ts.len() as int)));
    }
    assert(go_params(l, ts, ts.len() as int, q) == Some(q));
    assert(go_params(l, ts, 1, empty_params()) == Some(q));
    lemma_go_line(l, q);
}

proof fn lemma_go_ponder(l: Seq<char>, x: Seq<char>)
    requires
        line_words(l) == seq!["go"@, "ponder"@],
    ensures
        gui_line(l) == GuiMessageView::Go(EngineParamsView { ponder: true, ..empty_params() }),
{
    let ts = line_tokens(l);
    let ws = line_words(l);
    let q = EngineParamsView { ponder: true, ..empty_params() };
    lemma_keywords();
    assert forall|j: int| 0 <= j < ts.len() implies #[trigger] word(l, ts, j) == ws[j] by {}
    assert(ws.len() == 2);
    assert(word(l, ts, 0) == "go"@);
    assert(word(l, ts, 1) == "ponder"@);
    if ts.len() > 1 {
        assert(go_param(l, ts, 1, empty_params()) == Some((q, ts.len() as int)));
    }
    assert(go_params(l, ts, ts.len() as int, q) == Some(q));
    assert(go_params(l, ts, 1, empty_params()) == Some(q));
    lemma_go_line(l, q);
}

proof fn lemma_go_infinite(l: Seq<char>, x: Seq<char>)
    requires
        line_words(l) == seq!["go"@, "infinite"@],
    ensures
        gui_line(l) == GuiMessageView::Go(EngineParamsView { infinite: true, ..empty_params() }),
{
    let ts = line_tokens(l);
    let ws = line_words(l);
    let q = EngineParamsView { infinite: true, ..empty_params() };
    lemma_keywords();
    assert forall|j: int| 0 <= j < ts.len() implies #[trigger] word(l, ts, j) == ws[j] by {}
    assert(ws.len() == 2);
    assert(word(l, ts, 0) == "go"@);
    assert(word(l, ts, 1) == "infinite"@);
    if ts.len() > 1 {
        assert(go_param(l, ts, 1, empty_params()) == Some((q, ts.len() as int)));
    }
    assert(go_params(l, ts, ts.len() as int, q) == Some(q));
    assert(go_params(l, ts, 1, empty_params()) == Some(q));
    lemma_go_line(l, q);
}

proof fn lemma_go_alone(l: Seq<char>, x: Seq<char>)
    requires
        line_words(l) == seq!["go"@],
    ensures
        gui_line(l) == GuiMessageView::Go(empty_params()),
{
    let ts = line_tokens(l);
    let ws = line_words(l);
    let q = empty_params();
    lemma_keywords();
    assert forall|j: int| 0 <= j < ts.len() implies #[trigger] word(l, ts, j) == ws[j] by {}
    assert(ws.len() == 1);
    assert(word(l, ts, 0) == "go"@);
    if ts.len() > 1 {
        assert(go_param(l, ts, 1, empty_params()) == Some((q, ts.len() as int)));
    }
    assert(go_params(l, ts, ts.len() as int, q) == Some(q));
    assert(go_params(l, ts, 1, empty_params()) == Some(q));
    lemma_go_line(l, q);
}

/// A line whose first word is `go` and whose parameters read as `q` reads as
/// `go` with `q`.
proof fn lemma_go_line(l: Seq<char>, q: EngineParamsView)
    requires
        line_tokens(l).len() > 0,
        word(l, line_tokens(l), 0) == "go"@,
        go_params(l, line_tokens(l), 1, empty_params()) == Some(q),
    ensures
        gui_line(l) == GuiMessageView::Go(q),
{
    lemma_keywords();
    let ts = line_tokens(l);
    assert(gui_cmd_at(l, ts, 0) == Some(GuiMessageView::Go(q)));
    assert(cmd_at(l, ts, 0) == Some(CommandView::Gui(GuiMessageView::Go(q))));
}

/// Reading `go` parameters from token `i` sets `ponder` exactly when one of
/// the words read is `ponder`, and `infinite` exactly when one of them is
/// `infinite` and not the argument of `mate`.
proof fn lemma_go_params_flags(s: Seq<char>, ts: Seq<(usize, usize)>, i: int, p: EngineParamsView)
    requires
        0 <= i <= ts.len(),
    ensures
        go_params(s, ts, i, p) matches Some(q) ==> (q.ponder <==> (p.ponder || exists|j: int|
            i <= j < ts.len() && #[trigger] word(s, ts, j) == "ponder"@)),
        go_params(s, ts, i, p) matches Some(q) ==> (q.infinite <==> (p.infinite || exists|j: int|
            i <= j < ts.len() && #[trigger] word(s, ts, j) == "infinite"@ && !(j > i && word(s, ts, j - 1)
                == "mate"@))),
    decreases ts.len() - i,
{
    let n = ts.len() as int;
    if i < n {
        lemma_go_step(s, ts, i, p);
        if let Some((q1, j1)) = go_param(s, ts, i, p) {
            if i < j1 <= n {
                lemma_go_params_flags(s, ts, j1, q1);
                if go_params(s, ts, i, p) is Some {
                    let q = go_params(s, ts, i, p)->0;
                    assert(go_params(s, ts, j1, q1) == Some(q));
                    // ponder
                    if exists|j: int| i <= j < n && #[trigger] word(s, ts, j) == "ponder"@ {
                        let j = choose|j: int| i <= j < n && #[trigger] word(s, ts, j) == "ponder"@;
                        if j >= j1 {
                            assert(j1 <= j < n && word(s, ts, j) == "ponder"@);
                        }
                    }
                    if exists|j: int| j1 <= j < n && #[trigger] word(s, ts, j) == "ponder"@ {
                        let j = choose|j: int| j1 <= j < n && #[trigger] word(s, ts, j) == "ponder"@;
                        assert(i <= j < n && word(s, ts, j) == "ponder"@);
                    }
                    // infinite
                    if exists|j: int| i <= j < n && #[trigger] word(s, ts, j) == "infinite"@ && !(j > i && word(s, ts, j - 1) == "mate"@) {
                        let j = choose|j: int| i <= j < n && #[trigger] word(s, ts, j) == "infinite"@ && !(j > i && word(s, ts, j - 1) == "mate"@);
                        if j >= j1 {
                            assert(j1 <= j < n && word(s, ts, j) == "infinite"@ && !(j > j1 && word(s, ts, j - 1) == "mate"@));
                        }
                    }
                    if exists|j: int| j1 <= j < n && #[trigger] word(s, ts, j) == "infinite"@ && !(j > j1 && word(s, ts, j - 1) == "mate"@) {
                        let j = choose|j: int| j1 <= j < n && #[trigger] word(s, ts, j) == "infinite"@ && !(j > j1 && word(s, ts, j - 1) == "mate"@);
                        assert(i <= j < n && word(s, ts, j) == "infinite"@ && !(j > i && word(s, ts, j - 1) == "mate"@));
                    }
                }
            }
        }
    }
}

/// What one `go` parameter does to the two flags, and which words it reads.
proof fn lemma_go_step(s: Seq<char>, ts: Seq<(usize, usize)>, i: int, p: EngineParamsView)
    requires
        0 <= i < ts.len(),
    ensures
        go_param(s, ts, i, p) matches Some((q, j)) ==> i < j <= ts.len() ==> {
            &&& q.ponder == (p.ponder || word(s, ts, i) == "ponder"@)
            &&& q.infinite == (p.infinite || word(s, ts, i) == "infinite"@)
            &&& forall|t: int| i < t < j ==> #[trigger] word(s, ts, t) != "ponder"@ && (word(s, ts, t) == "infinite"@ ==> t == i + 1 && word(s, ts, i) == "mate"@)
            &&& word(s, ts, j - 1) != "mate"@
        },
{
    lemma_keywords();
    lemma_flag_words();
    let w = word(s, ts, i);
    if w == "searchmoves"@ {
        lemma_move_run(s, ts, i + 1);
    } else if i + 1 < ts.len() {
        let a = word(s, ts, i + 1);
        if nat_tok(a, u64::MAX as nat) is Some || nat_tok(a, u16::MAX as nat) is Some || nat_tok(a, u32::MAX as nat) is Some {
            lemma_digits_no_flag(a);
        }
    }
}

/// The tokens of a run of moves are moves.
proof fn lemma_move_run(s: Seq<char>, ts: Seq<(usize, usize)>, i: int)
    ensures
        forall|t: int| i <= t < move_run(s, ts, i) ==> is_move_text(#[trigger] word(s, ts, t)),
        i <= move_run(s, ts, i),
    decreases ts.len() - i,
{
    if i < ts.len() && is_move_text(word(s, ts, i)) {
        lemma_move_run(s, ts, i + 1);
    }
}

/// `ponder`, `infinite` and `mate` are no moves.
proof fn lemma_flag_words()
    ensures
        !is_move_text("ponder"@),
        !is_move_text("infinite"@),
        !is_move_text("mate"@),
        "ponder"@[0] == 'p',
        "infinite"@[0] == 'i',
        "mate"@[0] == 'm',
        "ponder"@.len() > 0,
        "infinite"@.len() > 0,
        "mate"@.len() > 0,
{
    reveal_strlit("ponder");
    reveal_strlit("infinite");
    reveal_strlit("mate");
}

/// A number is none of `ponder`, `infinite` and `mate`.
proof fn lemma_digits_no_flag(a: Seq<char>)
    requires
        nat_tok(a, u64::MAX as nat) is Some || nat_tok(a, u16::MAX as nat) is Some || nat_tok(a, u32::MAX as nat) is Some,
    ensures
        a != "ponder"@,
        a != "infinite"@,
        a != "mate"@,
{
    lemma_flag_words();
    assert(is_digit(a[0]));
}

/// The length of each keyword of the grammar, and as many of its first
/// characters as tell it from the other keywords of that length.
pub proof fn lemma_keywords()
    ensures
        "+"@.len() == 1 && "+"@[0] == '+',
        "-"@.len() == 1 && "-"@[0] == '-',
        "<empty>"@.len() == 7 && "<empty>"@[0] == '<',
        "author"@.len() == 6 && "author"@[0] == 'a',
        "bestmove"@.len() == 8 && "bestmove"@[0] == 'b',
        "binc"@.len() == 4 && "binc"@[0] == 'b',
        "btime"@.len() == 5 && "btime"@[0] == 'b',
        "button"@.len() == 6 && "button"@[0] == 'b',
        "byoyomi"@.len() == 7 && "byoyomi"@[0] == 'b',
        "check"@.len() == 5 && "check"@[0] == 'c' && "check"@[1] == 'h',
        "checking"@.len() == 8 && "checking"@[0] == 'c' && "checking"@[1] == 'h',
        "code"@.len() == 4 && "code"@[0] == 'c',
        "combo"@.len() == 5 && "combo"@[0] == 'c' && "combo"@[1] == 'o',
        "copyprotection"@.len() == 14 && "copyprotection"@[0] == 'c' && "copyprotection"@[1] == 'o',
        "cp"@.len() == 2 && "cp"@[0] == 'c',
        "cpuload"@.len() == 7 && "cpuload"@[0] == 'c',
        "currline"@.len() == 8 && "currline"@[0] == 'c' && "currline"@[1] == 'u' && "currline"@[2] == 'r' && "currline"@[3] == 'r' && "currline"@[4] == 'l',
        "currmove"@.len() == 8 && "currmove"@[0] == 'c' && "currmove"@[1] == 'u' && "currmove"@[2] == 'r' && "currmove"@[3] == 'r' && "currmove"@[4] == 'm',
        "currmovenumber"@.len() == 14 && "currmovenumber"@[0] == 'c' && "currmovenumber"@[1] == 'u',
        "debug"@.len() == 5 && "debug"@[0] == 'd' && "debug"@[1] == 'e' && "debug"@[2] == 'b',
        "default"@.len() == 7 && "default"@[0] == 'd',
        "depth"@.len() == 5 && "depth"@[0] == 'd' && "depth"@[1] == 'e' && "depth"@[2] == 'p',
        "draw"@.len() == 4 && "draw"@[0] == 'd',
        "error"@.len() == 5 && "error"@[0] == 'e',
        "false"@.len() == 5 && "false"@[0] == 'f',
        "filename"@.len() == 8 && "filename"@[0] == 'f',
        "gameover"@.len() == 8 && "gameover"@[0] == 'g',
        "go"@.len() == 2 && "go"@[0] == 'g',
        "hashfull"@.len() == 8 && "hashfull"@[0] == 'h',
        "id"@.len() == 2 && "id"@[0] == 'i',
        "infinite"@.len() == 8 && "infinite"@[0] == 'i',
        "info"@.len() == 4 && "info"@[0] == 'i',
        "isready"@.len() == 7 && "isready"@[0] == 'i',
        "later"@.len() == 5 && "later"@[0] == 'l',
        "lose"@.len() == 4 && "lose"@[0] == 'l',
        "lowerbound"@.len() == 10 && "lowerbound"@[0] == 'l',
        "mate"@.len() == 4 && "mate"@[0] == 'm',
        "max"@.len() == 3 && "max"@[0] == 'm' && "max"@[1] == 'a',
        "min"@.len() == 3 && "min"@[0] == 'm' && "min"@[1] == 'i',
        "moves"@.len() == 5 && "moves"@[0] == 'm',
        "movestogo"@.len() == 9 && "movestogo"@[0] == 'm',
        "movetime"@.len() == 8 && "movetime"@[0] == 'm',
        "multipv"@.len() == 7 && "multipv"@[0] == 'm',
        "name"@.len() == 4 && "name"@[0] == 'n',
        "nodes"@.len() == 5 && "nodes"@[0] == 'n',
        "nps"@.len() == 3 && "nps"@[0] == 'n',
        "off"@.len() == 3 && "off"@[0] == 'o',
        "ok"@.len() == 2 && "ok"@[0] == 'o' && "ok"@[1] == 'k',
        "on"@.len() == 2 && "on"@[0] == 'o' && "on"@[1] == 'n',
        "option"@.len() == 6 && "option"@[0] == 'o',
        "ponder"@.len() == 6 && "ponder"@[0] == 'p',
        "ponderhit"@.len() == 9 && "ponderhit"@[0] == 'p',
        "position"@.len() == 8 && "position"@[0] == 'p',
        "pv"@.len() == 2 && "pv"@[0] == 'p',
        "quit"@.len() == 4 && "quit"@[0] == 'q',
        "readyok"@.len() == 7 && "readyok"@[0] == 'r',
        "refutation"@.len() == 10 && "refutation"@[0] == 'r',
        "register"@.len() == 8 && "register"@[0] == 'r',
        "registration"@.len() == 12,
        "resign"@.len() == 6 && "resign"@[0] == 'r',
        "score"@.len() == 5 && "score"@[0] == 's',
        "searchmoves"@.len() == 11,
        "seldepth"@.len() == 8 && "seldepth"@[0] == 's' && "seldepth"@[1] == 'e',
        "setoption"@.len() == 9 && "setoption"@[0] == 's',
        "sfen"@.len() == 4 && "sfen"@[0] == 's' && "sfen"@[1] == 'f',
        "spin"@.len() == 4 && "spin"@[0] == 's' && "spin"@[1] == 'p',
        "startpos"@.len() == 8 && "startpos"@[0] == 's' && "startpos"@[1] == 't',
        "stop"@.len() == 4 && "stop"@[0] == 's' && "stop"@[1] == 't',
        "string"@.len() == 6 && "string"@[0] == 's',
        "time"@.len() == 4 && "time"@[0] == 't' && "time"@[1] == 'i',
        "true"@.len() == 4 && "true"@[0] == 't' && "true"@[1] == 'r',
        "type"@.len() == 4 && "type"@[0] == 't' && "type"@[1] == 'y',
        "upperbound"@.len() == 10 && "upperbound"@[0] == 'u' && "upperbound"@[1] == 'p',
        "usi"@.len() == 3 && "usi"@[0] == 'u',
        "usinewgame"@.len() == 10 && "usinewgame"@[0] == 'u' && "usinewgame"@[1] == 's',
        "usiok"@.len() == 5 && "usiok"@[0] == 'u',
        "value"@.len() == 5 && "value"@[0] == 'v',
        "var"@.len() == 3 && "var"@[0] == 'v',
        "win"@.len() == 3 && "win"@[0] == 'w',
        "winc"@.len() == 4 && "winc"@[0] == 'w',
        "wtime"@.len() == 5 && "wtime"@[0] == 'w',
{
    reveal_strlit("+");
    reveal_strlit("-");
    reveal_strlit("<empty>");
    reveal_strlit("author");
    reveal_strlit("bestmove");
    reveal_strlit("binc");
    reveal_strlit("btime");
    reveal_strlit("button");
    reveal_strlit("byoyomi");
    reveal_strlit("check");
    reveal_strlit("checking");
    reveal_strlit("code");
    reveal_strlit("combo");
    reveal_strlit("copyprotection");
    reveal_strlit("cp");
    reveal_strlit("cpuload");
    reveal_strlit("currline");
    reveal_strlit("currmove");
    reveal_strlit("currmovenumber");
    reveal_strlit("debug");
    reveal_strlit("default");
    reveal_strlit("depth");
    reveal_strlit("draw");
    reveal_strlit("error");
    reveal_strlit("false");
    reveal_strlit("filename");
    reveal_strlit("gameover");
    reveal_strlit("go");
    reveal_strlit("hashfull");
    reveal_strlit("id");
    reveal_strlit("infinite");
    reveal_strlit("info");
    reveal_strlit("isready");
    reveal_strlit("later");
    reveal_strlit("lose");
    reveal_strlit("lowerbound");
    reveal_strlit("mate");
    reveal_strlit("max");
    reveal_strlit("min");
    reveal_strlit("moves");
    reveal_strlit("movestogo");
    reveal_strlit("movetime");
    reveal_strlit("multipv");
    reveal_strlit("name");
    reveal_strlit("nodes");
    reveal_strlit("nps");
    reveal_strlit("off");
    reveal_strlit("ok");
    reveal_strlit("on");
    reveal_strlit("option");
    reveal_strlit("ponder");
    reveal_strlit("ponderhit");
    reveal_strlit("position");
    reveal_strlit("pv");
    reveal_strlit("quit");
    reveal_strlit("readyok");
    reveal_strlit("refutation");
    reveal_strlit("register");
    reveal_strlit("registration");
    reveal_strlit("resign");
    reveal_strlit("score");
    reveal_strlit("searchmoves");
    reveal_strlit("seldepth");
    reveal_strlit("setoption");
    reveal_strlit("sfen");
    reveal_strlit("spin");
    reveal_strlit("startpos");
    reveal_strlit("stop");
    reveal_strlit("string");
    reveal_strlit("time");
    reveal_strlit("true");
    reveal_strlit("type");
    reveal_strlit("upperbound");
    reveal_strlit("usi");
    reveal_strlit("usinewgame");
    reveal_strlit("usiok");
    reveal_strlit("value");
    reveal_strlit("var");
    reveal_strlit("win");
    reveal_strlit("winc");
    reveal_strlit("wtime");
}

/// A line whose first word is a command keyword of the engine only, and whose
/// command matches from there, reads as that command.
proof fn lemma_engine_first(l: Seq<char>, e: EngineMessageView)
    requires
        line_tokens(l).len() > 0,
        gui_cmd_at(l, line_tokens(l), 0) is None,
        engine_cmd_at(l, line_tokens(l), 0) == Some(e),
    ensures
        engine_line(l) == e,
{
    let ts = line_tokens(l);
    assert(cmd_at(l, ts, 0) == Some(CommandView::Engine(e)));
    assert(scan(l, ts, 0) == Some(CommandView::Engine(e)));
}

/// `info` followed by one item that spans the rest of the line.
proof fn lemma_info_one(l: Seq<char>, p: InfoParamView)
    requires
        line_tokens(l).len() >= 2,
        word(l, line_tokens(l), 0) == "info"@,
        info_param(l, line_tokens(l), 1) == Some((p, line_tokens(l).len() as int)),
    ensures
        engine_line(l) == EngineMessageView::Info(seq![p]),
{
    let ts = line_tokens(l);
    lemma_keywords();
    assert(info_params(l, ts, ts.len() as int, seq![p]) == Some(seq![p]));
    assert(Seq::<InfoParamView>::empty().push(p) == seq![p]);
    assert(info_params(l, ts, 1, Seq::empty()) == Some(seq![p]));
    assert(engine_cmd_at(l, ts, 0) == Some(EngineMessageView::Info(seq![p])));
    lemma_engine_first(l, EngineMessageView::Info(seq![p]));
}

} // verus!
