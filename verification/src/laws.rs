//! Properties of the parser as a whole.
use crate::engine::EngineMessageView;
use crate::grammar::{
    cmd_at, engine_cmd_at, engine_line, gui_cmd_at, gui_line, line_tokens, scan, CommandView,
};
use crate::gui::GuiMessageView;
use crate::parser::{
    after_last_nl, blank, engine_messages, engine_parse, engine_parse_no_nl, first_known_engine,
    first_known_gui, gui_messages, gui_parse, gui_parse_no_nl, lemma_after_last_nl, lemma_line_end,
    line_end, msg_lines, terminated, well_formed_input, ParseError,
};
use crate::text::{is_nl, is_space, is_ws, lemma_skip_tok_bounds, seg_tokens, skip_ws, text, tok_end};
use vstd::prelude::*;

verus! {

/// Every input that ends with a newline, possibly followed by ASCII white
/// space, parses on either side, and `parse` returns the first message that a
/// stream over the same input yields.
pub proof fn law_parse_returns_first_streamed(s: Seq<char>)
    requires
        terminated(s),
    ensures
        gui_messages(s).len() > 0,
        engine_messages(s).len() > 0,
        gui_messages(s).len() == engine_messages(s).len(),
        gui_parse(s) == Ok::<GuiMessageView, ParseError>(gui_messages(s)[0]),
        engine_parse(s) == Ok::<EngineMessageView, ParseError>(engine_messages(s)[0]),
{
}

/// On input that ends with a newline, `parse` and `parse_no_nl` agree.
pub proof fn law_parse_agrees_with_parse_no_nl(s: Seq<char>)
    requires
        terminated(s),
    ensures
        gui_parse(s) == gui_parse_no_nl(s),
        engine_parse(s) == engine_parse_no_nl(s),
{
}

/// No line is both a GUI command and an engine command: of the GUI message
/// and the engine message read from one line, at least one is unknown.
pub proof fn law_line_is_gui_or_engine(l: Seq<char>)
    ensures
        gui_line(l) is Unknown || engine_line(l) is Unknown,
{
}

/// The same holds message by message for any input.
pub proof fn law_messages_are_gui_or_engine(s: Seq<char>, i: int)
    requires
        0 <= i < gui_messages(s).len(),
    ensures
        gui_messages(s).len() == engine_messages(s).len(),
        gui_messages(s)[i] is Unknown || engine_messages(s)[i] is Unknown,
{
    if msg_lines(s, 0).len() > 0 {
        let p = msg_lines(s, 0)[i];
        law_line_is_gui_or_engine(s.subrange(p.0, p.1));
    }
}

/// `parse_first_valid` finds nothing exactly when every message is unknown;
/// what it finds is a message of the input that is not unknown, and every
/// message before it is unknown.
pub proof fn law_first_known_gui(ms: Seq<GuiMessageView>)
    ensures
        first_known_gui(ms) is None <==> (forall|i: int| 0 <= i < ms.len() ==> #[trigger] ms[i] is Unknown),
        first_known_gui(ms) is Some ==> exists|j: int|
            0 <= j < ms.len() && first_known_gui(ms) == Some(ms[j]) && !(ms[j] is Unknown) && (
            forall|i: int| 0 <= i < j ==> #[trigger] ms[i] is Unknown),
    decreases ms.len(),
{
    if ms.len() > 0 {
        let rest = ms.drop_first();
        law_first_known_gui(rest);
        if ms[0] is Unknown {
            assert forall|i: int| 0 < i < ms.len() implies #[trigger] ms[i] == rest[i - 1] by {}
            if first_known_gui(rest) is Some {
                let j = choose|j: int|
                    0 <= j < rest.len() && first_known_gui(rest) == Some(rest[j]) && !(
                    rest[j] is Unknown) && (forall|i: int| 0 <= i < j ==> #[trigger] rest[i] is Unknown);
                assert(ms[j + 1] == rest[j]);
                assert forall|i: int| 0 <= i < j + 1 implies #[trigger] ms[i] is Unknown by {
                    if i > 0 {
                        assert(ms[i] == rest[i - 1]);
                    }
                }
            }
        } else {
            assert(!(ms[0] is Unknown));
        }
    }
}

/// The engine side of [`law_first_known_gui`].
pub proof fn law_first_known_engine(ms: Seq<EngineMessageView>)
    ensures
        first_known_engine(ms) is None <==> (forall|i: int|
            0 <= i < ms.len() ==> #[trigger] ms[i] is Unknown),
        first_known_engine(ms) is Some ==> exists|j: int|
            0 <= j < ms.len() && first_known_engine(ms) == Some(ms[j]) && !(ms[j] is Unknown) && (
            forall|i: int| 0 <= i < j ==> #[trigger] ms[i] is Unknown),
    decreases ms.len(),
{
    if ms.len() > 0 {
        let rest = ms.drop_first();
        law_first_known_engine(rest);
        if ms[0] is Unknown {
            assert forall|i: int| 0 < i < ms.len() implies #[trigger] ms[i] == rest[i - 1] by {}
            if first_known_engine(rest) is Some {
                let j = choose|j: int|
                    0 <= j < rest.len() && first_known_engine(rest) == Some(rest[j]) && !(
                    rest[j] is Unknown) && (forall|i: int| 0 <= i < j ==> #[trigger] rest[i] is Unknown);
                assert(ms[j + 1] == rest[j]);
                assert forall|i: int| 0 <= i < j + 1 implies #[trigger] ms[i] is Unknown by {
                    if i > 0 {
                        assert(ms[i] == rest[i - 1]);
                    }
                }
            }
        } else {
            assert(!(ms[0] is Unknown));
        }
    }
}


proof fn lemma_line_end_concat(s1: Seq<char>, s2: Seq<char>, i: int)
    requires
        0 <= i <= s1.len(),
    ensures
        line_end(s1, i) < s1.len() ==> line_end(s1 + s2, i) == line_end(s1, i),
    decreases s1.len() - i,
{
    if i < s1.len() {
        assert((s1 + s2)[i] == s1[i]);
        if !is_nl(s1[i]) {
            lemma_line_end_concat(s1, s2, i + 1);
        }
    }
}

/// In input that ends with a newline, a segment with no newline up to the end
/// of the input holds only separators.
proof fn lemma_tail_blank(s: Seq<char>, i: int)
    requires
        0 <= i <= s.len(),
        terminated(s),
        forall|j: int| i <= j < s.len() ==> !is_nl(#[trigger] s[j]),
    ensures
        blank(s.subrange(i, s.len() as int)),
{
    let a = after_last_nl(s, s.len() as int);
    lemma_after_last_nl(s, s.len() as int);
    if a > i {
        assert(is_nl(s[a - 1]));
    }
    assert forall|j: int| 0 <= j < s.len() - i implies is_space(#[trigger] s.subrange(i, s.len() as int)[j]) by {
        assert(s.subrange(i, s.len() as int)[j] == s.subrange(a, s.len() as int)[j + i - a]);
    }
}

proof fn lemma_msg_lines_bounds(s: Seq<char>, i: int)
    requires
        0 <= i,
    ensures
        forall|k: int|
            0 <= k < msg_lines(s, i).len() ==> i <= #[trigger] msg_lines(s, i)[k].0 <= msg_lines(
                s,
                i,
            )[k].1 <= s.len(),
    decreases s.len() - i,
{
    if i < s.len() {
        let e = line_end(s, i);
        lemma_line_end(s, i);
        if e < s.len() {
            lemma_msg_lines_bounds(s, e + 1);
        }
        let rest = if e < s.len() {
            msg_lines(s, e + 1)
        } else {
            Seq::empty()
        };
        if !blank(s.subrange(i, e)) {
            assert forall|k: int| 0 < k < msg_lines(s, i).len() implies #[trigger] msg_lines(s, i)[k]
                == rest[k - 1] by {}
        }
    }
}

/// The first message line of `s1` is also the first of `s1 + s2`.
proof fn lemma_first_line_concat(s1: Seq<char>, s2: Seq<char>, i: int)
    requires
        0 <= i <= s1.len(),
        terminated(s1),
        msg_lines(s1, i).len() > 0,
    ensures
        msg_lines(s1 + s2, i).len() > 0,
        msg_lines(s1 + s2, i)[0] == msg_lines(s1, i)[0],
        msg_lines(s1, i)[0].1 <= s1.len(),
    decreases s1.len() - i,
{
    let e = line_end(s1, i);
    lemma_line_end(s1, i);
    lemma_msg_lines_bounds(s1, i);
    if e < s1.len() {
        lemma_line_end_concat(s1, s2, i);
        assert((s1 + s2).subrange(i, e) =~= s1.subrange(i, e));
        if blank(s1.subrange(i, e)) {
            lemma_first_line_concat(s1, s2, e + 1);
        }
    } else {
        lemma_tail_blank(s1, i);
    }
}

proof fn lemma_after_last_nl_prefix(s1: Seq<char>, s2: Seq<char>, j: int)
    requires
        0 <= j <= s1.len(),
    ensures
        after_last_nl(s1 + s2, j) == after_last_nl(s1, j),
    decreases j,
{
    if j > 0 {
        assert((s1 + s2)[j - 1] == s1[j - 1]);
        lemma_after_last_nl_prefix(s1, s2, j - 1);
    }
}

proof fn lemma_after_last_nl_concat(s1: Seq<char>, s2: Seq<char>, j: int)
    requires
        0 <= j <= s2.len(),
    ensures
        after_last_nl(s1 + s2, s1.len() + j) == if after_last_nl(s2, j) > 0 {
            s1.len() + after_last_nl(s2, j)
        } else {
            after_last_nl(s1, s1.len() as int)
        },
    decreases j,
{
    if j > 0 {
        assert((s1 + s2)[s1.len() + j - 1] == s2[j - 1]);
        if !is_nl(s2[j - 1]) {
            lemma_after_last_nl_concat(s1, s2, j - 1);
        }
    } else {
        lemma_after_last_nl_prefix(s1, s2, s1.len() as int);
    }
}

/// Two inputs that end with a newline make one.
proof fn lemma_terminated_concat(s1: Seq<char>, s2: Seq<char>)
    requires
        terminated(s1),
        terminated(s2),
    ensures
        terminated(s1 + s2),
{
    let t = s1 + s2;
    lemma_after_last_nl_concat(s1, s2, s2.len() as int);
    lemma_after_last_nl(s1, s1.len() as int);
    lemma_after_last_nl(s2, s2.len() as int);
    let a1 = after_last_nl(s1, s1.len() as int);
    let a2 = after_last_nl(s2, s2.len() as int);
    let a = after_last_nl(t, t.len() as int);
    if a2 > 0 {
        assert(t.subrange(a, t.len() as int) =~= s2.subrange(a2, s2.len() as int));
    } else {
        assert forall|j: int| 0 <= j < t.len() - a1 implies is_space(#[trigger] t.subrange(a1, t.len() as int)[j]) by {
            if a1 + j < s1.len() {
                assert(t.subrange(a1, t.len() as int)[j] == s1.subrange(a1, s1.len() as int)[j]);
            } else {
                assert(t.subrange(a1, t.len() as int)[j] == s2.subrange(0, s2.len() as int)[a1 + j - s1.len()]);
            }
        }
    }
}

/// When input holds several messages, `parse` returns the first one: what
/// follows a complete input does not change what `parse` returns for it.
pub proof fn law_parse_ignores_what_follows(s1: Seq<char>, s2: Seq<char>)
    requires
        well_formed_input(s1),
        terminated(s2),
    ensures
        gui_parse(s1 + s2) == gui_parse(s1),
        engine_parse(s1 + s2) == engine_parse(s1),
{
    lemma_terminated_concat(s1, s2);
    lemma_first_line_concat(s1, s2, 0);
    lemma_msg_lines_bounds(s1, 0);
    let p = msg_lines(s1, 0)[0];
    assert((s1 + s2).subrange(p.0, p.1) =~= s1.subrange(p.0, p.1));
}


/// The end of `l[..j]` without its trailing separators.
pub open spec fn trim_end(l: Seq<char>, j: int) -> int
    decreases j,
{
    if j <= 0 || !is_ws(l[j - 1]) {
        j
    } else {
        trim_end(l, j - 1)
    }
}

/// The line `l` without its leading and trailing separators.
pub open spec fn trimmed(l: Seq<char>) -> Seq<char> {
    l.subrange(skip_ws(l, 0, l.len() as int), trim_end(l, l.len() as int))
}

proof fn lemma_trim_end_ws(l: Seq<char>, e: int, j: int)
    requires
        0 < e <= j <= l.len(),
        !is_ws(l[e - 1]),
        forall|t: int| e <= t < j ==> is_ws(#[trigger] l[t]),
    ensures
        trim_end(l, j) == e,
    decreases j,
{
    if j > e {
        lemma_trim_end_ws(l, e, j - 1);
    }
}

proof fn lemma_tok_end_chars(s: Seq<char>, i: int, hi: int)
    requires
        0 <= i <= hi <= s.len(),
    ensures
        forall|t: int| i <= t < tok_end(s, i, hi) ==> !is_ws(#[trigger] s[t]),
    decreases hi - i,
{
    if i < hi && !is_ws(s[i]) {
        lemma_tok_end_chars(s, i + 1, hi);
    }
}

proof fn lemma_skip_ws_chars(s: Seq<char>, i: int, hi: int)
    requires
        0 <= i <= hi <= s.len(),
    ensures
        forall|t: int| i <= t < skip_ws(s, i, hi) ==> is_ws(#[trigger] s[t]),
        skip_ws(s, i, hi) >= hi ==> forall|t: int| i <= t < hi ==> is_ws(#[trigger] s[t]),
    decreases hi - i,
{
    if i < hi && is_ws(s[i]) {
        lemma_skip_ws_chars(s, i + 1, hi);
    }
}

/// The first token of a segment starts at its first non-separator, and the
/// last one ends after its last non-separator.
proof fn lemma_token_ends(s: Seq<char>, i: int, hi: int)
    requires
        0 <= i <= hi <= s.len(),
        s.len() <= usize::MAX,
        seg_tokens(s, i, hi).len() > 0,
    ensures
        seg_tokens(s, i, hi)[0].0 == skip_ws(s, i, hi),
        seg_tokens(s, i, hi).last().1 == trim_end(s, hi),
    decreases hi - i,
{
    let j = skip_ws(s, i, hi);
    lemma_skip_tok_bounds(s, i, hi);
    lemma_skip_tok_bounds(s, j, hi);
    let e = tok_end(s, j, hi);
    let rest = seg_tokens(s, e, hi);
    if rest.len() > 0 {
        lemma_token_ends(s, e, hi);
    } else {
        lemma_tok_end_chars(s, j, hi);
        lemma_skip_tok_bounds(s, e, hi);
        if e < hi {
            lemma_skip_ws_chars(s, e, hi);
        }
        lemma_trim_end_ws(s, e, hi);
    }
}

/// A command never reads as an unknown message.
proof fn lemma_commands_known(s: Seq<char>, ts: Seq<(usize, usize)>, k: int)
    ensures
        gui_cmd_at(s, ts, k) matches Some(g) ==> !(g is Unknown),
        engine_cmd_at(s, ts, k) matches Some(e) ==> !(e is Unknown),
{
}

proof fn lemma_scan_known(s: Seq<char>, ts: Seq<(usize, usize)>, k: int)
    ensures
        scan(s, ts, k) matches Some(CommandView::Gui(g)) ==> !(g is Unknown),
        scan(s, ts, k) matches Some(CommandView::Engine(e)) ==> !(e is Unknown),
    decreases ts.len() - k,
{
    if k < ts.len() {
        lemma_commands_known(s, ts, k);
        if !(cmd_at(s, ts, k) is Some) {
            lemma_scan_known(s, ts, k + 1);
        }
    }
}

/// An unknown message holds its line without the separators around it.
pub proof fn law_unknown_holds_trimmed_line(l: Seq<char>)
    requires
        !blank(l),
        l.len() <= usize::MAX,
    ensures
        gui_line(l) is Unknown ==> gui_line(l) == GuiMessageView::Unknown(trimmed(l)),
        engine_line(l) is Unknown ==> engine_line(l) == EngineMessageView::Unknown(trimmed(l)),
{
    crate::parser::lemma_blank_tokens(l);
    lemma_token_ends(l, 0, l.len() as int);
    lemma_scan_known(l, line_tokens(l), 0);
    let ts = line_tokens(l);
    assert(ts.last() == ts[ts.len() - 1]);
    assert(text(l, ts, 0, ts.len() as int) == trimmed(l));
}

/// A single line that holds a message, followed by a newline, parses as the
/// message of that line.
pub proof fn law_single_line(l: Seq<char>)
    requires
        !blank(l),
        forall|j: int| 0 <= j < l.len() ==> !is_nl(#[trigger] l[j]),
    ensures
        terminated(l.push('\n')),
        msg_lines(l.push('\n'), 0).len() == 1,
        gui_messages(l.push('\n')) == seq![gui_line(l)],
        engine_messages(l.push('\n')) == seq![engine_line(l)],
        gui_parse(l.push('\n')) == Ok::<GuiMessageView, ParseError>(gui_line(l)),
        engine_parse(l.push('\n')) == Ok::<EngineMessageView, ParseError>(engine_line(l)),
{
    let s = l.push('\n');
    let n = l.len() as int;
    assert forall|j: int| 0 <= j < n implies !is_nl(#[trigger] s[j]) by {
        assert(s[j] == l[j]);
    }
    lemma_line_end_nonl(s, 0, n);
    assert(s.subrange(0, n) =~= l);
    assert(msg_lines(s, n + 1) =~= Seq::<(int, int)>::empty());
    assert(msg_lines(s, 0) =~= seq![(0, n)]);
    assert(after_last_nl(s, n + 1) == n + 1);
    assert(s.subrange(n + 1, n + 1) =~= Seq::<char>::empty());
    assert(gui_messages(s) =~= seq![gui_line(l)]);
    assert(engine_messages(s) =~= seq![engine_line(l)]);
}

proof fn lemma_line_end_nonl(s: Seq<char>, i: int, n: int)
    requires
        0 <= i <= n < s.len(),
        is_nl(s[n]),
        forall|j: int| 0 <= j < n ==> !is_nl(#[trigger] s[j]),
    ensures
        line_end(s, i) == n,
    decreases n - i,
{
    if i < n {
        lemma_line_end_nonl(s, i + 1, n);
    }
}


/// Line spans moved `d` positions to the right.
pub open spec fn shift(ls: Seq<(int, int)>, d: int) -> Seq<(int, int)> {
    ls.map_values(|q: (int, int)| (q.0 + d, q.1 + d))
}

proof fn lemma_line_end_shift(p: Seq<char>, s: Seq<char>, j: int)
    requires
        0 <= j <= s.len(),
    ensures
        line_end(p + s, p.len() + j) == p.len() + line_end(s, j),
    decreases s.len() - j,
{
    if j < s.len() {
        assert((p + s)[p.len() + j] == s[j]);
        if !is_nl(s[j]) {
            lemma_line_end_shift(p, s, j + 1);
        }
    }
}

/// The message lines of `s` are found again, moved, in `p + s`.
proof fn lemma_msg_lines_shift(p: Seq<char>, s: Seq<char>, j: int)
    requires
        0 <= j <= s.len(),
    ensures
        msg_lines(p + s, p.len() + j) == shift(msg_lines(s, j), p.len() as int),
    decreases s.len() - j,
{
    let t = p + s;
    let i = p.len() + j;
    if j == s.len() {
        assert(shift(msg_lines(s, j), p.len() as int) =~= Seq::<(int, int)>::empty());
    } else {
        let e = line_end(s, j);
        lemma_line_end(s, j);
        lemma_line_end_shift(p, s, j);
        assert(t.subrange(i, p.len() + e) =~= s.subrange(j, e));
        let rest_s = if e < s.len() {
            msg_lines(s, e + 1)
        } else {
            Seq::empty()
        };
        if e < s.len() {
            lemma_msg_lines_shift(p, s, e + 1);
        } else {
            assert(shift(rest_s, p.len() as int) =~= Seq::<(int, int)>::empty());
        }
        if !blank(s.subrange(j, e)) {
            assert(shift(msg_lines(s, j), p.len() as int) =~= seq![(i, p.len() + e)] + shift(
                rest_s,
                p.len() as int,
            ));
        }
    }
}

/// The message lines of `s1 + s2`, where `s1` ends with a newline, are those
/// of `s1` followed by those of `s2`, moved.
proof fn lemma_msg_lines_concat(s1: Seq<char>, s2: Seq<char>, i: int)
    requires
        s1.len() > 0,
        is_nl(s1.last()),
        0 <= i <= s1.len(),
    ensures
        msg_lines(s1 + s2, i) == msg_lines(s1, i) + shift(msg_lines(s2, 0), s1.len() as int),
    decreases s1.len() - i,
{
    let t = s1 + s2;
    if i == s1.len() {
        lemma_msg_lines_shift(s1, s2, 0);
        assert(msg_lines(s1, i) =~= Seq::<(int, int)>::empty());
        assert(msg_lines(t, i) =~= msg_lines(s1, i) + shift(msg_lines(s2, 0), s1.len() as int));
    } else {
        let e = line_end(s1, i);
        lemma_line_end(s1, i);
        if e == s1.len() {
            assert(!is_nl(s1[s1.len() - 1]));
        }
        lemma_line_end_concat(s1, s2, i);
        assert(t.subrange(i, e) =~= s1.subrange(i, e));
        lemma_msg_lines_concat(s1, s2, e + 1);
        let tail = shift(msg_lines(s2, 0), s1.len() as int);
        if !blank(s1.subrange(i, e)) {
            assert(msg_lines(t, i) =~= seq![(i, e)] + (msg_lines(s1, e + 1) + tail));
            assert(msg_lines(t, i) =~= msg_lines(s1, i) + tail);
        }
    }
}

/// Reading `s1 + s2` as a stream, where `s1` ends with a newline and each
/// part has a message line, yields the messages of `s1` and then those of
/// `s2`.
pub proof fn law_stream_of_concatenation(s1: Seq<char>, s2: Seq<char>)
    requires
        s1.len() > 0,
        is_nl(s1.last()),
        msg_lines(s1, 0).len() > 0,
        msg_lines(s2, 0).len() > 0,
    ensures
        msg_lines(s1 + s2, 0).len() == msg_lines(s1, 0).len() + msg_lines(s2, 0).len(),
        gui_messages(s1 + s2) == gui_messages(s1) + gui_messages(s2),
        engine_messages(s1 + s2) == engine_messages(s1) + engine_messages(s2),
{
    let t = s1 + s2;
    let d = s1.len() as int;
    lemma_msg_lines_concat(s1, s2, 0);
    lemma_msg_lines_bounds(s1, 0);
    lemma_msg_lines_bounds(s2, 0);
    let m1 = msg_lines(s1, 0);
    let m2 = msg_lines(s2, 0);
    let mt = msg_lines(t, 0);
    assert forall|k: int| 0 <= k < m1.len() implies #[trigger] t.subrange(m1[k].0, m1[k].1)
        == s1.subrange(m1[k].0, m1[k].1) by {
        assert(t.subrange(m1[k].0, m1[k].1) =~= s1.subrange(m1[k].0, m1[k].1));
    }
    assert forall|k: int| 0 <= k < m2.len() implies #[trigger] t.subrange(m2[k].0 + d, m2[k].1 + d)
        == s2.subrange(m2[k].0, m2[k].1) by {
        assert(t.subrange(m2[k].0 + d, m2[k].1 + d) =~= s2.subrange(m2[k].0, m2[k].1));
    }
    assert(gui_messages(t) =~= gui_messages(s1) + gui_messages(s2)) by {
        assert forall|k: int| 0 <= k < mt.len() implies #[trigger] gui_messages(t)[k] == (
        gui_messages(s1) + gui_messages(s2))[k] by {
            if k < m1.len() {
                assert(mt[k] == m1[k]);
            } else {
                assert(mt[k] == (m2[k - m1.len()].0 + d, m2[k - m1.len()].1 + d));
            }
        }
    }
    assert(engine_messages(t) =~= engine_messages(s1) + engine_messages(s2)) by {
        assert forall|k: int| 0 <= k < mt.len() implies #[trigger] engine_messages(t)[k] == (
        engine_messages(s1) + engine_messages(s2))[k] by {
            if k < m1.len() {
                assert(mt[k] == m1[k]);
            } else {
                assert(mt[k] == (m2[k - m1.len()].0 + d, m2[k - m1.len()].1 + d));
            }
        }
    }
}


/// A line of input that holds one message: it ends with its only newline, and
/// something other than ASCII white space stands before it.
pub open spec fn message_line(l: Seq<char>) -> bool {
    &&& l.len() > 0
    &&& l.last() == '\n'
    &&& forall|j: int| 0 <= j < l.len() - 1 ==> !is_nl(#[trigger] l[j])
    &&& !blank(l.drop_last())
}

/// The lines `ls`, one after the other.
pub open spec fn join_lines(ls: Seq<Seq<char>>) -> Seq<char>
    decreases ls.len(),
{
    if ls.len() == 0 {
        Seq::empty()
    } else {
        join_lines(ls.drop_last()) + ls.last()
    }
}

/// Input made of message lines yields one message per line, in the order of
/// the lines: message `i` of a stream over the input (the one that `next`
/// returns after `i` earlier calls) is what `parse` gives for line `i` alone.
pub proof fn law_one_message_per_line(ls: Seq<Seq<char>>)
    requires
        ls.len() > 0,
        forall|i: int| 0 <= i < ls.len() ==> message_line(#[trigger] ls[i]),
    ensures
        terminated(join_lines(ls)),
        msg_lines(join_lines(ls), 0).len() == ls.len(),
        gui_messages(join_lines(ls)).len() == ls.len(),
        engine_messages(join_lines(ls)).len() == ls.len(),
        forall|i: int|
            0 <= i < ls.len() ==> gui_parse(#[trigger] ls[i]) == Ok::<GuiMessageView, ParseError>(
                gui_messages(join_lines(ls))[i],
            ),
        forall|i: int|
            0 <= i < ls.len() ==> engine_parse(#[trigger] ls[i]) == Ok::<
                EngineMessageView,
                ParseError,
            >(engine_messages(join_lines(ls))[i]),
    decreases ls.len(),
{
    let init = ls.drop_last();
    let l = ls.last();
    assert forall|i: int| 0 <= i < init.len() implies message_line(#[trigger] init[i]) by {
        assert(init[i] == ls[i]);
    }
    if init.len() > 0 {
        law_one_message_per_line(init);
    }
    let body = l.drop_last();
    assert(message_line(ls[ls.len() - 1]));
    assert forall|j: int| 0 <= j < body.len() implies !is_nl(#[trigger] body[j]) by {
        assert(body[j] == l[j]);
    }
    assert(body.push('\n') =~= l);
    law_single_line(body);
    let j1 = join_lines(init);
    let t = join_lines(ls);
    assert(t == j1 + l);
    if init.len() == 0 {
        assert(t =~= l);
    } else {
        lemma_join_last(init);
        law_stream_of_concatenation(j1, l);
        lemma_terminated_concat(j1, l);
    }
    assert forall|i: int| 0 <= i < ls.len() implies gui_parse(#[trigger] ls[i]) == Ok::<
        GuiMessageView,
        ParseError,
    >(gui_messages(t)[i]) && engine_parse(ls[i]) == Ok::<EngineMessageView, ParseError>(
        engine_messages(t)[i],
    ) by {
        if i < init.len() {
            assert(ls[i] == init[i]);
        }
    }
}

proof fn lemma_join_last(ls: Seq<Seq<char>>)
    requires
        ls.len() > 0,
        ls.last().len() > 0,
        ls.last().last() == '\n',
    ensures
        join_lines(ls).len() > 0,
        join_lines(ls).last() == '\n',
{
    assert(join_lines(ls) == join_lines(ls.drop_last()) + ls.last());
}

/// On input made of message lines, `parse_first_valid` returns the message of
/// the first line whose message is known, and `None` exactly when every
/// line's message is unknown; it never returns an unknown message.
pub proof fn law_first_valid_over_lines(ls: Seq<Seq<char>>)
    requires
        ls.len() > 0,
        forall|i: int| 0 <= i < ls.len() ==> message_line(#[trigger] ls[i]),
    ensures
        terminated(join_lines(ls)),
        forall|i: int|
            0 <= i < ls.len() ==> gui_parse(#[trigger] ls[i]) == Ok::<GuiMessageView, ParseError>(
                gui_messages(join_lines(ls))[i],
            ),
        first_known_gui(gui_messages(join_lines(ls))) is None <==> (forall|i: int|
            0 <= i < ls.len() ==> #[trigger] gui_messages(join_lines(ls))[i] is Unknown),
        first_known_gui(gui_messages(join_lines(ls))) is Some ==> exists|j: int|
            0 <= j < ls.len() && first_known_gui(gui_messages(join_lines(ls))) == Some(
                gui_messages(join_lines(ls))[j],
            ) && !(gui_messages(join_lines(ls))[j] is Unknown) && (forall|i: int|
                0 <= i < j ==> #[trigger] gui_messages(join_lines(ls))[i] is Unknown),
        forall|i: int|
            0 <= i < ls.len() ==> engine_parse(#[trigger] ls[i]) == Ok::<
                EngineMessageView,
                ParseError,
            >(engine_messages(join_lines(ls))[i]),
        first_known_engine(engine_messages(join_lines(ls))) is None <==> (forall|i: int|
            0 <= i < ls.len() ==> #[trigger] engine_messages(join_lines(ls))[i] is Unknown),
        first_known_engine(engine_messages(join_lines(ls))) is Some ==> exists|j: int|
            0 <= j < ls.len() && first_known_engine(engine_messages(join_lines(ls))) == Some(
                engine_messages(join_lines(ls))[j],
            ) && !(engine_messages(join_lines(ls))[j] is Unknown) && (forall|i: int|
                0 <= i < j ==> #[trigger] engine_messages(join_lines(ls))[i] is Unknown),
{
    law_one_message_per_line(ls);
    law_first_known_gui(gui_messages(join_lines(ls)));
    law_first_known_engine(engine_messages(join_lines(ls)));
}

} // verus!
