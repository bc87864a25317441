//! Parsing USI input: messages, one per line.
//!
//! Every USI message ends with a newline (`\n`, `\r` or `\r\n`). Lines that
//! hold only ASCII white space are skipped; every other line is one message,
//! and input with no such line holds one unknown message with no text. A line
//! that is no GUI command parses as [`GuiMessage::Unknown`], and one that is
//! no engine command as [`EngineMessage::Unknown`].
use crate::engine::{EngineMessage, EngineMessageView};
use crate::engine_parse::engine_opt_view;
use crate::grammar::{engine_line, gui_line, line_tokens};
use crate::gui::{GuiMessage, GuiMessageView};
use crate::gui_parse::gui_opt_view;
use crate::line::{engine_parse_line, gui_parse_line};
use crate::text::{chars_of, is_nl, is_space, is_ws, skip_ws};
use vstd::prelude::*;

verus! {

/// Why an input is refused.
#[derive(Debug, Clone, Copy, PartialEq, Eq)]
pub enum ParseError {
    /// The input has no newline, or something other than ASCII white space
    /// follows its last newline.
    MissingNewline,
}

/// The end of the line that starts at `i`: the first newline at or after `i`,
/// or the end of `s`.
pub open spec fn line_end(s: Seq<char>, i: int) -> int
    decreases s.len() - i,
{
    if i >= s.len() || is_nl(s[i]) {
        i
    } else {
        line_end(s, i + 1)
    }
}

pub proof fn lemma_line_end(s: Seq<char>, i: int)
    requires
        0 <= i <= s.len(),
    ensures
        i <= line_end(s, i) <= s.len(),
        line_end(s, i) < s.len() ==> is_nl(s[line_end(s, i)]),
        forall|j: int| i <= j < line_end(s, i) ==> !is_nl(#[trigger] s[j]),
    decreases s.len() - i,
{
    if i < s.len() && !is_nl(s[i]) {
        lemma_line_end(s, i + 1);
    }
}

/// A line that holds only ASCII white space.
pub open spec fn blank(l: Seq<char>) -> bool {
    forall|j: int| 0 <= j < l.len() ==> is_space(#[trigger] l[j])
}

/// The lines from position `i` on that hold a message, each given by the
/// position of its first character and of its end.
pub open spec fn msg_lines(s: Seq<char>, i: int) -> Seq<(int, int)>
    decreases s.len() - i,
{
    if i < 0 || i >= s.len() {
        Seq::empty()
    } else {
        let e = line_end(s, i);
        proof {
            lemma_line_end(s, i);
        }
        let rest = if e < s.len() {
            msg_lines(s, e + 1)
        } else {
            Seq::empty()
        };
        if blank(s.subrange(i, e)) {
            rest
        } else {
            seq![(i, e)] + rest
        }
    }
}

/// The position after the last newline of `s[..j]`, or 0 if it has none.
pub open spec fn after_last_nl(s: Seq<char>, j: int) -> int
    decreases j,
{
    if j <= 0 {
        0
    } else if is_nl(s[j - 1]) {
        j
    } else {
        after_last_nl(s, j - 1)
    }
}

/// `s` holds a newline, and only ASCII white space follows its last newline.
pub open spec fn terminated(s: Seq<char>) -> bool {
    after_last_nl(s, s.len() as int) > 0 && blank(
        s.subrange(after_last_nl(s, s.len() as int), s.len() as int),
    )
}

/// The GUI messages of `s` from position `i` on.
pub open spec fn gui_messages_from(s: Seq<char>, i: int) -> Seq<GuiMessageView> {
    msg_lines(s, i).map_values(|p: (int, int)| gui_line(s.subrange(p.0, p.1)))
}

/// The engine messages of `s` from position `i` on.
pub open spec fn engine_messages_from(s: Seq<char>, i: int) -> Seq<EngineMessageView> {
    msg_lines(s, i).map_values(|p: (int, int)| engine_line(s.subrange(p.0, p.1)))
}

/// The GUI messages of `s`, in order: one per message line, or a single
/// unknown message with no text when `s` has no message line.
pub open spec fn gui_messages(s: Seq<char>) -> Seq<GuiMessageView> {
    if msg_lines(s, 0).len() == 0 {
        seq![empty_gui()]
    } else {
        gui_messages_from(s, 0)
    }
}

/// The engine messages of `s`, in order: one per message line, or a single
/// unknown message with no text when `s` has no message line.
pub open spec fn engine_messages(s: Seq<char>) -> Seq<EngineMessageView> {
    if msg_lines(s, 0).len() == 0 {
        seq![empty_engine()]
    } else {
        engine_messages_from(s, 0)
    }
}

/// Input that ends with a newline and holds at least one message.
pub open spec fn well_formed_input(s: Seq<char>) -> bool {
    terminated(s) && msg_lines(s, 0).len() > 0
}

/// The message of input that holds no message line: an unknown message with
/// no text.
pub open spec fn empty_gui() -> GuiMessageView {
    GuiMessageView::Unknown(Seq::empty())
}

/// The engine side of [`empty_gui`].
pub open spec fn empty_engine() -> EngineMessageView {
    EngineMessageView::Unknown(Seq::empty())
}

/// What `GuiMessage::parse` returns for `s`.
pub open spec fn gui_parse(s: Seq<char>) -> Result<GuiMessageView, ParseError> {
    if !terminated(s) {
        Err(ParseError::MissingNewline)
    } else {
        gui_parse_no_nl(s)
    }
}

/// What `GuiMessage::parse_no_nl` returns for `s`.
pub open spec fn gui_parse_no_nl(s: Seq<char>) -> Result<GuiMessageView, ParseError> {
    Ok(gui_messages(s)[0])
}

/// What `EngineMessage::parse` returns for `s`.
pub open spec fn engine_parse(s: Seq<char>) -> Result<EngineMessageView, ParseError> {
    if !terminated(s) {
        Err(ParseError::MissingNewline)
    } else {
        engine_parse_no_nl(s)
    }
}

/// What `EngineMessage::parse_no_nl` returns for `s`.
pub open spec fn engine_parse_no_nl(s: Seq<char>) -> Result<EngineMessageView, ParseError> {
    Ok(engine_messages(s)[0])
}

/// The first GUI message that is not unknown.
pub open spec fn first_known_gui(ms: Seq<GuiMessageView>) -> Option<GuiMessageView>
    decreases ms.len(),
{
    if ms.len() == 0 {
        None
    } else if ms[0] is Unknown {
        first_known_gui(ms.drop_first())
    } else {
        Some(ms[0])
    }
}

/// The first engine message that is not unknown.
pub open spec fn first_known_engine(ms: Seq<EngineMessageView>) -> Option<EngineMessageView>
    decreases ms.len(),
{
    if ms.len() == 0 {
        None
    } else if ms[0] is Unknown {
        first_known_engine(ms.drop_first())
    } else {
        Some(ms[0])
    }
}

pub open spec fn gui_result_view(r: Result<GuiMessage, ParseError>) -> Result<GuiMessageView, ParseError> {
    match r {
        Ok(m) => Ok(m@),
        Err(e) => Err(e),
    }
}

pub open spec fn engine_result_view(r: Result<EngineMessage, ParseError>) -> Result<
    EngineMessageView,
    ParseError,
> {
    match r {
        Ok(m) => Ok(m@),
        Err(e) => Err(e),
    }
}

pub proof fn lemma_skip_ws_all(s: Seq<char>, i: int, hi: int)
    requires
        0 <= i <= hi <= s.len(),
    ensures
        (skip_ws(s, i, hi) >= hi) == (forall|j: int| i <= j < hi ==> is_ws(#[trigger] s[j])),
    decreases hi - i,
{
    if i < hi {
        lemma_skip_ws_all(s, i + 1, hi);
        if is_ws(s[i]) {
            assert forall|j: int| i + 1 <= j < hi && is_ws(#[trigger] s[j]) implies is_ws(s[j]) by {}
        }
    }
}

/// A line that is not blank holds a token.
pub proof fn lemma_blank_tokens(l: Seq<char>)
    ensures
        !blank(l) ==> line_tokens(l).len() > 0,
{
    lemma_skip_ws_all(l, 0, l.len() as int);
    if l.len() > 0 && skip_ws(l, 0, l.len() as int) < l.len() {
        assert(line_tokens(l).len() > 0);
    }
}

/// The position of the first newline at or after `i`, or the end of `v`.
fn line_end_exec(v: &Vec<char>, i: usize) -> (r: usize)
    requires
        i <= v.len(),
    ensures
        r == line_end(v@, i as int),
        i <= r <= v.len(),
{
    let mut j = i;
    while j < v.len() && !(v[j] == '\n' || v[j] == '\r')
        invariant
            i <= j <= v.len(),
            line_end(v@, j as int) == line_end(v@, i as int),
        decreases v.len() - j,
    {
        j = j + 1;
    }
    j
}

/// Whether `v[a..b]` holds only ASCII white space.
fn is_blank(v: &Vec<char>, a: usize, b: usize) -> (r: bool)
    requires
        a <= b <= v.len(),
    ensures
        r == blank(v@.subrange(a as int, b as int)),
{
    let mut j = a;
    while j < b
        invariant
            a <= j <= b <= v.len(),
            forall|t: int| a <= t < j ==> is_space(#[trigger] v@[t]),
        decreases b - j,
    {
        let c = v[j];
        if !(c == ' ' || c == '\t' || c == '\n' || c == '\x0c' || c == '\r') {
            assert(!is_space(v@.subrange(a as int, b as int)[j - a]));
            return false;
        }
        j = j + 1;
    }
    assert forall|t: int| 0 <= t < b - a implies is_space(#[trigger] v@.subrange(a as int, b as int)[t]) by {
        assert(v@.subrange(a as int, b as int)[t] == v@[a + t]);
    }
    true
}

/// The first message line at or after position `i`, and the position after it.
fn next_message_line(v: &Vec<char>, i0: usize) -> (r: Option<(usize, usize, usize)>)
    requires
        i0 <= v.len(),
    ensures
        match r {
            Some((lo, hi, next)) => msg_lines(v@, i0 as int) == seq![(lo as int, hi as int)]
                + msg_lines(v@, next as int) && lo <= hi <= v.len() && next <= v.len() && !blank(
                v@.subrange(lo as int, hi as int),
            ),
            None => msg_lines(v@, i0 as int).len() == 0,
        },
{
    let n = v.len();
    let mut i = i0;
    while i < n
        invariant
            i0 <= i <= n,
            n == v.len(),
            msg_lines(v@, i as int) == msg_lines(v@, i0 as int),
        decreases n - i,
    {
        let e = line_end_exec(v, i);
        let next = if e < n {
            e + 1
        } else {
            n
        };
        proof {
            lemma_line_end(v@, i as int);
            assert(msg_lines(v@, n as int) =~= Seq::<(int, int)>::empty());
        }
        if !is_blank(v, i, e) {
            return Some((i, e, next));
        }
        i = next;
    }
    assert(msg_lines(v@, i as int) =~= Seq::<(int, int)>::empty());
    None
}

pub proof fn lemma_after_last_nl(s: Seq<char>, j: int)
    requires
        0 <= j <= s.len(),
    ensures
        0 <= after_last_nl(s, j) <= j,
        forall|t: int| after_last_nl(s, j) <= t < j ==> !is_nl(#[trigger] s[t]),
        after_last_nl(s, j) > 0 ==> is_nl(s[after_last_nl(s, j) - 1]),
    decreases j,
{
    if j > 0 && !is_nl(s[j - 1]) {
        lemma_after_last_nl(s, j - 1);
    }
}

/// The characters `v[a..b]`.
fn copy_chars(v: &Vec<char>, a: usize, b: usize) -> (r: Vec<char>)
    requires
        a <= b <= v.len(),
    ensures
        r@ == v@.subrange(a as int, b as int),
{
    let mut r: Vec<char> = Vec::new();
    let mut j = a;
    while j < b
        invariant
            a <= j <= b <= v.len(),
            r@ == v@.subrange(a as int, j as int),
        decreases b - j,
    {
        r.push(v[j]);
        j = j + 1;
        assert(r@ =~= v@.subrange(a as int, j as int));
    }
    r
}

/// Whether `v` holds a newline and only ASCII white space follows the last one.
fn is_terminated(v: &Vec<char>) -> (r: bool)
    ensures
        r == terminated(v@),
{
    let n = v.len();
    let mut j = n;
    while j > 0 && !(v[j - 1] == '\n' || v[j - 1] == '\r')
        invariant
            j <= n == v.len(),
            after_last_nl(v@, j as int) == after_last_nl(v@, n as int),
        decreases j,
    {
        j = j - 1;
    }
    j > 0 && is_blank(v, j, n)
}

/// The messages from position `i` on, when the message lines from `i` on are
/// the last ones of an input that has message lines, are the last messages of
/// the input.
proof fn lemma_view_skip(s: Seq<char>, i: int)
    requires
        msg_lines(s, 0).len() > 0,
        msg_lines(s, 0).len() >= msg_lines(s, i).len(),
        msg_lines(s, i) == msg_lines(s, 0).skip(msg_lines(s, 0).len() - msg_lines(s, i).len()),
    ensures
        gui_messages_from(s, i) == gui_messages(s).skip(msg_lines(s, 0).len() - msg_lines(s, i).len()),
        engine_messages_from(s, i) == engine_messages(s).skip(
            msg_lines(s, 0).len() - msg_lines(s, i).len(),
        ),
{
    let k = msg_lines(s, 0).len() - msg_lines(s, i).len();
    assert(gui_messages_from(s, i) =~= gui_messages(s).skip(k));
    assert(engine_messages_from(s, i) =~= engine_messages(s).skip(k));
}

impl GuiMessage {
    /// The GUI message on one line that holds a token.
    fn inner_parse(line: &Vec<char>) -> (r: GuiMessage)
        requires
            line_tokens(line@).len() > 0,
        ensures
            r@ == gui_line(line@),
    {
        gui_parse_line(line)
    }

    /// Parses the first GUI message of `input`. The input must end with a
    /// newline, possibly followed by ASCII white space; it may hold more
    /// messages, and only the first one is returned. A line that is no GUI
    /// command is returned as [`GuiMessage::Unknown`], and input that holds no
    /// message as an unknown message with no text.
    pub fn parse(input: &str) -> (r: Result<GuiMessage, ParseError>)
        ensures
            gui_result_view(r) == gui_parse(input@),
    {
        let v = chars_of(input);
        if !is_terminated(&v) {
            return Err(ParseError::MissingNewline);
        }
        Ok(Self::parse_first_line(&v))
    }

    /// Parses the first GUI message of `input`, which need not end with a
    /// newline; input that holds no message gives an unknown message with no
    /// text.
    pub fn parse_no_nl(input: &str) -> (r: Result<GuiMessage, ParseError>)
        ensures
            gui_result_view(r) == gui_parse_no_nl(input@),
    {
        let v = chars_of(input);
        Ok(Self::parse_first_line(&v))
    }

    fn parse_first_line(v: &Vec<char>) -> (r: GuiMessage)
        ensures
            gui_parse_no_nl(v@) == Ok::<GuiMessageView, ParseError>(r@),
    {
        match next_message_line(v, 0) {
            Some((lo, hi, _)) => {
                let line = copy_chars(v, lo, hi);
                proof {
                    lemma_blank_tokens(line@);
                }
                Self::inner_parse(&line)
            },
            None => {
                let r = GuiMessage::Unknown(String::new());
                assert(r@ == empty_gui());
                r
            },
        }
    }

    /// The first GUI message of `input` that is not unknown, or `None` if
    /// there is none. The input must end with a newline, possibly followed by
    /// ASCII white space.
    pub fn parse_first_valid(input: &str) -> (r: Option<GuiMessage>)
        requires
            terminated(input@),
        ensures
            gui_opt_view(r) == first_known_gui(gui_messages(input@)),
    {
        let mut stream = GuiMessageStream::new(input);
        loop
            invariant
                first_known_gui(stream@) == first_known_gui(gui_messages(input@)),
            decreases stream@.len(),
        {
            match stream.next() {
                Some(m) => {
                    if !matches!(m, GuiMessage::Unknown(_)) {
                        return Some(m);
                    }
                },
                None => {
                    return None;
                },
            }
        }
    }
}

/// The GUI messages of a multi-line input, one at a time.
pub struct GuiMessageStream<'a> {
    input: &'a str,
    chars: Vec<char>,
    pos: usize,
    /// The input has no message line, and the unknown message with no text
    /// that stands for it has not been returned yet.
    blank_left: bool,
}

impl<'a> GuiMessageStream<'a> {
    /// The message lines still to read are the last ones of the input.
    #[verifier::type_invariant]
    spec fn inv(self) -> bool {
        &&& self.chars@ == self.input@
        &&& self.pos <= self.chars.len()
        &&& self.blank_left ==> msg_lines(self.chars@, 0).len() == 0
        &&& msg_lines(self.chars@, 0).len() >= msg_lines(self.chars@, self.pos as int).len()
        &&& msg_lines(self.chars@, self.pos as int) == msg_lines(self.chars@, 0).skip(
            msg_lines(self.chars@, 0).len() - msg_lines(self.chars@, self.pos as int).len(),
        )
    }

    /// The input that the stream reads.
    pub closed spec fn source(&self) -> Seq<char> {
        self.input@
    }

    /// How many messages the stream has returned.
    pub closed spec fn taken(&self) -> nat {
        if msg_lines(self.chars@, 0).len() == 0 {
            if self.blank_left {
                0
            } else {
                1
            }
        } else {
            (msg_lines(self.chars@, 0).len() - msg_lines(self.chars@, self.pos as int).len()) as nat
        }
    }

    /// A stream over `input`, which must end with a newline, possibly followed
    /// by ASCII white space.
    pub fn new(input: &'a str) -> (r: Self)
        requires
            terminated(input@),
        ensures
            r@ == gui_messages(input@),
            r.source() == input@,
            r.taken() == 0,
    {
        Self::parse(input)
    }

    /// A stream over `input`, which must end with a newline, possibly followed
    /// by ASCII white space.
    pub fn parse(input: &'a str) -> (r: Self)
        requires
            terminated(input@),
        ensures
            r@ == gui_messages(input@),
            r.source() == input@,
            r.taken() == 0,
    {
        match Self::try_parse(input) {
            Ok(s) => s,
            Err(_) => {
                proof {
                    assert(false);
                }
                Self::open(input)
            },
        }
    }

    /// A stream over `input`, or [`ParseError::MissingNewline`] if `input`
    /// does not end with a newline, possibly followed by ASCII white space.
    pub fn try_parse(input: &'a str) -> (r: Result<Self, ParseError>)
        ensures
            match r {
                Ok(s) => terminated(input@) && s@ == gui_messages(input@) && s.source() == input@
                    && s.taken() == 0,
                Err(e) => !terminated(input@) && e == ParseError::MissingNewline,
            },
    {
        let s = Self::open(input);
        proof {
            use_type_invariant(&s);
        }
        if !is_terminated(&s.chars) {
            return Err(ParseError::MissingNewline);
        }
        Ok(s)
    }

    fn open(input: &'a str) -> (r: Self)
        ensures
            r@ == gui_messages(input@),
            r.source() == input@,
            r.taken() == 0,
    {
        let chars = chars_of(input);
        let blank_left = match next_message_line(&chars, 0) {
            Some(_) => false,
            None => true,
        };
        assert(msg_lines(chars@, 0).skip(0) =~= msg_lines(chars@, 0));
        GuiMessageStream { input, chars, pos: 0, blank_left }
    }

    /// The next message, or `None` when there is none left. The messages
    /// come in the order of the lines of the input, one per message line;
    /// input with no message line yields one unknown message with no text.
    #[verifier::spinoff_prover]
    pub fn next(&mut self) -> (r: Option<GuiMessage>)
        ensures
            final(self).source() == old(self).source(),
            old(self)@ == gui_messages(old(self).source()).skip(old(self).taken() as int),
            final(self)@ == gui_messages(final(self).source()).skip(final(self).taken() as int),
            old(self)@.len() == 0 ==> r is None && final(self)@ == old(self)@ && final(self).taken()
                == old(self).taken(),
            old(self)@.len() > 0 ==> (r matches Some(m) && m@ == old(self)@[0] && m@
                == gui_messages(old(self).source())[old(self).taken() as int]) && final(self)@
                == old(self)@.drop_first()
                && final(self).taken() == old(self).taken() + 1,
    {
        proof {
            use_type_invariant(&*self);
            if msg_lines(self.chars@, 0).len() > 0 {
                lemma_view_skip(self.chars@, self.pos as int);
            }
        }
        if self.blank_left {
            self.blank_left = false;
            let m = GuiMessage::Unknown(String::new());
            assert(m@ == empty_gui());
            assert(self@ =~= old(self)@.drop_first());
            return Some(m);
        }
        match next_message_line(&self.chars, self.pos) {
            Some((lo, hi, next)) => {
                let line = copy_chars(&self.chars, lo, hi);
                proof {
                    lemma_blank_tokens(line@);
                    let all = msg_lines(self.chars@, 0);
                    let k = all.len() - msg_lines(self.chars@, self.pos as int).len();
                    assert(msg_lines(self.chars@, next as int) =~= msg_lines(
                        self.chars@,
                        self.pos as int,
                    ).drop_first());
                    assert(msg_lines(self.chars@, next as int) =~= all.skip(k + 1));
                    assert(all.len() > 0);
                }
                let m = GuiMessage::inner_parse(&line);
                self.pos = next;
                proof {
                    lemma_view_skip(self.chars@, self.pos as int);
                    assert(gui_messages(self.chars@) == gui_messages_from(self.chars@, 0));
                    assert(self.taken() == old(self).taken() + 1);
                    assert(m@ == old(self)@[0]);
                }
                assert(self@ =~= old(self)@.drop_first());
                Some(m)
            },
            None => {
                assert(self@ =~= Seq::<GuiMessageView>::empty());
                None
            },
        }
    }
}

impl<'a> View for GuiMessageStream<'a> {
    type V = Seq<GuiMessageView>;

    /// The messages that the stream has yet to return.
    closed spec fn view(&self) -> Seq<GuiMessageView> {
        if self.blank_left {
            seq![empty_gui()]
        } else {
            gui_messages_from(self.chars@, self.pos as int)
        }
    }
}

impl EngineMessage {
    /// The engine message on one line that holds a token.
    fn inner_parse(line: &Vec<char>) -> (r: EngineMessage)
        requires
            line_tokens(line@).len() > 0,
        ensures
            r@ == engine_line(line@),
    {
        engine_parse_line(line)
    }

    /// Parses the first engine message of `input`. The input must end with a
    /// newline, possibly followed by ASCII white space; it may hold more
    /// messages, and only the first one is returned. A line that is no engine
    /// command is returned as [`EngineMessage::Unknown`], and input that holds no
    /// message as an unknown message with no text.
    pub fn parse(input: &str) -> (r: Result<EngineMessage, ParseError>)
        ensures
            engine_result_view(r) == engine_parse(input@),
    {
        let v = chars_of(input);
        if !is_terminated(&v) {
            return Err(ParseError::MissingNewline);
        }
        Ok(Self::parse_first_line(&v))
    }

    /// Parses the first engine message of `input`, which need not end with a
    /// newline; input that holds no message gives an unknown message with no
    /// text.
    pub fn parse_no_nl(input: &str) -> (r: Result<EngineMessage, ParseError>)
        ensures
            engine_result_view(r) == engine_parse_no_nl(input@),
    {
        let v = chars_of(input);
        Ok(Self::parse_first_line(&v))
    }

    fn parse_first_line(v: &Vec<char>) -> (r: EngineMessage)
        ensures
            engine_parse_no_nl(v@) == Ok::<EngineMessageView, ParseError>(r@),
    {
        match next_message_line(v, 0) {
            Some((lo, hi, _)) => {
                let line = copy_chars(v, lo, hi);
                proof {
                    lemma_blank_tokens(line@);
                }
                Self::inner_parse(&line)
            },
            None => {
                let r = EngineMessage::Unknown(String::new());
                assert(r@ == empty_engine());
                r
            },
        }
    }

    /// The first engine message of `input` that is not unknown, or `None` if
    /// there is none. The input must end with a newline, possibly followed by
    /// ASCII white space.
    pub fn parse_first_valid(input: &str) -> (r: Option<EngineMessage>)
        requires
            terminated(input@),
        ensures
            engine_opt_view(r) == first_known_engine(engine_messages(input@)),
    {
        let mut stream = EngineMessageStream::new(input);
        loop
            invariant
                first_known_engine(stream@) == first_known_engine(engine_messages(input@)),
            decreases stream@.len(),
        {
            match stream.next() {
                Some(m) => {
                    if !matches!(m, EngineMessage::Unknown(_)) {
                        return Some(m);
                    }
                },
                None => {
                    return None;
                },
            }
        }
    }
}

/// The engine messages of a multi-line input, one at a time.
pub struct EngineMessageStream<'a> {
    input: &'a str,
    chars: Vec<char>,
    pos: usize,
    /// The input has no message line, and the unknown message with no text
    /// that stands for it has not been returned yet.
    blank_left: bool,
}

impl<'a> EngineMessageStream<'a> {
    /// The message lines still to read are the last ones of the input.
    #[verifier::type_invariant]
    spec fn inv(self) -> bool {
        &&& self.chars@ == self.input@
        &&& self.pos <= self.chars.len()
        &&& self.blank_left ==> msg_lines(self.chars@, 0).len() == 0
        &&& msg_lines(self.chars@, 0).len() >= msg_lines(self.chars@, self.pos as int).len()
        &&& msg_lines(self.chars@, self.pos as int) == msg_lines(self.chars@, 0).skip(
            msg_lines(self.chars@, 0).len() - msg_lines(self.chars@, self.pos as int).len(),
        )
    }

    /// The input that the stream reads.
    pub closed spec fn source(&self) -> Seq<char> {
        self.input@
    }

    /// How many messages the stream has returned.
    pub closed spec fn taken(&self) -> nat {
        if msg_lines(self.chars@, 0).len() == 0 {
            if self.blank_left {
                0
            } else {
                1
            }
        } else {
            (msg_lines(self.chars@, 0).len() - msg_lines(self.chars@, self.pos as int).len()) as nat
        }
    }

    /// A stream over `input`, which must end with a newline, possibly followed
    /// by ASCII white space.
    pub fn new(input: &'a str) -> (r: Self)
        requires
            terminated(input@),
        ensures
            r@ == engine_messages(input@),
            r.source() == input@,
            r.taken() == 0,
    {
        Self::parse(input)
    }

    /// A stream over `input`, which must end with a newline, possibly followed
    /// by ASCII white space.
    pub fn parse(input: &'a str) -> (r: Self)
        requires
            terminated(input@),
        ensures
            r@ == engine_messages(input@),
            r.source() == input@,
            r.taken() == 0,
    {
        match Self::try_parse(input) {
            Ok(s) => s,
            Err(_) => {
                proof {
                    assert(false);
                }
                Self::open(input)
            },
        }
    }

    /// A stream over `input`, or [`ParseError::MissingNewline`] if `input`
    /// does not end with a newline, possibly followed by ASCII white space.
    pub fn try_parse(input: &'a str) -> (r: Result<Self, ParseError>)
        ensures
            match r {
                Ok(s) => terminated(input@) && s@ == engine_messages(input@) && s.source() == input@
                    && s.taken() == 0,
                Err(e) => !terminated(input@) && e == ParseError::MissingNewline,
            },
    {
        let s = Self::open(input);
        proof {
            use_type_invariant(&s);
        }
        if !is_terminated(&s.chars) {
            return Err(ParseError::MissingNewline);
        }
        Ok(s)
    }

    fn open(input: &'a str) -> (r: Self)
        ensures
            r@ == engine_messages(input@),
            r.source() == input@,
            r.taken() == 0,
    {
        let chars = chars_of(input);
        let blank_left = match next_message_line(&chars, 0) {
            Some(_) => false,
            None => true,
        };
        assert(msg_lines(chars@, 0).skip(0) =~= msg_lines(chars@, 0));
        EngineMessageStream { input, chars, pos: 0, blank_left }
    }

    /// The next message, or `None` when there is none left. The messages
    /// come in the order of the lines of the input, one per message line;
    /// input with no message line yields one unknown message with no text.
    #[verifier::spinoff_prover]
    pub fn next(&mut self) -> (r: Option<EngineMessage>)
        ensures
            final(self).source() == old(self).source(),
            old(self)@ == engine_messages(old(self).source()).skip(old(self).taken() as int),
            final(self)@ == engine_messages(final(self).source()).skip(final(self).taken() as int),
            old(self)@.len() == 0 ==> r is None && final(self)@ == old(self)@ && final(self).taken()
                == old(self).taken(),
            old(self)@.len() > 0 ==> (r matches Some(m) && m@ == old(self)@[0] && m@
                == engine_messages(old(self).source())[old(self).taken() as int]) && final(self)@
                == old(self)@.drop_first()
                && final(self).taken() == old(self).taken() + 1,
    {
        proof {
            use_type_invariant(&*self);
            if msg_lines(self.chars@, 0).len() > 0 {
                lemma_view_skip(self.chars@, self.pos as int);
            }
        }
        if self.blank_left {
            self.blank_left = false;
            let m = EngineMessage::Unknown(String::new());
            assert(m@ == empty_engine());
            assert(self@ =~= old(self)@.drop_first());
            return Some(m);
        }
        match next_message_line(&self.chars, self.pos) {
            Some((lo, hi, next)) => {
                let line = copy_chars(&self.chars, lo, hi);
                proof {
                    lemma_blank_tokens(line@);
                    let all = msg_lines(self.chars@, 0);
                    let k = all.len() - msg_lines(self.chars@, self.pos as int).len();
                    assert(msg_lines(self.chars@, next as int) =~= msg_lines(
                        self.chars@,
                        self.pos as int,
                    ).drop_first());
                    assert(msg_lines(self.chars@, next as int) =~= all.skip(k + 1));
                    assert(all.len() > 0);
                }
                let m = EngineMessage::inner_parse(&line);
                self.pos = next;
                proof {
                    lemma_view_skip(self.chars@, self.pos as int);
                    assert(engine_messages(self.chars@) == engine_messages_from(self.chars@, 0));
                    assert(self.taken() == old(self).taken() + 1);
                    assert(m@ == old(self)@[0]);
                }
                assert(self@ =~= old(self)@.drop_first());
                Some(m)
            },
            None => {
                assert(self@ =~= Seq::<EngineMessageView>::empty());
                None
            },
        }
    }
}

impl<'a> View for EngineMessageStream<'a> {
    type V = Seq<EngineMessageView>;

    /// The messages that the stream has yet to return.
    closed spec fn view(&self) -> Seq<EngineMessageView> {
        if self.blank_left {
            seq![empty_engine()]
        } else {
            engine_messages_from(self.chars@, self.pos as int)
        }
    }
}

} // verus!
