# haitaka_usi

A parser for the USI (Universal Shogi Interface) protocol, written in Verus.
Every function of the library carries a contract that Verus proves, except
the few items in `outside.rs` that call `haitaka_types` and `std`: their
contracts are trusted, not proved.

GUI-to-engine messages parse into `GuiMessage`, engine-to-GUI messages into
`EngineMessage`. Input must end with a newline, possibly followed by ASCII white space, and is
read one line at a time; lines that hold only ASCII white space are skipped,
and input that holds no message yields a single `Unknown` message with no
text, both from `parse` and from a stream. On each line the parser tries every token in turn
as the keyword of a command and takes the first command that matches the rest
of the line; a line with no such command is an `Unknown` message holding the
line without its surrounding spaces. Numbers must fit the type of their field
(a `go depth` above 65535 does not match), and moves are USI moves such as
`7g7f`, `8h2b+` or `P*5e`, turned into `haitaka_types::Move` values.

Layout of `src/`:

- `text.rs`: characters, tokens, decimal numbers.
- `grammar.rs`: the grammar of every command, as spec functions over the
  tokens of a line.
- `words.rs`, `gui_parse.rs`, `engine_parse.rs`, `line.rs`: the parser, each
  function proved against the grammar.
- `parser.rs`: lines of the input, `parse`, `parse_no_nl`,
  `parse_first_valid` and the message streams.
- `gui.rs`, `engine.rs`: the message types and their views.
- `outside.rs`: what the parser takes from `haitaka_types` and `std`.
- `laws.rs`: properties of the parser as a whole.

`app/` holds `dbg`, which prints what the parser reads from a string.
