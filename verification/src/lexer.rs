//! The lexical analyzer: scans a notation source left to right, one
//! lexeme at a time, into a token sequence terminated by an
//! end-of-file token, collecting lexical errors as it goes.

use vstd::prelude::*;

use crate::data::{
    spec_error_entry, spec_error_text, spec_token_type_name, Literal, LiteralV, Token, TokenType,
    TokenV, Watcher,
};
use crate::text::{spec_is_digit, spec_parse_u32, NumError};

verus! {

/// The views of a sequence of tokens.
pub open spec fn token_views(tokens: Seq<Token>) -> Seq<TokenV> {
    tokens.map_values(|t: Token| t@)
}

/// The end of the run of decimal digits beginning at `from`.
pub open spec fn digit_run_end(src: Seq<char>, from: nat) -> nat
    recommends
        from <= src.len(),
    decreases src.len() - from,
{
    if from < src.len() && spec_is_digit(src[from as int]) {
        digit_run_end(src, from + 1)
    } else {
        from
    }
}

/// The run of digits stays within the source and past its start.
pub proof fn lemma_digit_run_end_bounds(src: Seq<char>, from: nat)
    requires
        from <= src.len(),
    ensures
        from <= digit_run_end(src, from) <= src.len(),
    decreases src.len() - from,
{
    if from < src.len() && spec_is_digit(src[from as int]) {
        lemma_digit_run_end_bounds(src, from + 1);
    }
}

/// The position of the first `]` at or after `from`, or the source
/// length when none follows.
pub open spec fn options_stop(src: Seq<char>, from: nat) -> nat
    recommends
        from <= src.len(),
    decreases src.len() - from,
{
    if from >= src.len() {
        from
    } else if src[from as int] == ']' {
        from
    } else {
        options_stop(src, from + 1)
    }
}

/// The stop of an options block stays within the source.
pub proof fn lemma_options_stop_bounds(src: Seq<char>, from: nat)
    requires
        from <= src.len(),
    ensures
        from <= options_stop(src, from) <= src.len(),
    decreases src.len() - from,
{
    if from < src.len() && src[from as int] != ']' {
        lemma_options_stop_bounds(src, from + 1);
    }
}

/// How many newline characters lie in `src[from..to]`.
pub open spec fn count_newlines(src: Seq<char>, from: nat, to: nat) -> nat
    recommends
        from <= to <= src.len(),
    decreases to,
{
    if to <= from {
        0
    } else {
        count_newlines(src, from, (to - 1) as nat) + if src[to - 1] == '\n' {
            1nat
        } else {
            0nat
        }
    }
}

/// The error message for an unknown character.
pub open spec fn spec_msg_unknown_char(c: char) -> Seq<char> {
    "Unknown character value: "@ + seq![c]
}

/// The error message for a number that does not parse.
pub open spec fn spec_msg_bad_number(text: Seq<char>, e: NumError) -> Seq<char> {
    "String \""@ + text + "\" could not be parsed into a number: "@
        + crate::options::spec_num_error_text(e)
}

/// The error message for a spread amount that does not parse.
pub open spec fn spec_msg_bad_spread(text: Seq<char>, spread_type: TokenType, e: NumError) -> Seq<
    char,
> {
    "Could not parse amount \""@ + text + "\" for \""@ + spec_token_type_name(spread_type)
        + "\": "@ + crate::options::spec_num_error_text(e)
}

/// The error message for an options block that never closes.
pub open spec fn spec_msg_unterminated() -> Seq<char> {
    "Unterminated options sequence. Close options sequences with \"]\"."@
}

/// What a scan from a source position produces: the tokens and error
/// entries it emits, and the line it ends on.
pub ghost struct ScanResult {
    /// The tokens emitted, in order.
    pub tokens: Seq<TokenV>,
    /// The formatted error-log entries emitted, in order.
    pub log: Seq<Seq<char>>,
    /// The 1-based line the scan ends on.
    pub line: u32,
}

/// A token of the given kind whose text is `src[from..to]`.
pub open spec fn spec_token_at(
    src: Seq<char>,
    from: nat,
    to: nat,
    type_of: TokenType,
    literal: LiteralV,
    line: u32,
) -> TokenV {
    TokenV { type_of, value: src.subrange(from as int, to as int), literal, line }
}

/// A scan result extended at the front by a token, an error entry, or
/// nothing.
pub open spec fn scan_cons(token: Option<TokenV>, entry: Option<Seq<char>>, r: ScanResult) -> ScanResult {
    ScanResult {
        tokens: (match token {
            Option::Some(t) => seq![t],
            Option::None => Seq::<TokenV>::empty(),
        }) + r.tokens,
        log: (match entry {
            Option::Some(e) => seq![e],
            Option::None => Seq::<Seq<char>>::empty(),
        }) + r.log,
        line: r.line,
    }
}

/// The scan of `src` from position `pos` on line `line`: character
/// dispatch as the notation grammar gives it, one lexeme at a time.
pub open spec fn spec_scan(src: Seq<char>, pos: nat, line: u32) -> ScanResult
    recommends
        pos <= src.len(),
        line as nat + (src.len() - pos) <= u32::MAX as nat,
    decreases src.len() - pos,
        when pos <= src.len()
        via spec_scan_decreases
{
    if pos >= src.len() {
        ScanResult { tokens: Seq::<TokenV>::empty(), log: Seq::<Seq<char>>::empty(), line }
    } else {
        let c = src[pos as int];
        if c == '.' {
            scan_cons(
                Option::Some(
                    spec_token_at(src, pos, pos + 1, TokenType::Empty, LiteralV::NoValue, line),
                ),
                Option::None,
                spec_scan(src, pos + 1, line),
            )
        } else if c == ',' {
            scan_cons(
                Option::Some(
                    spec_token_at(src, pos, pos + 1, TokenType::Next, LiteralV::NoValue, line),
                ),
                Option::None,
                spec_scan(src, pos + 1, line),
            )
        } else if 'A' <= c && c <= 'G' {
            let to = if pos + 1 < src.len() && (src[pos + 1 as int] == 'b' || src[pos + 1 as int] == '#') {
                pos + 2
            } else {
                pos + 1
            };
            scan_cons(
                Option::Some(spec_token_at(src, pos, to, TokenType::Note, LiteralV::NoValue, line)),
                Option::None,
                spec_scan(src, to, line),
            )
        } else if c == ':' || c == ';' {
            let spread_type = if c == ':' {
                TokenType::SpreadEmpty
            } else {
                TokenType::SpreadNext
            };
            let to = digit_run_end(src, pos + 1);
            let text = src.subrange(pos as int + 1, to as int);
            match spec_parse_u32(text) {
                Result::Ok(n) => scan_cons(
                    Option::Some(spec_token_at(src, pos, to, spread_type, LiteralV::Number(n), line)),
                    Option::None,
                    spec_scan(src, to, line),
                ),
                Result::Err(e) => scan_cons(
                    Option::None,
                    Option::Some(spec_error_entry(line, spec_msg_bad_spread(text, spread_type, e))),
                    spec_scan(src, to, line),
                ),
            }
        } else if c == '\n' {
            spec_scan(src, pos + 1, (line + 1) as u32)
        } else if c as u32 <= 32 {
            spec_scan(src, pos + 1, line)
        } else if c == '[' {
            let stop = options_stop(src, pos + 1);
            let new_line = (line + count_newlines(src, pos + 1, stop)) as u32;
            if stop >= src.len() {
                scan_cons(
                    Option::None,
                    Option::Some(spec_error_entry(new_line, spec_msg_unterminated())),
                    spec_scan(src, stop, new_line),
                )
            } else {
                scan_cons(
                    Option::Some(
                        spec_token_at(
                            src,
                            pos,
                            stop + 1,
                            TokenType::Options,
                            LiteralV::Options(src.subrange(pos as int + 1, stop as int)),
                            new_line,
                        ),
                    ),
                    Option::None,
                    spec_scan(src, stop + 1, new_line),
                )
            }
        } else if spec_is_digit(c) {
            let to = digit_run_end(src, pos + 1);
            let text = src.subrange(pos as int, to as int);
            match spec_parse_u32(text) {
                Result::Ok(n) => scan_cons(
                    Option::Some(
                        spec_token_at(src, pos, to, TokenType::Number, LiteralV::Number(n), line),
                    ),
                    Option::None,
                    spec_scan(src, to, line),
                ),
                Result::Err(e) => scan_cons(
                    Option::None,
                    Option::Some(spec_error_entry(line, spec_msg_bad_number(text, e))),
                    spec_scan(src, to, line),
                ),
            }
        } else {
            scan_cons(
                Option::None,
                Option::Some(spec_error_entry(line, spec_msg_unknown_char(c))),
                spec_scan(src, pos + 1, line),
            )
        }
    }
}

#[via_fn]
proof fn spec_scan_decreases(src: Seq<char>, pos: nat, line: u32) {
    if pos < src.len() {
        lemma_digit_run_end_bounds(src, pos + 1);
        lemma_options_stop_bounds(src, pos + 1);
    }
}

/// The end-of-file token closing every token sequence.
pub open spec fn spec_eof_token(line: u32) -> TokenV {
    TokenV {
        type_of: TokenType::EndOfFile,
        value: Seq::<char>::empty(),
        literal: LiteralV::NoValue,
        line,
    }
}

/// The full tokenization of a source: the scan from its start, closed
/// by one end-of-file token, along with the error entries.
pub open spec fn spec_tokenize(src: Seq<char>) -> (Seq<TokenV>, Seq<Seq<char>>) {
    let r = spec_scan(src, 0, 1);
    (r.tokens.push(spec_eof_token(r.line)), r.log)
}

/// Whether the scan from `pos` meets only recognized characters and
/// well-formed lexemes: every spread marker is followed by a count
/// that fits a `u32`, every digit run fits a `u32`, and every options
/// opening is closed before the end of the source.
pub open spec fn scan_clean(src: Seq<char>, pos: nat) -> bool
    recommends
        pos <= src.len(),
    decreases src.len() - pos,
        when pos <= src.len()
        via scan_clean_decreases
{
    if pos >= src.len() {
        true
    } else {
        let c = src[pos as int];
        if c == '.' || c == ',' {
            scan_clean(src, pos + 1)
        } else if 'A' <= c && c <= 'G' {
            let to = if pos + 1 < src.len() && (src[pos + 1 as int] == 'b' || src[pos + 1 as int]
                == '#') {
                pos + 2
            } else {
                pos + 1
            };
            scan_clean(src, to)
        } else if c == ':' || c == ';' {
            let to = digit_run_end(src, pos + 1);
            spec_parse_u32(src.subrange(pos as int + 1, to as int)) is Ok && scan_clean(src, to)
        } else if c as u32 <= 32 {
            scan_clean(src, pos + 1)
        } else if c == '[' {
            let stop = options_stop(src, pos + 1);
            stop < src.len() && scan_clean(src, stop + 1)
        } else if spec_is_digit(c) {
            let to = digit_run_end(src, pos + 1);
            spec_parse_u32(src.subrange(pos as int, to as int)) is Ok && scan_clean(src, to)
        } else {
            false
        }
    }
}

#[via_fn]
proof fn scan_clean_decreases(src: Seq<char>, pos: nat) {
    if pos < src.len() {
        lemma_digit_run_end_bounds(src, pos + 1);
        lemma_options_stop_bounds(src, pos + 1);
    }
}

/// A clean scan logs no error.
proof fn lemma_scan_no_errors(src: Seq<char>, pos: nat, line: u32)
    requires
        pos <= src.len(),
        scan_clean(src, pos),
    ensures
        spec_scan(src, pos, line).log.len() == 0,
    decreases src.len() - pos,
{
    if pos < src.len() {
        let c = src[pos as int];
        if c == '.' || c == ',' {
            lemma_scan_no_errors(src, pos + 1, line);
        } else if 'A' <= c && c <= 'G' {
            let to = if pos + 1 < src.len() && (src[pos + 1 as int] == 'b' || src[pos + 1 as int]
                == '#') {
                pos + 2
            } else {
                pos + 1
            };
            lemma_scan_no_errors(src, to, line);
        } else if c == ':' || c == ';' {
            lemma_digit_run_end_bounds(src, pos + 1);
            lemma_scan_no_errors(src, digit_run_end(src, pos + 1), line);
        } else if c == '\n' {
            lemma_scan_no_errors(src, pos + 1, (line + 1) as u32);
        } else if c as u32 <= 32 {
            lemma_scan_no_errors(src, pos + 1, line);
        } else if c == '[' {
            lemma_options_stop_bounds(src, pos + 1);
            let stop = options_stop(src, pos + 1);
            assert(stop < src.len());
            lemma_scan_no_errors(src, stop + 1, (line + count_newlines(src, pos + 1, stop)) as u32);
        } else {
            assert(spec_is_digit(c));
            lemma_digit_run_end_bounds(src, pos + 1);
            assert(digit_run_end(src, pos) == digit_run_end(src, pos + 1));
            lemma_scan_no_errors(src, digit_run_end(src, pos + 1), line);
        }
    }
}

/// Tokenizing any source yields a nonempty sequence whose last token
/// is the end-of-file token.
pub proof fn lemma_tokenize_ends_with_eof(src: Seq<char>)
    ensures
        spec_tokenize(src).0.len() >= 1,
        spec_tokenize(src).0.last().type_of == TokenType::EndOfFile,
{
}

/// Tokenizing a source of recognized characters never fails: when the
/// scan is clean — every character opens a recognized lexeme, spread
/// counts are present and fit a `u32`, digit runs fit a `u32`, and
/// every options block is closed — no error is logged, and the token
/// sequence is produced, ending in the end-of-file token.
pub proof fn lemma_tokenize_total(src: Seq<char>)
    requires
        scan_clean(src, 0),
    ensures
        spec_tokenize(src).1.len() == 0,
        spec_tokenize(src).0.len() >= 1,
        spec_tokenize(src).0.last().type_of == TokenType::EndOfFile,
{
    lemma_scan_no_errors(src, 0, 1);
}

/// An options block opened and never closed by the end of the source
/// yields exactly one lexical error and no token at all: the scan
/// consumes the rest of the source.
pub proof fn lemma_unterminated_options(src: Seq<char>, pos: nat, line: u32)
    requires
        pos < src.len(),
        src[pos as int] == '[',
        options_stop(src, pos + 1) >= src.len(),
    ensures
        spec_scan(src, pos, line).log.len() == 1,
        spec_scan(src, pos, line).tokens.len() == 0,
{
    lemma_options_stop_bounds(src, pos + 1);
    let stop = options_stop(src, pos + 1);
    assert(stop == src.len());
    let new_line = (line + count_newlines(src, pos + 1, stop)) as u32;
    assert(spec_scan(src, stop, new_line).log.len() == 0);
    assert(spec_scan(src, stop, new_line).tokens.len() == 0);
    assert(spec_scan(src, pos, line) == scan_cons(
        Option::None,
        Option::Some(spec_error_entry(new_line, spec_msg_unterminated())),
        spec_scan(src, stop, new_line),
    ));
}

/// Newlines in a range are no more than its characters.
pub proof fn lemma_count_newlines_le(src: Seq<char>, from: nat, to: nat)
    requires
        from <= to <= src.len(),
    ensures
        count_newlines(src, from, to) <= to - from,
    decreases to,
{
    if to > from {
        lemma_count_newlines_le(src, from, (to - 1) as nat);
    }
}

/// Keeps track of the position within the source text of a [`Lexer`].
struct Cursor {
    start: u32,
    current: u32,
    line: u32,
    length: usize,
}

impl Cursor {
    /// Creates a cursor over `length` characters, at the beginning of
    /// line one.
    fn new(length: usize) -> (c: Cursor)
        ensures
            c.start == 0 && c.current == 0 && c.line == 1 && c.length == length,
    {
        Cursor { start: 0, current: 0, line: 1, length }
    }

    /// Whether the cursor has passed the last character.
    fn is_at_end(&self) -> (r: bool)
        requires
            self.length + 1 <= u32::MAX,
        ensures
            r == (self.current >= self.length),
    {
        self.current >= self.length as u32
    }
}

/// The mathematical value of a [`Lexer`].
pub ghost struct LexerV {
    /// The characters of the source.
    pub source: Seq<char>,
    /// The tokens scanned so far.
    pub tokens: Seq<TokenV>,
    /// Where the current lexeme begins.
    pub start: u32,
    /// The next character to read.
    pub current: u32,
    /// The current 1-based source line.
    pub line: u32,
    /// The formatted error entries logged so far.
    pub log: Seq<Seq<char>>,
    /// Whether any error was logged.
    pub had_error: bool,
}

/// Well-formedness of a lexer: the cursor lies within the source, the
/// line counter has room for the characters left, the error flag
/// agrees with the log, and the token list is either untouched (the
/// scan has not run) or the full tokenization of the source.
pub open spec fn lexer_wf(l: LexerV) -> bool {
    &&& l.start <= l.current <= l.source.len()
    &&& l.source.len() + 1 <= u32::MAX as nat
    &&& l.line as nat + (l.source.len() - l.current) <= u32::MAX as nat
    &&& l.had_error == (l.log.len() > 0)
    &&& (l.tokens.len() == 0 ==> l.current == 0 && l.line == 1 && l.log.len() == 0)
    &&& (l.tokens.len() > 0 ==> l.tokens == spec_tokenize(l.source).0 && l.log == spec_tokenize(
        l.source,
    ).1)
}

/// The lexical analyzer: generates tokens from a source string.
pub struct Lexer {
    source: String,
    tokens: Vec<Token>,
    cursor: Cursor,
    watcher: Watcher,
}

impl View for Lexer {
    type V = LexerV;

    closed spec fn view(&self) -> LexerV {
        LexerV {
            source: self.source@,
            tokens: token_views(self.tokens@),
            start: self.cursor.start,
            current: self.cursor.current,
            line: self.cursor.line,
            log: self.watcher@.log,
            had_error: self.watcher@.had_error,
        }
    }
}

impl Lexer {
    /// Well-formedness of the lexer: the cursor's recorded length is
    /// the source's, and the view is well formed.
    pub closed spec fn wf(&self) -> bool {
        self.cursor.length == self.source@.len() && lexer_wf(self@)
    }

    /// Creates a lexer over the given source. The source must leave
    /// the 32-bit line counter room for one line per character.
    pub fn new(source: String) -> (l: Lexer)
        requires
            source@.len() + 1 <= u32::MAX as nat,
        ensures
            l@.source == source@,
            l@.tokens == Seq::<TokenV>::empty(),
            l@.log == Seq::<Seq<char>>::empty(),
            l.wf(),
    {
        let length = source.as_str().unicode_len();
        let l = Lexer {
            source,
            tokens: Vec::new(),
            cursor: Cursor::new(length),
            watcher: Watcher::new(),
        };
        proof {
            assert(token_views(l.tokens@) =~= Seq::<TokenV>::empty());
        }
        l
    }

    /// Reads the character under the cursor and moves past it.
    fn advance(&mut self) -> (c: char)
        requires
            old(self)@.current < old(self)@.source.len(),
            old(self)@.source.len() + 1 <= u32::MAX as nat,
            old(self).cursor.length == old(self)@.source.len(),
        ensures
            c == old(self)@.source[old(self)@.current as int],
            final(self)@ == (LexerV { current: (old(self)@.current + 1) as u32, ..old(self)@ }),
            final(self).cursor.length == old(self).cursor.length,
    {
        let current: usize = self.cursor.current as usize;
        self.cursor.current = self.cursor.current + 1;
        self.source.as_str().get_char(current)
    }

    /// Looks at the character under the cursor, or a NUL character at
    /// the end of the source.
    fn peek(&self) -> (c: char)
        requires
            self.cursor.length == self@.source.len(),
            self.cursor.length + 1 <= u32::MAX,
        ensures
            c == if self@.current < self@.source.len() {
                self@.source[self@.current as int]
            } else {
                '\u{0}'
            },
    {
        if self.cursor.is_at_end() {
            '\u{0}'
        } else {
            self.source.as_str().get_char(self.cursor.current as usize)
        }
    }

    /// Consumes a `b` or `#` note modifier when one follows.
    fn next_matches_modifier(&mut self) -> (r: bool)
        requires
            old(self).cursor.length == old(self)@.source.len(),
            old(self).cursor.length + 1 <= u32::MAX,
            old(self)@.current < u32::MAX,
        ensures
            r == (old(self)@.current < old(self)@.source.len() && (old(self)@.source[old(
                self,
            )@.current as int] == 'b' || old(self)@.source[old(self)@.current as int] == '#')),
            final(self)@ == (LexerV {
                current: if r {
                    (old(self)@.current + 1) as u32
                } else {
                    old(self)@.current
                },
                ..old(self)@
            }),
            final(self).cursor.length == old(self).cursor.length,
    {
        let c = self.peek();
        if c == 'b' || c == '#' {
            self.cursor.current = self.cursor.current + 1;
            true
        } else {
            false
        }
    }

    /// Moves the cursor past the run of digits under it.
    fn skip_digits(&mut self)
        requires
            old(self).cursor.length == old(self)@.source.len(),
            old(self)@.source.len() + 1 <= u32::MAX as nat,
            old(self)@.current <= old(self)@.source.len(),
        ensures
            final(self)@ == (LexerV {
                current: digit_run_end(old(self)@.source, old(self)@.current as nat) as u32,
                ..old(self)@
            }),
            final(self).cursor.length == old(self).cursor.length,
            old(self)@.current <= final(self)@.current,
    {
        let ghost src = self@.source;
        let ghost c0 = self@.current as nat;
        proof {
            lemma_digit_run_end_bounds(src, c0);
        }
        loop
            invariant
                self.cursor.length == self@.source.len(),
                self@.source == src,
                src.len() + 1 <= u32::MAX as nat,
                c0 <= self@.current <= src.len(),
                digit_run_end(src, c0) == digit_run_end(src, self@.current as nat),
                self@.tokens == old(self)@.tokens,
                self@.log == old(self)@.log,
                self@.had_error == old(self)@.had_error,
                self@.line == old(self)@.line,
                self@.start == old(self)@.start,
            ensures
                self.cursor.length == self@.source.len(),
                self@.source == src,
                self@.current as nat == digit_run_end(src, c0),
                self@.tokens == old(self)@.tokens,
                self@.log == old(self)@.log,
                self@.had_error == old(self)@.had_error,
                self@.line == old(self)@.line,
                self@.start == old(self)@.start,
            decreases src.len() - self@.current,
        {
            let c = self.peek();
            if !crate::text::is_digit(c) {
                proof {
                    assert(digit_run_end(src, self@.current as nat) == self@.current as nat);
                }
                break;
            }
            self.advance();
        }
    }

    /// Adds a spread token: the digits after the marker give the
    /// repeat count. A missing or oversized count is logged as an
    /// error instead.
    fn spread(&mut self, spread_type: TokenType)
        requires
            old(self).cursor.length == old(self)@.source.len(),
            old(self)@.source.len() + 1 <= u32::MAX as nat,
            old(self)@.current == old(self)@.start + 1,
            old(self)@.current <= old(self)@.source.len(),
        ensures
            final(self).cursor.length == old(self).cursor.length,
            ({
                let src = old(self)@.source;
                let to = digit_run_end(src, old(self)@.current as nat);
                let text = src.subrange(old(self)@.current as int, to as int);
                match spec_parse_u32(text) {
                    Result::Ok(n) => final(self)@ == (LexerV {
                        current: to as u32,
                        tokens: old(self)@.tokens.push(
                            spec_token_at(
                                src,
                                old(self)@.start as nat,
                                to,
                                spread_type,
                                LiteralV::Number(n),
                                old(self)@.line,
                            ),
                        ),
                        ..old(self)@
                    }),
                    Result::Err(e) => final(self)@ == (LexerV {
                        current: to as u32,
                        log: old(self)@.log.push(
                            spec_error_entry(
                                old(self)@.line,
                                spec_msg_bad_spread(text, spread_type, e),
                            ),
                        ),
                        had_error: true,
                        ..old(self)@
                    }),
                }
            }),
    {
        proof {
            lemma_digit_run_end_bounds(old(self)@.source, old(self)@.current as nat);
        }
        self.skip_digits();
        let text = self.source.as_str().substring_char(
            self.cursor.start as usize + 1,
            self.cursor.current as usize,
        ).to_owned();
        match crate::text::parse_u32(text.as_str()) {
            Ok(num_literal) => {
                self.add_token(spread_type, Literal::Number(num_literal));
            },
            Err(e) => {
                let mut m = String::new();
                m.append("Could not parse amount \"");
                m.append(text.as_str());
                m.append("\" for \"");
                m.append(spread_type.name());
                m.append("\": ");
                m.append(e.text());
                proof {
                    assert(m@ =~= spec_msg_bad_spread(text@, spread_type, e));
                }
                let line = self.cursor.line;
                self.watcher.error(line, m);
            },
        }
    }

    /// Adds a number token spanning all contiguous digits. A number
    /// too large for its literal is logged as an error instead.
    fn number(&mut self)
        requires
            old(self).cursor.length == old(self)@.source.len(),
            old(self)@.source.len() + 1 <= u32::MAX as nat,
            old(self)@.current == old(self)@.start + 1,
            old(self)@.current <= old(self)@.source.len(),
        ensures
            final(self).cursor.length == old(self).cursor.length,
            ({
                let src = old(self)@.source;
                let to = digit_run_end(src, old(self)@.current as nat);
                let text = src.subrange(old(self)@.start as int, to as int);
                match spec_parse_u32(text) {
                    Result::Ok(n) => final(self)@ == (LexerV {
                        current: to as u32,
                        tokens: old(self)@.tokens.push(
                            spec_token_at(
                                src,
                                old(self)@.start as nat,
                                to,
                                TokenType::Number,
                                LiteralV::Number(n),
                                old(self)@.line,
                            ),
                        ),
                        ..old(self)@
                    }),
                    Result::Err(e) => final(self)@ == (LexerV {
                        current: to as u32,
                        log: old(self)@.log.push(
                            spec_error_entry(old(self)@.line, spec_msg_bad_number(text, e)),
                        ),
                        had_error: true,
                        ..old(self)@
                    }),
                }
            }),
    {
        proof {
            lemma_digit_run_end_bounds(old(self)@.source, old(self)@.current as nat);
        }
        self.skip_digits();
        let text = self.source.as_str().substring_char(
            self.cursor.start as usize,
            self.cursor.current as usize,
        ).to_owned();
        match crate::text::parse_u32(text.as_str()) {
            Ok(num_literal) => {
                self.add_token(TokenType::Number, Literal::Number(num_literal));
            },
            Err(e) => {
                let mut m = String::new();
                m.append("String \"");
                m.append(text.as_str());
                m.append("\" could not be parsed into a number: ");
                m.append(e.text());
                proof {
                    assert(m@ =~= spec_msg_bad_number(text@, e));
                }
                let line = self.cursor.line;
                self.watcher.error(line, m);
            },
        }
    }

    /// Scans an options block up to its closing bracket, tracking
    /// embedded newlines; a block never closed is logged as an error
    /// at the line where scanning stopped.
    fn options(&mut self)
        requires
            old(self).cursor.length == old(self)@.source.len(),
            old(self)@.source.len() + 1 <= u32::MAX as nat,
            old(self)@.current == old(self)@.start + 1,
            old(self)@.current <= old(self)@.source.len(),
            old(self)@.line as nat + (old(self)@.source.len() - old(self)@.current)
                <= u32::MAX as nat,
        ensures
            final(self).cursor.length == old(self).cursor.length,
            ({
                let src = old(self)@.source;
                let c0 = old(self)@.current as nat;
                let stop = options_stop(src, c0);
                let nl = count_newlines(src, c0, stop);
                let new_line = (old(self)@.line + nl) as u32;
                if stop >= src.len() {
                    final(self)@ == (LexerV {
                        current: stop as u32,
                        line: new_line,
                        log: old(self)@.log.push(
                            spec_error_entry(new_line, spec_msg_unterminated()),
                        ),
                        had_error: true,
                        ..old(self)@
                    })
                } else {
                    final(self)@ == (LexerV {
                        current: (stop + 1) as u32,
                        line: new_line,
                        tokens: old(self)@.tokens.push(
                            spec_token_at(
                                src,
                                old(self)@.start as nat,
                                stop + 1,
                                TokenType::Options,
                                LiteralV::Options(src.subrange(c0 as int, stop as int)),
                                (old(self)@.line + nl) as u32,
                            ),
                        ),
                        ..old(self)@
                    })
                }
            }),
    {
        let ghost src = self@.source;
        let ghost c0 = self@.current as nat;
        let ghost line0 = self@.line;
        proof {
            lemma_options_stop_bounds(src, c0);
        }
        loop
            invariant
                self.cursor.length == self@.source.len(),
                self@.source == src,
                src.len() + 1 <= u32::MAX as nat,
                line0 as nat + (src.len() - c0) <= u32::MAX as nat,
                c0 <= self@.current <= src.len(),
                options_stop(src, c0) == options_stop(src, self@.current as nat),
                self@.line as nat == line0 as nat + count_newlines(src, c0, self@.current as nat),
                self@.line as nat + (src.len() - self@.current) <= line0 as nat + (src.len()
                    - c0),
                self@.tokens == old(self)@.tokens,
                self@.log == old(self)@.log,
                self@.had_error == old(self)@.had_error,
                self@.start == old(self)@.start,
            ensures
                self.cursor.length == self@.source.len(),
                self@.source == src,
                c0 <= self@.current <= src.len(),
                self@.current as nat == options_stop(src, c0),
                self@.line as nat == line0 as nat + count_newlines(src, c0, self@.current as nat),
                self@.line as nat + (src.len() - self@.current) <= line0 as nat + (src.len()
                    - c0),
                self@.tokens == old(self)@.tokens,
                self@.log == old(self)@.log,
                self@.had_error == old(self)@.had_error,
                self@.start == old(self)@.start,
            decreases src.len() - self@.current,
        {
            let c = self.peek();
            if c == ']' {
                proof {
                    assert(options_stop(src, self@.current as nat) == self@.current as nat);
                }
                break;
            }
            if self.cursor.is_at_end() {
                proof {
                    assert(options_stop(src, self@.current as nat) == self@.current as nat);
                }
                break;
            }
            if c == '\n' {
                self.cursor.line = self.cursor.line + 1;
            }
            self.advance();
        }
        proof {
            lemma_options_stop_bounds(src, self@.current as nat);
        }
        if self.cursor.is_at_end() {
            let mut m = String::new();
            m.append("Unterminated options sequence. Close options sequences with \"]\".");
            proof {
                assert(m@ =~= spec_msg_unterminated());
            }
            let line = self.cursor.line;
            self.watcher.error(line, m);
        } else {
            self.advance();
            let lit = self.source.as_str().substring_char(
                self.cursor.start as usize + 1,
                self.cursor.current as usize - 1,
            ).to_owned();
            self.add_token(TokenType::Options, Literal::Options(lit));
        }
    }

    /// Adds a token whose text runs from the lexeme start to the
    /// cursor.
    fn add_token(&mut self, type_of: TokenType, literal: Literal)
        requires
            old(self)@.start <= old(self)@.current <= old(self)@.source.len(),
        ensures
            final(self)@ == (LexerV {
                tokens: old(self)@.tokens.push(
                    spec_token_at(
                        old(self)@.source,
                        old(self)@.start as nat,
                        old(self)@.current as nat,
                        type_of,
                        literal@,
                        old(self)@.line,
                    ),
                ),
                ..old(self)@
            }),
            final(self).cursor.length == old(self).cursor.length,
    {
        let text = self.source.as_str().substring_char(
            self.cursor.start as usize,
            self.cursor.current as usize,
        ).to_owned();
        let line = self.cursor.line;
        self.tokens.push(Token::new(type_of, text, literal, line));
        proof {
            assert(token_views(self.tokens@) =~= token_views(old(self).tokens@).push(
                spec_token_at(
                    old(self)@.source,
                    old(self)@.start as nat,
                    old(self)@.current as nat,
                    type_of,
                    literal@,
                    old(self)@.line,
                ),
            ));
        }
    }

    /// Consumes the next lexeme: one token, one error entry, or
    /// nothing, as the character dispatch decides.
    #[verifier::rlimit(60)]
    fn consume_next(&mut self)
        requires
            old(self).cursor.length == old(self)@.source.len(),
            old(self)@.source.len() + 1 <= u32::MAX as nat,
            old(self)@.start == old(self)@.current,
            old(self)@.current < old(self)@.source.len(),
            old(self)@.line as nat + (old(self)@.source.len() - old(self)@.current)
                <= u32::MAX as nat,
            old(self)@.had_error == (old(self)@.log.len() > 0),
        ensures
            final(self).cursor.length == old(self).cursor.length,
            final(self)@.source == old(self)@.source,
            final(self)@.start == old(self)@.start,
            old(self)@.current < final(self)@.current <= old(self)@.source.len(),
            final(self)@.line as nat + (old(self)@.source.len() - final(self)@.current) <= old(
                self,
            )@.line as nat + (old(self)@.source.len() - old(self)@.current),
            final(self)@.had_error == (final(self)@.log.len() > 0),
            old(self)@.tokens + spec_scan(
                old(self)@.source,
                old(self)@.current as nat,
                old(self)@.line,
            ).tokens =~= final(self)@.tokens + spec_scan(
                old(self)@.source,
                final(self)@.current as nat,
                final(self)@.line,
            ).tokens,
            old(self)@.log + spec_scan(
                old(self)@.source,
                old(self)@.current as nat,
                old(self)@.line,
            ).log =~= final(self)@.log + spec_scan(
                old(self)@.source,
                final(self)@.current as nat,
                final(self)@.line,
            ).log,
            spec_scan(old(self)@.source, old(self)@.current as nat, old(self)@.line).line
                == spec_scan(old(self)@.source, final(self)@.current as nat, final(self)@.line).line,
    {
        let ghost src = self@.source;
        let ghost pos = self@.current as nat;
        let ghost line0 = self@.line;
        let c: char = self.advance();
        if c == '.' {
            self.add_token(TokenType::Empty, Literal::NoValue);
        } else if c == ',' {
            self.add_token(TokenType::Next, Literal::NoValue);
        } else if 'A' <= c && c <= 'G' {
            let modified = self.next_matches_modifier();
            if modified {
                self.add_token(TokenType::Note, Literal::NoValue);
            } else {
                self.add_token(TokenType::Note, Literal::NoValue);
            }
        } else if c == ':' {
            self.spread(TokenType::SpreadEmpty);
            proof {
                lemma_digit_run_end_bounds(src, pos + 1);
            }
        } else if c == ';' {
            self.spread(TokenType::SpreadNext);
            proof {
                lemma_digit_run_end_bounds(src, pos + 1);
            }
        } else if c == '\n' {
            self.cursor.line = self.cursor.line + 1;
        } else if (c as u32) <= 32 {
            // whitespace and control characters yield nothing
        } else if c == '[' {
            self.options();
            proof {
                lemma_options_stop_bounds(src, pos + 1);
                lemma_count_newlines_le(src, pos + 1, options_stop(src, pos + 1));
            }
        } else if crate::text::is_digit(c) {
            self.number();
            proof {
                lemma_digit_run_end_bounds(src, pos + 1);
            }
        } else {
            let mut m = String::new();
            m.append("Unknown character value: ");
            crate::text::push_char(&mut m, c);
            proof {
                assert(m@ =~= spec_msg_unknown_char(c));
            }
            let line = self.cursor.line;
            self.watcher.error(line, m);
        }
    }

    /// Returns the token sequence scanned from the source, scanning it
    /// on the first call and reusing it afterwards. The sequence
    /// always ends with one end-of-file token. When any lexical error
    /// was logged, the newline-joined error text is returned instead.
    pub fn generate_tokens(&mut self) -> (r: Result<&Vec<Token>, String>)
        requires
            old(self).wf(),
        ensures
            final(self).wf(),
            final(self)@.source == old(self)@.source,
            final(self)@.tokens == spec_tokenize(old(self)@.source).0,
            final(self)@.tokens.len() > 0,
            final(self)@.log == spec_tokenize(old(self)@.source).1,
            old(self)@.tokens.len() > 0 ==> final(self)@ == old(self)@,
            r is Ok <==> spec_tokenize(old(self)@.source).1.len() == 0,
            (r matches Ok(v) ==> token_views(v@) == spec_tokenize(old(self)@.source).0),
            (r matches Err(e) ==> e@ == spec_error_text(spec_tokenize(old(self)@.source).1)),
    {
        let ghost src = self@.source;
        if self.tokens.is_empty() {
            while !self.cursor.is_at_end()
                invariant
                    self.cursor.length == self@.source.len(),
                    self@.source == src,
                    src.len() + 1 <= u32::MAX as nat,
                    self@.start <= self@.current <= src.len(),
                    self@.line as nat + (src.len() - self@.current) <= u32::MAX as nat,
                    self@.had_error == (self@.log.len() > 0),
                    spec_scan(src, 0, 1).tokens =~= self@.tokens + spec_scan(
                        src,
                        self@.current as nat,
                        self@.line,
                    ).tokens,
                    spec_scan(src, 0, 1).log =~= self@.log + spec_scan(
                        src,
                        self@.current as nat,
                        self@.line,
                    ).log,
                    spec_scan(src, 0, 1).line == spec_scan(
                        src,
                        self@.current as nat,
                        self@.line,
                    ).line,
                decreases src.len() - self@.current,
            {
                self.cursor.start = self.cursor.current;
                self.consume_next();
            }
            let line = self.cursor.line;
            self.tokens.push(Token::new(TokenType::EndOfFile, String::new(), Literal::NoValue, line));
            proof {
                assert(spec_scan(src, self@.current as nat, line) == (ScanResult {
                    tokens: Seq::<TokenV>::empty(),
                    log: Seq::<Seq<char>>::empty(),
                    line,
                }));
                assert(token_views(self.tokens@) =~= spec_scan(src, 0, 1).tokens.push(
                    spec_eof_token(spec_scan(src, 0, 1).line),
                ));
                assert(self@.log =~= spec_scan(src, 0, 1).log);
            }
        }
        if self.watcher.has_error() {
            Err(self.watcher.error_text())
        } else {
            Ok(&self.tokens)
        }
    }
}

} // verus!
