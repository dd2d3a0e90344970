//! Core value types of the notation: literals, token kinds, tokens, and
//! the error collector shared by the scanning and rendering stages.

use vstd::prelude::*;

use crate::text::{spec_join, spec_u32_string, u32_to_string};

verus! {

/// The literal carried by a token: a parsed number, the text of an
/// options block, or nothing.
#[derive(Debug)]
pub enum Literal {
    /// A literal number.
    Number(u32),
    /// A literal string of options.
    Options(String),
    /// No literal.
    NoValue,
}

/// The mathematical value of a [`Literal`].
pub ghost enum LiteralV {
    /// A literal number.
    Number(u32),
    /// The characters of an options block.
    Options(Seq<char>),
    /// No literal.
    NoValue,
}

impl View for Literal {
    type V = LiteralV;

    open spec fn view(&self) -> LiteralV {
        match self {
            Literal::Number(n) => LiteralV::Number(*n),
            Literal::Options(s) => LiteralV::Options(s@),
            Literal::NoValue => LiteralV::NoValue,
        }
    }
}

impl PartialEq for Literal {
    fn eq(&self, other: &Literal) -> bool {
        match (self, other) {
            (Literal::Number(a), Literal::Number(b)) => *a == *b,
            (Literal::Options(a), Literal::Options(b)) => *a == *b,
            (Literal::NoValue, Literal::NoValue) => true,
            _ => false,
        }
    }
}

impl vstd::std_specs::cmp::PartialEqSpecImpl for Literal {
    open spec fn obeys_eq_spec() -> bool {
        true
    }

    open spec fn eq_spec(&self, other: &Literal) -> bool {
        self@ == other@
    }
}

/// The kind of a token.
#[derive(Debug, Clone, Copy, PartialEq, Eq, Structural)]
pub enum TokenType {
    /// A single character standing for one blank cell: `.`
    Empty,
    /// A single character that fills the rest of the current beat: `,`
    Next,
    /// A one- or two-character note name: `[A-G][b#]?`
    Note,
    /// A repeat count of blank cells: `:[0-9]+`
    SpreadEmpty,
    /// A repeat count of next commands: `;[0-9]+`
    SpreadNext,
    /// A number: `[0-9]+`
    Number,
    /// An options block: `[time=4/4; fidelity=16]`
    Options,
    /// The end of the source.
    EndOfFile,
}

/// The display name of a token kind.
pub open spec fn spec_token_type_name(t: TokenType) -> Seq<char> {
    match t {
        TokenType::Empty => "Empty"@,
        TokenType::Next => "Next"@,
        TokenType::Note => "Note"@,
        TokenType::SpreadEmpty => "Spread Empty"@,
        TokenType::SpreadNext => "Spread Next"@,
        TokenType::Number => "Number"@,
        TokenType::Options => "Options"@,
        TokenType::EndOfFile => "EndOfFile"@,
    }
}

impl TokenType {
    /// The display name of this token kind.
    pub fn name(&self) -> (r: &'static str)
        ensures
            r@ == spec_token_type_name(*self),
    {
        match self {
            TokenType::Empty => "Empty",
            TokenType::Next => "Next",
            TokenType::Note => "Note",
            TokenType::SpreadEmpty => "Spread Empty",
            TokenType::SpreadNext => "Spread Next",
            TokenType::Number => "Number",
            TokenType::Options => "Options",
            TokenType::EndOfFile => "EndOfFile",
        }
    }
}

/// The mathematical value of a [`Token`].
pub ghost struct TokenV {
    /// The token's kind.
    pub type_of: TokenType,
    /// The characters read from the source.
    pub value: Seq<char>,
    /// The token's literal.
    pub literal: LiteralV,
    /// The 1-based source line the token was found on.
    pub line: u32,
}

/// A token scanned from a notation source.
#[derive(Debug)]
pub struct Token {
    /// The token's type.
    pub type_of: TokenType,
    /// The token's value; the text as it was read from the source.
    pub value: String,
    /// The literal representation of the token's value, or
    /// `Literal::NoValue` when the token carries none.
    pub literal: Literal,
    /// The line the token was found on in the source.
    pub line: u32,
}

impl View for Token {
    type V = TokenV;

    open spec fn view(&self) -> TokenV {
        TokenV { type_of: self.type_of, value: self.value@, literal: self.literal@, line: self.line }
    }
}

impl Token {
    /// Creates a new token.
    pub fn new(type_of: TokenType, value: String, literal: Literal, line: u32) -> (r: Token)
        ensures
            r@ == (TokenV { type_of, value: value@, literal: literal@, line }),
    {
        Token { type_of, value, literal, line }
    }
}

impl PartialEq for Token {
    fn eq(&self, other: &Token) -> bool {
        self.type_of == other.type_of && self.value == other.value && self.literal == other.literal
            && self.line == other.line
    }
}

impl vstd::std_specs::cmp::PartialEqSpecImpl for Token {
    open spec fn obeys_eq_spec() -> bool {
        true
    }

    open spec fn eq_spec(&self, other: &Token) -> bool {
        self@ == other@
    }
}

/// One formatted entry of the error log: `[<line>] Error: <message>`.
pub open spec fn spec_error_entry(line: u32, message: Seq<char>) -> Seq<char> {
    seq!['['] + spec_u32_string(line as nat) + "] Error: "@ + message
}

/// The newline-joined text of an error log.
pub open spec fn spec_error_text(log: Seq<Seq<char>>) -> Seq<char> {
    spec_join(log, seq!['\n'])
}

/// The mathematical value of a [`Watcher`].
pub ghost struct WatcherV {
    /// The formatted error entries, in the order they were logged.
    pub log: Seq<Seq<char>>,
    /// Whether any error was logged.
    pub had_error: bool,
}

/// Collects line-tagged error messages for one stage.
pub struct Watcher {
    error_log: Vec<String>,
    /// Whether any error was logged.
    pub had_error: bool,
}

impl View for Watcher {
    type V = WatcherV;

    closed spec fn view(&self) -> WatcherV {
        WatcherV {
            log: self.error_log@.map_values(|e: String| e@),
            had_error: self.had_error,
        }
    }
}

impl Watcher {
    /// Creates a new watcher with an empty log.
    pub fn new() -> (w: Watcher)
        ensures
            w@ == (WatcherV { log: Seq::<Seq<char>>::empty(), had_error: false }),
    {
        let w = Watcher { error_log: Vec::new(), had_error: false };
        proof {
            assert(w@.log =~= Seq::<Seq<char>>::empty());
        }
        w
    }

    /// Logs an error found at `line`.
    pub fn error(&mut self, line: u32, message: String)
        ensures
            final(self)@ == (WatcherV {
                log: old(self)@.log.push(spec_error_entry(line, message@)),
                had_error: true,
            }),
    {
        let mut entry = String::new();
        entry.append("[");
        let line_text = u32_to_string(line);
        entry.append(line_text.as_str());
        entry.append("] Error: ");
        entry.append(message.as_str());
        proof {
            reveal_strlit("[");
            reveal_strlit("] Error: ");
            assert(entry@ =~= spec_error_entry(line, message@));
        }
        self.error_log.push(entry);
        self.had_error = true;
        proof {
            assert(self@.log =~= old(self)@.log.push(spec_error_entry(line, message@)));
        }
    }

    /// Whether any error has been logged.
    pub fn has_error(&self) -> (r: bool)
        ensures
            r == self@.had_error,
    {
        self.had_error
    }

    /// The newline-joined text of all logged errors.
    pub fn error_text(&self) -> (r: String)
        ensures
            r@ == spec_error_text(self@.log),
    {
        let mut parts: Vec<String> = Vec::new();
        let mut i: usize = 0;
        while i < self.error_log.len()
            invariant
                0 <= i <= self.error_log@.len(),
                parts@.len() == i,
                forall|j: int| 0 <= j < i ==> parts@[j]@ == self@.log[j],
            decreases self.error_log@.len() - i,
        {
            parts.push(self.error_log[i].clone());
            i = i + 1;
        }
        let r = crate::text::join_strings(&parts, "\n");
        proof {
            reveal_strlit("\n");
            assert("\n"@ =~= seq!['\n']);
            assert(crate::text::string_views(parts@) =~= self@.log);
        }
        r
    }
}

} // verus!
