//! The renderer: drives a staff manager token by token and serializes
//! the resulting tablature text, collecting option errors as it goes.

use vstd::prelude::*;

use crate::data::{
    spec_error_entry, spec_error_text, Literal, LiteralV, Token, TokenType, TokenV, Watcher,
};
use crate::lexer::token_views;
use crate::manager::{
    manager_can_add, manager_note_ok, manager_wf, spec_manager_add_cell, spec_manager_add_next,
    spec_manager_add_note, spec_manager_add_spread_empty, spec_manager_add_spread_next,
    spec_manager_text, ManagerV, StaffManager,
};
use crate::options::spec_apply_options;
use crate::staff::{spec_empty_cell, spec_tab_cell};
use crate::time::TimeV;

verus! {

/// The manager a render starts from: no staffs, default options.
pub open spec fn spec_manager_new() -> ManagerV {
    ManagerV {
        staffs: Seq::<crate::staff::StaffV>::empty(),
        options: TimeV {
            beats_per_measure: 4,
            dominant_beat: 4,
            fidelity: 16,
            current_beat: 0,
            total_beats_counted: 0,
        },
    }
}

/// Whether one token can be applied without the beat arithmetic
/// leaving its machine bounds: a note may have to create a staff whose
/// measure must fit, and cells need a positive resolution and room in
/// the beat counter.
pub open spec fn token_ok(m: ManagerV, t: TokenV) -> bool {
    match t.type_of {
        TokenType::Note => manager_note_ok(m),
        TokenType::Number => manager_can_add(m, 1),
        TokenType::Empty => manager_can_add(m, 1),
        TokenType::Next => manager_can_add(m, 1),
        TokenType::SpreadEmpty => (t.literal matches LiteralV::Number(amt) ==> manager_can_add(
            m,
            amt as nat,
        )),
        TokenType::SpreadNext => (t.literal matches LiteralV::Number(amt) ==> manager_can_add(
            m,
            amt as nat,
        )),
        TokenType::Options => true,
        TokenType::EndOfFile => true,
    }
}

/// The manager after one token, and the error entries the token logs:
/// a bad options block yields one entry, tagged with the token's line,
/// holding the concatenated per-segment errors after a newline.
pub open spec fn spec_apply_token(m: ManagerV, t: TokenV) -> (ManagerV, Seq<Seq<char>>) {
    match t.type_of {
        TokenType::Note => (spec_manager_add_note(m, t.value), Seq::<Seq<char>>::empty()),
        TokenType::Number => (
            spec_manager_add_cell(m, spec_tab_cell(t.value)),
            Seq::<Seq<char>>::empty(),
        ),
        TokenType::Empty => (
            spec_manager_add_cell(m, spec_empty_cell()),
            Seq::<Seq<char>>::empty(),
        ),
        TokenType::Next => (spec_manager_add_next(m), Seq::<Seq<char>>::empty()),
        TokenType::SpreadEmpty => (
            match t.literal {
                LiteralV::Number(amt) => spec_manager_add_spread_empty(m, amt as nat),
                _ => m,
            },
            Seq::<Seq<char>>::empty(),
        ),
        TokenType::SpreadNext => (
            match t.literal {
                LiteralV::Number(amt) => spec_manager_add_spread_next(m, amt as nat),
                _ => m,
            },
            Seq::<Seq<char>>::empty(),
        ),
        TokenType::Options => (
            match t.literal {
                LiteralV::Options(ops) => ManagerV {
                    options: spec_apply_options(m.options, ops).0,
                    ..m
                },
                _ => m,
            },
            match t.literal {
                LiteralV::Options(ops) => {
                    let e = spec_apply_options(m.options, ops).1;
                    if e.len() == 0 {
                        Seq::<Seq<char>>::empty()
                    } else {
                        seq![spec_error_entry(t.line, seq!['\n'] + e)]
                    }
                },
                _ => Seq::<Seq<char>>::empty(),
            },
        ),
        TokenType::EndOfFile => (m, Seq::<Seq<char>>::empty()),
    }
}

/// What a render pass produces from a manager and the tokens from `i`
/// on: the final manager, the error entries, and whether every step
/// stayed within its machine bounds.
pub ghost struct RenderResult {
    /// The manager after all tokens.
    pub manager: ManagerV,
    /// The error entries logged, in order.
    pub log: Seq<Seq<char>>,
    /// Whether every token satisfied [`token_ok`] when applied.
    pub ok: bool,
}

/// Folds the tokens from `i` on over the manager.
pub open spec fn spec_render_from(m: ManagerV, ts: Seq<TokenV>, i: int) -> RenderResult
    recommends
        0 <= i <= ts.len(),
    decreases ts.len() - i,
{
    if i < 0 || i >= ts.len() {
        RenderResult { manager: m, log: Seq::<Seq<char>>::empty(), ok: true }
    } else {
        let step_ok = token_ok(m, ts[i]);
        let (m1, e) = spec_apply_token(m, ts[i]);
        let rest = spec_render_from(m1, ts, i + 1);
        RenderResult { manager: rest.manager, log: e + rest.log, ok: step_ok && rest.ok }
    }
}

/// The full render of a token sequence, starting from a fresh manager.
pub open spec fn spec_render(ts: Seq<TokenV>) -> RenderResult {
    spec_render_from(spec_manager_new(), ts, 0)
}

/// Whether a render of these tokens stays within its machine bounds.
pub open spec fn spec_render_ok(ts: Seq<TokenV>) -> bool {
    spec_render(ts).ok
}

/// The tablature text a render of these tokens produces.
pub open spec fn spec_render_text(ts: Seq<TokenV>) -> Seq<char> {
    spec_manager_text(spec_render(ts).manager)
}

/// The error entries a render of these tokens logs.
pub open spec fn spec_render_log(ts: Seq<TokenV>) -> Seq<Seq<char>> {
    spec_render(ts).log
}

/// The mathematical value of a [`Parser`].
pub ghost struct ParserV {
    /// The views of the source tokens.
    pub source: Seq<TokenV>,
    /// The rendered text, empty until a render has run.
    pub tabs: Seq<char>,
    /// The formatted error entries logged so far.
    pub log: Seq<Seq<char>>,
    /// Whether any error was logged.
    pub had_error: bool,
}

/// Well-formedness of a parser: the error flag agrees with the log,
/// and once text exists it is the render of the source.
pub open spec fn parser_wf(p: ParserV) -> bool {
    &&& p.had_error == (p.log.len() > 0)
    &&& (p.tabs.len() > 0 ==> p.tabs == spec_render_text(p.source))
}

/// Parses a token sequence into guitar-tablature text.
pub struct Parser<'a> {
    source: &'a Vec<Token>,
    tabs: String,
    watcher: Watcher,
}

impl<'a> View for Parser<'a> {
    type V = ParserV;

    closed spec fn view(&self) -> ParserV {
        ParserV {
            source: token_views(self.source@),
            tabs: self.tabs@,
            log: self.watcher@.log,
            had_error: self.watcher@.had_error,
        }
    }
}

impl<'a> Parser<'a> {
    /// Creates a parser over the given tokens.
    pub fn new(source: &'a Vec<Token>) -> (p: Parser<'a>)
        ensures
            p@.source == token_views(source@),
            p@.tabs == Seq::<char>::empty(),
            p@.log == Seq::<Seq<char>>::empty(),
            parser_wf(p@),
    {
        Parser { source, tabs: String::new(), watcher: Watcher::new() }
    }

    /// Renders the source tokens into tablature text, on the first
    /// call; later calls return the text already rendered. When any
    /// option error was logged, the newline-joined error text is
    /// returned instead.
    pub fn generate_tabs(&mut self) -> (r: Result<&str, String>)
        requires
            parser_wf(old(self)@),
            old(self)@.tabs.len() == 0 ==> spec_render_ok(old(self)@.source),
        ensures
            parser_wf(final(self)@),
            final(self)@.source == old(self)@.source,
            old(self)@.tabs.len() > 0 ==> final(self)@ == old(self)@,
            old(self)@.tabs.len() == 0 ==> final(self)@.tabs == spec_render_text(old(self)@.source)
                && final(self)@.log == old(self)@.log + spec_render_log(old(self)@.source),
            r is Ok <==> !final(self)@.had_error,
            (r matches Ok(v) ==> v@ == final(self)@.tabs),
            (r matches Err(e) ==> e@ == spec_error_text(final(self)@.log)),
    {
        let ghost ts = self@.source;
        let source = self.source;
        if self.tabs.as_str().unicode_len() == 0 {
            let ghost log0 = self@.log;
            let mut staff_manager = StaffManager::new();
            let n = source.len();
            let mut i: usize = 0;
            while i < n
                invariant
                    self@.source == ts,
                    ts == token_views(source@),
                    n == source@.len(),
                    0 <= i <= n,
                    manager_wf(staff_manager@),
                    spec_render(ts).manager == spec_render_from(
                        staff_manager@,
                        ts,
                        i as int,
                    ).manager,
                    log0 + spec_render(ts).log =~= self@.log + spec_render_from(
                        staff_manager@,
                        ts,
                        i as int,
                    ).log,
                    spec_render_from(staff_manager@, ts, i as int).ok,
                    self@.had_error == (self@.log.len() > 0),
                    self@.tabs == old(self)@.tabs,
                decreases n - i,
            {
                proof {
                    assert(ts[i as int] == source@[i as int]@);
                }
                let ghost m_i = staff_manager@;
                let ghost log_i = self@.log;
                let token = &source[i];
                match token.type_of {
                    TokenType::Note => {
                        staff_manager.add_note(token.value.clone());
                    },
                    TokenType::Number => {
                        staff_manager.add_tab(&token.value);
                    },
                    TokenType::Empty => {
                        staff_manager.add_empty();
                    },
                    TokenType::Next => {
                        staff_manager.add_next();
                    },
                    TokenType::SpreadEmpty => {
                        match &token.literal {
                            Literal::Number(amt) => {
                                staff_manager.add_spread_empty(*amt);
                            },
                            _ => {},
                        }
                    },
                    TokenType::SpreadNext => {
                        match &token.literal {
                            Literal::Number(amt) => {
                                staff_manager.add_spread_next(*amt);
                            },
                            _ => {},
                        }
                    },
                    TokenType::Options => {
                        match &token.literal {
                            Literal::Options(ops) => {
                                match staff_manager.set_options(ops.as_str()) {
                                    Ok(()) => {},
                                    Err(e) => {
                                        let mut m = String::new();
                                        m.append("\n");
                                        m.append(e.as_str());
                                        proof {
                                            reveal_strlit("\n");
                                            assert(m@ =~= seq!['\n'] + e@);
                                        }
                                        let line = token.line;
                                        self.watcher.error(line, m);
                                    },
                                }
                            },
                            _ => {},
                        }
                    },
                    TokenType::EndOfFile => {},
                }
                proof {
                    assert(staff_manager@ == spec_apply_token(m_i, ts[i as int]).0);
                    assert(self@.log =~= log_i + spec_apply_token(m_i, ts[i as int]).1);
                    assert(spec_render_from(m_i, ts, i as int).manager == spec_render_from(
                        staff_manager@,
                        ts,
                        i + 1,
                    ).manager);
                    assert(spec_render_from(m_i, ts, i as int).log =~= spec_apply_token(
                        m_i,
                        ts[i as int],
                    ).1 + spec_render_from(staff_manager@, ts, i + 1).log);
                    assert(log0 + spec_render(ts).log =~= self@.log + spec_render_from(
                        staff_manager@,
                        ts,
                        i + 1,
                    ).log);
                }
                i = i + 1;
            }
            self.tabs = staff_manager.render();
        }
        if self.watcher.has_error() {
            Err(self.watcher.error_text())
        } else {
            Ok(self.tabs.as_str())
        }
    }
}

} // verus!
