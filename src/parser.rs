use vstd::prelude::*;
use crate::lexer::{class_of, next_spec, Lexer, Token, TokenView};
use crate::parsetable::{
    action_of, build_json_action_table, build_json_goto_table, find_action, goto_of,
    json_action_rows, json_goto_rows, lemma_reductions_pop_twice_rhs, productions, Action,
    ActionTable, ActionTablePair, ActionView, GotoTable, GotoTablePair,
};

verus! {

/// The nonterminals of the JSON grammar. `EOF` stands for the end of input
/// where a nonterminal is expected and takes part in no production.
#[derive(PartialEq, Eq, Structural, Hash, Clone, Copy, Debug)]
pub enum Symbol {
    Object,
    Pair,
    Pairs,
    PairsTail,
    Value,
    Array,
    Elements,
    ElementsTail,
    EOF,
}

/// A state of the automaton.
#[derive(PartialEq, Eq, Structural, Hash, Clone, Copy, Debug)]
pub struct State(pub usize);

/// An entry of the parser's stack.
#[derive(Debug)]
pub enum StackValue {
    StackState(State),
    StackSymbol(Symbol),
    StackToken(Token),
}

/// The mathematical value of a [`StackValue`].
pub ghost enum EntryView {
    State(nat),
    Symbol(Symbol),
    Token(TokenView),
}

impl View for StackValue {
    type V = EntryView;

    open spec fn view(&self) -> EntryView {
        match self {
            StackValue::StackState(s) => EntryView::State(s.0 as nat),
            StackValue::StackSymbol(s) => EntryView::Symbol(*s),
            StackValue::StackToken(t) => EntryView::Token(t@),
        }
    }
}

/// Why a parse failed.
#[derive(Debug)]
pub enum ParseError {
    /// The action table has no entry for the state and the class of the
    /// token that was seen there.
    SyntaxError(State, Token),
    /// A string literal runs to the end of the text without its closing
    /// quote, so the lexer produced no token.
    UnterminatedLiteral,
    /// A reduction would remove more entries than the stack holds, or would
    /// leave no state on top of it.
    StackInvariantViolation,
    /// The parse took more moves than its bound, which is linear in the
    /// length of the text.
    ResourceExhausted,
}

/// The mathematical value of a [`ParseError`].
pub ghost enum ParseErrorView {
    SyntaxError(nat, TokenView),
    UnterminatedLiteral,
    StackInvariantViolation,
    ResourceExhausted,
}

impl View for ParseError {
    type V = ParseErrorView;

    open spec fn view(&self) -> ParseErrorView {
        match self {
            ParseError::SyntaxError(s, t) => ParseErrorView::SyntaxError(s.0 as nat, t@),
            ParseError::UnterminatedLiteral => ParseErrorView::UnterminatedLiteral,
            ParseError::StackInvariantViolation => ParseErrorView::StackInvariantViolation,
            ParseError::ResourceExhausted => ParseErrorView::ResourceExhausted,
        }
    }
}

pub open spec fn result_view(r: Result<(), ParseError>) -> Result<(), ParseErrorView> {
    match r {
        Ok(()) => Ok(()),
        Err(e) => Err(e@),
    }
}

/// A configuration of the automaton: its current state, its stack, and the
/// lexer's cursor.
pub ghost struct Config {
    pub state: nat,
    pub stack: Seq<EntryView>,
    pub cursor: int,
}

/// One move of the automaton from configuration `c` over `text`, with the
/// action table `actions` and the goto table `gotos`: the outcome, if the
/// parse ends with this move, and the configuration after it.
///
/// A nonterminal on top of the stack with a goto entry moves to the goto's
/// target. Otherwise the next token is peeked and its class looked up: a
/// shift pushes the token and the target state and consumes the token; a
/// reduction removes its entries, returns to the state then on top and
/// pushes the nonterminal; accept ends the parse with success.
pub open spec fn advance(
    actions: Seq<Seq<(TokenView, ActionView)>>,
    gotos: Seq<Seq<(Symbol, nat)>>,
    text: Seq<char>,
    c: Config,
) -> (Option<Result<(), ParseErrorView>>, Config) {
    let goto = if c.stack.len() > 0 && c.stack.last() is Symbol {
        goto_of(gotos, c.state, c.stack.last()->Symbol_0)
    } else {
        None
    };
    if goto is Some {
        let t = goto->Some_0;
        (None, Config { state: t, stack: c.stack.push(EntryView::State(t)), cursor: c.cursor })
    } else {
        let peek = next_spec(text, c.cursor, false);
        let here = Config { state: c.state, stack: c.stack, cursor: peek.1 };
        if peek.0 is None {
            (Some(Err(ParseErrorView::UnterminatedLiteral)), here)
        } else {
            let token = peek.0->Some_0;
            match action_of(actions, c.state, class_of(token)) {
                None => (Some(Err(ParseErrorView::SyntaxError(c.state, token))), here),
                Some(ActionView::Accept) => (Some(Ok(())), here),
                Some(ActionView::Shift(_, s)) => (
                    None,
                    Config {
                        state: s,
                        stack: c.stack.push(EntryView::Token(token)).push(EntryView::State(s)),
                        cursor: next_spec(text, peek.1, true).1,
                    },
                ),
                Some(ActionView::Reduce(n, symbol)) => {
                    if n > c.stack.len() {
                        (Some(Err(ParseErrorView::StackInvariantViolation)), here)
                    } else {
                        let rest = c.stack.take(c.stack.len() - n);
                        if rest.len() > 0 && rest.last() is State {
                            let q = rest.last()->State_0;
                            (None, Config { state: q, stack: rest.push(EntryView::Symbol(symbol)), cursor: peek.1 })
                        } else {
                            (Some(Err(ParseErrorView::StackInvariantViolation)), here)
                        }
                    }
                },
            }
        }
    }
}

/// The outcome of at most `fuel` moves from `c`, and the configuration
/// where they end; running out of moves is `ResourceExhausted`.
pub open spec fn run(
    actions: Seq<Seq<(TokenView, ActionView)>>,
    gotos: Seq<Seq<(Symbol, nat)>>,
    text: Seq<char>,
    c: Config,
    fuel: nat,
) -> (Result<(), ParseErrorView>, Config)
    decreases fuel,
{
    if fuel == 0 {
        (Err(ParseErrorView::ResourceExhausted), c)
    } else {
        let m = advance(actions, gotos, text, c);
        match m.0 {
            Some(r) => (r, m.1),
            None => run(actions, gotos, text, m.1, (fuel - 1) as nat),
        }
    }
}

/// Moves per character of text allowed to one call of `step`.
pub const MOVES_PER_CHAR: usize = 16;

/// Moves allowed to one call of `step` besides those per character.
pub const MOVES_BASE: usize = 64;

/// The number of moves that one call of `step` may make on a text of `n`
/// characters.
pub open spec fn move_limit(n: nat) -> nat {
    if n <= (usize::MAX as int - MOVES_BASE as int) / (MOVES_PER_CHAR as int) {
        (MOVES_PER_CHAR as int * n + MOVES_BASE as int) as nat
    } else {
        usize::MAX as nat
    }
}

/// The stack holds a state at the bottom and then, in alternation, a grammar
/// element (a nonterminal or a token) and the state reached over it.
pub open spec fn alternates(stack: Seq<EntryView>) -> bool {
    &&& stack.len() % 2 == 1
    &&& forall|i: int| 0 <= i < stack.len() ==> (#[trigger] stack[i] is State <==> i % 2 == 0)
}

/// The stack alternates, or does so below a nonterminal that a reduction
/// has just pushed and that waits for its goto.
pub open spec fn well_shaped(stack: Seq<EntryView>) -> bool {
    alternates(stack) || (stack.len() > 0 && stack.last() is Symbol && alternates(stack.drop_last()))
}

proof fn lemma_found_action_in_row(row: Seq<(TokenView, ActionView)>, token: TokenView)
    requires
        find_action(row, token) is Some,
    ensures
        exists|i: int| 0 <= i < row.len() && #[trigger] row[i].1 == find_action(row, token)->Some_0,
    decreases row.len(),
{
    if row.last().0 != token {
        lemma_found_action_in_row(row.drop_last(), token);
        let i = choose|i: int| 0 <= i < row.len() - 1 && #[trigger] row.drop_last()[i].1 == find_action(row.drop_last(), token)->Some_0;
        assert(row[i] == row.drop_last()[i]);
    } else {
        assert(row[row.len() - 1].1 == find_action(row, token)->Some_0);
    }
}

/// A move of the JSON automaton that does not end the parse keeps the stack
/// well shaped, unless a nonterminal on top has no goto from the state
/// below it: shifts and gotos push an element and a state, and every
/// reduction removes an even number of entries.
pub proof fn lemma_move_keeps_stack_shape(text: Seq<char>, c: Config)
    requires
        well_shaped(c.stack),
        c.stack.len() > 0 && c.stack.last() is Symbol ==> goto_of(json_goto_rows(), c.state, c.stack.last()->Symbol_0) is Some,
    ensures
        advance(json_action_rows(), json_goto_rows(), text, c).0 is None
            ==> well_shaped(advance(json_action_rows(), json_goto_rows(), text, c).1.stack),
{
    let m = advance(json_action_rows(), json_goto_rows(), text, c);
    let st = c.stack;
    if m.0 is None {
        let ns = m.1.stack;
        if st.len() > 0 && st.last() is Symbol {
            assert(ns == st.push(EntryView::State(ns.last()->State_0)));
            assert forall|i: int| 0 <= i < ns.len() implies (#[trigger] ns[i] is State <==> i % 2 == 0) by {
                if i < st.len() - 1 {
                    assert(ns[i] == st.drop_last()[i]);
                }
            }
        } else {
            let peek = next_spec(text, c.cursor, false);
            let token = peek.0->Some_0;
            let a = action_of(json_action_rows(), c.state, class_of(token))->Some_0;
            match a {
                ActionView::Shift(_, s) => {
                    assert forall|i: int| 0 <= i < ns.len() implies (#[trigger] ns[i] is State <==> i % 2 == 0) by {
                        if i < st.len() {
                            assert(ns[i] == st[i]);
                        }
                    }
                },
                ActionView::Reduce(n, symbol) => {
                    let row = json_action_rows()[c.state as int];
                    lemma_found_action_in_row(row, class_of(token));
                    let i = choose|i: int| 0 <= i < row.len() && #[trigger] row[i].1 == a;
                    lemma_reductions_pop_twice_rhs(c.state as int, i);
                    let k = choose|k: int| 0 <= k < productions().len() && #[trigger] productions()[k].0 == symbol && n == 2 * productions()[k].1.len();
                    let rest = st.take(st.len() - n);
                    assert(rest.len() % 2 == 1);
                    assert(ns.drop_last() == rest);
                    assert forall|j: int| 0 <= j < rest.len() implies (#[trigger] rest[j] is State <==> j % 2 == 0) by {
                        assert(rest[j] == st[j]);
                    }
                },
                ActionView::Accept => {},
            }
        }
    }
}

/// The shift-reduce parser: the two tables, the current state, the stack and
/// the lexer it reads from.
pub struct Parser {
    goto: GotoTable,
    action: ActionTable,
    state: State,
    stack: Vec<StackValue>,
    lexer: Lexer,
}

impl Parser {
    /// The action table in use.
    pub closed spec fn actions(&self) -> Seq<Seq<(TokenView, ActionView)>> {
        self.action@
    }

    /// The goto table in use.
    pub closed spec fn gotos(&self) -> Seq<Seq<(Symbol, nat)>> {
        self.goto@
    }

    /// The text being parsed.
    pub closed spec fn text(&self) -> Seq<char> {
        self.lexer.text()
    }

    /// The current configuration of the automaton.
    pub closed spec fn config(&self) -> Config {
        Config {
            state: self.state.0 as nat,
            stack: self.stack@.map_values(|e: StackValue| e@),
            cursor: self.lexer.pos(),
        }
    }

    /// The lexer's cursor stays within the text.
    pub closed spec fn wf(&self) -> bool {
        self.lexer.wf()
    }

    /// A parser at the start state of the JSON automaton, with only that
    /// state on its stack, reading from `lexer`.
    pub fn new(lexer: Lexer) -> (r: Parser)
        requires
            lexer.wf(),
        ensures
            r.wf(),
            r.actions() == json_action_rows(),
            r.gotos() == json_goto_rows(),
            r.text() == lexer.text(),
            r.config() == (Config { state: 0, stack: seq![EntryView::State(0)], cursor: lexer.pos() }),
    {
        let mut p = Parser {
            goto: build_json_goto_table(),
            action: build_json_action_table(),
            state: State(0),
            stack: Vec::new(),
            lexer,
        };
        p.stack.push(StackValue::StackState(State(0)));
        assert(p.config().stack =~= seq![EntryView::State(0)]);
        p
    }

    /// Runs the automaton from its current configuration until it accepts or
    /// fails, or has made `move_limit` moves for the length of the text.
    pub fn step(&mut self) -> (r: Result<(), ParseError>)
        requires
            old(self).wf(),
        ensures
            final(self).wf(),
            final(self).actions() == old(self).actions(),
            final(self).gotos() == old(self).gotos(),
            final(self).text() == old(self).text(),
            (result_view(r), final(self).config()) == run(
                old(self).actions(),
                old(self).gotos(),
                old(self).text(),
                old(self).config(),
                move_limit(old(self).text().len()),
            ),
    {
        let ghost actions = self.actions();
        let ghost gotos = self.gotos();
        let ghost text = self.text();
        let ghost start = self.config();
        let n = self.lexer.len();
        let mut fuel: usize = if n <= (usize::MAX - MOVES_BASE) / MOVES_PER_CHAR {
            MOVES_PER_CHAR * n + MOVES_BASE
        } else {
            usize::MAX
        };
        loop
            invariant
                self.wf(),
                actions == old(self).actions(),
                gotos == old(self).gotos(),
                text == old(self).text(),
                start == old(self).config(),
                self.actions() == actions,
                self.gotos() == gotos,
                self.text() == text,
                run(actions, gotos, text, start, move_limit(text.len()))
                    == run(actions, gotos, text, self.config(), fuel as nat),
            decreases fuel,
        {
            if fuel == 0 {
                return Err(ParseError::ResourceExhausted);
            }
            let ghost c = self.config();
            let ghost m = advance(actions, gotos, text, c);
            fuel = fuel - 1;
            let len = self.stack.len();
            let mut target: Option<State> = None;
            if len > 0 {
                match &self.stack[len - 1] {
                    StackValue::StackSymbol(sym) => {
                        target = self.goto.get(&GotoTablePair::new(self.state, *sym));
                    },
                    _ => {},
                }
            }
            match target {
                Some(t) => {
                    self.stack.push(StackValue::StackState(t));
                    self.state = t;
                    assert(self.config().stack =~= m.1.stack);
                },
                None => {
                    let peeked = self.lexer.next_token(false);
                    let token = match peeked {
                        None => {
                            return Err(ParseError::UnterminatedLiteral);
                        },
                        Some(t) => t,
                    };
                    let key = ActionTablePair::new(self.state, token.classify());
                    match self.action.get(&key) {
                        None => {
                            return Err(ParseError::SyntaxError(self.state, token));
                        },
                        Some(Action::Accept) => {
                            return Ok(());
                        },
                        Some(Action::Shift(_, s)) => {
                            let s = *s;
                            self.stack.push(StackValue::StackToken(token));
                            self.stack.push(StackValue::StackState(s));
                            self.state = s;
                            let _ = self.lexer.next_token(true);
                            assert(self.config().stack =~= m.1.stack);
                        },
                        Some(Action::Reduce(n, sym)) => {
                            let n = *n;
                            let sym = *sym;
                            if n >= len {
                                return Err(ParseError::StackInvariantViolation);
                            }
                            let q = match &self.stack[len - n - 1] {
                                StackValue::StackState(q) => *q,
                                _ => {
                                    return Err(ParseError::StackInvariantViolation);
                                },
                            };
                            self.stack.truncate(len - n);
                            assert(self.config().stack =~= c.stack.take(c.stack.len() - n));
                            self.state = q;
                            self.stack.push(StackValue::StackSymbol(sym));
                            assert(self.config().stack =~= m.1.stack);
                        },
                    }
                },
            }
        }
    }
}

} // verus!
