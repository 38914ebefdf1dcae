use vstd::prelude::*;
use crate::lexer::{Token, TokenView};
use crate::parser::{State, Symbol};

verus! {

/// The number of states of the automaton that the tables describe.
pub const NUM_STATES: usize = 28;

/// One element of a production's right-hand side.
pub ghost enum Element {
    Terminal(TokenView),
    Nonterminal(Symbol),
}

/// The productions of the JSON grammar, each a left-hand side and its
/// right-hand side; terminal classes stand for any string and any number.
pub open spec fn productions() -> Seq<(Symbol, Seq<Element>)> {
    seq![
        (Symbol::Object, seq![Element::Terminal(TokenView::BeginObject), Element::Nonterminal(Symbol::Pairs), Element::Terminal(TokenView::EndObject)]),
        (Symbol::Pairs, seq![Element::Nonterminal(Symbol::Pair), Element::Nonterminal(Symbol::PairsTail)]),
        (Symbol::Pairs, Seq::empty()),
        (Symbol::PairsTail, seq![Element::Terminal(TokenView::ValueSeparator), Element::Nonterminal(Symbol::Pair), Element::Nonterminal(Symbol::PairsTail)]),
        (Symbol::PairsTail, Seq::empty()),
        (Symbol::Pair, seq![Element::Terminal(TokenView::StringMatch), Element::Terminal(TokenView::NameSeparator), Element::Nonterminal(Symbol::Value)]),
        (Symbol::Value, seq![Element::Nonterminal(Symbol::Object)]),
        (Symbol::Value, seq![Element::Nonterminal(Symbol::Array)]),
        (Symbol::Value, seq![Element::Terminal(TokenView::StringMatch)]),
        (Symbol::Value, seq![Element::Terminal(TokenView::NumberMatch)]),
        (Symbol::Value, seq![Element::Terminal(TokenView::True)]),
        (Symbol::Value, seq![Element::Terminal(TokenView::False)]),
        (Symbol::Value, seq![Element::Terminal(TokenView::Null)]),
        (Symbol::Array, seq![Element::Terminal(TokenView::BeginArray), Element::Nonterminal(Symbol::Elements), Element::Terminal(TokenView::EndArray)]),
        (Symbol::Elements, seq![Element::Nonterminal(Symbol::Value), Element::Nonterminal(Symbol::ElementsTail)]),
        (Symbol::Elements, Seq::empty()),
        (Symbol::ElementsTail, seq![Element::Terminal(TokenView::ValueSeparator), Element::Nonterminal(Symbol::Value), Element::Nonterminal(Symbol::ElementsTail)]),
        (Symbol::ElementsTail, Seq::empty()),
    ]
}

/// The key of an action table entry: a state and a terminal class.
#[derive(Debug)]
pub struct ActionTablePair {
    pub state: State,
    pub token: Token,
}

impl ActionTablePair {
    pub fn new(state: State, token: Token) -> (r: ActionTablePair)
        ensures
            r.state == state,
            r.token@ == token@,
    {
        ActionTablePair { state, token }
    }
}

/// The key of a goto table entry: a state and a nonterminal.
#[derive(PartialEq, Eq, Structural, Hash, Debug)]
pub struct GotoTablePair {
    pub state: State,
    pub symbol: Symbol,
}

impl GotoTablePair {
    pub fn new(state: State, symbol: Symbol) -> (r: GotoTablePair)
        ensures
            r.state == state,
            r.symbol == symbol,
    {
        GotoTablePair { state, symbol }
    }
}

/// The value of the last entry for `symbol` in a row of the table: an entry
/// added for a key already present replaces it.
pub open spec fn find_goto(row: Seq<(Symbol, nat)>, symbol: Symbol) -> Option<nat>
    decreases row.len(),
{
    if row.len() == 0 {
        None
    } else if row.last().0 == symbol {
        Some(row.last().1)
    } else {
        find_goto(row.drop_last(), symbol)
    }
}

/// The target of the goto table `rows` for `state` and `symbol`.
pub open spec fn goto_of(rows: Seq<Seq<(Symbol, nat)>>, state: nat, symbol: Symbol) -> Option<nat> {
    if state < rows.len() {
        find_goto(rows[state as int], symbol)
    } else {
        None
    }
}

/// The goto table, a row of (nonterminal, target) entries for each state.
pub struct GotoTable {
    rows: Vec<Vec<(Symbol, State)>>,
}

impl View for GotoTable {
    type V = Seq<Seq<(Symbol, nat)>>;

    closed spec fn view(&self) -> Seq<Seq<(Symbol, nat)>> {
        Seq::new(self.rows@.len(), |i: int| Seq::new(self.rows@[i]@.len(), |j: int| (self.rows@[i]@[j].0, self.rows@[i]@[j].1.0 as nat)))
    }
}

impl GotoTable {
    /// A table with `n` states and no entries.
    pub fn with_states(n: usize) -> (r: GotoTable)
        ensures
            r@.len() == n,
            forall|i: int| 0 <= i < n ==> (#[trigger] r@[i]).len() == 0,
    {
        let mut rows: Vec<Vec<(Symbol, State)>> = Vec::new();
        let mut i: usize = 0;
        while i < n
            invariant
                i <= n,
                rows@.len() == i,
                forall|k: int| 0 <= k < i ==> (#[trigger] rows@[k])@.len() == 0,
            decreases n - i,
        {
            rows.push(Vec::new());
            i = i + 1;
        }
        GotoTable { rows }
    }

    /// Adds an entry, which replaces any entry for the same key.
    pub fn insert(&mut self, key: GotoTablePair, target: State)
        requires
            key.state.0 < old(self)@.len(),
        ensures
            final(self)@ == old(self)@.update(key.state.0 as int, old(self)@[key.state.0 as int].push((key.symbol, target.0 as nat))),
    {
        let i = key.state.0;
        let mut row = self.rows.remove(i);
        row.push((key.symbol, target));
        self.rows.insert(i, row);
        assert(self@ =~~= old(self)@.update(i as int, old(self)@[i as int].push((key.symbol, target.0 as nat))));
    }

    /// The target for a key, if the table holds one.
    pub fn get(&self, key: &GotoTablePair) -> (r: Option<State>)
        ensures
            match r {
                Some(s) => goto_of(self@, key.state.0 as nat, key.symbol) == Some(s.0 as nat),
                None => goto_of(self@, key.state.0 as nat, key.symbol) is None,
            },
    {
        let i = key.state.0;
        if i >= self.rows.len() {
            return None;
        }
        let row = &self.rows[i];
        let ghost rv = self@[i as int];
        let mut j: usize = row.len();
        assert(rv.take(j as int) =~= rv);
        while j > 0
            invariant
                i == key.state.0,
                i < self@.len(),
                j <= row@.len(),
                rv.len() == row@.len(),
                rv == self@[i as int],
                forall|k: int| 0 <= k < row@.len() ==> (#[trigger] rv[k]) == (row@[k].0, row@[k].1.0 as nat),
                find_goto(rv, key.symbol) == find_goto(rv.take(j as int), key.symbol),
            decreases j,
        {
            assert(rv.take(j as int).drop_last() =~= rv.take(j - 1));
            assert(rv.take(j as int).last() == rv[j - 1]);
            if row[j - 1].0 == key.symbol {
                return Some(row[j - 1].1);
            }
            j = j - 1;
        }
        assert(rv.take(0) =~= Seq::<_>::empty());
        None
    }
}

/// What the automaton does on a lookahead class in a state.
pub enum Action {
    Shift(Token, State),
    Reduce(usize, Symbol),
    Accept,
}

/// The mathematical value of an [`Action`]: a shift names the target state,
/// a reduction the number of stack entries it removes and the nonterminal it
/// produces.
pub ghost enum ActionView {
    Shift(TokenView, nat),
    Reduce(nat, Symbol),
    Accept,
}

impl View for Action {
    type V = ActionView;

    open spec fn view(&self) -> ActionView {
        match self {
            Action::Shift(t, s) => ActionView::Shift(t@, s.0 as nat),
            Action::Reduce(n, s) => ActionView::Reduce(*n as nat, *s),
            Action::Accept => ActionView::Accept,
        }
    }
}

/// The value of the last entry for `token` in a row of the table: an entry
/// added for a key already present replaces it.
pub open spec fn find_action(row: Seq<(TokenView, ActionView)>, token: TokenView) -> Option<ActionView>
    decreases row.len(),
{
    if row.len() == 0 {
        None
    } else if row.last().0 == token {
        Some(row.last().1)
    } else {
        find_action(row.drop_last(), token)
    }
}

/// The action of the action table `rows` for `state` and `token`.
pub open spec fn action_of(rows: Seq<Seq<(TokenView, ActionView)>>, state: nat, token: TokenView) -> Option<ActionView> {
    if state < rows.len() {
        find_action(rows[state as int], token)
    } else {
        None
    }
}

/// The action table, a row of (lookahead class, action) entries for each
/// state.
pub struct ActionTable {
    rows: Vec<Vec<(Token, Action)>>,
}

impl View for ActionTable {
    type V = Seq<Seq<(TokenView, ActionView)>>;

    closed spec fn view(&self) -> Seq<Seq<(TokenView, ActionView)>> {
        Seq::new(self.rows@.len(), |i: int| Seq::new(self.rows@[i]@.len(), |j: int| (self.rows@[i]@[j].0@, self.rows@[i]@[j].1@)))
    }
}

impl ActionTable {
    /// A table with `n` states and no entries.
    pub fn with_states(n: usize) -> (r: ActionTable)
        ensures
            r@.len() == n,
            forall|i: int| 0 <= i < n ==> (#[trigger] r@[i]).len() == 0,
    {
        let mut rows: Vec<Vec<(Token, Action)>> = Vec::new();
        let mut i: usize = 0;
        while i < n
            invariant
                i <= n,
                rows@.len() == i,
                forall|k: int| 0 <= k < i ==> (#[trigger] rows@[k])@.len() == 0,
            decreases n - i,
        {
            rows.push(Vec::new());
            i = i + 1;
        }
        ActionTable { rows }
    }

    /// Adds an entry, which replaces any entry for the same key.
    pub fn insert(&mut self, key: ActionTablePair, action: Action)
        requires
            key.state.0 < old(self)@.len(),
        ensures
            final(self)@ == old(self)@.update(key.state.0 as int, old(self)@[key.state.0 as int].push((key.token@, action@))),
    {
        let i = key.state.0;
        let mut row = self.rows.remove(i);
        row.push((key.token, action));
        self.rows.insert(i, row);
        assert(self@ =~~= old(self)@.update(i as int, old(self)@[i as int].push((key.token@, action@))));
    }

    /// The action for a key, if the table holds one.
    pub fn get(&self, key: &ActionTablePair) -> (r: Option<&Action>)
        ensures
            match r {
                Some(a) => action_of(self@, key.state.0 as nat, key.token@) == Some(a@),
                None => action_of(self@, key.state.0 as nat, key.token@) is None,
            },
    {
        let i = key.state.0;
        if i >= self.rows.len() {
            return None;
        }
        let row = &self.rows[i];
        let ghost rv = self@[i as int];
        let mut j: usize = row.len();
        assert(rv.take(j as int) =~= rv);
        while j > 0
            invariant
                i == key.state.0,
                i < self@.len(),
                j <= row@.len(),
                rv.len() == row@.len(),
                rv == self@[i as int],
                forall|k: int| 0 <= k < row@.len() ==> (#[trigger] rv[k]) == (row@[k].0@, row@[k].1@),
                find_action(rv, key.token@) == find_action(rv.take(j as int), key.token@),
            decreases j,
        {
            assert(rv.take(j as int).drop_last() =~= rv.take(j - 1));
            assert(rv.take(j as int).last() == rv[j - 1]);
            if row[j - 1].0 == key.token {
                return Some(&row[j - 1].1);
            }
            j = j - 1;
        }
        assert(rv.take(0) =~= Seq::<_>::empty());
        None
    }
}

/// Adds to `table` the shift on `token` from `state` to `end_state`.
pub fn add_shift(table: &mut ActionTable, state: usize, token: Token, end_state: usize)
    requires
        state < old(table)@.len(),
    ensures
        final(table)@ == old(table)@.update(state as int, old(table)@[state as int].push((token@, ActionView::Shift(token@, end_state as nat)))),
{
    let key = ActionTablePair::new(State(state), token.duplicate());
    table.insert(key, Action::Shift(token, State(end_state)));
}

/// Adds to `table` the reduction on `token` in `state` that removes
/// `num_to_pop` stack entries and produces `production`.
pub fn add_reduce(table: &mut ActionTable, state: usize, token: Token, num_to_pop: usize, production: Symbol)
    requires
        state < old(table)@.len(),
    ensures
        final(table)@ == old(table)@.update(state as int, old(table)@[state as int].push((token@, ActionView::Reduce(num_to_pop as nat, production)))),
{
    table.insert(ActionTablePair::new(State(state), token), Action::Reduce(num_to_pop, production));
}

/// The action entries of each state of the automaton for the JSON grammar:
/// the states of the canonical LR(0) collection, with each reduction taken
/// on the lookahead classes that may follow its nonterminal.
pub open spec fn action_row(state: nat) -> Seq<(TokenView, ActionView)> {
    if state == 0 {
        seq![(TokenView::BeginObject, ActionView::Shift(TokenView::BeginObject, 2))]
    } else if state == 1 {
        seq![(TokenView::EOF, ActionView::Accept)]
    } else if state == 2 {
        seq![(TokenView::EndObject, ActionView::Reduce(0, Symbol::Pairs)), (TokenView::StringMatch, ActionView::Shift(TokenView::StringMatch, 5))]
    } else if state == 3 {
        seq![(TokenView::EndObject, ActionView::Shift(TokenView::EndObject, 6))]
    } else if state == 4 {
        seq![(TokenView::EndObject, ActionView::Reduce(0, Symbol::PairsTail)), (TokenView::ValueSeparator, ActionView::Shift(TokenView::ValueSeparator, 8))]
    } else if state == 5 {
        seq![(TokenView::NameSeparator, ActionView::Shift(TokenView::NameSeparator, 9))]
    } else if state == 6 {
        seq![(TokenView::EOF, ActionView::Reduce(6, Symbol::Object)), (TokenView::ValueSeparator, ActionView::Reduce(6, Symbol::Object)), (TokenView::EndObject, ActionView::Reduce(6, Symbol::Object)), (TokenView::EndArray, ActionView::Reduce(6, Symbol::Object))]
    } else if state == 7 {
        seq![(TokenView::EndObject, ActionView::Reduce(4, Symbol::Pairs))]
    } else if state == 8 {
        seq![(TokenView::StringMatch, ActionView::Shift(TokenView::StringMatch, 5))]
    } else if state == 9 {
        seq![(TokenView::BeginObject, ActionView::Shift(TokenView::BeginObject, 2)), (TokenView::BeginArray, ActionView::Shift(TokenView::BeginArray, 19)), (TokenView::StringMatch, ActionView::Shift(TokenView::StringMatch, 14)), (TokenView::NumberMatch, ActionView::Shift(TokenView::NumberMatch, 15)), (TokenView::True, ActionView::Shift(TokenView::True, 16)), (TokenView::False, ActionView::Shift(TokenView::False, 17)), (TokenView::Null, ActionView::Shift(TokenView::Null, 18))]
    } else if state == 10 {
        seq![(TokenView::EndObject, ActionView::Reduce(0, Symbol::PairsTail)), (TokenView::ValueSeparator, ActionView::Shift(TokenView::ValueSeparator, 8))]
    } else if state == 11 {
        seq![(TokenView::ValueSeparator, ActionView::Reduce(6, Symbol::Pair)), (TokenView::EndObject, ActionView::Reduce(6, Symbol::Pair))]
    } else if state == 12 {
        seq![(TokenView::ValueSeparator, ActionView::Reduce(2, Symbol::Value)), (TokenView::EndObject, ActionView::Reduce(2, Symbol::Value)), (TokenView::EndArray, ActionView::Reduce(2, Symbol::Value))]
    } else if state == 13 {
        seq![(TokenView::ValueSeparator, ActionView::Reduce(2, Symbol::Value)), (TokenView::EndObject, ActionView::Reduce(2, Symbol::Value)), (TokenView::EndArray, ActionView::Reduce(2, Symbol::Value))]
    } else if state == 14 {
        seq![(TokenView::ValueSeparator, ActionView::Reduce(2, Symbol::Value)), (TokenView::EndObject, ActionView::Reduce(2, Symbol::Value)), (TokenView::EndArray, ActionView::Reduce(2, Symbol::Value))]
    } else if state == 15 {
        seq![(TokenView::ValueSeparator, ActionView::Reduce(2, Symbol::Value)), (TokenView::EndObject, ActionView::Reduce(2, Symbol::Value)), (TokenView::EndArray, ActionView::Reduce(2, Symbol::Value))]
    } else if state == 16 {
        seq![(TokenView::ValueSeparator, ActionView::Reduce(2, Symbol::Value)), (TokenView::EndObject, ActionView::Reduce(2, Symbol::Value)), (TokenView::EndArray, ActionView::Reduce(2, Symbol::Value))]
    } else if state == 17 {
        seq![(TokenView::ValueSeparator, ActionView::Reduce(2, Symbol::Value)), (TokenView::EndObject, ActionView::Reduce(2, Symbol::Value)), (TokenView::EndArray, ActionView::Reduce(2, Symbol::Value))]
    } else if state == 18 {
        seq![(TokenView::ValueSeparator, ActionView::Reduce(2, Symbol::Value)), (TokenView::EndObject, ActionView::Reduce(2, Symbol::Value)), (TokenView::EndArray, ActionView::Reduce(2, Symbol::Value))]
    } else if state == 19 {
        seq![(TokenView::BeginObject, ActionView::Shift(TokenView::BeginObject, 2)), (TokenView::BeginArray, ActionView::Shift(TokenView::BeginArray, 19)), (TokenView::StringMatch, ActionView::Shift(TokenView::StringMatch, 14)), (TokenView::NumberMatch, ActionView::Shift(TokenView::NumberMatch, 15)), (TokenView::True, ActionView::Shift(TokenView::True, 16)), (TokenView::False, ActionView::Shift(TokenView::False, 17)), (TokenView::Null, ActionView::Shift(TokenView::Null, 18)), (TokenView::EndArray, ActionView::Reduce(0, Symbol::Elements))]
    } else if state == 20 {
        seq![(TokenView::EndObject, ActionView::Reduce(6, Symbol::PairsTail))]
    } else if state == 21 {
        seq![(TokenView::EndArray, ActionView::Shift(TokenView::EndArray, 23))]
    } else if state == 22 {
        seq![(TokenView::ValueSeparator, ActionView::Shift(TokenView::ValueSeparator, 25)), (TokenView::EndArray, ActionView::Reduce(0, Symbol::ElementsTail))]
    } else if state == 23 {
        seq![(TokenView::ValueSeparator, ActionView::Reduce(6, Symbol::Array)), (TokenView::EndObject, ActionView::Reduce(6, Symbol::Array)), (TokenView::EndArray, ActionView::Reduce(6, Symbol::Array))]
    } else if state == 24 {
        seq![(TokenView::EndArray, ActionView::Reduce(4, Symbol::Elements))]
    } else if state == 25 {
        seq![(TokenView::BeginObject, ActionView::Shift(TokenView::BeginObject, 2)), (TokenView::BeginArray, ActionView::Shift(TokenView::BeginArray, 19)), (TokenView::StringMatch, ActionView::Shift(TokenView::StringMatch, 14)), (TokenView::NumberMatch, ActionView::Shift(TokenView::NumberMatch, 15)), (TokenView::True, ActionView::Shift(TokenView::True, 16)), (TokenView::False, ActionView::Shift(TokenView::False, 17)), (TokenView::Null, ActionView::Shift(TokenView::Null, 18))]
    } else if state == 26 {
        seq![(TokenView::ValueSeparator, ActionView::Shift(TokenView::ValueSeparator, 25)), (TokenView::EndArray, ActionView::Reduce(0, Symbol::ElementsTail))]
    } else if state == 27 {
        seq![(TokenView::EndArray, ActionView::Reduce(6, Symbol::ElementsTail))]
    } else {
        Seq::empty()
    }
}


/// The action table of the automaton for the JSON grammar.
pub open spec fn json_action_rows() -> Seq<Seq<(TokenView, ActionView)>> {
    Seq::new(NUM_STATES as nat, |i: int| action_row(i as nat))
}

/// Builds the action table of the automaton for the JSON grammar.
#[verifier::spinoff_prover]
#[verifier::rlimit(80)]
pub fn build_json_action_table() -> (r: ActionTable)
    ensures
        r@ == json_action_rows(),
{
    let mut table = ActionTable::with_states(NUM_STATES);
    add_shift(&mut table, 0, Token::BeginObject, 2);

    table.insert(ActionTablePair::new(State(1), Token::EOF), Action::Accept);

    add_reduce(&mut table, 2, Token::EndObject, 0, Symbol::Pairs);
    add_shift(&mut table, 2, Token::StringMatch, 5);

    add_shift(&mut table, 3, Token::EndObject, 6);

    add_reduce(&mut table, 4, Token::EndObject, 0, Symbol::PairsTail);
    add_shift(&mut table, 4, Token::ValueSeparator, 8);

    add_shift(&mut table, 5, Token::NameSeparator, 9);

    add_reduce(&mut table, 6, Token::EOF, 6, Symbol::Object);
    add_reduce(&mut table, 6, Token::ValueSeparator, 6, Symbol::Object);
    add_reduce(&mut table, 6, Token::EndObject, 6, Symbol::Object);
    add_reduce(&mut table, 6, Token::EndArray, 6, Symbol::Object);

    add_reduce(&mut table, 7, Token::EndObject, 4, Symbol::Pairs);

    add_shift(&mut table, 8, Token::StringMatch, 5);

    add_shift(&mut table, 9, Token::BeginObject, 2);
    add_shift(&mut table, 9, Token::BeginArray, 19);
    add_shift(&mut table, 9, Token::StringMatch, 14);
    add_shift(&mut table, 9, Token::NumberMatch, 15);
    add_shift(&mut table, 9, Token::True, 16);
    add_shift(&mut table, 9, Token::False, 17);
    add_shift(&mut table, 9, Token::Null, 18);

    add_reduce(&mut table, 10, Token::EndObject, 0, Symbol::PairsTail);
    add_shift(&mut table, 10, Token::ValueSeparator, 8);

    add_reduce(&mut table, 11, Token::ValueSeparator, 6, Symbol::Pair);
    add_reduce(&mut table, 11, Token::EndObject, 6, Symbol::Pair);

    add_reduce(&mut table, 12, Token::ValueSeparator, 2, Symbol::Value);
    add_reduce(&mut table, 12, Token::EndObject, 2, Symbol::Value);
    add_reduce(&mut table, 12, Token::EndArray, 2, Symbol::Value);

    add_reduce(&mut table, 13, Token::ValueSeparator, 2, Symbol::Value);
    add_reduce(&mut table, 13, Token::EndObject, 2, Symbol::Value);
    add_reduce(&mut table, 13, Token::EndArray, 2, Symbol::Value);

    add_reduce(&mut table, 14, Token::ValueSeparator, 2, Symbol::Value);
    add_reduce(&mut table, 14, Token::EndObject, 2, Symbol::Value);
    add_reduce(&mut table, 14, Token::EndArray, 2, Symbol::Value);

    add_reduce(&mut table, 15, Token::ValueSeparator, 2, Symbol::Value);
    add_reduce(&mut table, 15, Token::EndObject, 2, Symbol::Value);
    add_reduce(&mut table, 15, Token::EndArray, 2, Symbol::Value);

    add_reduce(&mut table, 16, Token::ValueSeparator, 2, Symbol::Value);
    add_reduce(&mut table, 16, Token::EndObject, 2, Symbol::Value);
    add_reduce(&mut table, 16, Token::EndArray, 2, Symbol::Value);

    add_reduce(&mut table, 17, Token::ValueSeparator, 2, Symbol::Value);
    add_reduce(&mut table, 17, Token::EndObject, 2, Symbol::Value);
    add_reduce(&mut table, 17, Token::EndArray, 2, Symbol::Value);

    add_reduce(&mut table, 18, Token::ValueSeparator, 2, Symbol::Value);
    add_reduce(&mut table, 18, Token::EndObject, 2, Symbol::Value);
    add_reduce(&mut table, 18, Token::EndArray, 2, Symbol::Value);

    add_shift(&mut table, 19, Token::BeginObject, 2);
    add_shift(&mut table, 19, Token::BeginArray, 19);
    add_shift(&mut table, 19, Token::StringMatch, 14);
    add_shift(&mut table, 19, Token::NumberMatch, 15);
    add_shift(&mut table, 19, Token::True, 16);
    add_shift(&mut table, 19, Token::False, 17);
    add_shift(&mut table, 19, Token::Null, 18);
    add_reduce(&mut table, 19, Token::EndArray, 0, Symbol::Elements);

    add_reduce(&mut table, 20, Token::EndObject, 6, Symbol::PairsTail);

    add_shift(&mut table, 21, Token::EndArray, 23);

    add_shift(&mut table, 22, Token::ValueSeparator, 25);
    add_reduce(&mut table, 22, Token::EndArray, 0, Symbol::ElementsTail);

    add_reduce(&mut table, 23, Token::ValueSeparator, 6, Symbol::Array);
    add_reduce(&mut table, 23, Token::EndObject, 6, Symbol::Array);
    add_reduce(&mut table, 23, Token::EndArray, 6, Symbol::Array);

    add_reduce(&mut table, 24, Token::EndArray, 4, Symbol::Elements);

    add_shift(&mut table, 25, Token::BeginObject, 2);
    add_shift(&mut table, 25, Token::BeginArray, 19);
    add_shift(&mut table, 25, Token::StringMatch, 14);
    add_shift(&mut table, 25, Token::NumberMatch, 15);
    add_shift(&mut table, 25, Token::True, 16);
    add_shift(&mut table, 25, Token::False, 17);
    add_shift(&mut table, 25, Token::Null, 18);

    add_shift(&mut table, 26, Token::ValueSeparator, 25);
    add_reduce(&mut table, 26, Token::EndArray, 0, Symbol::ElementsTail);

    add_reduce(&mut table, 27, Token::EndArray, 6, Symbol::ElementsTail);

    assert(table@ =~~= json_action_rows());
    table
}

/// Whether some production of `symbol` has a right-hand side of `n / 2`
/// elements, so that a reduction removing `n` stack entries (each element
/// with the state above it) can produce `symbol`.
pub open spec fn pops_for_production(n: nat, symbol: Symbol) -> bool {
    exists|k: int| 0 <= k < productions().len() && #[trigger] productions()[k].0 == symbol && n == 2 * productions()[k].1.len()
}

proof fn lemma_production_sizes(n: nat, symbol: Symbol)
    requires
        (symbol == Symbol::Object && n == 6) || (symbol == Symbol::Pairs && (n == 4 || n == 0))
            || (symbol == Symbol::PairsTail && (n == 6 || n == 0)) || (symbol == Symbol::Pair && n == 6)
            || (symbol == Symbol::Value && n == 2) || (symbol == Symbol::Array && n == 6)
            || (symbol == Symbol::Elements && (n == 4 || n == 0))
            || (symbol == Symbol::ElementsTail && (n == 6 || n == 0)),
    ensures
        pops_for_production(n, symbol),
{
    let p = productions();
    let k: int = if symbol == Symbol::Object {
        0
    } else if symbol == Symbol::Pairs {
        if n == 4 { 1 } else { 2 }
    } else if symbol == Symbol::PairsTail {
        if n == 6 { 3 } else { 4 }
    } else if symbol == Symbol::Pair {
        5
    } else if symbol == Symbol::Value {
        6
    } else if symbol == Symbol::Array {
        13
    } else if symbol == Symbol::Elements {
        if n == 4 { 14 } else { 15 }
    } else if n == 6 {
        16
    } else {
        17
    };
    assert(p[k].0 == symbol && n == 2 * p[k].1.len());
}

/// Every reduction in the JSON action table removes two stack entries for
/// each element of the right-hand side of a production of the nonterminal it
/// produces.
pub proof fn lemma_reductions_pop_twice_rhs(state: int, i: int)
    requires
        0 <= state < json_action_rows().len(),
        0 <= i < json_action_rows()[state].len(),
        json_action_rows()[state][i].1 is Reduce,
    ensures
        pops_for_production(
            json_action_rows()[state][i].1->Reduce_0,
            json_action_rows()[state][i].1->Reduce_1,
        ),
{
    let a = json_action_rows()[state][i].1;
    lemma_production_sizes(a->Reduce_0, a->Reduce_1);
}

/// The goto entries of each state of the automaton for the JSON grammar.
pub open spec fn goto_row(state: nat) -> Seq<(Symbol, nat)> {
    if state == 0 {
        seq![(Symbol::Object, 1nat)]
    } else if state == 2 {
        seq![(Symbol::Pairs, 3nat), (Symbol::Pair, 4nat)]
    } else if state == 4 {
        seq![(Symbol::PairsTail, 7nat)]
    } else if state == 8 {
        seq![(Symbol::Pair, 10nat)]
    } else if state == 9 {
        seq![(Symbol::Value, 11nat), (Symbol::Object, 12nat), (Symbol::Array, 13nat)]
    } else if state == 10 {
        seq![(Symbol::PairsTail, 20nat)]
    } else if state == 19 {
        seq![(Symbol::Elements, 21nat), (Symbol::Value, 22nat), (Symbol::Object, 12nat), (Symbol::Array, 13nat)]
    } else if state == 22 {
        seq![(Symbol::ElementsTail, 24nat)]
    } else if state == 25 {
        seq![(Symbol::Value, 26nat), (Symbol::Object, 12nat), (Symbol::Array, 13nat)]
    } else if state == 26 {
        seq![(Symbol::ElementsTail, 27nat)]
    } else {
        Seq::empty()
    }
}
/// The goto table of the automaton for the JSON grammar.
pub open spec fn json_goto_rows() -> Seq<Seq<(Symbol, nat)>> {
    Seq::new(NUM_STATES as nat, |i: int| goto_row(i as nat))
}

/// Builds the goto table of the automaton for the JSON grammar.
pub fn build_json_goto_table() -> (r: GotoTable)
    ensures
        r@ == json_goto_rows(),
{
    let mut table = GotoTable::with_states(NUM_STATES);
    table.insert(GotoTablePair::new(State(0), Symbol::Object), State(1));
    table.insert(GotoTablePair::new(State(2), Symbol::Pairs), State(3));
    table.insert(GotoTablePair::new(State(2), Symbol::Pair), State(4));
    table.insert(GotoTablePair::new(State(4), Symbol::PairsTail), State(7));
    table.insert(GotoTablePair::new(State(8), Symbol::Pair), State(10));
    table.insert(GotoTablePair::new(State(9), Symbol::Value), State(11));
    table.insert(GotoTablePair::new(State(9), Symbol::Object), State(12));
    table.insert(GotoTablePair::new(State(9), Symbol::Array), State(13));
    table.insert(GotoTablePair::new(State(10), Symbol::PairsTail), State(20));
    table.insert(GotoTablePair::new(State(19), Symbol::Elements), State(21));
    table.insert(GotoTablePair::new(State(19), Symbol::Value), State(22));
    table.insert(GotoTablePair::new(State(19), Symbol::Object), State(12));
    table.insert(GotoTablePair::new(State(19), Symbol::Array), State(13));
    table.insert(GotoTablePair::new(State(22), Symbol::ElementsTail), State(24));
    table.insert(GotoTablePair::new(State(25), Symbol::Value), State(26));
    table.insert(GotoTablePair::new(State(25), Symbol::Object), State(12));
    table.insert(GotoTablePair::new(State(25), Symbol::Array), State(13));
    table.insert(GotoTablePair::new(State(26), Symbol::ElementsTail), State(27));
    assert(table@ =~~= json_goto_rows());
    table
}

/// The JSON tables are deterministic and closed: no row holds two entries
/// for one key, and every shift and goto leads to a state of the automaton.
pub proof fn lemma_json_tables_deterministic(state: int, i: int, j: int)
    requires
        0 <= state < NUM_STATES,
    ensures
        0 <= i < j < json_action_rows()[state].len() ==> json_action_rows()[state][i].0 != json_action_rows()[state][j].0,
        0 <= i < json_action_rows()[state].len() && json_action_rows()[state][i].1 is Shift
            ==> json_action_rows()[state][i].1->Shift_1 < NUM_STATES,
        0 <= i < j < json_goto_rows()[state].len() ==> json_goto_rows()[state][i].0 != json_goto_rows()[state][j].0,
        0 <= i < json_goto_rows()[state].len() ==> json_goto_rows()[state][i].1 < NUM_STATES,
{
}

} // verus!
