use lrjson::lexer::Token;
use lrjson::parser::{State, Symbol};
use lrjson::parsetable::{
    add_reduce, add_shift, build_json_action_table, build_json_goto_table, Action, ActionTable,
    ActionTablePair, GotoTablePair,
};

fn reduce_of(table: &ActionTable, state: usize, token: Token) -> Option<(usize, Symbol)> {
    match table.get(&ActionTablePair::new(State(state), token)) {
        Some(Action::Reduce(n, s)) => Some((*n, *s)),
        _ => None,
    }
}

#[test]
fn reductions_pop_twice_the_right_hand_side() {
    let table = build_json_action_table();
    assert_eq!(reduce_of(&table, 6, Token::EOF), Some((6, Symbol::Object)));
    assert_eq!(reduce_of(&table, 7, Token::EndObject), Some((4, Symbol::Pairs)));
    assert_eq!(reduce_of(&table, 2, Token::EndObject), Some((0, Symbol::Pairs)));
    assert_eq!(reduce_of(&table, 11, Token::ValueSeparator), Some((6, Symbol::Pair)));
    assert_eq!(reduce_of(&table, 15, Token::EndArray), Some((2, Symbol::Value)));
    assert_eq!(reduce_of(&table, 20, Token::EndObject), Some((6, Symbol::PairsTail)));
    assert_eq!(reduce_of(&table, 23, Token::EndObject), Some((6, Symbol::Array)));
    assert_eq!(reduce_of(&table, 24, Token::EndArray), Some((4, Symbol::Elements)));
    assert_eq!(reduce_of(&table, 27, Token::EndArray), Some((6, Symbol::ElementsTail)));
}

#[test]
fn start_state_shifts_an_object_and_accepts_after_it() {
    let actions = build_json_action_table();
    match actions.get(&ActionTablePair::new(State(0), Token::BeginObject)) {
        Some(Action::Shift(t, s)) => {
            assert_eq!(*t, Token::BeginObject);
            assert_eq!(*s, State(2));
        }
        _ => panic!("expected a shift"),
    }
    assert!(matches!(actions.get(&ActionTablePair::new(State(1), Token::EOF)), Some(Action::Accept)));
    assert!(actions.get(&ActionTablePair::new(State(0), Token::BeginArray)).is_none());
    assert!(actions.get(&ActionTablePair::new(State(99), Token::EOF)).is_none());
    let gotos = build_json_goto_table();
    assert_eq!(gotos.get(&GotoTablePair::new(State(0), Symbol::Object)), Some(State(1)));
    assert_eq!(gotos.get(&GotoTablePair::new(State(19), Symbol::Value)), Some(State(22)));
    assert_eq!(gotos.get(&GotoTablePair::new(State(1), Symbol::Value)), None);
}

#[test]
fn a_later_entry_replaces_an_earlier_one() {
    let mut table = ActionTable::with_states(2);
    add_shift(&mut table, 1, Token::StringMatch, 5);
    add_reduce(&mut table, 1, Token::StringMatch, 4, Symbol::Pairs);
    assert_eq!(reduce_of(&table, 1, Token::StringMatch), Some((4, Symbol::Pairs)));
    assert!(table.get(&ActionTablePair::new(State(0), Token::StringMatch)).is_none());
}
