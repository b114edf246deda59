use std::rc::Rc;
use terncalc::state::{CalcError, Input, Operator, Parenthesis, State, StateID};

fn run(inputs: &[Input]) -> Rc<State> {
    let mut s = Rc::new(State::new());
    for i in inputs {
        s = State::step(&s, *i).expect("input should be accepted");
    }
    s
}

const D0: Input = Input::Number(0);
const D1: Input = Input::Number(1);
const D2: Input = Input::Number(2);
const PLUS: Input = Input::Operator(Operator::Plus);
const MINUS: Input = Input::Operator(Operator::Minus);
const TIMES: Input = Input::Operator(Operator::Times);
const DIV: Input = Input::Operator(Operator::Div);
const OPEN: Input = Input::Parenthesis(Parenthesis::Open);
const CLOSE: Input = Input::Parenthesis(Parenthesis::Close);

#[test]
fn step_is_pure_and_deterministic() {
    let s = run(&[D1, PLUS, D2]);
    let before = (s.sum, s.factor, s.current, s.division, s.present_sum, s.id);
    let r1 = State::step(&s, Input::Equals).unwrap();
    let r2 = State::step(&s, Input::Equals).unwrap();
    assert_eq!(r1.sum, r2.sum);
    assert_eq!(r1.factor, r2.factor);
    assert_eq!(r1.current, r2.current);
    assert_eq!(r1.division, r2.division);
    assert_eq!(r1.present_sum, r2.present_sum);
    assert_eq!(r1.id, r2.id);
    assert!(r1.stack.is_none() && r2.stack.is_none());
    let after = (s.sum, s.factor, s.current, s.division, s.present_sum, s.id);
    assert_eq!(before, after);
}

#[test]
fn three_digits_accumulate_in_base_three() {
    let s = run(&[D1, D2, D0]);
    assert_eq!(s.current, 1 * 9 + 2 * 3 + 0);
    let t = run(&[D2, D2, D2]);
    assert_eq!(t.current, 2 * 9 + 2 * 3 + 2);
}

#[test]
fn clear_rejected_without_typed_digits() {
    let s = Rc::new(State::new());
    assert_eq!(State::step(&s, Input::Clear).unwrap_err(), CalcError::ExpectInput);
    let t = run(&[D1, PLUS, D2, TIMES]);
    assert_eq!(t.current, 0);
    assert_eq!(State::step(&t, Input::Clear).unwrap_err(), CalcError::ExpectInput);
}

#[test]
fn clear_resets_only_typed_digits() {
    let s = run(&[D1, PLUS, D1, D2]);
    assert_eq!(s.current, 5);
    let c = State::step(&s, Input::Clear).unwrap();
    assert_eq!(c.current, 0);
    assert_eq!(c.sum, s.sum);
    assert_eq!(c.factor, s.factor);
    assert_eq!(c.id, StateID::Number);
}

#[test]
fn clear_all_rejected_on_blank_state() {
    let s = Rc::new(State::new());
    assert_eq!(State::step(&s, Input::ClearAll).unwrap_err(), CalcError::ExpectInput);
}

#[test]
fn clear_all_returns_to_blank_state() {
    let s = run(&[D1, PLUS, D2]);
    let c = State::step(&s, Input::ClearAll).unwrap();
    assert_eq!(c.sum, 0);
    assert_eq!(c.factor, 1);
    assert_eq!(c.current, 0);
    assert!(!c.division && !c.present_sum);
    assert_eq!(c.id, StateID::Begin);
    assert!(c.stack.is_none());
}

#[test]
fn nested_parentheses_evaluate_left_to_right() {
    // ( ( 1 + 1 ) * 2 + 1 ) =  ->  ternary 1+1=2, *2=4, +1=5
    let s = run(&[OPEN, OPEN, D1, PLUS, D1, CLOSE, TIMES, D2, PLUS, D1, CLOSE, Input::Equals]);
    assert!(s.present_sum);
    assert_eq!(s.sum, 5);
}

#[test]
fn division_by_zero_rejected_at_digit_and_equals() {
    let s = run(&[D1, DIV]);
    assert_eq!(State::step(&s, D0).unwrap_err(), CalcError::DivisionByZero);
    assert_eq!(State::step(&s, Input::Equals).unwrap_err(), CalcError::DivisionByZero);
    // the rejecting state is unchanged and still accepts a nonzero divisor
    let t = State::step(&s, D2).unwrap();
    let done = State::step(&t, Input::Equals).unwrap();
    assert_eq!(done.sum, 0);
}

#[test]
fn division_truncates_toward_zero() {
    // 12 / 2 =  ->  5 / 2 = 2 in ternary
    let s = run(&[D1, D2, DIV, D2, Input::Equals]);
    assert_eq!(s.sum, 2);
    // 0 - 12 / 2 =  ->  -5 / 2 = -2, not the euclidean -3
    let t = run(&[D0, MINUS, D1, D2, DIV, D2, Input::Equals]);
    assert_eq!(t.sum, -2);
}

#[test]
fn division_by_negative_parenthesized_value() {
    // 12 / ( 0 - 1 ) =  ->  5 / -1 = -5
    let s = run(&[D1, D2, DIV, OPEN, D0, MINUS, D1, CLOSE, Input::Equals]);
    assert_eq!(s.sum, -5);
}

#[test]
fn minus_seeds_a_subtracting_term() {
    let s = run(&[D2, MINUS, D1, Input::Equals]);
    assert_eq!(s.sum, 1);
    let t = run(&[D0, MINUS, D1, D2, Input::Equals]);
    assert_eq!(t.sum, -5);
}

#[test]
fn times_after_equals_continues_from_sum() {
    let s = run(&[D1, PLUS, D1, Input::Equals, TIMES, D2, Input::Equals]);
    assert_eq!(s.sum, 4);
}

#[test]
fn digit_after_equals_starts_fresh() {
    let s = run(&[D1, PLUS, D1, Input::Equals, D2, Input::Equals]);
    assert_eq!(s.sum, 2);
}

#[test]
fn open_after_equals_starts_fresh_inside_parentheses() {
    let s = run(&[D2, Input::Equals, OPEN, D1, CLOSE, Input::Equals]);
    assert_eq!(s.sum, 1);
}

#[test]
fn phase_legality_begin() {
    let s = Rc::new(State::new());
    assert_eq!(State::step(&s, TIMES).unwrap_err(), CalcError::ExpectNumber);
    assert_eq!(State::step(&s, DIV).unwrap_err(), CalcError::ExpectNumber);
    assert_eq!(State::step(&s, PLUS).unwrap_err(), CalcError::ExpectNumber);
    assert_eq!(State::step(&s, CLOSE).unwrap_err(), CalcError::ExpectOperator);
    assert!(State::step(&s, MINUS).is_ok());
    assert!(State::step(&s, OPEN).is_ok());
    assert!(State::step(&s, Input::Equals).is_ok());
}

#[test]
fn phase_legality_after_operator() {
    let s = run(&[D1, PLUS]);
    assert_eq!(s.id, StateID::BeginAfterOperator);
    assert_eq!(State::step(&s, MINUS).unwrap_err(), CalcError::ExpectNumberWithoutMinus);
    assert_eq!(State::step(&s, PLUS).unwrap_err(), CalcError::ExpectNumber);
    assert_eq!(State::step(&s, TIMES).unwrap_err(), CalcError::ExpectNumber);
    assert_eq!(State::step(&s, CLOSE).unwrap_err(), CalcError::ExpectOperator);
    assert!(State::step(&s, D0).is_ok());
    assert!(State::step(&s, OPEN).is_ok());
}

#[test]
fn phase_legality_after_equals() {
    let s = run(&[D1, Input::Equals]);
    assert_eq!(s.id, StateID::BeginAfterEquals);
    assert_eq!(State::step(&s, Input::Equals).unwrap_err(), CalcError::ExpectInput);
    assert_eq!(State::step(&s, CLOSE).unwrap_err(), CalcError::ExpectOperator);
    assert!(State::step(&s, D1).is_ok());
    assert!(State::step(&s, PLUS).is_ok());
    assert!(State::step(&s, TIMES).is_ok());
    assert!(State::step(&s, OPEN).is_ok());
}

#[test]
fn phase_legality_force_operator() {
    let s = run(&[OPEN, D1, CLOSE]);
    assert_eq!(s.id, StateID::ForceOperator);
    assert_eq!(State::step(&s, D1).unwrap_err(), CalcError::ExpectOperator);
    assert_eq!(State::step(&s, OPEN).unwrap_err(), CalcError::ExpectNumberOrParenthesis);
    assert_eq!(State::step(&s, CLOSE).unwrap_err(), CalcError::ExpectOperator);
    assert!(State::step(&s, PLUS).is_ok());
    assert!(State::step(&s, TIMES).is_ok());
    assert!(State::step(&s, Input::Equals).is_ok());
}

#[test]
fn phase_legality_number() {
    let s = run(&[D1]);
    assert_eq!(s.id, StateID::Number);
    assert_eq!(State::step(&s, OPEN).unwrap_err(), CalcError::ExpectNumberOrParenthesis);
    assert!(State::step(&s, D2).is_ok());
    assert!(State::step(&s, PLUS).is_ok());
    assert!(State::step(&s, TIMES).is_ok());
    assert!(State::step(&s, Input::Equals).is_ok());
}

#[test]
fn invalid_digit_rejected() {
    let s = Rc::new(State::new());
    assert_eq!(State::step(&s, Input::Number(3)).unwrap_err(), CalcError::InvalidDigit);
    assert_eq!(State::step(&s, Input::Number(9)).unwrap_err(), CalcError::InvalidDigit);
}

#[test]
fn unmatched_parenthesis_rejected() {
    let s = run(&[D1]);
    assert_eq!(State::step(&s, CLOSE).unwrap_err(), CalcError::UnmatchedParenthesis);
}

#[test]
fn unclosed_parenthesis_rejected_at_equals() {
    let s = run(&[OPEN, D1]);
    assert_eq!(State::step(&s, Input::Equals).unwrap_err(), CalcError::UnclosedParenthesis);
}

#[test]
fn digit_overflow_rejected() {
    let mut s = Rc::new(State::new());
    let mut accepted = 0;
    let reason = loop {
        match State::step(&s, D2) {
            Ok(next) => {
                s = next;
                accepted += 1;
                assert!(accepted < 100, "digit entry should overflow eventually");
            }
            Err(e) => break e,
        }
    };
    assert_eq!(reason, CalcError::Overflow);
    // current after k twos is 3^k - 1; 40 digits would exceed the i64 width
    assert_eq!(accepted, 39);
}

#[test]
fn multiplication_overflow_rejected_at_digit() {
    let mut s = Rc::new(State::new());
    for _ in 0..39 {
        s = State::step(&s, D2).unwrap();
    }
    s = State::step(&s, TIMES).unwrap();
    // one factor of 2 still fits, a second one cannot
    s = State::step(&s, D2).unwrap();
    assert_eq!(State::step(&s, D2).unwrap_err(), CalcError::Overflow);
}

#[test]
fn error_messages_match_reasons() {
    assert_eq!(CalcError::DivisionByZero.message(), "Division by zero");
    assert_eq!(CalcError::ExpectInput.message(), "Expect input");
    assert_eq!(CalcError::UndoExhausted.message(), "Undo buffer exhausted");
}
