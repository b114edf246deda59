use terncalc::state::CalcError;
use terncalc::Terncalc;

const UNDO_INDEX: usize = 12;
const REDO_INDEX: usize = 13;

fn feed(calc: &mut Terncalc, codes: &[u8]) {
    for c in codes {
        calc.input(*c);
    }
}

#[test]
fn fresh_instance_displays_zero() {
    let calc = Terncalc::new();
    assert_eq!(calc.display_value(), 0);
}

#[test]
fn display_follows_current_then_sum() {
    let mut calc = Terncalc::new();
    feed(&mut calc, b"12");
    assert_eq!(calc.display_value(), 5);
    feed(&mut calc, b"+1");
    assert_eq!(calc.display_value(), 1);
    calc.input(b'=');
    assert_eq!(calc.display_value(), 6);
}

#[test]
fn rejected_input_leaves_instance_unchanged() {
    let mut calc = Terncalc::new();
    feed(&mut calc, b"1/");
    assert_eq!(calc.display_value(), 0);
    calc.input(b'0'); // division by zero: rejected
    assert_eq!(calc.display_value(), 0);
    calc.input(b'2');
    calc.input(b'=');
    assert_eq!(calc.display_value(), 0); // 1 / 2 truncates to 0
}

#[test]
fn undo_redo_symmetry_over_accepted_inputs() {
    let mut calc = Terncalc::new();
    let inputs = b"1+1=";
    feed(&mut calc, inputs);
    assert_eq!(calc.display_value(), 2);
    for _ in 0..inputs.len() {
        assert!(calc.enabled_reasons()[UNDO_INDEX].is_none());
        calc.input(b'U');
    }
    assert_eq!(calc.display_value(), 0);
    assert_eq!(
        calc.enabled_reasons()[UNDO_INDEX],
        Some(CalcError::NoPreviousCalculation)
    );
    // undo beyond the initial state does not move
    calc.input(b'U');
    assert_eq!(calc.display_value(), 0);
    for _ in 0..inputs.len() {
        assert!(calc.enabled_reasons()[REDO_INDEX].is_none());
        calc.input(b'R');
    }
    assert_eq!(calc.display_value(), 2);
    assert_eq!(
        calc.enabled_reasons()[REDO_INDEX],
        Some(CalcError::NoNextCalculation)
    );
}

#[test]
fn undo_restores_intermediate_displays() {
    let mut calc = Terncalc::new();
    feed(&mut calc, b"12+2=");
    assert_eq!(calc.display_value(), 7);
    calc.input(b'U');
    assert_eq!(calc.display_value(), 2);
    calc.input(b'U');
    assert_eq!(calc.display_value(), 0);
    calc.input(b'U');
    assert_eq!(calc.display_value(), 5);
    calc.input(b'R');
    assert_eq!(calc.display_value(), 0);
}

#[test]
fn undo_exhausted_after_ring_wraps() {
    let mut calc = Terncalc::new();
    // 64 accepted pushes overwrite the whole ring, the initial slot included
    for _ in 0..32 {
        calc.input(b'1');
        calc.input(b'C');
    }
    for _ in 0..63 {
        assert!(calc.enabled_reasons()[UNDO_INDEX].is_none());
        calc.input(b'U');
    }
    assert_eq!(
        calc.enabled_reasons()[UNDO_INDEX],
        Some(CalcError::UndoExhausted)
    );
}

#[test]
fn new_input_after_undo_invalidates_redo() {
    let mut calc = Terncalc::new();
    calc.input(b'1');
    calc.input(b'U');
    assert_eq!(calc.display_value(), 0);
    calc.input(b'2');
    assert_eq!(calc.display_value(), 2);
    assert_eq!(
        calc.enabled_reasons()[REDO_INDEX],
        Some(CalcError::NoNextCalculation)
    );
    calc.input(b'R');
    assert_eq!(calc.display_value(), 2);
}

#[test]
fn redo_after_undo_restores_the_later_state() {
    let mut calc = Terncalc::new();
    feed(&mut calc, b"21");
    assert_eq!(calc.display_value(), 7);
    calc.input(b'U');
    assert_eq!(calc.display_value(), 2);
    calc.input(b'R');
    assert_eq!(calc.display_value(), 7);
}

#[test]
fn enabled_reasons_report_the_legality_table() {
    let calc = Terncalc::new();
    let reasons = calc.enabled_reasons();
    assert_eq!(reasons.len(), 14);
    assert!(reasons[0].is_none()); // digit 0
    assert!(reasons[1].is_none()); // digit 1
    assert!(reasons[2].is_none()); // digit 2
    assert_eq!(reasons[3], Some(CalcError::ExpectNumber)); // plus
    assert!(reasons[4].is_none()); // minus
    assert_eq!(reasons[5], Some(CalcError::ExpectNumber)); // times
    assert_eq!(reasons[6], Some(CalcError::ExpectNumber)); // division
    assert!(reasons[7].is_none()); // open
    assert_eq!(reasons[8], Some(CalcError::ExpectOperator)); // close
    assert!(reasons[9].is_none()); // equals
    assert_eq!(reasons[10], Some(CalcError::ExpectInput)); // clear
    assert_eq!(reasons[11], Some(CalcError::ExpectInput)); // clear all
    assert_eq!(reasons[12], Some(CalcError::NoPreviousCalculation));
    assert_eq!(reasons[13], Some(CalcError::NoNextCalculation));
}

#[test]
fn clear_all_through_the_instance() {
    let mut calc = Terncalc::new();
    feed(&mut calc, b"12+1=");
    assert_eq!(calc.display_value(), 6);
    calc.input(b'A');
    assert_eq!(calc.display_value(), 0);
    // clearing all is itself undoable
    calc.input(b'U');
    assert_eq!(calc.display_value(), 6);
}

#[test]
fn parenthesized_session_through_the_instance() {
    let mut calc = Terncalc::new();
    feed(&mut calc, b"((1+1)*2+1)=");
    assert_eq!(calc.display_value(), 5);
}
