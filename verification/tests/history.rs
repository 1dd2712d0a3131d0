use dashu::integer::{IBig, Sign, UBig};
use rpnpad::stack::CalcState;
use rpnpad::undo::UndoHistory;
use rpnpad::value::CalcValue;

fn to_f64(v: &CalcValue) -> f64 {
    match v {
        CalcValue::Integer(x) => {
            IBig::from_parts(Sign::from(x.negative), UBig::from_le_bytes(&x.magnitude)).to_f64().value()
        }
        CalcValue::Float(_) => panic!("integer expected"),
    }
}

fn state_with_value(v: i32) -> CalcState {
    let mut s = CalcState::new();
    s.stack.push(CalcValue::from_i64(v as i64));
    s
}

#[test]
fn test_snapshot_pushes_to_past() {
    let mut hist = UndoHistory::new();
    let s = state_with_value(1);
    hist.snapshot(&s);
    assert!(hist.can_undo());
    assert!(!hist.can_redo());
}

#[test]
fn test_undo_restores_state() {
    let mut hist = UndoHistory::new();
    let before = state_with_value(1);
    let after = state_with_value(2);
    hist.snapshot(&before);
    let restored = hist.undo(&after).unwrap();
    assert_eq!(to_f64(&restored.stack[0]), 1.0);
    assert!(hist.can_redo());
}

#[test]
fn test_redo_reapplies_state() {
    let mut hist = UndoHistory::new();
    let before = state_with_value(1);
    let after = state_with_value(2);
    hist.snapshot(&before);
    let _ = hist.undo(&after);
    // redo restores the state we undid FROM (after=2), not the snapshot
    let redone = hist.redo(&before).unwrap();
    assert_eq!(to_f64(&redone.stack[0]), 2.0);
}

#[test]
fn test_new_action_after_undo_clears_redo() {
    let mut hist = UndoHistory::new();
    let s1 = state_with_value(1);
    let s2 = state_with_value(2);
    hist.snapshot(&s1);
    let _ = hist.undo(&s2);
    assert!(hist.can_redo());
    hist.snapshot(&s2);
    assert!(!hist.can_redo());
}

#[test]
fn test_depth_limiting_discards_oldest() {
    let mut hist = UndoHistory::with_max_depth(3);
    for i in 0..5 {
        hist.snapshot(&state_with_value(i));
    }
    assert_eq!(hist.undo_depth(), 3);
}

#[test]
fn oldest_snapshots_are_the_ones_dropped() {
    let mut hist = UndoHistory::with_max_depth(3);
    for i in 0..5 {
        hist.snapshot(&state_with_value(i));
    }
    let current = state_with_value(9);
    let a = hist.undo(&current).unwrap();
    let b = hist.undo(&a).unwrap();
    let c = hist.undo(&b).unwrap();
    assert_eq!(to_f64(&a.stack[0]), 4.0);
    assert_eq!(to_f64(&b.stack[0]), 3.0);
    assert_eq!(to_f64(&c.stack[0]), 2.0);
    assert!(hist.undo(&c).is_none());
    assert!(!hist.can_undo());
}

#[test]
fn empty_history_undo_and_redo_give_nothing() {
    let mut hist = UndoHistory::default();
    let s = state_with_value(1);
    assert!(hist.undo(&s).is_none());
    assert!(hist.redo(&s).is_none());
    assert!(!hist.can_undo());
    assert!(!hist.can_redo());
}

#[test]
fn zero_depth_history_keeps_nothing() {
    let mut hist = UndoHistory::with_max_depth(0);
    hist.snapshot(&state_with_value(1));
    assert!(!hist.can_undo());
}

#[test]
fn undo_then_redo_returns_to_current() {
    let mut hist = UndoHistory::new();
    hist.snapshot(&state_with_value(1));
    let current = state_with_value(2);
    let restored = hist.undo(&current).unwrap();
    let again = hist.redo(&restored).unwrap();
    assert_eq!(to_f64(&again.stack[0]), 2.0);
    assert!(hist.can_undo());
    assert!(!hist.can_redo());
}

#[test]
fn repeated_register_name_is_not_well_formed() {
    let mut s = CalcState::new();
    s.registers.push(("a".to_string(), CalcValue::from_i64(1)));
    s.registers.push(("b".to_string(), CalcValue::from_i64(2)));
    assert!(s.is_well_formed());
    s.registers.push(("a".to_string(), CalcValue::from_i64(3)));
    assert!(!s.is_well_formed());
}
