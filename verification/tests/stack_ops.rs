use minijvm::stack::{stack_init, stack_is_empty, stack_is_full, stack_pop, stack_push};

#[test]
fn push_then_pop_returns_value() {
    let mut st = stack_init(4);
    assert!(stack_is_empty(&st));
    assert!(stack_push(&mut st, 7));
    assert!(stack_push(&mut st, -3));
    let mut v: i32 = 0;
    assert!(stack_pop(&mut st, &mut v));
    assert_eq!(v, -3);
    assert!(stack_pop(&mut st, &mut v));
    assert_eq!(v, 7);
    assert!(stack_is_empty(&st));
}

#[test]
fn push_on_full_stack_reports_overflow() {
    let mut st = stack_init(2);
    assert!(stack_push(&mut st, 1));
    assert!(stack_push(&mut st, 2));
    assert!(stack_is_full(&mut st));
    assert!(!stack_push(&mut st, 3));
    assert_eq!(st.contents, vec![1, 2]);
}

#[test]
fn pop_on_empty_stack_reports_underflow() {
    let mut st = stack_init(2);
    let mut v: i32 = 99;
    assert!(!stack_pop(&mut st, &mut v));
    assert_eq!(v, 99);
}

#[test]
fn zero_capacity_stack_takes_nothing() {
    let mut st = stack_init(0);
    assert!(!stack_push(&mut st, 1));
}
