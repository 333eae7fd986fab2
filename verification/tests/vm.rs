use std::rc::Rc;

use fibervm::types::{Data, Effect, Fiber, Fun, Name, Op, RawFun};

fn fun_of(ops: Vec<Op>, captures: Vec<Data>) -> Fun {
    Fun { ops: Rc::new(ops), captures: Rc::new(captures) }
}

fn run_program(ops: Vec<Op>) -> (Fiber, Result<(), Effect>) {
    let mut fiber = Fiber::new(fun_of(ops, vec![]));
    let r = fiber.run();
    (fiber, r)
}

#[test]
fn add_leaves_sum() {
    let (fiber, r) = run_program(vec![
        Op::Const(Data::Num(2)),
        Op::Const(Data::Num(3)),
        Op::Add,
    ]);
    assert_eq!(r, Ok(()));
    assert_eq!(fiber.stack_depth(), 1);
    assert_eq!(*fiber.stack_slot(0), Data::Num(5));
}

#[test]
fn add_on_non_number_is_type_mismatch() {
    let (_, r) = run_program(vec![
        Op::Const(Data::Num(1)),
        Op::Const(Data::Fun(fun_of(vec![], vec![]))),
        Op::Add,
    ]);
    assert_eq!(r, Err(Effect::TypeMismatch));
}

#[test]
fn add_overflow_is_fatal() {
    let (_, r) = run_program(vec![
        Op::Const(Data::Num(i64::MAX)),
        Op::Const(Data::Num(1)),
        Op::Add,
    ]);
    assert_eq!(r, Err(Effect::Fatal));
}

#[test]
fn add_underflow_is_fatal() {
    let (_, r) = run_program(vec![Op::Add]);
    assert_eq!(r, Err(Effect::Fatal));
}

#[test]
fn div_zero_numerator_fails() {
    // the operand pushed last sits on top and is the numerator
    let (_, r) = run_program(vec![
        Op::Const(Data::Num(5)),
        Op::Const(Data::Num(0)),
        Op::Div,
    ]);
    assert_eq!(r, Err(Effect::ZeroDivision));
}

#[test]
fn div_zero_denominator_is_fatal() {
    let (_, r) = run_program(vec![
        Op::Const(Data::Num(0)),
        Op::Const(Data::Num(7)),
        Op::Div,
    ]);
    assert_eq!(r, Err(Effect::Fatal));
}

#[test]
fn div_divides_later_pushed_value_and_truncates() {
    let (fiber, r) = run_program(vec![
        Op::Const(Data::Num(2)),
        Op::Const(Data::Num(-7)),
        Op::Div,
    ]);
    assert_eq!(r, Ok(()));
    assert_eq!(*fiber.stack_slot(0), Data::Num(-3));
}

#[test]
fn add_then_div_concrete() {
    let (fiber, r) = run_program(vec![
        Op::Const(Data::Num(3)),
        Op::Const(Data::Num(4)),
        Op::Const(Data::Num(5)),
        Op::Add,
        Op::Div,
    ]);
    assert_eq!(r, Ok(()));
    assert_eq!(fiber.stack_depth(), 1);
    assert_eq!(*fiber.stack_slot(0), Data::Num(3));
}

#[test]
fn handler_receives_continuation_below_payload() {
    let handler = fun_of(vec![Op::Pop(1)], vec![]);
    let mut fiber = Fiber::new(fun_of(
        vec![
            Op::Const(Data::Num(7)),
            Op::Const(Data::Fun(handler)),
            Op::Handler(Name(0)),
            Op::Raise(Name(0)),
        ],
        vec![],
    ));
    for _ in 0..4 {
        assert_eq!(fiber.step(), Ok(()));
    }
    // control is now inside the handler fiber, at its first instruction
    assert_eq!(fiber.pc(), 0);
    assert_eq!(fiber.stack_depth(), 2);
    assert!(matches!(fiber.stack_slot(0), Data::Cont(Some(_))));
    assert_eq!(*fiber.stack_slot(1), Data::Num(7));
}

#[test]
fn resume_restores_raiser_at_saved_instruction() {
    let handler = fun_of(vec![Op::Call], vec![]);
    let (fiber, r) = run_program(vec![
        Op::Const(Data::Num(3)),
        Op::Const(Data::Fun(handler)),
        Op::Handler(Name(0)),
        Op::Raise(Name(0)),
        Op::Const(Data::Num(10)),
        Op::Add,
    ]);
    // the handler resumed the raiser with the payload; the raiser then ran on
    assert_eq!(r, Ok(()));
    assert_eq!(fiber.stack_depth(), 2);
    assert!(matches!(fiber.stack_slot(0), Data::Cont(Some(_))));
    assert_eq!(*fiber.stack_slot(1), Data::Num(13));
}

#[test]
fn second_resume_through_copy_is_fatal() {
    // the handler stows the continuation in a closure's captures; the copy a
    // later Get hands out is an empty handle, so resuming it fails
    let inner = vec![Op::Get(Name(0)), Op::Const(Data::Num(1)), Op::Call];
    let handler = fun_of(
        vec![
            Op::Const(Data::RawFun(RawFun { ops: Rc::new(inner), num_captures: 2 })),
            Op::Capture,
            Op::Const(Data::Num(9)),
            Op::Call,
        ],
        vec![],
    );
    let (_, r) = run_program(vec![
        Op::Const(Data::Num(5)),
        Op::Const(Data::Fun(handler)),
        Op::Handler(Name(0)),
        Op::Raise(Name(0)),
    ]);
    assert_eq!(r, Err(Effect::Fatal));
}

#[test]
fn unhandled_raise_reports_name_and_payload() {
    let (fiber, r) = run_program(vec![Op::Const(Data::Num(42)), Op::Raise(Name(3))]);
    assert_eq!(r, Err(Effect::Virtual(Name(3), Data::Num(42))));
    // the payload was popped regardless
    assert_eq!(fiber.stack_depth(), 0);
    assert!(fiber.is_done());
}

#[test]
fn outer_frame_handler_visible_from_nested_call() {
    let handler = fun_of(vec![], vec![]);
    let inner = fun_of(vec![Op::Raise(Name(7))], vec![]);
    let (fiber, r) = run_program(vec![
        Op::Const(Data::Fun(handler)),
        Op::Handler(Name(7)),
        Op::Const(Data::Fun(inner)),
        Op::Const(Data::Num(1)),
        Op::Call,
    ]);
    assert_eq!(r, Ok(()));
    assert_eq!(fiber.stack_depth(), 2);
    assert!(matches!(fiber.stack_slot(0), Data::Cont(Some(_))));
    assert_eq!(*fiber.stack_slot(1), Data::Num(1));
}

#[test]
fn handler_resolution_crosses_fiber_boundary() {
    let outer_handler = fun_of(vec![], vec![]);
    // this handler raises a second effect whose handler lives in the raiser
    let reraiser = fun_of(vec![Op::Raise(Name(0))], vec![]);
    let (fiber, r) = run_program(vec![
        Op::Const(Data::Fun(outer_handler)),
        Op::Handler(Name(0)),
        Op::Const(Data::Fun(reraiser)),
        Op::Handler(Name(1)),
        Op::Const(Data::Num(8)),
        Op::Raise(Name(1)),
    ]);
    assert_eq!(r, Ok(()));
    assert_eq!(fiber.stack_depth(), 2);
    assert!(matches!(fiber.stack_slot(0), Data::Cont(Some(_))));
    assert_eq!(*fiber.stack_slot(1), Data::Num(8));
}

#[test]
fn handler_of_returned_frame_is_gone() {
    let handler = fun_of(vec![], vec![]);
    let inner = fun_of(
        vec![Op::Const(Data::Fun(handler)), Op::Handler(Name(5)), Op::Return(0)],
        vec![],
    );
    let (_, r) = run_program(vec![
        Op::Const(Data::Fun(inner)),
        Op::Const(Data::Num(0)),
        Op::Call,
        Op::Const(Data::Num(9)),
        Op::Raise(Name(5)),
    ]);
    assert_eq!(r, Err(Effect::Virtual(Name(5), Data::Num(9))));
}

#[test]
fn capture_slices_and_get_reads_back() {
    let body = vec![Op::Pop(1), Op::Get(Name(0)), Op::Get(Name(1)), Op::Add];
    let (fiber, r) = run_program(vec![
        Op::Const(Data::Num(10)),
        Op::Const(Data::Num(20)),
        Op::Const(Data::RawFun(RawFun { ops: Rc::new(body), num_captures: 2 })),
        Op::Capture,
        Op::Const(Data::Num(0)),
        Op::Call,
    ]);
    assert_eq!(r, Ok(()));
    assert_eq!(fiber.stack_depth(), 1);
    assert_eq!(*fiber.stack_slot(0), Data::Num(30));
}

#[test]
fn capture_on_non_template_is_type_mismatch() {
    let (_, r) = run_program(vec![Op::Const(Data::Num(4)), Op::Capture]);
    assert_eq!(r, Err(Effect::TypeMismatch));
}

#[test]
fn return_restores_caller_and_pushes_values() {
    let callee = fun_of(
        vec![Op::Pop(1), Op::Const(Data::Num(5)), Op::Return(1)],
        vec![],
    );
    let (fiber, r) = run_program(vec![
        Op::Const(Data::Fun(callee)),
        Op::Const(Data::Num(2)),
        Op::Call,
        Op::Const(Data::Num(3)),
        Op::Add,
    ]);
    assert_eq!(r, Ok(()));
    assert_eq!(fiber.frame_depth(), 1);
    assert_eq!(fiber.stack_depth(), 1);
    assert_eq!(*fiber.stack_slot(0), Data::Num(8));
}

#[test]
fn return_on_outermost_frame_finishes_fiber() {
    let (fiber, r) = run_program(vec![
        Op::Const(Data::Num(6)),
        Op::Return(1),
        Op::Const(Data::Num(1)),
    ]);
    assert_eq!(r, Ok(()));
    assert!(fiber.is_done());
    assert_eq!(fiber.stack_depth(), 1);
    assert_eq!(*fiber.stack_slot(0), Data::Num(6));
}

#[test]
fn pop_discards_top_values() {
    let (fiber, r) = run_program(vec![
        Op::Const(Data::Num(1)),
        Op::Const(Data::Num(2)),
        Op::Pop(1),
    ]);
    assert_eq!(r, Ok(()));
    assert_eq!(fiber.stack_depth(), 1);
    assert_eq!(*fiber.stack_slot(0), Data::Num(1));
}

#[test]
fn pop_past_frame_base_is_fatal() {
    let inner = fun_of(vec![Op::Pop(2)], vec![]);
    let (_, r) = run_program(vec![
        Op::Const(Data::Num(1)),
        Op::Const(Data::Fun(inner)),
        Op::Const(Data::Num(2)),
        Op::Call,
    ]);
    assert_eq!(r, Err(Effect::Fatal));
}

#[test]
fn put_rebinds_and_get_reads_slots() {
    let mut fiber = Fiber::new(fun_of(
        vec![
            Op::Const(Data::Num(9)),
            Op::Put(Name(0)),
            Op::Get(Name(0)),
            Op::Get(Name(1)),
            Op::Add,
        ],
        vec![Data::Num(1), Data::Num(2)],
    ));
    let r = fiber.run();
    assert_eq!(r, Ok(()));
    assert_eq!(fiber.stack_depth(), 1);
    assert_eq!(*fiber.stack_slot(0), Data::Num(11));
}

#[test]
fn get_out_of_range_is_fatal() {
    let (_, r) = run_program(vec![Op::Get(Name(0))]);
    assert_eq!(r, Err(Effect::Fatal));
}

#[test]
fn handler_on_non_closure_is_type_mismatch() {
    let (_, r) = run_program(vec![
        Op::Const(Data::Num(1)),
        Op::Const(Data::Num(2)),
        Op::Handler(Name(0)),
    ]);
    assert_eq!(r, Err(Effect::TypeMismatch));
}

#[test]
fn call_on_non_callable_is_type_mismatch() {
    let (_, r) = run_program(vec![
        Op::Const(Data::Num(1)),
        Op::Const(Data::Num(2)),
        Op::Call,
    ]);
    assert_eq!(r, Err(Effect::TypeMismatch));
}

#[test]
fn empty_program_finishes_at_once() {
    let (fiber, r) = run_program(vec![]);
    assert_eq!(r, Ok(()));
    assert!(fiber.is_done());
    assert_eq!(fiber.stack_depth(), 0);
    assert_eq!(fiber.frame_depth(), 1);
}
