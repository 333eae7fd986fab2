//! The engine's guarantees, proved once and for all over the small-step
//! model: arithmetic results, handler delivery, one-shot resumption, dynamic
//! handler scoping, and closure capture.

use vstd::prelude::*;
use crate::types::Name;
use crate::model::{
    OpV, FunV, RawFunV, FrameV, StackV, DataV, FiberV, EffectV, StepV, dead_v, is_done_v, fail_v,
    popped_v, pushed_v, advanced_v, resolve_frames_v, resolve_v, snap_fiber_v, fiber_of_v,
    switch_v, call_install_v, tdiv, fits_i64, step_v,
};

verus! {

broadcast use vstd::seq::group_seq_axioms;

/// Pushing `x`, then `y`, then executing `Add` leaves `x + y` on the stack
/// (addition commutes, so the operand order is unobservable).  The sum must
/// fit the machine's numeric range.
pub proof fn lemma_add_step(f: FiberV, x: int, y: int)
    requires
        !is_done_v(f),
        f.ops[f.pc as int] == OpV::Add,
        f.stack.frames.len() > 0,
        f.stack.datum.len() >= f.stack.frames.last().index + 2,
        f.stack.datum[f.stack.datum.len() - 2] == DataV::Num(x),
        f.stack.datum[f.stack.datum.len() - 1] == DataV::Num(y),
        fits_i64(x + y),
    ensures
        step_v(f) == StepV::Next(
            advanced_v(
                FiberV {
                    stack: StackV {
                        datum: f.stack.datum.subrange(0, f.stack.datum.len() - 2).push(
                            DataV::Num(x + y),
                        ),
                        ..f.stack
                    },
                    ..f
                },
            ),
        ),
{
    assert(f.stack.datum.drop_last().drop_last() =~= f.stack.datum.subrange(
        0,
        f.stack.datum.len() - 2,
    ));
    assert(step_v(f) == StepV::Next(
        advanced_v(
            FiberV {
                stack: StackV {
                    datum: f.stack.datum.subrange(0, f.stack.datum.len() - 2).push(
                        DataV::Num(y + x),
                    ),
                    ..f.stack
                },
                ..f
            },
        ),
    ));
}

/// Pushing `x`, then `y`, then executing `Div`: a zero in `y` (the operand on
/// top, the numerator) is the division failure; otherwise the result is
/// `y / x`, rounded toward zero.  A zero in `x` or a quotient outside the
/// machine range is excluded: there the step is fatal instead.
pub proof fn lemma_div_step(f: FiberV, x: int, y: int)
    requires
        !is_done_v(f),
        f.ops[f.pc as int] == OpV::Div,
        f.stack.frames.len() > 0,
        f.stack.datum.len() >= f.stack.frames.last().index + 2,
        f.stack.datum[f.stack.datum.len() - 2] == DataV::Num(x),
        f.stack.datum[f.stack.datum.len() - 1] == DataV::Num(y),
        x != 0,
        fits_i64(tdiv(y, x)),
    ensures
        y == 0 ==> step_v(f) == fail_v(
            FiberV {
                stack: StackV {
                    datum: f.stack.datum.subrange(0, f.stack.datum.len() - 2),
                    ..f.stack
                },
                ..f
            },
            EffectV::ZeroDivision,
        ),
        y != 0 ==> step_v(f) == StepV::Next(
            advanced_v(
                FiberV {
                    stack: StackV {
                        datum: f.stack.datum.subrange(0, f.stack.datum.len() - 2).push(
                            DataV::Num(tdiv(y, x)),
                        ),
                        ..f.stack
                    },
                    ..f
                },
            ),
        ),
{
    assert(f.stack.datum.drop_last().drop_last() =~= f.stack.datum.subrange(
        0,
        f.stack.datum.len() - 2,
    ));
}

/// Registering a handler and raising its effect: the fiber spawned from the
/// registered closure receives, on its operand stack, a continuation wrapping
/// the raiser directly below the payload, runs the handler's code from
/// instruction zero, and carries a read-only image of the raiser as its
/// parent for further handler lookup.
pub proof fn lemma_register_raise(f: FiberV, h: Name, g: FunV, p: DataV)
    requires
        !is_done_v(f),
        f.ops[f.pc as int] == OpV::Raise(h),
        f.stack.frames.len() > 0,
        f.stack.frames.last().handlers.contains_key(h),
        f.stack.frames.last().handlers[h] == g,
        f.stack.datum.len() > f.stack.frames.last().index,
        f.stack.datum.last() == p,
    ensures
        step_v(f) == StepV::Next(
            switch_v(
                FiberV { parent: Some(Box::new(snap_fiber_v(popped_v(f)))), ..fiber_of_v(g) },
                popped_v(f),
                p,
            ),
        ),
        step_v(f) matches StepV::Next(nf) && nf.ops == g.ops && nf.pc == 0
            && nf.stack.datum.len() == 2 && nf.stack.datum[0] == DataV::Cont(
            Some(Box::new(popped_v(f))),
        ) && nf.stack.datum[1] == p,
{
    assert(resolve_frames_v(f.stack.frames, h) == Some(g));
    assert(resolve_v(f, h) == Some(g));
}

/// Resuming a continuation: calling it transfers control back to the wrapped
/// fiber, whose stack, frames and code are exactly as they were when it was
/// suspended; it receives a continuation wrapping the caller below the
/// argument, and continues just past the instruction at which it suspended.
pub proof fn lemma_resume_step(f: FiberV, k: FiberV, a: DataV)
    requires
        !is_done_v(f),
        f.ops[f.pc as int] == OpV::Call,
        f.stack.frames.len() > 0,
        f.stack.datum.len() >= f.stack.frames.last().index + 2,
        f.stack.datum[f.stack.datum.len() - 2] == DataV::Cont(Some(Box::new(k))),
        f.stack.datum[f.stack.datum.len() - 1] == a,
    ensures
        step_v(f) == StepV::Next(
            advanced_v(switch_v(k, popped_v(popped_v(f)), a)),
        ),
        step_v(f) matches StepV::Next(nf) && nf.ops == k.ops && nf.stack.frames == k.stack.frames
            && nf.stack.datum == k.stack.datum.push(
            DataV::Cont(Some(Box::new(popped_v(popped_v(f))))),
        ).push(a) && nf.pc == (if k.pc < k.ops.len() {
            (k.pc + 1) as nat
        } else {
            k.pc
        }),
{
}

/// A continuation is resumable exactly once: every copy of one (the only way
/// a second handle can exist, since resuming consumes the handle it is given)
/// is an empty handle, and calling an empty handle fails fatally.
pub proof fn lemma_second_resume_fatal(f: FiberV, c: DataV, a: DataV)
    requires
        !is_done_v(f),
        f.ops[f.pc as int] == OpV::Call,
        f.stack.frames.len() > 0,
        f.stack.datum.len() >= f.stack.frames.last().index + 2,
        c matches DataV::Cont(_),
        f.stack.datum[f.stack.datum.len() - 2] == dead_v(c),
        f.stack.datum[f.stack.datum.len() - 1] == a,
    ensures
        dead_v(c) == DataV::Cont(None),
        step_v(f) == fail_v(popped_v(popped_v(f)), EffectV::Fatal),
{
}

/// Raising an effect for which no handler is registered anywhere in the
/// fiber's ancestor chain pops the payload and halts the fiber with the
/// unhandled effect, carrying the name and the payload.
pub proof fn lemma_unhandled_raise(f: FiberV, h: Name, p: DataV)
    requires
        !is_done_v(f),
        f.ops[f.pc as int] == OpV::Raise(h),
        resolve_v(f, h) is None,
        f.stack.frames.len() > 0,
        f.stack.datum.len() > f.stack.frames.last().index,
        f.stack.datum.last() == p,
    ensures
        step_v(f) == fail_v(popped_v(f), EffectV::Virtual(h, p)),
        step_v(f) matches StepV::Fail(g, e) && is_done_v(g) && e == EffectV::Virtual(h, p),
{
}

/// Some frame of the fiber itself, or of some ancestor, binds the name.
pub open spec fn chain_has_handler(f: FiberV, n: Name) -> bool
    decreases f,
{
    ||| (exists|i: int|
        0 <= i < f.stack.frames.len() && (#[trigger] f.stack.frames[i]).handlers.contains_key(n))
    ||| (match f.parent {
        Some(p) => chain_has_handler(*p, n),
        None => false,
    })
}

proof fn lemma_resolve_frames_none(s: Seq<FrameV>, n: Name)
    ensures
        (resolve_frames_v(s, n) is None) <==> (forall|i: int|
            0 <= i < s.len() ==> !(#[trigger] s[i]).handlers.contains_key(n)),
    decreases s.len(),
{
    if s.len() > 0 {
        lemma_resolve_frames_none(s.drop_last(), n);
        if resolve_frames_v(s, n) is None {
            assert forall|i: int| 0 <= i < s.len() implies !(#[trigger] s[i]).handlers.contains_key(
                n,
            ) by {
                if i < s.len() - 1 {
                    assert(s.drop_last()[i] == s[i]);
                }
            }
        }
        if forall|i: int| 0 <= i < s.len() ==> !(#[trigger] s[i]).handlers.contains_key(n) {
            assert forall|i: int|
                0 <= i < s.drop_last().len() implies !(#[trigger] s.drop_last()[i])
                .handlers.contains_key(n) by {
                assert(s.drop_last()[i] == s[i]);
            }
        }
    }
}

/// Resolution finds a handler exactly when some frame of the fiber or of an
/// ancestor binds the name: an unhandled effect really means that no handler
/// exists anywhere in the chain.
pub proof fn lemma_resolve_exhaustive(f: FiberV, n: Name)
    ensures
        (resolve_v(f, n) is None) <==> !chain_has_handler(f, n),
    decreases f,
{
    lemma_resolve_frames_none(f.stack.frames, n);
    match f.parent {
        Some(p) => {
            lemma_resolve_exhaustive(*p, n);
        },
        None => {},
    }
}

/// Dynamic scope, innermost first: resolution returns the binding of the
/// innermost frame that has one, so a handler registered in an outer frame is
/// visible from a nested call frame unless an inner frame shadows it.
pub proof fn lemma_resolve_innermost(s: Seq<FrameV>, n: Name, i: int)
    requires
        0 <= i < s.len(),
        s[i].handlers.contains_key(n),
        forall|j: int| i < j < s.len() ==> !(#[trigger] s[j]).handlers.contains_key(n),
    ensures
        resolve_frames_v(s, n) == Some(s[i].handlers[n]),
    decreases s.len(),
{
    if i + 1 < s.len() {
        assert(s.drop_last()[i] == s[i]);
        assert forall|j: int| i < j < s.drop_last().len() implies !(#[trigger] s.drop_last()[j])
            .handlers.contains_key(n) by {
            assert(s.drop_last()[j] == s[j]);
        }
        lemma_resolve_innermost(s.drop_last(), n, i);
    }
}

/// Dynamic scope across the fiber boundary: when no frame of the fiber
/// itself binds the name, resolution continues, read-only, into the parent.
pub proof fn lemma_resolve_crosses_fibers(f: FiberV, p: FiberV, n: Name)
    requires
        f.parent == Some(Box::new(p)),
        forall|i: int|
            0 <= i < f.stack.frames.len() ==> !(#[trigger] f.stack.frames[i])
                .handlers.contains_key(n),
    ensures
        resolve_v(f, n) == resolve_v(p, n),
{
    lemma_resolve_frames_none(f.stack.frames, n);
}

/// Returning from a frame removes it, handler table and all: a handler
/// registered only in the returned frame is not visible afterwards.
pub proof fn lemma_return_hides_handlers(f: FiberV, cnt: nat, h: Name)
    requires
        !is_done_v(f),
        f.ops[f.pc as int] == OpV::Return(cnt),
        f.stack.frames.len() > 0,
        f.stack.datum.len() >= f.stack.frames.last().index + cnt,
        forall|i: int|
            0 <= i < f.stack.frames.len() - 1 ==> !(#[trigger] f.stack.frames[i])
                .handlers.contains_key(h),
    ensures
        step_v(f) matches StepV::Next(g) && g.stack.frames == f.stack.frames.drop_last()
            && g.parent == f.parent && resolve_frames_v(g.stack.frames, h) is None,
{
    let g = match step_v(f) {
        StepV::Next(g) => g,
        StepV::Fail(g, _) => g,
    };
    assert forall|i: int|
        0 <= i < f.stack.frames.drop_last().len() implies !(#[trigger] f.stack.frames.drop_last()[
        i]).handlers.contains_key(h) by {
        assert(f.stack.frames.drop_last()[i] == f.stack.frames[i]);
    }
    lemma_resolve_frames_none(f.stack.frames.drop_last(), h);
}

/// `Capture` on a template declaring `k` needed captures removes exactly the
/// template and the `k` values below it, and pushes a closure whose capture
/// snapshot is those `k` values in their stack order.
pub proof fn lemma_capture_step(f: FiberV, rf: RawFunV)
    requires
        !is_done_v(f),
        f.ops[f.pc as int] == OpV::Capture,
        f.stack.frames.len() > 0,
        f.stack.datum.len() >= f.stack.frames.last().index + rf.num_captures + 1,
        f.stack.datum.last() == DataV::RawFun(rf),
    ensures
        step_v(f) == StepV::Next(
            advanced_v(
                FiberV {
                    stack: StackV {
                        datum: f.stack.datum.subrange(
                            0,
                            f.stack.datum.len() - rf.num_captures - 1,
                        ).push(
                            DataV::Fun(
                                FunV {
                                    ops: rf.ops,
                                    captures: f.stack.datum.subrange(
                                        f.stack.datum.len() - rf.num_captures - 1,
                                        f.stack.datum.len() - 1,
                                    ),
                                },
                            ),
                        ),
                        ..f.stack
                    },
                    ..f
                },
            ),
        ),
{
    let f1 = popped_v(f);
    assert(f1.stack.datum.subrange(
        f1.stack.datum.len() - rf.num_captures,
        f1.stack.datum.len() as int,
    ) =~= f.stack.datum.subrange(
        f.stack.datum.len() - rf.num_captures - 1,
        f.stack.datum.len() - 1,
    ));
    assert(f1.stack.datum.subrange(0, f1.stack.datum.len() - rf.num_captures) =~= f.stack.datum
        .subrange(0, f.stack.datum.len() - rf.num_captures - 1));
}

/// A closure built by `Capture` gives its captures back: calling it installs
/// the snapshot as the frame's capture environment, and `Get` then pushes the
/// value of the requested slot (a continuation comes back as an empty
/// handle).
pub proof fn lemma_call_then_get(f: FiberV, g: FunV, a: DataV, nm: Name)
    requires
        !is_done_v(f),
        f.ops[f.pc as int] == OpV::Call,
        f.stack.frames.len() > 0,
        f.stack.datum.len() >= f.stack.frames.last().index + 2,
        f.stack.datum[f.stack.datum.len() - 2] == DataV::Fun(g),
        f.stack.datum[f.stack.datum.len() - 1] == a,
        g.ops.len() > 0,
        g.ops[0] == OpV::Get(nm),
        (nm.0 as int) < g.captures.len(),
    ensures
        step_v(f) matches StepV::Next(h) && !is_done_v(h) && (step_v(h) matches StepV::Next(h2)
            && h2.stack.datum.last() == dead_v(g.captures[nm.0 as int])),
{
    let f2 = popped_v(popped_v(f));
    let h = pushed_v(call_install_v(f2, g), a);
    assert(step_v(f) == StepV::Next(h));
    assert(h.stack.frames.last().captures == g.captures.map_values(|d: DataV| dead_v(d)));
    assert(h.stack.frames.last().captures[nm.0 as int] == dead_v(g.captures[nm.0 as int]));
    assert(dead_v(dead_v(g.captures[nm.0 as int])) == dead_v(g.captures[nm.0 as int]));
}

} // verus!
