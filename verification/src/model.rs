//! The mathematical model of the machine: pure spec datatypes mirroring the
//! runtime types, and a small-step function giving the exact semantics of
//! every instruction.

use vstd::prelude::*;
use crate::types::Name;

verus! {

/// Model of an instruction.
#[verifier::ext_equal]
pub enum OpV {
    Return(nat),
    Call,
    Const(DataV),
    Add,
    Div,
    Get(Name),
    Put(Name),
    Handler(Name),
    Raise(Name),
    Pop(nat),
    Capture,
}

/// Model of a code template awaiting its captures.
#[verifier::ext_equal]
pub struct RawFunV {
    pub ops: Seq<OpV>,
    pub num_captures: nat,
}

/// Model of a callable closure.
#[verifier::ext_equal]
pub struct FunV {
    pub ops: Seq<OpV>,
    pub captures: Seq<DataV>,
}

/// Model of a saved caller: code and program counter to restore on return.
#[verifier::ext_equal]
pub struct SuspendV {
    pub ops: Seq<OpV>,
    pub pc: nat,
}

/// Model of an activation record.
#[verifier::ext_equal]
pub struct FrameV {
    pub suspend: Option<SuspendV>,
    pub index: nat,
    pub captures: Seq<DataV>,
    pub handlers: Map<Name, FunV>,
}

/// Model of a fiber's operand and frame stacks.
#[verifier::ext_equal]
pub struct StackV {
    pub datum: Seq<DataV>,
    pub frames: Seq<FrameV>,
}

/// Model of a runtime value.
#[verifier::ext_equal]
pub enum DataV {
    Num(int),
    RawFun(RawFunV),
    Fun(FunV),
    Cont(Option<Box<FiberV>>),
}

/// Model of a failure.
#[verifier::ext_equal]
pub enum EffectV {
    Fatal,
    TypeMismatch,
    ZeroDivision,
    Virtual(Name, DataV),
}

/// Model of an execution context.
#[verifier::ext_equal]
pub struct FiberV {
    pub parent: Option<Box<FiberV>>,
    pub stack: StackV,
    pub ops: Seq<OpV>,
    pub pc: nat,
}

/// The outcome of one step: the machine moves to a next state, or halts in a
/// faulted state carrying the failure.
#[verifier::ext_equal]
pub enum StepV {
    Next(FiberV),
    Fail(FiberV, EffectV),
}

/// Copying a value: every variant copies exactly, except that the copy of a
/// continuation is an empty handle, so that a suspended fiber can never be
/// resumed through two handles.
pub open spec fn dead_v(d: DataV) -> DataV {
    match d {
        DataV::Cont(_) => DataV::Cont(None),
        _ => d,
    }
}

/// Copying an instruction copies its constant, if any.
pub open spec fn dead_op_v(op: OpV) -> OpV {
    match op {
        OpV::Const(d) => OpV::Const(dead_v(d)),
        _ => op,
    }
}

/// A fiber is done when its program counter has run past the end of its code.
pub open spec fn is_done_v(f: FiberV) -> bool {
    f.pc >= f.ops.len()
}

/// The faulted terminal state: the program counter is forced to the end.
pub open spec fn killed_v(f: FiberV) -> FiberV {
    FiberV { pc: f.ops.len(), ..f }
}

pub open spec fn fail_v(f: FiberV, e: EffectV) -> StepV {
    StepV::Fail(killed_v(f), e)
}

/// An operand may be popped only when one exists above the innermost frame's
/// base: popping past a frame's base would read into the caller's data and is
/// a fatal failure instead.
pub open spec fn can_pop_v(st: StackV) -> bool {
    &&& st.frames.len() > 0
    &&& st.datum.len() > st.frames.last().index
}

pub open spec fn top_v(f: FiberV) -> DataV {
    f.stack.datum.last()
}

pub open spec fn popped_v(f: FiberV) -> FiberV {
    FiberV { stack: StackV { datum: f.stack.datum.drop_last(), ..f.stack }, ..f }
}

pub open spec fn pushed_v(f: FiberV, d: DataV) -> FiberV {
    FiberV { stack: StackV { datum: f.stack.datum.push(d), ..f.stack }, ..f }
}

/// Move past the current instruction.  A finished fiber stays where it is, so
/// the program counter never leaves `0 ..= ops.len()`.
pub open spec fn advanced_v(f: FiberV) -> FiberV {
    if f.pc < f.ops.len() {
        FiberV { pc: (f.pc + 1) as nat, ..f }
    } else {
        f
    }
}

/// Handler resolution within one fiber: search the frames innermost
/// (last) to outermost for the first handler table binding the name.
pub open spec fn resolve_frames_v(frames: Seq<FrameV>, n: Name) -> Option<FunV>
    decreases frames.len(),
{
    if frames.len() == 0 {
        None
    } else if frames.last().handlers.contains_key(n) {
        Some(frames.last().handlers[n])
    } else {
        resolve_frames_v(frames.drop_last(), n)
    }
}

/// Full handler resolution: the fiber's own frames first, then the ancestor
/// chain, read-only.
pub open spec fn resolve_v(f: FiberV, n: Name) -> Option<FunV>
    decreases f,
{
    match resolve_frames_v(f.stack.frames, n) {
        Some(g) => Some(g),
        None => match f.parent {
            Some(p) => resolve_v(*p, n),
            None => None,
        },
    }
}

/// The read-only image of a frame kept for ancestor handler lookup: handler
/// tables and captures survive, but any continuation values are emptied, so
/// the image never holds a resumable handle.
pub open spec fn snap_frame_v(fr: FrameV) -> FrameV {
    FrameV { captures: fr.captures.map_values(|d: DataV| dead_v(d)), ..fr }
}

pub open spec fn snap_stack_v(st: StackV) -> StackV {
    StackV {
        datum: st.datum.map_values(|d: DataV| dead_v(d)),
        frames: st.frames.map_values(|fr: FrameV| snap_frame_v(fr)),
    }
}

/// The read-only image of a fiber installed as the parent of a fiber spawned
/// by `Raise`: it is used only for handler lookup and is never executed.
pub open spec fn snap_fiber_v(f: FiberV) -> FiberV
    decreases f,
{
    FiberV {
        parent: match f.parent {
            Some(p) => Some(Box::new(snap_fiber_v(*p))),
            None => None,
        },
        stack: snap_stack_v(f.stack),
        ops: f.ops,
        pc: f.pc,
    }
}

/// A fresh fiber built from a closure: an empty operand stack and a single
/// base frame holding the closure's captures.  Installing captures copies
/// them, so a continuation among them becomes an empty handle.
pub open spec fn fiber_of_v(g: FunV) -> FiberV {
    FiberV {
        parent: None,
        stack: StackV {
            datum: Seq::empty(),
            frames: seq![
                FrameV {
                    suspend: None,
                    index: 0,
                    captures: g.captures.map_values(|d: DataV| dead_v(d)),
                    handlers: Map::empty(),
                },
            ],
        },
        ops: g.ops,
        pc: 0,
    }
}

/// The symmetric fiber-switching primitive: the displaced fiber, its state
/// exactly as it was, is wrapped into a continuation and pushed onto the
/// target fiber's operand stack, with the transferred payload on top of it.
pub open spec fn switch_v(target: FiberV, displaced: FiberV, payload: DataV) -> FiberV {
    pushed_v(pushed_v(target, DataV::Cont(Some(Box::new(displaced)))), payload)
}

/// Truncating integer division, the quotient rounded toward zero.
pub open spec fn tdiv(x: int, d: int) -> int
    recommends d != 0,
{
    if x == 0 {
        0
    } else if x > 0 && d > 0 {
        x / d
    } else if x < 0 && d < 0 {
        (x * -1) / (d * -1)
    } else if x < 0 {
        ((x * -1) / d) * -1
    } else {
        (x / (d * -1)) * -1
    }
}

pub open spec fn fits_i64(x: int) -> bool {
    i64::MIN <= x <= i64::MAX
}

/// The value or failure produced by the binary numeric operations.  `a` is
/// the operand popped first (the top of the stack), `b` the operand popped
/// second.  `Add` pushes their sum.  `Div` divides `a` by `b`, the quotient
/// rounded toward zero; a zero in the numerator position `a` is the division
/// failure, while a zero denominator or a sum or quotient outside the machine
/// range is fatal.
pub open spec fn math_result_v(a: DataV, b: DataV, div: bool) -> Result<DataV, EffectV> {
    match (a, b) {
        (DataV::Num(x), DataV::Num(y)) => {
            if div {
                if x == 0 {
                    Err(EffectV::ZeroDivision)
                } else if y == 0 {
                    Err(EffectV::Fatal)
                } else if !fits_i64(tdiv(x, y)) {
                    Err(EffectV::Fatal)
                } else {
                    Ok(DataV::Num(tdiv(x, y)))
                }
            } else {
                if !fits_i64(x + y) {
                    Err(EffectV::Fatal)
                } else {
                    Ok(DataV::Num(x + y))
                }
            }
        },
        _ => Err(EffectV::TypeMismatch),
    }
}

/// One step of the binary numeric operations, applied to the fiber after both
/// pops.
pub open spec fn math_v(f2: FiberV, a: DataV, b: DataV, div: bool) -> StepV {
    match math_result_v(a, b, div) {
        Ok(d) => StepV::Next(advanced_v(pushed_v(f2, d))),
        Err(e) => fail_v(f2, e),
    }
}

/// The step taken by `Raise(n)`: resolve the handler first, then pop the
/// payload (popped whether or not a handler exists).  With no handler found
/// the fiber faults with the unhandled effect; otherwise a fresh fiber is
/// built from the handler closure, its parent set to a read-only image of the
/// raiser, and control switches into it.
pub open spec fn raise_v(f: FiberV, n: Name) -> StepV {
    let found = resolve_v(f, n);
    if !can_pop_v(f.stack) {
        fail_v(f, EffectV::Fatal)
    } else {
        let payload = top_v(f);
        let f1 = popped_v(f);
        match found {
            None => fail_v(f1, EffectV::Virtual(n, payload)),
            Some(g) => {
                let fresh = FiberV { parent: Some(Box::new(snap_fiber_v(f1))), ..fiber_of_v(g) };
                StepV::Next(switch_v(fresh, f1, payload))
            },
        }
    }
}

/// Entering a closure: a new frame saves the caller's code and program
/// counter, marks its base at the current operand length, and installs the
/// closure's captures (copied, so a continuation among them becomes an empty
/// handle); the closure's code then runs from instruction zero.
pub open spec fn call_install_v(f: FiberV, g: FunV) -> FiberV {
    let frame = FrameV {
        suspend: Some(SuspendV { ops: f.ops, pc: f.pc }),
        index: f.stack.datum.len(),
        captures: g.captures.map_values(|d: DataV| dead_v(d)),
        handlers: Map::empty(),
    };
    FiberV {
        stack: StackV { datum: f.stack.datum, frames: f.stack.frames.push(frame) },
        ops: g.ops,
        pc: 0,
        ..f
    }
}

/// The step taken by `Call`: pop an argument, then a callee.  A closure gets
/// a new frame (the caller's code and program counter saved, the base set to
/// the operand length, the closure's captures installed) and runs from
/// instruction zero with the argument pushed.  A continuation is resumed:
/// control switches into the wrapped fiber, which continues past the
/// instruction it suspended at.  An empty continuation handle is a fatal
/// failure; anything else is a type mismatch.
pub open spec fn call_v(f: FiberV) -> StepV {
    if !can_pop_v(f.stack) {
        fail_v(f, EffectV::Fatal)
    } else {
        let arg = top_v(f);
        let f1 = popped_v(f);
        if !can_pop_v(f1.stack) {
            fail_v(f1, EffectV::Fatal)
        } else {
            let callee = top_v(f1);
            let f2 = popped_v(f1);
            match callee {
                DataV::Fun(g) => StepV::Next(pushed_v(call_install_v(f2, g), arg)),
                DataV::Cont(Some(k)) => StepV::Next(advanced_v(switch_v(*k, f2, arg))),
                DataV::Cont(None) => fail_v(f2, EffectV::Fatal),
                _ => fail_v(f2, EffectV::TypeMismatch),
            }
        }
    }
}

/// The step taken by `Return(n)`: pop `n` return values, truncate the operand
/// stack back to the frame's base, remove the frame, restore the caller's
/// code and program counter (continuing past the call site), and push the
/// return values back.  On a frame with no suspension the fiber finishes
/// instead, the return values left on the stack.
pub open spec fn return_v(f: FiberV, n: nat) -> StepV {
    let st = f.stack;
    if st.frames.len() == 0 {
        fail_v(f, EffectV::Fatal)
    } else {
        let fr = st.frames.last();
        let len = st.datum.len();
        if len < fr.index + n {
            fail_v(f, EffectV::Fatal)
        } else {
            let rets = st.datum.subrange(len - n, len as int);
            let datum = st.datum.subrange(0, fr.index as int) + rets;
            let frames = st.frames.drop_last();
            match fr.suspend {
                Some(s) => StepV::Next(
                    FiberV {
                        stack: StackV { datum, frames },
                        ops: s.ops,
                        pc: if s.pc < s.ops.len() {
                            (s.pc + 1) as nat
                        } else {
                            s.pc
                        },
                        ..f
                    },
                ),
                None => StepV::Next(
                    FiberV {
                        stack: StackV { datum, frames },
                        pc: f.ops.len(),
                        ..f
                    },
                ),
            }
        }
    }
}

/// The step taken by `Pop(n)`: discard the top `n` operands.  A pop that
/// would cross the innermost frame's base is fatal; the pops before the
/// crossing are kept, there is no rollback.
pub open spec fn pop_n_v(f: FiberV, n: nat) -> StepV {
    let st = f.stack;
    if n == 0 {
        StepV::Next(advanced_v(f))
    } else if st.frames.len() == 0 {
        fail_v(f, EffectV::Fatal)
    } else {
        let base = st.frames.last().index;
        let len = st.datum.len();
        if base + n <= len {
            StepV::Next(
                advanced_v(
                    FiberV { stack: StackV { datum: st.datum.subrange(0, len - n), ..st }, ..f },
                ),
            )
        } else {
            let cut = if base <= len {
                base as int
            } else {
                len as int
            };
            fail_v(FiberV { stack: StackV { datum: st.datum.subrange(0, cut), ..st }, ..f },
                EffectV::Fatal)
        }
    }
}

/// The step taken by `Capture`: pop a code template, slice its declared
/// number of captured values off the top of the stack in their stack order,
/// and push a closure built from the template's code and that snapshot.  The
/// captured values are moved, not copied, so a continuation among them stays
/// resumable inside the closure's snapshot.
pub open spec fn capture_v(f: FiberV) -> StepV {
    if !can_pop_v(f.stack) {
        fail_v(f, EffectV::Fatal)
    } else {
        let c = top_v(f);
        let f1 = popped_v(f);
        match c {
            DataV::RawFun(r) => {
                let st = f1.stack;
                let base = st.frames.last().index;
                let len = st.datum.len();
                if base + r.num_captures > len {
                    fail_v(f1, EffectV::Fatal)
                } else {
                    let caps = st.datum.subrange(len - r.num_captures, len as int);
                    let datum = st.datum.subrange(0, len - r.num_captures).push(
                        DataV::Fun(FunV { ops: r.ops, captures: caps }),
                    );
                    StepV::Next(advanced_v(FiberV { stack: StackV { datum, ..st }, ..f1 }))
                }
            },
            _ => fail_v(f1, EffectV::TypeMismatch),
        }
    }
}

/// The step taken by `Get(n)`: push a copy of the innermost frame's capture
/// slot `n`.  A missing frame or an out-of-range slot is fatal.
pub open spec fn get_v(f: FiberV, n: Name) -> StepV {
    let st = f.stack;
    if st.frames.len() == 0 {
        fail_v(f, EffectV::Fatal)
    } else {
        let fr = st.frames.last();
        if n.0 >= fr.captures.len() {
            fail_v(f, EffectV::Fatal)
        } else {
            StepV::Next(advanced_v(pushed_v(f, dead_v(fr.captures[n.0 as int]))))
        }
    }
}

/// The step taken by `Set(n)`: pop a value and rebind the innermost frame's
/// capture slot `n` to it, for the remainder of that frame's life.
pub open spec fn set_v(f: FiberV, n: Name) -> StepV {
    if !can_pop_v(f.stack) {
        fail_v(f, EffectV::Fatal)
    } else {
        let v = top_v(f);
        let f1 = popped_v(f);
        let st = f1.stack;
        let fr = st.frames.last();
        if n.0 >= fr.captures.len() {
            fail_v(f1, EffectV::Fatal)
        } else {
            let fr2 = FrameV { captures: fr.captures.update(n.0 as int, v), ..fr };
            let frames = st.frames.update(st.frames.len() - 1, fr2);
            StepV::Next(advanced_v(FiberV { stack: StackV { frames, ..st }, ..f1 }))
        }
    }
}

/// The step taken by `Handler(n)`: pop a closure and bind it under `n` in the
/// innermost frame's handler table, shadowing any earlier binding for `n` in
/// that frame.
pub open spec fn handler_v(f: FiberV, n: Name) -> StepV {
    if !can_pop_v(f.stack) {
        fail_v(f, EffectV::Fatal)
    } else {
        let v = top_v(f);
        let f1 = popped_v(f);
        match v {
            DataV::Fun(g) => {
                let st = f1.stack;
                let fr = st.frames.last();
                let fr2 = FrameV { handlers: fr.handlers.insert(n, g), ..fr };
                let frames = st.frames.update(st.frames.len() - 1, fr2);
                StepV::Next(advanced_v(FiberV { stack: StackV { frames, ..st }, ..f1 }))
            },
            _ => fail_v(f1, EffectV::TypeMismatch),
        }
    }
}

/// The step taken by `Add` and `Div`: pop the two operands, then apply the
/// numeric operation.
pub open spec fn math_step_v(f: FiberV, div: bool) -> StepV {
    if !can_pop_v(f.stack) {
        fail_v(f, EffectV::Fatal)
    } else {
        let a = top_v(f);
        let f1 = popped_v(f);
        if !can_pop_v(f1.stack) {
            fail_v(f1, EffectV::Fatal)
        } else {
            math_v(popped_v(f1), a, top_v(f1), div)
        }
    }
}

/// The step taken by `Const`: push a copy of the constant.
pub open spec fn const_v(f: FiberV, d: DataV) -> StepV {
    StepV::Next(advanced_v(pushed_v(f, dead_v(d))))
}

/// One step of the machine.  A finished fiber does not move.  Otherwise the
/// instruction under the program counter is decoded (copying its constant, if
/// any) and executed.
pub open spec fn step_v(f: FiberV) -> StepV {
    if is_done_v(f) {
        StepV::Next(f)
    } else {
        match f.ops[f.pc as int] {
            OpV::Const(d) => const_v(f, d),
            OpV::Add => math_step_v(f, false),
            OpV::Div => math_step_v(f, true),
            OpV::Get(n) => get_v(f, n),
            OpV::Put(n) => set_v(f, n),
            OpV::Handler(n) => handler_v(f, n),
            OpV::Raise(n) => raise_v(f, n),
            OpV::Call => call_v(f),
            OpV::Pop(n) => pop_n_v(f, n),
            OpV::Capture => capture_v(f),
            OpV::Return(n) => return_v(f, n),
        }
    }
}

/// `b` is reached from `a` by exactly `n` successful steps.
pub open spec fn steps_ok(a: FiberV, b: FiberV, n: nat) -> bool
    decreases n,
{
    if n == 0 {
        a == b
    } else {
        &&& !is_done_v(a)
        &&& match step_v(a) {
            StepV::Next(m) => steps_ok(m, b, (n - 1) as nat),
            StepV::Fail(..) => false,
        }
    }
}

/// Chaining successful steps.
pub proof fn lemma_steps_ok_snoc(a: FiberV, b: FiberV, c: FiberV, n: nat)
    requires
        steps_ok(a, b, n),
        !is_done_v(b),
        step_v(b) == StepV::Next(c),
    ensures
        steps_ok(a, c, n + 1),
    decreases n,
{
    if n == 0 {
        assert(a == b);
        assert(steps_ok(c, c, 0));
        assert(steps_ok(b, c, 1));
    } else {
        match step_v(a) {
            StepV::Next(m) => {
                lemma_steps_ok_snoc(m, b, c, (n - 1) as nat);
                assert(steps_ok(m, c, n));
            },
            StepV::Fail(..) => {},
        }
    }
}

} // verus!
