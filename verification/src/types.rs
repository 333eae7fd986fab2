//! The runtime value model and the instruction set.

use vstd::prelude::*;
use std::rc::Rc;

verus! {

/// An opaque small integer identifying a capture slot or an effect tag.
#[derive(Debug, Clone, Copy, PartialEq, Eq, Structural)]
pub struct Name(pub usize);

/// One element of a program.  Programs are immutable, shareable sequences of
/// instructions; the same sequence may be referenced by many closures and many
/// frames at once.
#[derive(Debug, PartialEq)]
pub enum Op {
    /// Pop this many return values, truncate the operand stack back to the
    /// frame's base, remove the frame, restore the caller's code and program
    /// counter, and push the return values back.  On a fiber's outermost
    /// frame this marks the fiber finished instead.
    Return(usize),
    /// Pop an argument, then a callee: enter a closure, or resume a
    /// continuation.
    Call,
    /// Push a copy of the given constant.
    Const(Data),
    /// Pop two numbers and push their sum.
    Add,
    /// Pop two numbers and push the quotient: the first value popped is the
    /// numerator, the second the denominator.
    Div,
    /// Push a copy of the named capture slot of the innermost frame.
    Get(Name),
    /// Pop a value and rebind the named capture slot of the innermost frame.
    Put(Name),
    /// Pop a closure and register it in the innermost frame's handler table
    /// under the given effect name.
    Handler(Name),
    /// Pop a payload and transfer control to the handler registered for the
    /// given effect name, searching frames innermost first and then the
    /// ancestor fibers.
    Raise(Name),
    /// Discard this many operand values.
    Pop(usize),
    /// Pop a code template and slice its declared number of captured values
    /// off the top of the stack, pushing a callable closure.
    Capture,
}

/// A code template plus the count of values it still needs captured before it
/// becomes callable.
#[derive(Debug, PartialEq)]
pub struct RawFun {
    pub ops: Rc<Vec<Op>>,
    pub num_captures: usize,
}

/// A callable closure: code plus an ordered, immutable snapshot of captured
/// values.
#[derive(Debug, PartialEq)]
pub struct Fun {
    pub ops: Rc<Vec<Op>>,
    pub captures: Rc<Vec<Data>>,
}

/// The caller's code reference and program counter, restored when a frame
/// returns.
#[derive(Debug, PartialEq)]
pub struct Suspend {
    pub ops: Rc<Vec<Op>>,
    pub pc: usize,
}

/// One activation record: an optional suspension to restore on return (absent
/// only for a fiber's outermost frame), the operand-stack index marking this
/// frame's base, the captured values visible to `Get`/`Set`, and the handler
/// table.  A later binding for an effect name shadows an earlier one, so the
/// table holds at most one effective binding per name.
#[derive(Debug, PartialEq)]
pub struct Frame {
    pub suspend: Option<Suspend>,
    pub index: usize,
    pub captures: Vec<Data>,
    pub handlers: Vec<(Name, Fun)>,
}

/// Per-fiber state: the operand values and the activation frames, innermost
/// last.
#[derive(Debug, PartialEq)]
pub struct Stack {
    pub datum: Vec<Data>,
    pub frames: Vec<Frame>,
}

/// A runtime value.
#[derive(Debug, PartialEq)]
pub enum Data {
    /// A number.  Arithmetic is exact; a sum or quotient that leaves the
    /// machine range is a fatal failure.
    Num(i64),
    /// A code template that still needs its captures bound via `Capture`.
    RawFun(RawFun),
    /// A callable closure.
    Fun(Fun),
    /// A first-class continuation: the sole owning handle to a suspended
    /// fiber, resumable exactly once.  Copying a continuation (through
    /// `Const` or `Get`) yields an empty handle, so a suspended computation
    /// can never be resumed through two handles; resuming an empty handle is
    /// a fatal failure.
    Cont(Option<Box<Fiber>>),
}

/// A non-recoverable failure: it forces the fiber into the faulted terminal
/// state.
#[derive(Debug, PartialEq)]
pub enum Effect {
    /// An internal invariant was violated: stack underflow, a pop reaching
    /// past the innermost frame's base, a malformed capture slot, arithmetic
    /// leaving the machine range, or resuming a continuation that was already
    /// consumed.
    Fatal,
    /// An operation received a value of the wrong variant.
    TypeMismatch,
    /// `Div`'s numerator-position operand was zero.
    ZeroDivision,
    /// An effect was raised with no handler anywhere in the fiber's ancestry;
    /// carries the effect name and the payload that would have been delivered.
    Virtual(Name, Data),
}

/// One execution context: an optional read-only parent used for handler
/// lookup, the operand/frame stack, the currently executing code, and a
/// program counter.
#[derive(Debug, PartialEq)]
pub struct Fiber {
    pub parent: Option<Box<Fiber>>,
    pub stack: Stack,
    pub ops: Rc<Vec<Op>>,
    pub pc: usize,
}

} // verus!
