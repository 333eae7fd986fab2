//! The executable interpreter, proved to follow the small-step model.

use vstd::prelude::*;
use std::rc::Rc;
use crate::types::{Name, Op, RawFun, Fun, Suspend, Frame, Stack, Data, Effect, Fiber};
use crate::model::{
    FrameV, StackV, DataV, FiberV, SuspendV, StepV, RawFunV, FunV, dead_v, dead_op_v, is_done_v, killed_v,
    can_pop_v, top_v, popped_v, pushed_v, advanced_v, resolve_frames_v, resolve_v, snap_frame_v,
    snap_stack_v, snap_fiber_v, fiber_of_v, switch_v, math_result_v, call_install_v, step_v,
    steps_ok, lemma_steps_ok_snoc, math_step_v, const_v, get_v, set_v, handler_v, raise_v, call_v,
    pop_n_v, capture_v, return_v, OpV,
};
use crate::views::{
    view_ops, view_datas, view_frames, view_handlers, view_op, view_data, view_fun, view_frame,
    view_fiber, group_view_unfold, lemma_view_ops_points, lemma_view_datas_points,
    lemma_view_frames_points, lemma_view_datas_push, lemma_view_datas_drop_last,
    lemma_view_datas_subrange, lemma_view_datas_update, lemma_view_datas_add,
    lemma_view_frames_push, lemma_view_frames_drop_last, lemma_view_frames_update,
    lemma_view_handlers_push, lemma_view_handlers_absent, lemma_view_handlers_found,
    lemma_view_handlers_equal, lemma_fiber_fields, lemma_frame_fields,
};

verus! {

broadcast use vstd::seq::group_seq_axioms, vstd::std_specs::vec::group_vec_axioms,
    group_view_unfold, lemma_view_ops_points, lemma_view_datas_points, lemma_view_frames_points;

/// The executable outcome `r` with final state `f` realizes the model step
/// `s`.
pub open spec fn follows(s: StepV, f: FiberV, r: Result<(), Effect>) -> bool {
    match s {
        StepV::Next(g) => r matches Ok(u) && f == g,
        StepV::Fail(g, e) => r matches Err(x) && x@ == e && f == g,
    }
}

/// Relies on `Rc::clone`: the returned handle shares the very same value.
#[verifier::external_body]
fn rc_clone<T>(rc: &Rc<T>) -> (r: Rc<T>)
    ensures
        r == *rc,
{
    Rc::clone(rc)
}

impl Data {
    /// Copy a value.  Every variant copies exactly, except a continuation,
    /// whose copy is an empty handle: a suspended fiber keeps exactly one
    /// owner, so it can never be resumed twice.
    pub fn dup(&self) -> (r: Data)
        ensures
            r@ == dead_v(self@),
    {
        match self {
            Data::Num(x) => Data::Num(*x),
            Data::RawFun(rf) => Data::RawFun(
                RawFun { ops: rc_clone(&rf.ops), num_captures: rf.num_captures },
            ),
            Data::Fun(g) => Data::Fun(
                Fun { ops: rc_clone(&g.ops), captures: rc_clone(&g.captures) },
            ),
            Data::Cont(_) => Data::Cont(None),
        }
    }

    /// The binary numeric operations.  `self` is the operand popped first
    /// (the stack's top), `other` the operand popped second.
    fn try_math(self, other: Data, div: bool) -> (r: Result<Data, Effect>)
        ensures
            match math_result_v(self@, other@, div) {
                Ok(d) => r matches Ok(v) && v@ == d,
                Err(e) => r matches Err(x) && x@ == e,
            },
    {
        match (self, other) {
            (Data::Num(x), Data::Num(y)) => {
                if div {
                    if x == 0 {
                        Err(Effect::ZeroDivision)
                    } else {
                        match x.checked_div(y) {
                            Some(q) => Ok(Data::Num(q)),
                            None => Err(Effect::Fatal),
                        }
                    }
                } else {
                    match x.checked_add(y) {
                        Some(s) => Ok(Data::Num(s)),
                        None => Err(Effect::Fatal),
                    }
                }
            },
            _ => Err(Effect::TypeMismatch),
        }
    }
}

impl Op {
    /// Copy an instruction, copying its constant, if any.
    pub fn dup(&self) -> (r: Op)
        ensures
            r@ == dead_op_v(self@),
    {
        match self {
            Op::Return(n) => Op::Return(*n),
            Op::Call => Op::Call,
            Op::Const(d) => Op::Const(d.dup()),
            Op::Add => Op::Add,
            Op::Div => Op::Div,
            Op::Get(n) => Op::Get(*n),
            Op::Put(n) => Op::Put(*n),
            Op::Handler(n) => Op::Handler(*n),
            Op::Raise(n) => Op::Raise(*n),
            Op::Pop(n) => Op::Pop(*n),
            Op::Capture => Op::Capture,
        }
    }
}

/// Copy a sequence of values, continuations becoming empty handles.
fn dup_datas(v: &Vec<Data>) -> (r: Vec<Data>)
    ensures
        view_datas(r@) == view_datas(v@).map_values(|d: DataV| dead_v(d)),
{
    let mut out: Vec<Data> = Vec::new();
    let mut i: usize = 0;
    while i < v.len()
        invariant
            i <= v@.len(),
            out@.len() == i as int,
            forall|j: int| 0 <= j < i ==> view_data(out@[j]) == dead_v(view_data(v@[j])),
        decreases v@.len() - i,
    {
        let d = v[i].dup();
        out.push(d);
        i = i + 1;
    }
    proof {
        assert(view_datas(out@) =~= view_datas(v@).map_values(|d: DataV| dead_v(d)));
    }
    out
}

/// Copy a closure: the code and the capture snapshot are shared.
fn fun_clone(g: &Fun) -> (r: Fun)
    ensures
        r@ == g@,
{
    Fun { ops: rc_clone(&g.ops), captures: rc_clone(&g.captures) }
}

/// Look up the effective binding for a name in one frame's handler table: the
/// binding registered last wins.
fn table_get(table: &Vec<(Name, Fun)>, name: Name) -> (r: Option<&Fun>)
    ensures
        match r {
            Some(g) => view_handlers(table@).contains_key(name) && view_handlers(table@)[name]
                == view_fun(*g),
            None => !view_handlers(table@).contains_key(name),
        },
{
    let mut i: usize = table.len();
    while i > 0
        invariant
            i <= table@.len(),
            forall|j: int| i <= j < table@.len() ==> (#[trigger] table@[j]).0 != name,
        decreases i,
    {
        let k = i - 1;
        if table[k].0 == name {
            proof {
                lemma_view_handlers_found(table@, name, k as int);
            }
            return Some(&table[k].1);
        }
        i = k;
    }
    proof {
        lemma_view_handlers_absent(table@, name);
    }
    None
}

/// Copy a handler table, preserving its bindings.
fn table_clone(table: &Vec<(Name, Fun)>) -> (r: Vec<(Name, Fun)>)
    ensures
        view_handlers(r@) == view_handlers(table@),
{
    let mut out: Vec<(Name, Fun)> = Vec::new();
    let mut i: usize = 0;
    while i < table.len()
        invariant
            i <= table@.len(),
            out@.len() == i as int,
            forall|j: int|
                0 <= j < i ==> (#[trigger] out@[j]).0 == table@[j].0 && view_fun(out@[j].1)
                    == view_fun(table@[j].1),
        decreases table@.len() - i,
    {
        let g = fun_clone(&table[i].1);
        out.push((table[i].0, g));
        i = i + 1;
    }
    proof {
        lemma_view_handlers_equal(table@.subrange(0, table@.len() as int), out@);
        assert(table@.subrange(0, table@.len() as int) =~= table@);
    }
    out
}

impl Suspend {
    pub fn new(ops: Rc<Vec<Op>>, pc: usize) -> (r: Suspend)
        ensures
            r@ == (SuspendV { ops: view_ops(ops@), pc: pc as nat }),
    {
        Suspend { ops, pc }
    }

    fn dup(&self) -> (r: Suspend)
        ensures
            r@ == self@,
    {
        Suspend { ops: rc_clone(&self.ops), pc: self.pc }
    }
}

impl Frame {
    pub fn new(suspend: Option<Suspend>, index: usize, captures: Vec<Data>) -> (r: Frame)
        ensures
            r@ == (FrameV {
                suspend: match suspend {
                    Some(s) => Some(s@),
                    None => None,
                },
                index: index as nat,
                captures: view_datas(captures@),
                handlers: Map::empty(),
            }),
    {
        let r = Frame { suspend, index, captures, handlers: Vec::new() };
        proof {
            assert(view_handlers(r.handlers@) =~= Map::<Name, crate::model::FunV>::empty());
        }
        r
    }

    /// The read-only image of a frame kept for ancestor handler lookup.
    fn snap(&self) -> (r: Frame)
        ensures
            r@ == snap_frame_v(self@),
    {
        let suspend: Option<Suspend> = match &self.suspend {
            Some(s) => Some(s.dup()),
            None => None,
        };
        let r = Frame {
            suspend,
            index: self.index,
            captures: dup_datas(&self.captures),
            handlers: table_clone(&self.handlers),
        };
        proof {
            assert(r@ =~~= snap_frame_v(self@));
        }
        r
    }
}

impl Stack {
    pub fn new(captures: Vec<Data>) -> (r: Stack)
        ensures
            r@ == (StackV {
                datum: Seq::empty(),
                frames: seq![
                    FrameV {
                        suspend: None,
                        index: 0,
                        captures: view_datas(captures@),
                        handlers: Map::empty(),
                    },
                ],
            }),
    {
        let base = Frame::new(None, 0, captures);
        let ghost basev = base@;
        let r = Stack { datum: Vec::new(), frames: vec![base] };
        proof {
            assert(r.frames@.len() == 1 && r.frames@[0] == base);
            assert(view_frames(r.frames@) =~= seq![basev]);
            assert(view_datas(r.datum@) =~= Seq::<DataV>::empty());
            assert(r@ =~~= (StackV {
                datum: Seq::empty(),
                frames: seq![
                    FrameV {
                        suspend: None,
                        index: 0,
                        captures: view_datas(captures@),
                        handlers: Map::empty(),
                    },
                ],
            }));
        }
        r
    }

    /// The read-only image of the whole stack.
    fn snap(&self) -> (r: Stack)
        ensures
            r@ == snap_stack_v(self@),
    {
        let datum = dup_datas(&self.datum);
        let mut frames: Vec<Frame> = Vec::new();
        let mut i: usize = 0;
        while i < self.frames.len()
            invariant
                i <= self.frames@.len(),
                frames@.len() == i as int,
                forall|j: int|
                    0 <= j < i ==> view_frame(#[trigger] frames@[j]) == snap_frame_v(
                        view_frame(self.frames@[j]),
                    ),
            decreases self.frames@.len() - i,
        {
            let fr = self.frames[i].snap();
            frames.push(fr);
            i = i + 1;
        }
        let r = Stack { datum, frames };
        proof {
            assert(view_frames(r.frames@) =~= view_frames(self.frames@).map_values(
                |fr: FrameV| snap_frame_v(fr),
            ));
            assert(r@ =~~= snap_stack_v(self@));
        }
        r
    }
}

impl Fiber {
    /// A fresh fiber built from a closure: an empty operand stack and a
    /// single base frame holding the closure's captures.
    pub fn new(fun: Fun) -> (r: Fiber)
        ensures
            r@ == fiber_of_v(fun@),
    {
        let caps = dup_datas(&fun.captures);
        let r = Fiber { parent: None, stack: Stack::new(caps), ops: fun.ops, pc: 0 };
        proof {
            assert(r@ =~~= fiber_of_v(fun@));
        }
        r
    }

    /// The read-only image of this fiber installed as a parent link: used
    /// only for handler lookup, never executed, and holding no resumable
    /// continuation handle.
    fn snapshot(&self) -> (r: Fiber)
        ensures
            r@ == snap_fiber_v(self@),
        decreases *self,
    {
        let parent: Option<Box<Fiber>> = match &self.parent {
            Some(p) => Some(Box::new((**p).snapshot())),
            None => None,
        };
        let r = Fiber { parent, stack: self.stack.snap(), ops: rc_clone(&self.ops), pc: self.pc };
        proof {
            assert(r@ =~~= snap_fiber_v(self@));
        }
        r
    }

    fn push(&mut self, data: Data)
        ensures
            final(self)@ == pushed_v(old(self)@, data@),
    {
        let ghost pre = self@;
        self.stack.datum.push(data);
        proof {
            lemma_view_datas_push(old(self).stack.datum@, data);
            lemma_fiber_fields(*self);
            lemma_fiber_fields(*old(self));
            assert(self@ =~~= pushed_v(pre, data@));
        }
    }

    /// Force the fiber into its terminal state.
    fn kill(&mut self)
        ensures
            final(self)@ == killed_v(old(self)@),
    {
        let n = self.ops.len();
        self.pc = n;
        proof {
            lemma_fiber_fields(*self);
            lemma_fiber_fields(*old(self));
            assert(self@ =~~= killed_v(old(self)@));
        }
    }

    /// Whether the program counter has run past the end of the code.
    pub fn is_done(&self) -> (r: bool)
        ensures
            r == is_done_v(self@),
    {
        let n = self.ops.len();
        let r = self.pc >= n;
        proof {
            lemma_fiber_fields(*self);
            assert(self@.ops.len() == self.ops@.len());
        }
        r
    }

    /// The instruction under the program counter, copied out of the shared
    /// code sequence.
    fn next_op(&self) -> (r: Op)
        requires
            !is_done_v(self@),
        ensures
            r@ == dead_op_v(self@.ops[self@.pc as int]),
    {
        proof {
            lemma_fiber_fields(*self);
            assert(self@.ops.len() == self.ops@.len());
            assert(self@.ops[self.pc as int] == view_op(self.ops@[self.pc as int]));
        }
        let ops: &Vec<Op> = &self.ops;
        ops[self.pc].dup()
    }

    /// Unwrap an item, or fail fatally and kill the fiber.
    fn unwrap_or_fatal<T>(&mut self, item: Option<T>) -> (r: Result<T, Effect>)
        ensures
            match item {
                Some(v) => r matches Ok(w) && w == v && *final(self) == *old(self),
                None => r matches Err(e) && e == Effect::Fatal && final(self)@ == killed_v(
                    old(self)@),
            },
    {
        match item {
            Some(valid) => Ok(valid),
            None => {
                self.kill();
                Err(Effect::Fatal)
            },
        }
    }

    /// Pop the top operand.  A pop from an empty frame stack, or one that
    /// would cross the innermost frame's base and read the caller's data, is
    /// fatal.
    fn pop(&mut self) -> (r: Result<Data, Effect>)
        ensures
            can_pop_v(old(self)@.stack) ==> (r matches Ok(d) && d@ == top_v(old(self)@)
                && final(self)@ == popped_v(old(self)@) && final(self).stack.frames == old(
                self,
            ).stack.frames && final(self).ops == old(self).ops && final(self).pc == old(self).pc
                && final(self).parent == old(self).parent && final(self).stack.datum@ == old(
                self,
            ).stack.datum@.drop_last() && d == old(self).stack.datum@.last()),
            !can_pop_v(old(self)@.stack) ==> (r matches Err(e) && e == Effect::Fatal
                && final(self)@ == killed_v(old(self)@)),
    {
        proof {
            lemma_fiber_fields(*self);
            lemma_fiber_fields(*old(self));
        }
        let nf = self.stack.frames.len();
        if nf == 0 {
            self.kill();
            return Err(Effect::Fatal);
        }
        let base = self.stack.frames[nf - 1].index;
        proof {
            assert(self@.stack.frames[nf - 1] == view_frame(self.stack.frames@[nf - 1]));
            assert(self@.stack.frames.last().index == base as nat);
        }
        if self.stack.datum.len() <= base {
            self.kill();
            return Err(Effect::Fatal);
        }
        let ghost pre = self@;
        let top = self.stack.datum.pop();
        proof {
            lemma_view_datas_drop_last(old(self).stack.datum@);
            lemma_fiber_fields(*self);
            lemma_fiber_fields(*old(self));
            assert(self@ =~~= popped_v(pre));
            assert(view_data(old(self).stack.datum@.last()) == top_v(pre));
        }
        self.unwrap_or_fatal(top)
    }

    /// Dynamic-scope handler resolution: search this fiber's frames innermost
    /// first, then the ancestor chain, read-only.
    fn resolve_handler(&self, name: Name) -> (r: Option<Fun>)
        ensures
            match r {
                Some(g) => resolve_v(self@, name) == Some(g@),
                None => resolve_v(self@, name) is None,
            },
        decreases *self,
    {
        proof {
            lemma_fiber_fields(*self);
        }
        let ghost s = view_frames(self.stack.frames@);
        let nf = self.stack.frames.len();
        proof {
            assert(s.take(nf as int) =~= s);
        }
        let mut i: usize = nf;
        while i > 0
            invariant
                i <= self.stack.frames@.len(),
                s == view_frames(self.stack.frames@),
                resolve_frames_v(s, name) == resolve_frames_v(s.take(i as int), name),
            decreases i,
        {
            let k = i - 1;
            let found = table_get(&self.stack.frames[k].handlers, name);
            proof {
                lemma_fiber_fields(*self);
                assert(s.take(i as int).last() == view_frame(self.stack.frames@[k as int]));
                assert(view_frame(self.stack.frames@[k as int]).handlers == view_handlers(
                    self.stack.frames@[k as int].handlers@));
            }
            match found {
                Some(g) => {
                    let r = fun_clone(g);
                    proof {
                        lemma_fiber_fields(*self);
                        assert(resolve_frames_v(s.take(i as int), name) == Some(view_fun(*g)));
                        assert(self@.stack.frames == s);
                        assert(resolve_frames_v(self@.stack.frames, name) == Some(view_fun(*g)));
                        assert(resolve_v(self@, name) == Some(view_fun(*g)));
                    }
                    return Some(r);
                },
                None => {
                    proof {
                        assert(s.take(i as int).drop_last() =~= s.take(k as int));
                    }
                    i = k;
                },
            }
        }
        proof {
            assert(s.take(0) =~= Seq::<FrameV>::empty());
            assert(resolve_frames_v(s, name) is None);
        }
        match &self.parent {
            Some(p) => {
                let r = (**p).resolve_handler(name);
                proof {
                    assert(self@.parent == Some(Box::new(view_fiber(**p))));
                }
                r
            },
            None => None,
        }
    }

    /// Move past the current instruction.
    fn advance(&mut self)
        ensures
            final(self)@ == advanced_v(old(self)@),
    {
        proof {
            lemma_fiber_fields(*self);
            lemma_fiber_fields(*old(self));
            assert(self@.ops.len() == self.ops@.len());
        }
        let n = self.ops.len();
        if self.pc < n {
            self.pc = self.pc + 1;
        }
        proof {
            lemma_fiber_fields(*self);
            lemma_fiber_fields(*old(self));
            assert(self@ =~~= advanced_v(old(self)@));
        }
    }

    /// The symmetric fiber-switching primitive: replace the running fiber
    /// with the target, wrap the displaced fiber into a continuation, push
    /// that continuation onto the new operand stack, and push the transferred
    /// payload on top of it.
    pub fn switch(&mut self, other_fiber: Fiber, data: Data)
        ensures
            final(self)@ == switch_v(other_fiber@, old(self)@, data@),
    {
        let mut other = other_fiber;
        core::mem::swap(self, &mut other);
        self.push(Data::Cont(Some(Box::new(other))));
        self.push(data);
    }

    /// Enter a closure: push a frame saving the caller's code and program
    /// counter, with its base at the current operand length and the closure's
    /// captures installed, and run the closure's code from instruction zero.
    pub fn call(&mut self, fun: Fun)
        ensures
            final(self)@ == call_install_v(old(self)@, fun@),
    {
        proof {
            lemma_fiber_fields(*self);
            lemma_fiber_fields(*old(self));
        }
        let caps = dup_datas(&fun.captures);
        let index = self.stack.datum.len();
        let mut old_ops = fun.ops;
        core::mem::swap(&mut self.ops, &mut old_ops);
        let old_pc = self.pc;
        self.pc = 0;
        let frame = Frame::new(Some(Suspend::new(old_ops, old_pc)), index, caps);
        self.stack.frames.push(frame);
        proof {
            lemma_view_frames_push(old(self).stack.frames@, frame);
            lemma_fiber_fields(*self);
            lemma_fiber_fields(*old(self));
            assert(self@ =~~= call_install_v(old(self)@, fun@));
        }
    }

    /// Execute one decoded `Add` or `Div`.
    fn do_math(&mut self, div: bool) -> (r: Result<(), Effect>)
        ensures
            follows(math_step_v(old(self)@, div), final(self)@, r),
    {
        let a = self.pop()?;
        let b = self.pop()?;
        match a.try_math(b, div) {
            Ok(d) => {
                self.push(d);
                self.advance();
                Ok(())
            },
            Err(e) => {
                self.kill();
                Err(e)
            },
        }
    }

    /// Execute one decoded `Get`.
    fn do_get(&mut self, n: Name) -> (r: Result<(), Effect>)
        ensures
            follows(get_v(old(self)@, n), final(self)@, r),
    {
        proof {
            lemma_fiber_fields(*self);
        }
        let nf = self.stack.frames.len();
        if nf == 0 {
            self.kill();
            return Err(Effect::Fatal);
        }
        proof {
            lemma_frame_fields(self.stack.frames@[nf - 1]);
        }
        if n.0 >= self.stack.frames[nf - 1].captures.len() {
            self.kill();
            return Err(Effect::Fatal);
        }
        let d = self.stack.frames[nf - 1].captures[n.0].dup();
        self.push(d);
        self.advance();
        Ok(())
    }

    /// Execute one decoded `Put`.
    fn do_put(&mut self, n: Name) -> (r: Result<(), Effect>)
        ensures
            follows(set_v(old(self)@, n), final(self)@, r),
    {
        let v = self.pop()?;
        let ghost f1 = self@;
        let ghost fseq = self.stack.frames@;
        proof {
            lemma_fiber_fields(*self);
            lemma_frame_fields(fseq.last());
        }
        let t = self.stack.frames.pop();
        let mut fr = self.unwrap_or_fatal(t)?;
        if n.0 >= fr.captures.len() {
            self.stack.frames.push(fr);
            proof {
                assert(self.stack.frames@ =~= fseq);
                lemma_fiber_fields(*self);
                assert(self@ =~~= f1);
            }
            self.kill();
            return Err(Effect::Fatal);
        }
        let ghost caps0 = fr.captures@;
        fr.captures.remove(n.0);
        fr.captures.insert(n.0, v);
        proof {
            assert(fr.captures@ =~= caps0.update(n.0 as int, v));
            lemma_view_datas_update(caps0, n.0 as int, v);
            lemma_frame_fields(fr);
        }
        self.stack.frames.push(fr);
        proof {
            lemma_fiber_fields(*self);
            assert(self.stack.frames@ =~= fseq.update(fseq.len() - 1, fr));
            lemma_view_frames_update(fseq, fseq.len() as int - 1, fr);
            assert(self@.stack.frames =~= f1.stack.frames.update(
                f1.stack.frames.len() - 1,
                FrameV {
                    captures: f1.stack.frames.last().captures.update(n.0 as int, v@),
                    ..f1.stack.frames.last()
                },
            ));
        }
        self.advance();
        Ok(())
    }

    /// Execute one decoded `Handler`.
    fn do_handler(&mut self, n: Name) -> (r: Result<(), Effect>)
        ensures
            follows(handler_v(old(self)@, n), final(self)@, r),
    {
        let v = self.pop()?;
        let ghost f1 = self@;
        let ghost fseq = self.stack.frames@;
        proof {
            lemma_fiber_fields(*self);
            lemma_frame_fields(fseq.last());
        }
        match v {
            Data::Fun(g) => {
                let ghost gv = g@;
                let t = self.stack.frames.pop();
                let mut fr = self.unwrap_or_fatal(t)?;
                proof {
                    lemma_view_handlers_push(fr.handlers@, n, g);
                    lemma_frame_fields(fr);
                }
                fr.handlers.push((n, g));
                proof {
                    lemma_frame_fields(fr);
                }
                self.stack.frames.push(fr);
                proof {
                    lemma_fiber_fields(*self);
                    assert(self.stack.frames@ =~= fseq.update(fseq.len() - 1, fr));
                    lemma_view_frames_update(fseq, fseq.len() as int - 1, fr);
                    assert(self@.stack.frames =~= f1.stack.frames.update(
                        f1.stack.frames.len() - 1,
                        FrameV {
                            handlers: f1.stack.frames.last().handlers.insert(n, gv),
                            ..f1.stack.frames.last()
                        },
                    ));
                }
                self.advance();
                Ok(())
            },
            _ => {
                self.kill();
                Err(Effect::TypeMismatch)
            },
        }
    }

    /// Execute one decoded `Raise`.
    fn do_raise(&mut self, n: Name) -> (r: Result<(), Effect>)
        ensures
            follows(raise_v(old(self)@, n), final(self)@, r),
    {
        let found = self.resolve_handler(n);
        let payload = self.pop()?;
        match found {
            None => {
                self.kill();
                Err(Effect::Virtual(n, payload))
            },
            Some(g) => {
                let snap = self.snapshot();
                let mut fresh = Fiber::new(g);
                fresh.parent = Some(Box::new(snap));
                proof {
                    lemma_fiber_fields(fresh);
                    assert(fresh@ =~~= (FiberV {
                        parent: Some(Box::new(snap_fiber_v(popped_v(old(self)@)))),
                        ..fiber_of_v(g@)
                    }));
                }
                self.switch(fresh, payload);
                Ok(())
            },
        }
    }

    /// Execute one decoded `Call`.
    fn do_call(&mut self) -> (r: Result<(), Effect>)
        ensures
            follows(call_v(old(self)@), final(self)@, r),
    {
        let arg = self.pop()?;
        let callee = self.pop()?;
        match callee {
            Data::Fun(g) => {
                self.call(g);
                self.push(arg);
                Ok(())
            },
            Data::Cont(opt) => {
                let k = self.unwrap_or_fatal(opt)?;
                self.switch(*k, arg);
                self.advance();
                Ok(())
            },
            _ => {
                self.kill();
                Err(Effect::TypeMismatch)
            },
        }
    }

    /// Execute one decoded `Pop`.
    fn do_pop(&mut self, times: usize) -> (r: Result<(), Effect>)
        ensures
            follows(pop_n_v(old(self)@, times as nat), final(self)@, r),
    {
        proof {
            lemma_fiber_fields(*self);
        }
        if times == 0 {
            self.advance();
            return Ok(());
        }
        let nf = self.stack.frames.len();
        if nf == 0 {
            self.kill();
            return Err(Effect::Fatal);
        }
        proof {
            lemma_frame_fields(self.stack.frames@[nf - 1]);
        }
        let base = self.stack.frames[nf - 1].index;
        let len = self.stack.datum.len();
        let ghost dseq = self.stack.datum@;
        if base <= len && times <= len - base {
            self.stack.datum.truncate(len - times);
            proof {
                lemma_view_datas_subrange(dseq, 0, len - times);
                lemma_fiber_fields(*self);
            }
            self.advance();
            Ok(())
        } else {
            if base <= len {
                self.stack.datum.truncate(base);
                proof {
                    lemma_view_datas_subrange(dseq, 0, base as int);
                }
            } else {
                proof {
                    assert(self.stack.datum@ =~= dseq.subrange(0, len as int));
                    lemma_view_datas_subrange(dseq, 0, len as int);
                }
            }
            proof {
                lemma_fiber_fields(*self);
            }
            self.kill();
            Err(Effect::Fatal)
        }
    }

    /// Execute one decoded `Capture`.
    fn do_capture(&mut self) -> (r: Result<(), Effect>)
        ensures
            follows(capture_v(old(self)@), final(self)@, r),
    {
        let c = self.pop()?;
        let ghost f1 = self@;
        match c {
            Data::RawFun(rf) => {
                proof {
                    lemma_fiber_fields(*self);
                    assert(top_v(old(self)@) == DataV::RawFun(
                        RawFunV { ops: view_ops(rf.ops@), num_captures: rf.num_captures as nat },
                    ));
                }
                let nf = self.stack.frames.len();
                proof {
                    lemma_frame_fields(self.stack.frames@[nf - 1]);
                }
                let base = self.stack.frames[nf - 1].index;
                let len = self.stack.datum.len();
                if base > len || rf.num_captures > len - base {
                    self.kill();
                    return Err(Effect::Fatal);
                }
                let ghost dseq = self.stack.datum@;
                let caps = self.stack.datum.split_off(len - rf.num_captures);
                proof {
                    lemma_view_datas_subrange(dseq, 0, (len - rf.num_captures) as int);
                    lemma_view_datas_subrange(dseq, (len - rf.num_captures) as int, len as int);
                    lemma_fiber_fields(*self);
                }
                let rc_caps = Rc::new(caps);
                let g = Data::Fun(Fun { ops: rf.ops, captures: rc_caps });
                proof {
                    assert(g@ == DataV::Fun(
                        FunV {
                            ops: view_ops(rf.ops@),
                            captures: view_datas(dseq.subrange(
                                (len - rf.num_captures) as int,
                                len as int,
                            )),
                        },
                    ));
                }
                self.push(g);
                proof {
                    lemma_fiber_fields(*self);
                }
                self.advance();
                proof {
                    assert(capture_v(old(self)@) matches StepV::Next(gg) && self@ =~~= gg);
                }
                Ok(())
            },
            _ => {
                self.kill();
                Err(Effect::TypeMismatch)
            },
        }
    }

    /// Execute one decoded `Return`.
    fn do_return(&mut self, cnt: usize) -> (r: Result<(), Effect>)
        ensures
            follows(return_v(old(self)@, cnt as nat), final(self)@, r),
    {
        proof {
            lemma_fiber_fields(*self);
        }
        let ghost fseq = self.stack.frames@;
        let t = self.stack.frames.pop();
        proof {
            if fseq.len() == 0 {
                assert(self.stack.frames@ =~= fseq);
                lemma_fiber_fields(*self);
                assert(self@ =~~= old(self)@);
            }
        }
        let fr = self.unwrap_or_fatal(t)?;
        proof {
            lemma_frame_fields(fr);
            lemma_view_frames_drop_last(fseq);
            assert(fr@ == old(self)@.stack.frames.last());
        }
        let len = self.stack.datum.len();
        if len < fr.index || cnt > len - fr.index {
            self.stack.frames.push(fr);
            proof {
                assert(self.stack.frames@ =~= fseq);
                lemma_fiber_fields(*self);
                assert(self@ =~~= old(self)@);
            }
            self.kill();
            return Err(Effect::Fatal);
        }
        let ghost dseq = self.stack.datum@;
        let mut rets = self.stack.datum.split_off(len - cnt);
        self.stack.datum.truncate(fr.index);
        proof {
            lemma_view_datas_subrange(dseq, (len - cnt) as int, len as int);
            lemma_view_datas_subrange(dseq, 0, (len - cnt) as int);
            assert(dseq.subrange(0, (len - cnt) as int).subrange(0, fr.index as int) =~= dseq
                .subrange(0, fr.index as int));
            lemma_view_datas_subrange(dseq, 0, fr.index as int);
        }
        match fr.suspend {
            Some(s) => {
                self.ops = s.ops;
                self.pc = s.pc;
                let n2 = self.ops.len();
                proof {
                    lemma_fiber_fields(*self);
                }
                if self.pc < n2 {
                    self.pc = self.pc + 1;
                }
            },
            None => {
                let n2 = self.ops.len();
                proof {
                    lemma_fiber_fields(*self);
                }
                self.pc = n2;
            },
        }
        let ghost tseq = self.stack.datum@;
        let ghost rseq = rets@;
        self.stack.datum.append(&mut rets);
        proof {
            lemma_view_datas_add(tseq, rseq);
            lemma_fiber_fields(*self);
        }
        Ok(())
    }

    /// Execute the instruction under the program counter, exactly as the
    /// small-step model says: on success the machine has moved to the model's
    /// next state; on failure it sits in the model's faulted state and the
    /// failure is returned.
    pub fn step(&mut self) -> (r: Result<(), Effect>)
        requires
            !is_done_v(old(self)@),
        ensures
            follows(step_v(old(self)@), final(self)@, r),
    {
        proof {
            lemma_fiber_fields(*self);
        }
        let ghost opv = old(self)@.ops[old(self)@.pc as int];
        let op = self.next_op();
        proof {
            assert(op@ == dead_op_v(opv));
        }
        match op {
            Op::Const(d) => {
                proof {
                    assert(opv matches OpV::Const(d0) && d@ == dead_v(d0) && step_v(old(self)@)
                        == const_v(old(self)@, d0));
                }
                self.push(d);
                self.advance();
                Ok(())
            },
            Op::Add => self.do_math(false),
            Op::Div => self.do_math(true),
            Op::Get(n) => self.do_get(n),
            Op::Put(n) => self.do_put(n),
            Op::Handler(n) => self.do_handler(n),
            Op::Raise(n) => self.do_raise(n),
            Op::Call => self.do_call(),
            Op::Pop(times) => self.do_pop(times),
            Op::Capture => self.do_capture(),
            Op::Return(cnt) => self.do_return(cnt),
        }
    }

    /// Drive the interpreter until the fiber finishes or faults.  On success
    /// the final state is reached from the initial one by the model's
    /// successful steps and is finished.  On failure some reachable state
    /// takes the model's failing step into the returned faulted state — with
    /// one exception: after `u64::MAX` proven-successful steps the engine
    /// gives up fatally, the fiber left in the faulted state, so that escape
    /// exists only beyond an astronomically long execution.
    pub fn run(&mut self) -> (r: Result<(), Effect>)
        ensures
            r matches Ok(u) ==> is_done_v(final(self)@) && (exists|k: nat|
                steps_ok(old(self)@, final(self)@, k)),
            r matches Err(e) ==> (exists|k: nat, mid: FiberV|
                steps_ok(old(self)@, mid, k) && !is_done_v(mid) && ((step_v(mid) == StepV::Fail(
                    final(self)@,
                    e@,
                )) || (e == Effect::Fatal && k == u64::MAX as nat && final(self)@ == killed_v(
                    mid,
                )))),
    {
        let ghost start = self@;
        let ghost mut k: nat = 0;
        let mut budget: u64 = u64::MAX;
        proof {
            assert(steps_ok(start, self@, 0));
            assert(start == old(self)@);
        }
        while budget > 0 && !self.is_done()
            invariant
                start == old(self)@,
                steps_ok(start, self@, k),
                k + budget == u64::MAX as nat,
            decreases budget,
        {
            let ghost pre = self@;
            match self.step() {
                Ok(()) => {
                    proof {
                        lemma_steps_ok_snoc(start, pre, self@, k);
                        k = k + 1;
                    }
                },
                Err(e) => {
                    proof {
                        assert(steps_ok(start, pre, k) && !is_done_v(pre) && step_v(pre)
                            == StepV::Fail(self@, e@));
                    }
                    return Err(e);
                },
            }
            budget = budget - 1;
        }
        if !self.is_done() {
            let ghost pre = self@;
            self.kill();
            proof {
                assert(k == u64::MAX as nat);
                assert(steps_ok(start, pre, k) && !is_done_v(pre) && self@ == killed_v(pre));
            }
            return Err(Effect::Fatal);
        }
        Ok(())
    }

    /// The current program counter (read-only diagnostic surface).
    pub fn pc(&self) -> (r: usize)
        ensures
            (r as nat) == self@.pc,
    {
        self.pc
    }

    /// How many operand values the fiber currently holds.
    pub fn stack_depth(&self) -> (r: usize)
        ensures
            (r as nat) == self@.stack.datum.len(),
    {
        proof {
            lemma_fiber_fields(*self);
        }
        self.stack.datum.len()
    }

    /// How many activation frames the fiber currently holds.
    pub fn frame_depth(&self) -> (r: usize)
        ensures
            (r as nat) == self@.stack.frames.len(),
    {
        proof {
            lemma_fiber_fields(*self);
        }
        self.stack.frames.len()
    }

    /// The operand at the given position, position zero being the bottom of
    /// the stack (read-only diagnostic surface).
    pub fn stack_slot(&self, i: usize) -> (r: &Data)
        requires
            (i as nat) < self@.stack.datum.len(),
        ensures
            r@ == self@.stack.datum[i as int],
    {
        proof {
            lemma_fiber_fields(*self);
        }
        &self.stack.datum[i]
    }
}

} // verus!
