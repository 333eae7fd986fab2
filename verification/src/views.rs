//! Views of the runtime types into the mathematical model.

use vstd::prelude::*;
use crate::types::{Name, Op, RawFun, Fun, Suspend, Frame, Stack, Data, Effect, Fiber};
use crate::model::{OpV, RawFunV, FunV, SuspendV, FrameV, StackV, DataV, EffectV, FiberV};

verus! {

broadcast use vstd::seq::group_seq_axioms, vstd::std_specs::vec::group_vec_axioms;

pub open spec fn view_ops(s: Seq<Op>) -> Seq<OpV>
    decreases s,
{
    if s.len() == 0 {
        Seq::empty()
    } else {
        view_ops(s.drop_last()).push(view_op(s.last()))
    }
}

pub open spec fn view_datas(s: Seq<Data>) -> Seq<DataV>
    decreases s,
{
    if s.len() == 0 {
        Seq::empty()
    } else {
        view_datas(s.drop_last()).push(view_data(s.last()))
    }
}

pub open spec fn view_frames(s: Seq<Frame>) -> Seq<FrameV>
    decreases s,
{
    if s.len() == 0 {
        Seq::empty()
    } else {
        view_frames(s.drop_last()).push(view_frame(s.last()))
    }
}

/// The view of an instruction sequence is the sequence of instruction views.
pub broadcast proof fn lemma_view_ops_points(s: Seq<Op>)
    ensures
        (#[trigger] view_ops(s)).len() == s.len(),
        forall|i: int| 0 <= i < s.len() ==> view_ops(s)[i] == view_op(s[i]),
    decreases s.len(),
{
    if s.len() > 0 {
        lemma_view_ops_points(s.drop_last());
    }
}

/// The view of a value sequence is the sequence of value views.
pub broadcast proof fn lemma_view_datas_points(s: Seq<Data>)
    ensures
        (#[trigger] view_datas(s)).len() == s.len(),
        forall|i: int| 0 <= i < s.len() ==> view_datas(s)[i] == view_data(s[i]),
    decreases s.len(),
{
    if s.len() > 0 {
        lemma_view_datas_points(s.drop_last());
    }
}

/// The view of a frame sequence is the sequence of frame views.
pub broadcast proof fn lemma_view_frames_points(s: Seq<Frame>)
    ensures
        (#[trigger] view_frames(s)).len() == s.len(),
        forall|i: int| 0 <= i < s.len() ==> view_frames(s)[i] == view_frame(s[i]),
    decreases s.len(),
{
    if s.len() > 0 {
        lemma_view_frames_points(s.drop_last());
    }
}

/// The handler table as a map: a later binding for a name shadows an earlier
/// one.
pub open spec fn view_handlers(s: Seq<(Name, Fun)>) -> Map<Name, FunV>
    decreases s,
{
    if s.len() == 0 {
        Map::empty()
    } else {
        view_handlers(s.drop_last()).insert(s.last().0, view_fun(s.last().1))
    }
}

pub open spec fn view_op(op: Op) -> OpV
    decreases op,
{
    match op {
        Op::Return(n) => OpV::Return(n as nat),
        Op::Call => OpV::Call,
        Op::Const(d) => OpV::Const(view_data(d)),
        Op::Add => OpV::Add,
        Op::Div => OpV::Div,
        Op::Get(n) => OpV::Get(n),
        Op::Put(n) => OpV::Put(n),
        Op::Handler(n) => OpV::Handler(n),
        Op::Raise(n) => OpV::Raise(n),
        Op::Pop(n) => OpV::Pop(n as nat),
        Op::Capture => OpV::Capture,
    }
}

pub open spec fn view_data(d: Data) -> DataV
    decreases d,
{
    match d {
        Data::Num(x) => DataV::Num(x as int),
        Data::RawFun(r) => DataV::RawFun(view_rawfun(r)),
        Data::Fun(g) => DataV::Fun(view_fun(g)),
        Data::Cont(opt) => DataV::Cont(
            match opt {
                Some(b) => Some(Box::new(view_fiber(*b))),
                None => None,
            },
        ),
    }
}

pub open spec fn view_rawfun(r: RawFun) -> RawFunV
    decreases r,
{
    RawFunV { ops: view_ops(r.ops@), num_captures: r.num_captures as nat }
}

pub open spec fn view_fun(g: Fun) -> FunV
    decreases g,
{
    FunV { ops: view_ops(g.ops@), captures: view_datas(g.captures@) }
}

pub open spec fn view_suspend(s: Suspend) -> SuspendV
    decreases s,
{
    SuspendV { ops: view_ops(s.ops@), pc: s.pc as nat }
}

pub open spec fn view_frame(fr: Frame) -> FrameV
    decreases fr,
{
    FrameV {
        suspend: match fr.suspend {
            Some(s) => Some(view_suspend(s)),
            None => None,
        },
        index: fr.index as nat,
        captures: view_datas(fr.captures@),
        handlers: view_handlers(fr.handlers@),
    }
}

pub open spec fn view_stack(st: Stack) -> StackV
    decreases st,
{
    StackV { datum: view_datas(st.datum@), frames: view_frames(st.frames@) }
}

pub open spec fn view_fiber(f: Fiber) -> FiberV
    decreases f,
{
    FiberV {
        parent: match f.parent {
            Some(b) => Some(Box::new(view_fiber(*b))),
            None => None,
        },
        stack: view_stack(f.stack),
        ops: view_ops(f.ops@),
        pc: f.pc as nat,
    }
}

pub open spec fn view_effect(e: Effect) -> EffectV
    decreases e,
{
    match e {
        Effect::Fatal => EffectV::Fatal,
        Effect::TypeMismatch => EffectV::TypeMismatch,
        Effect::ZeroDivision => EffectV::ZeroDivision,
        Effect::Virtual(n, d) => EffectV::Virtual(n, view_data(d)),
    }
}

impl View for Op {
    type V = OpV;

    open spec fn view(&self) -> OpV {
        view_op(*self)
    }
}

impl View for RawFun {
    type V = RawFunV;

    open spec fn view(&self) -> RawFunV {
        view_rawfun(*self)
    }
}

impl View for Fun {
    type V = FunV;

    open spec fn view(&self) -> FunV {
        view_fun(*self)
    }
}

impl View for Suspend {
    type V = SuspendV;

    open spec fn view(&self) -> SuspendV {
        view_suspend(*self)
    }
}

impl View for Frame {
    type V = FrameV;

    open spec fn view(&self) -> FrameV {
        view_frame(*self)
    }
}

impl View for Stack {
    type V = StackV;

    open spec fn view(&self) -> StackV {
        view_stack(*self)
    }
}

impl View for Data {
    type V = DataV;

    open spec fn view(&self) -> DataV {
        view_data(*self)
    }
}

impl View for Effect {
    type V = EffectV;

    open spec fn view(&self) -> EffectV {
        view_effect(*self)
    }
}

impl View for Fiber {
    type V = FiberV;

    open spec fn view(&self) -> FiberV {
        view_fiber(*self)
    }
}

/// The `view` method of each runtime type is its free view function; stated
/// as broadcast lemmas so that proofs over mutated values connect the two.
pub broadcast proof fn lemma_unfold_view_op(x: Op)
    ensures
        (#[trigger] x.view()) == view_op(x),
{
}

pub broadcast proof fn lemma_unfold_view_data(x: Data)
    ensures
        (#[trigger] x.view()) == view_data(x),
{
}

pub broadcast proof fn lemma_unfold_view_rawfun(x: RawFun)
    ensures
        (#[trigger] x.view()) == view_rawfun(x),
{
}

pub broadcast proof fn lemma_unfold_view_fun(x: Fun)
    ensures
        (#[trigger] x.view()) == view_fun(x),
{
}

pub broadcast proof fn lemma_unfold_view_suspend(x: Suspend)
    ensures
        (#[trigger] x.view()) == view_suspend(x),
{
}

pub broadcast proof fn lemma_unfold_view_frame(x: Frame)
    ensures
        (#[trigger] x.view()) == view_frame(x),
{
}

pub broadcast proof fn lemma_unfold_view_stack(x: Stack)
    ensures
        (#[trigger] x.view()) == view_stack(x),
{
}

pub broadcast proof fn lemma_unfold_view_effect(x: Effect)
    ensures
        (#[trigger] x.view()) == view_effect(x),
{
}

pub broadcast proof fn lemma_unfold_view_fiber(x: Fiber)
    ensures
        (#[trigger] x.view()) == view_fiber(x),
{
}

pub broadcast group group_view_unfold {
    lemma_unfold_view_op,
    lemma_unfold_view_data,
    lemma_unfold_view_rawfun,
    lemma_unfold_view_fun,
    lemma_unfold_view_suspend,
    lemma_unfold_view_frame,
    lemma_unfold_view_stack,
    lemma_unfold_view_effect,
    lemma_unfold_view_fiber,
}

/// Everything the proofs need about one fiber's view, spelled out field by
/// field.
pub proof fn lemma_fiber_fields(f: Fiber)
    ensures
        f@ == view_fiber(f),
        f@.ops == view_ops(f.ops@),
        f@.pc == f.pc as nat,
        f@.stack == view_stack(f.stack),
        f@.stack.datum == view_datas(f.stack.datum@),
        f@.stack.frames == view_frames(f.stack.frames@),
        f@.parent == (match f.parent {
            Some(b) => Some(Box::new(view_fiber(*b))),
            None => None::<Box<FiberV>>,
        }),
        f@.ops.len() == f.ops@.len(),
        f@.stack.datum.len() == f.stack.datum@.len(),
        f@.stack.frames.len() == f.stack.frames@.len(),
        forall|j: int|
            0 <= j < f.stack.frames@.len() ==> f@.stack.frames[j] == view_frame(
                #[trigger] f.stack.frames@[j],
            ),
        forall|j: int|
            0 <= j < f.stack.datum@.len() ==> f@.stack.datum[j] == view_data(
                #[trigger] f.stack.datum@[j],
            ),
        forall|j: int|
            0 <= j < f.ops@.len() ==> f@.ops[j] == view_op(#[trigger] f.ops@[j]),
{
    broadcast use lemma_view_ops_points, lemma_view_datas_points, lemma_view_frames_points;

    assert(f@ == view_fiber(f));
    assert(view_fiber(f).ops == view_ops(f.ops@));
    assert(view_fiber(f).stack == view_stack(f.stack));
    assert(view_stack(f.stack).datum == view_datas(f.stack.datum@));
    assert(view_stack(f.stack).frames == view_frames(f.stack.frames@));
}

/// Everything the proofs need about one frame's view.
pub proof fn lemma_frame_fields(fr: Frame)
    ensures
        fr@ == view_frame(fr),
        fr@.index == fr.index as nat,
        fr@.captures == view_datas(fr.captures@),
        fr@.handlers == view_handlers(fr.handlers@),
        fr@.captures.len() == fr.captures@.len(),
        fr@.suspend == (match fr.suspend {
            Some(s) => Some(view_suspend(s)),
            None => None::<SuspendV>,
        }),
        forall|j: int|
            0 <= j < fr.captures@.len() ==> fr@.captures[j] == view_data(
                #[trigger] fr.captures@[j],
            ),
{
    broadcast use lemma_view_datas_points;

    assert(fr@ == view_frame(fr));
    assert(view_frame(fr).captures == view_datas(fr.captures@));
}

/// The element views distribute over appending one element.
pub proof fn lemma_view_datas_push(s: Seq<Data>, d: Data)
    ensures
        view_datas(s.push(d)) == view_datas(s).push(view_data(d)),
{
    broadcast use lemma_view_datas_points;

    assert(view_datas(s.push(d)) =~= view_datas(s).push(view_data(d)));
}

pub proof fn lemma_view_datas_drop_last(s: Seq<Data>)
    requires
        s.len() > 0,
    ensures
        view_datas(s.drop_last()) == view_datas(s).drop_last(),
{
    broadcast use lemma_view_datas_points;

    assert(view_datas(s.drop_last()) =~= view_datas(s).drop_last());
}

pub proof fn lemma_view_datas_subrange(s: Seq<Data>, i: int, j: int)
    requires
        0 <= i <= j <= s.len(),
    ensures
        view_datas(s.subrange(i, j)) == view_datas(s).subrange(i, j),
{
    broadcast use lemma_view_datas_points;

    assert(view_datas(s.subrange(i, j)) =~= view_datas(s).subrange(i, j));
}

pub proof fn lemma_view_datas_update(s: Seq<Data>, i: int, d: Data)
    requires
        0 <= i < s.len(),
    ensures
        view_datas(s.update(i, d)) == view_datas(s).update(i, view_data(d)),
{
    broadcast use lemma_view_datas_points;

    assert(view_datas(s.update(i, d)) =~= view_datas(s).update(i, view_data(d)));
}

pub proof fn lemma_view_datas_add(s: Seq<Data>, t: Seq<Data>)
    ensures
        view_datas(s + t) == view_datas(s) + view_datas(t),
{
    broadcast use lemma_view_datas_points;

    assert(view_datas(s + t) =~= view_datas(s) + view_datas(t));
}

pub proof fn lemma_view_frames_push(s: Seq<Frame>, fr: Frame)
    ensures
        view_frames(s.push(fr)) == view_frames(s).push(view_frame(fr)),
{
    broadcast use lemma_view_frames_points;

    assert(view_frames(s.push(fr)) =~= view_frames(s).push(view_frame(fr)));
}

pub proof fn lemma_view_frames_drop_last(s: Seq<Frame>)
    requires
        s.len() > 0,
    ensures
        view_frames(s.drop_last()) == view_frames(s).drop_last(),
{
    broadcast use lemma_view_frames_points;

    assert(view_frames(s.drop_last()) =~= view_frames(s).drop_last());
}

pub proof fn lemma_view_frames_update(s: Seq<Frame>, i: int, fr: Frame)
    requires
        0 <= i < s.len(),
    ensures
        view_frames(s.update(i, fr)) == view_frames(s).update(i, view_frame(fr)),
{
    broadcast use lemma_view_frames_points;

    assert(view_frames(s.update(i, fr)) =~= view_frames(s).update(i, view_frame(fr)));
}

/// Appending a binding to a handler table inserts it into the table's map.
pub proof fn lemma_view_handlers_push(s: Seq<(Name, Fun)>, n: Name, g: Fun)
    ensures
        view_handlers(s.push((n, g))) == view_handlers(s).insert(n, view_fun(g)),
{
    assert(s.push((n, g)).drop_last() =~= s);
}

/// A name bound by no entry is absent from the table's map.
pub proof fn lemma_view_handlers_absent(s: Seq<(Name, Fun)>, n: Name)
    requires
        forall|j: int| 0 <= j < s.len() ==> s[j].0 != n,
    ensures
        !view_handlers(s).contains_key(n),
    decreases s.len(),
{
    if s.len() > 0 {
        lemma_view_handlers_absent(s.drop_last(), n);
    }
}

/// The last entry binding a name decides what the table's map holds for it.
pub proof fn lemma_view_handlers_found(s: Seq<(Name, Fun)>, n: Name, k: int)
    requires
        0 <= k < s.len(),
        s[k].0 == n,
        forall|j: int| k < j < s.len() ==> s[j].0 != n,
    ensures
        view_handlers(s).contains_key(n),
        view_handlers(s)[n] == view_fun(s[k].1),
    decreases s.len(),
{
    if k + 1 < s.len() {
        lemma_view_handlers_found(s.drop_last(), n, k);
    }
}

/// Tables whose entries agree up to the view of each closure have the same
/// map.
pub proof fn lemma_view_handlers_equal(s: Seq<(Name, Fun)>, t: Seq<(Name, Fun)>)
    requires
        s.len() == t.len(),
        forall|j: int|
            0 <= j < s.len() ==> #[trigger] t[j].0 == s[j].0 && view_fun(t[j].1) == view_fun(
                s[j].1,
            ),
    ensures
        view_handlers(t) == view_handlers(s),
    decreases s.len(),
{
    if s.len() > 0 {
        lemma_view_handlers_equal(s.drop_last(), t.drop_last());
        assert(t[s.len() - 1].0 == s[s.len() - 1].0);
        assert(view_handlers(t) =~= view_handlers(s));
    }
}

} // verus!
