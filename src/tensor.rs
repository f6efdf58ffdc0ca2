//! The tape: an arena of tensor records, the operation nodes that link them, and the
//! gradient slot of each record.
use vstd::prelude::*;


use crate::operations::{copy_data, copy_shape};
use crate::shape::{checked_size, shape_size};

verus! {

/// A handle to a tensor record of a [`Tape`].
#[derive(Clone, Copy, Debug, PartialEq, Eq, Structural)]
pub struct Tensor {
    pub id: usize,
}

/// `lhs + rhs`, after both were brought to one shape.
#[derive(Clone, Copy, Debug, PartialEq, Eq, Structural)]
pub struct AddOperation {
    pub lhs: Tensor,
    pub rhs: Tensor,
}

/// Elementwise `lhs * rhs`, after both were brought to one shape.
#[derive(Clone, Copy, Debug, PartialEq, Eq, Structural)]
pub struct MulOperation {
    pub lhs: Tensor,
    pub rhs: Tensor,
}

/// `lhs @ rhs` over operands of equal rank (two, or three with a batch axis).
#[derive(Clone, Copy, Debug, PartialEq, Eq, Structural)]
pub struct MatMulOperation {
    pub lhs: Tensor,
    pub rhs: Tensor,
}

/// `-t`.
#[derive(Clone, Copy, Debug, PartialEq, Eq, Structural)]
pub struct NegOperation {
    pub t: Tensor,
}

/// `t` with its last two axes swapped.
#[derive(Clone, Copy, Debug, PartialEq, Eq, Structural)]
pub struct TransposeOperation {
    pub t: Tensor,
}

/// The sum of all elements of `t`, as a tensor of shape `[1]`.
#[derive(Clone, Copy, Debug, PartialEq, Eq, Structural)]
pub struct ReduceSumOperation {
    pub t: Tensor,
}

/// Elementwise `max(t, 0)`.
#[derive(Clone, Copy, Debug, PartialEq, Eq, Structural)]
pub struct ReluOperation {
    pub t: Tensor,
}

/// `t` replicated to the shape of the produced tensor: a scalar `[1]` to any shape,
/// or a tensor across one new leading batch axis.
#[derive(Clone, Copy, Debug, PartialEq, Eq, Structural)]
pub struct BroadcastOperation {
    pub t: Tensor,
}

/// The operation that produced a tensor.
#[derive(Clone, Copy, Debug, PartialEq, Eq, Structural)]
pub enum Graph {
    Add(AddOperation),
    Neg(NegOperation),
    Mul(MulOperation),
    MatMul(MatMulOperation),
    Transpose(TransposeOperation),
    ReduceSum(ReduceSumOperation),
    Relu(ReluOperation),
    Broadcast(BroadcastOperation),
}

/// The failures of tensor construction, the operators and backward.
#[derive(Debug, PartialEq, Eq)]
pub enum TensorError {
    /// Two shapes that the operation cannot combine, or data that does not fill a shape.
    ShapeMismatch(Vec<usize>, Vec<usize>),
    /// Backward without a gradient on a tensor that is not of shape `[1]`; holds its shape.
    MissingGradient(Vec<usize>),
    /// An operation node that does not fit the tensor it would produce.
    InvariantViolation,
}

/// One tensor record: its value and how it was produced. Its gradient slot is kept
/// by the [`Tape`].
pub struct CoreTensor {
    pub shape: Vec<usize>,
    pub data: Vec<i64>,
    pub requires_grad: bool,
    pub graph: Option<Graph>,
}

/// The arena of tensor records, with one gradient slot per record.
pub struct Tape {
    tensors: Vec<CoreTensor>,
    grads: Vec<Option<Vec<i64>>>,
}

pub open spec fn opt_view(o: Option<Vec<i64>>) -> Option<Seq<i64>> {
    match o {
        Some(v) => Some(v@),
        None => None,
    }
}

/// Shape `a` with its last two dimensions swapped.
pub open spec fn swap_last(a: Seq<usize>) -> Seq<usize> {
    a.take(a.len() - 2).push(a[a.len() - 1]).push(a[a.len() - 2])
}

/// The number of matrices in a tensor of shape `a`: the product of all but the last
/// two dimensions.
pub open spec fn batch_of(a: Seq<usize>) -> int {
    shape_size(a.take(a.len() - 2))
}

/// The shapes that a matrix product accepts, with the shape of its result:
/// `[m, n] @ [n, p] -> [m, p]` and `[b, m, n] @ [b, n, p] -> [b, m, p]`.
pub open spec fn matmul_shapes(a: Seq<usize>, b: Seq<usize>, c: Seq<usize>) -> bool {
    ||| (a.len() == 2 && b.len() == 2 && a[1] == b[0] && c == seq![a[0], b[1]])
    ||| (a.len() == 3 && b.len() == 3 && a[0] == b[0] && a[2] == b[1] && c == seq![a[0], a[1], b[2]])
}

/// The batch count and the dimensions `m`, `n`, `p` of a product of shape `a` by shape `b`.
pub open spec fn matmul_dims(a: Seq<usize>, b: Seq<usize>) -> (int, int, int, int) {
    if a.len() == 2 {
        (1, a[0] as int, a[1] as int, b[1] as int)
    } else {
        (a[0] as int, a[1] as int, a[2] as int, b[2] as int)
    }
}

/// Whether a tensor of shape `s` can be broadcast to `target`: `s` is the scalar shape
/// `[1]`, or `target` is `s` under one new leading axis.
pub open spec fn broadcast_shapes(s: Seq<usize>, target: Seq<usize>) -> bool {
    s == seq![1usize] || (target.len() == s.len() + 1 && target.drop_first() == s)
}

/// How many copies of a tensor of shape `s` broadcasting to `target` lays end to end.
pub open spec fn broadcast_count(s: Seq<usize>, target: Seq<usize>) -> int {
    if s == seq![1usize] {
        shape_size(target)
    } else {
        target[0] as int
    }
}

/// The inputs of `op`.
pub open spec fn op_inputs(op: Graph) -> (Tensor, Tensor) {
    match op {
        Graph::Add(o) => (o.lhs, o.rhs),
        Graph::Mul(o) => (o.lhs, o.rhs),
        Graph::MatMul(o) => (o.lhs, o.rhs),
        Graph::Neg(o) => (o.t, o.t),
        Graph::Transpose(o) => (o.t, o.t),
        Graph::ReduceSum(o) => (o.t, o.t),
        Graph::Relu(o) => (o.t, o.t),
        Graph::Broadcast(o) => (o.t, o.t),
    }
}

/// Whether record `i` of `ts` may have been produced by `op`: its inputs come before it
/// and the shapes agree with the operation.
pub open spec fn op_wf(ts: Seq<CoreTensor>, i: int, op: Graph) -> bool {
    let (a, b) = op_inputs(op);
    &&& a.id < i
    &&& b.id < i
    &&& match op {
        Graph::Add(o) => ts[a.id as int].shape@ == ts[i].shape@ && ts[b.id as int].shape@ == ts[i].shape@,
        Graph::Mul(o) => ts[a.id as int].shape@ == ts[i].shape@ && ts[b.id as int].shape@ == ts[i].shape@,
        Graph::MatMul(o) => matmul_shapes(ts[a.id as int].shape@, ts[b.id as int].shape@, ts[i].shape@),
        Graph::Neg(o) => ts[a.id as int].shape@ == ts[i].shape@,
        Graph::Relu(o) => ts[a.id as int].shape@ == ts[i].shape@,
        Graph::Transpose(o) => ts[a.id as int].shape@.len() >= 2 && ts[i].shape@ == swap_last(ts[a.id as int].shape@),
        Graph::ReduceSum(o) => ts[i].shape@ == seq![1usize],
        Graph::Broadcast(o) => broadcast_shapes(ts[a.id as int].shape@, ts[i].shape@),
    }
}

/// Whether the records `ts` form a well-formed graph: each record's data fills its
/// shape, and each operation node refers to earlier records of fitting shapes.
pub open spec fn records_wf(ts: Seq<CoreTensor>) -> bool {
    forall|i: int|
        0 <= i < ts.len() ==> {
            &&& (#[trigger] ts[i]).data@.len() == shape_size(ts[i].shape@)
            &&& match ts[i].graph {
                Some(op) => op_wf(ts, i, op),
                None => true,
            }
        }
}

/// Whether every gradient that is present has as many elements as its tensor.
pub open spec fn grads_wf(ts: Seq<CoreTensor>, gs: Seq<Option<Seq<i64>>>) -> bool {
    &&& gs.len() == ts.len()
    &&& forall|i: int|
        0 <= i < gs.len() ==> match #[trigger] gs[i] {
            Some(g) => g.len() == ts[i].data@.len(),
            None => true,
        }
}

impl Tape {
    pub closed spec fn records(&self) -> Seq<CoreTensor> {
        self.tensors@
    }

    pub closed spec fn grads(&self) -> Seq<Option<Seq<i64>>> {
        self.grads@.map_values(|o: Option<Vec<i64>>| opt_view(o))
    }

    pub open spec fn wf(&self) -> bool {
        records_wf(self.records()) && grads_wf(self.records(), self.grads())
    }

    pub open spec fn len(&self) -> nat {
        self.records().len()
    }

    pub open spec fn contains(&self, t: Tensor) -> bool {
        t.id < self.len()
    }

    pub open spec fn shape_of(&self, t: Tensor) -> Seq<usize> {
        self.records()[t.id as int].shape@
    }

    pub open spec fn data_of(&self, t: Tensor) -> Seq<i64> {
        self.records()[t.id as int].data@
    }

    pub open spec fn requires_grad_of(&self, t: Tensor) -> bool {
        self.records()[t.id as int].requires_grad
    }

    pub open spec fn graph_of(&self, t: Tensor) -> Option<Graph> {
        self.records()[t.id as int].graph
    }

    pub open spec fn grad_of(&self, t: Tensor) -> Option<Seq<i64>> {
        self.grads()[t.id as int]
    }

    /// `self` is `old` with the records from `old.len()` on appended, and no
    /// gradient changed.
    pub open spec fn extends(&self, old: &Tape) -> bool {
        &&& self.len() >= old.len()
        &&& self.records().take(old.len() as int) == old.records()
        &&& self.grads().take(old.len() as int) == old.grads()
        &&& forall|i: int| old.len() <= i < self.len() ==> self.grads()[i] is None
    }

    pub(crate) fn record(&self, t: Tensor) -> (r: &CoreTensor)
        requires
            self.contains(t),
        ensures
            *r == self.records()[t.id as int],
    {
        &self.tensors[t.id]
    }

    pub(crate) fn grad_slot(&self, i: usize) -> (r: &Option<Vec<i64>>)
        requires
            self.wf(),
            i < self.len(),
        ensures
            opt_view(*r) == self.grads()[i as int],
    {
        &self.grads[i]
    }

    pub(crate) fn set_grad_slot(&mut self, i: usize, g: Vec<i64>)
        requires
            old(self).wf(),
            i < old(self).len(),
            g@.len() == old(self).records()[i as int].data@.len(),
        ensures
            final(self).wf(),
            final(self).records() == old(self).records(),
            final(self).grads() == old(self).grads().update(i as int, Some(g@)),
    {
        self.grads.set(i, Some(g));
        assert(self.grads() =~= old(self).grads().update(i as int, Some(g@)));
    }

    pub(crate) fn replace_grad_slot(&mut self, i: usize, g: Option<Vec<i64>>)
        requires
            old(self).wf(),
            i < old(self).len(),
            match g {
                Some(v) => v@.len() == old(self).records()[i as int].data@.len(),
                None => true,
            },
        ensures
            final(self).wf(),
            final(self).records() == old(self).records(),
            final(self).grads() == old(self).grads().update(i as int, opt_view(g)),
    {
        let ghost gv = opt_view(g);
        self.grads.set(i, g);
        assert(self.grads() =~= old(self).grads().update(i as int, gv));
    }

    pub(crate) fn replace_graph(&mut self, i: usize, graph: Option<Graph>)
        requires
            old(self).wf(),
            i < old(self).len(),
            match graph {
                Some(op) => op_wf(old(self).records(), i as int, op),
                None => true,
            },
        ensures
            final(self).wf(),
            final(self).len() == old(self).len(),
            final(self).grads() == old(self).grads(),
            forall|k: int| 0 <= k < old(self).len() && k != i ==> final(self).records()[k] == old(self).records()[k],
            final(self).records()[i as int].shape == old(self).records()[i as int].shape,
            final(self).records()[i as int].data == old(self).records()[i as int].data,
            final(self).records()[i as int].requires_grad == old(self).records()[i as int].requires_grad,
            final(self).records()[i as int].graph == graph,
    {
        let ghost ts = self.records();
        self.tensors[i].graph = graph;
        proof {
            let ts2 = self.records();
            assert forall|k: int| 0 <= k < ts2.len() implies {
                &&& (#[trigger] ts2[k]).data@.len() == shape_size(ts2[k].shape@)
                &&& match ts2[k].graph {
                    Some(op) => op_wf(ts2, k, op),
                    None => true,
                }
            } by {
                assert(ts[k].data@.len() == shape_size(ts[k].shape@));
                match ts2[k].graph {
                    Some(op) => {
                        if k != i {
                            assert(op_wf(ts, k, op));
                        }
                        let (a, b) = op_inputs(op);
                        assert(ts2[a.id as int].shape@ == ts[a.id as int].shape@);
                        assert(ts2[b.id as int].shape@ == ts[b.id as int].shape@);
                    },
                    None => {},
                }
            }
        }
    }

    pub proof fn lemma_extends_refl(&self)
        requires
            self.wf(),
        ensures
            self.extends(self),
    {
        assert(self.records().take(self.len() as int) =~= self.records());
        assert(self.grads().take(self.len() as int) =~= self.grads());
    }

    pub proof fn lemma_extends_trans(a: &Tape, b: &Tape, c: &Tape)
        requires
            a.wf(),
            b.wf(),
            c.wf(),
            b.extends(a),
            c.extends(b),
        ensures
            c.extends(a),
    {
        assert(c.records().take(a.len() as int) =~= c.records().take(b.len() as int).take(a.len() as int));
        assert(c.grads().take(a.len() as int) =~= c.grads().take(b.len() as int).take(a.len() as int));
        assert forall|i: int| a.len() <= i < c.len() implies c.grads()[i] is None by {
            if i < b.len() {
                assert(c.grads().take(b.len() as int)[i] == b.grads()[i]);
            }
        }
    }

    /// An empty tape.
    pub fn new() -> (r: Tape)
        ensures
            r.wf(),
            r.len() == 0,
    {
        let r = Tape { tensors: Vec::new(), grads: Vec::new() };
        assert(r.grads() =~= Seq::<Option<Seq<i64>>>::empty());
        r
    }

    /// Appends a record with no gradient and returns its handle.
    pub(crate) fn push_record(&mut self, rec: CoreTensor) -> (t: Tensor)
        requires
            old(self).wf(),
            rec.data@.len() == shape_size(rec.shape@),
            match rec.graph {
                Some(op) => op_wf(old(self).records().push(rec), old(self).len() as int, op),
                None => true,
            },
        ensures
            final(self).wf(),
            final(self).extends(old(self)),
            final(self).len() == old(self).len() + 1,
            t.id == old(self).len(),
            final(self).records()[t.id as int] == rec,
    {
        let id = self.tensors.len();
        let ghost old_ts = self.records();
        self.tensors.push(rec);
        self.grads.push(None);
        proof {
            assert(self.records() == old_ts.push(rec));
            assert(self.grads() =~= old(self).grads().push(None));
            assert forall|i: int| 0 <= i < self.records().len() implies {
                &&& (#[trigger] self.records()[i]).data@.len() == shape_size(self.records()[i].shape@)
                &&& match self.records()[i].graph {
                    Some(op) => op_wf(self.records(), i, op),
                    None => true,
                }
            } by {
                if i < id {
                    assert(self.records()[i] == old_ts[i]);
                    match old_ts[i].graph {
                        Some(op) => {
                            assert(op_wf(old_ts, i, op));
                            let (a, b) = op_inputs(op);
                            assert(self.records()[a.id as int] == old_ts[a.id as int]);
                            assert(self.records()[b.id as int] == old_ts[b.id as int]);
                        },
                        None => {},
                    }
                }
            }
            assert(self.records().take(old(self).len() as int) =~= old(self).records());
            assert(self.grads().take(old(self).len() as int) =~= old(self).grads());
        }
        Tensor { id }
    }
}

impl Tensor {
    /// A new leaf tensor of shape `shape` holding `data` in row-major order.
    pub fn new(tape: &mut Tape, shape: Vec<usize>, data: Vec<i64>, requires_grad: bool) -> (r: Result<Tensor, TensorError>)
        requires
            old(tape).wf(),
        ensures
            final(tape).wf(),
            final(tape).extends(old(tape)),
            (r is Ok) <==> shape_size(shape@) == data@.len(),
            match r {
                Ok(t) => {
                    &&& t.id == old(tape).len()
                    &&& final(tape).len() == old(tape).len() + 1
                    &&& final(tape).shape_of(t) == shape@
                    &&& final(tape).data_of(t) == data@
                    &&& final(tape).requires_grad_of(t) == requires_grad
                    &&& final(tape).graph_of(t) is None
                },
                Err(e) => {
                    &&& final(tape).len() == old(tape).len()
                    &&& e matches TensorError::ShapeMismatch(s, d) && s@ == shape@ && d@ == seq![data@.len() as usize]
                },
            },
    {
        let fits = match checked_size(&shape) {
            Some(n) => n == data.len(),
            None => false,
        };
        if !fits {
            let len = data.len();
            proof {
                tape.lemma_extends_refl();
            }
            return Err(TensorError::ShapeMismatch(shape, vec![len]));
        }
        let t = tape.push_record(CoreTensor { shape, data, requires_grad, graph: None });
        Ok(t)
    }
}

impl Tensor {
    pub fn get_shape(&self, tape: &Tape) -> (r: Vec<usize>)
        requires
            tape.wf(),
            tape.contains(*self),
        ensures
            r@ == tape.shape_of(*self),
    {
        copy_shape(&tape.record(*self).shape)
    }

    pub fn get_data(&self, tape: &Tape) -> (r: Vec<i64>)
        requires
            tape.wf(),
            tape.contains(*self),
        ensures
            r@ == tape.data_of(*self),
    {
        copy_data(&tape.record(*self).data)
    }

    pub fn get_data_ref<'a>(&self, tape: &'a Tape) -> (r: &'a Vec<i64>)
        requires
            tape.wf(),
            tape.contains(*self),
        ensures
            r@ == tape.data_of(*self),
    {
        &tape.record(*self).data
    }

    pub fn get_requires_grad(&self, tape: &Tape) -> (r: bool)
        requires
            tape.wf(),
            tape.contains(*self),
        ensures
            r == tape.requires_grad_of(*self),
    {
        tape.record(*self).requires_grad
    }

    /// The gradient accumulated so far, of this tensor's shape, if any arrived.
    pub fn get_grad(&self, tape: &Tape) -> (r: Option<Vec<i64>>)
        requires
            tape.wf(),
            tape.contains(*self),
        ensures
            opt_view(r) == tape.grad_of(*self),
    {
        match tape.grad_slot(self.id) {
            Some(g) => Some(copy_data(g)),
            None => None,
        }
    }

    /// Replaces the gradient slot; a gradient must have as many elements as the tensor.
    pub fn set_grad(&self, tape: &mut Tape, grad: Option<Vec<i64>>) -> (r: Result<(), TensorError>)
        requires
            old(tape).wf(),
            old(tape).contains(*self),
        ensures
            final(tape).wf(),
            final(tape).records() == old(tape).records(),
            (r is Ok) <==> match grad {
                Some(g) => g@.len() == old(tape).data_of(*self).len(),
                None => true,
            },
            r is Ok ==> final(tape).grads() == old(tape).grads().update(self.id as int, opt_view(grad)),
            r is Err ==> final(tape).grads() == old(tape).grads() && r matches Err(TensorError::ShapeMismatch(_, _)),
    {
        if let Some(g) = &grad {
            if g.len() != tape.record(*self).data.len() {
                let s = copy_shape(&tape.record(*self).shape);
                let n = g.len();
                return Err(TensorError::ShapeMismatch(s, vec![n]));
            }
        }
        tape.replace_grad_slot(self.id, grad);
        Ok(())
    }

    /// Whether this tensor and `other` have the same shape and the same data.
    pub fn eq_values(&self, other: &Tensor, tape: &Tape) -> (r: bool)
        requires
            tape.wf(),
            tape.contains(*self),
            tape.contains(*other),
        ensures
            r == (tape.shape_of(*self) == tape.shape_of(*other) && tape.data_of(*self) == tape.data_of(*other)),
    {
        let a = tape.record(*self);
        let b = tape.record(*other);
        if a.shape.len() != b.shape.len() || a.data.len() != b.data.len() {
            return false;
        }
        let mut i: usize = 0;
        while i < a.shape.len()
            invariant
                *a == tape.records()[self.id as int],
                *b == tape.records()[other.id as int],
                a.shape.len() == b.shape.len(),
                i <= a.shape.len(),
                forall|k: int| 0 <= k < i ==> a.shape@[k] == b.shape@[k],
            decreases a.shape.len() - i,
        {
            if a.shape[i] != b.shape[i] {
                assert(a.shape@[i as int] != b.shape@[i as int]);
                return false;
            }
            i = i + 1;
        }
        assert(a.shape@ =~= b.shape@);
        let mut j: usize = 0;
        while j < a.data.len()
            invariant
                *a == tape.records()[self.id as int],
                *b == tape.records()[other.id as int],
                a.shape@ == b.shape@,
                a.data.len() == b.data.len(),
                j <= a.data.len(),
                forall|k: int| 0 <= k < j ==> a.data@[k] == b.data@[k],
            decreases a.data.len() - j,
        {
            if a.data[j] != b.data[j] {
                assert(a.data@[j as int] != b.data@[j as int]);
                return false;
            }
            j = j + 1;
        }
        assert(a.data@ =~= b.data@);
        true
    }

    pub fn get_graph(&self, tape: &Tape) -> (r: Option<Graph>)
        requires
            tape.wf(),
            tape.contains(*self),
        ensures
            r == tape.graph_of(*self),
    {
        tape.record(*self).graph
    }
}

} // verus!
