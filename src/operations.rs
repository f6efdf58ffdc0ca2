//! The forward operators: each appends the tensor it computes to the tape, with the
//! operation node that produced it.
use vstd::prelude::*;

use crate::kernels::{
    add_kernel, batch_matmul_kernel, elem_add, elem_mul, elem_neg, elem_relu, mat_product,
    mul_kernel, neg_kernel, relu_kernel, repeat, repeat_kernel, sum_kernel, transpose_kernel,
    transposed, wsum,
};
use crate::shape::{
    checked_size, lemma_shape_size_last2, lemma_shape_size_nonneg, lemma_shape_size_small, shape_size,
};
use crate::tensor::{
    batch_of, broadcast_count, broadcast_shapes, matmul_dims, matmul_shapes, op_wf, swap_last, AddOperation,
    BroadcastOperation, CoreTensor, Graph, MatMulOperation, MulOperation, NegOperation,
    op_inputs, ReduceSumOperation, ReluOperation, Tape, Tensor, TensorError, TransposeOperation,
};

verus! {

/// Data `d` of shape `s` as it reads after broadcasting to `target`.
pub open spec fn expanded(d: Seq<i64>, s: Seq<usize>, target: Seq<usize>) -> Seq<i64> {
    if s == target {
        d
    } else {
        repeat(d, broadcast_count(s, target))
    }
}

/// Whether `h` is operand `x` (of shape `sx`) brought to shape `target` on `tape`: `x`
/// itself if it has that shape, else a record broadcast from `x`.
pub open spec fn brought_to(tape: &Tape, h: Tensor, x: Tensor, sx: Seq<usize>, target: Seq<usize>) -> bool {
    if sx == target {
        h == x
    } else {
        &&& tape.contains(h)
        &&& tape.shape_of(h) == target
        &&& tape.graph_of(h) == Some(Graph::Broadcast(BroadcastOperation { t: x }))
    }
}

/// The common shape that two operands of an elementwise operation are brought to, if any.
pub open spec fn common_shape(a: Seq<usize>, b: Seq<usize>) -> Option<Seq<usize>> {
    if a == b {
        Some(a)
    } else if a == seq![1usize] {
        Some(b)
    } else if b == seq![1usize] {
        Some(a)
    } else if a.len() == b.len() + 1 {
        if a.drop_first() == b {
            Some(a)
        } else {
            None
        }
    } else if b.len() == a.len() + 1 {
        if b.drop_first() == a {
            Some(b)
        } else {
            None
        }
    } else {
        None
    }
}

/// The shape of `a @ b`, if the product is defined; a rank-2 right operand of a rank-3
/// left one is broadcast across its batch.
pub open spec fn matmul_result(a: Seq<usize>, b: Seq<usize>) -> Option<Seq<usize>> {
    if a.len() == 2 && b.len() == 2 && a[1] == b[0] {
        Some(seq![a[0], b[1]])
    } else if a.len() == 3 && b.len() == 3 && a[0] == b[0] && a[2] == b[1] {
        Some(seq![a[0], a[1], b[2]])
    } else if a.len() == 3 && b.len() == 2 && a[2] == b[0] {
        Some(seq![a[0], a[1], b[1]])
    } else {
        None
    }
}

/// Whether the product of shapes `a` and `b` is defined and fits in memory.
pub open spec fn matmul_ok(a: Seq<usize>, b: Seq<usize>) -> bool {
    &&& matmul_result(a, b) is Some
    &&& shape_size(matmul_result(a, b).unwrap()) <= usize::MAX
    &&& (a.len() == 3 && b.len() == 2) ==> a[0] * (b[0] * b[1]) <= usize::MAX
}

fn shape_eq(a: &Vec<usize>, b: &Vec<usize>) -> (r: bool)
    ensures
        r == (a@ == b@),
{
    if a.len() != b.len() {
        return false;
    }
    let mut i: usize = 0;
    while i < a.len()
        invariant
            i <= a.len() == b.len(),
            forall|k: int| 0 <= k < i ==> a@[k] == b@[k],
        decreases a.len() - i,
    {
        if a[i] != b[i] {
            return false;
        }
        i = i + 1;
    }
    assert(a@ =~= b@);
    true
}

fn is_scalar_shape(a: &Vec<usize>) -> (r: bool)
    ensures
        r == (a@ == seq![1usize]),
{
    if a.len() == 1 && a[0] == 1 {
        assert(a@ =~= seq![1usize]);
        true
    } else {
        false
    }
}

/// Whether `target` is `s` under one new leading axis.
fn is_batch_of(s: &Vec<usize>, target: &Vec<usize>) -> (r: bool)
    ensures
        r == (target@.len() == s@.len() + 1 && target@.drop_first() == s@),
{
    if target.len() == 0 || target.len() - 1 != s.len() {
        return false;
    }
    let mut i: usize = 0;
    while i < s.len()
        invariant
            target.len() == s.len() + 1,
            i <= s.len(),
            forall|k: int| 0 <= k < i ==> s@[k] == target@[k + 1],
        decreases s.len() - i,
    {
        if s[i] != target[i + 1] {
            assert(target@.drop_first()[i as int] != s@[i as int]);
            return false;
        }
        i = i + 1;
    }
    assert(target@.drop_first() =~= s@);
    true
}

pub(crate) fn copy_shape(a: &Vec<usize>) -> (r: Vec<usize>)
    ensures
        r@ == a@,
{
    let mut r: Vec<usize> = Vec::new();
    let mut i: usize = 0;
    while i < a.len()
        invariant
            i <= a.len(),
            r@ =~= a@.take(i as int),
        decreases a.len() - i,
    {
        r.push(a[i]);
        i = i + 1;
    }
    r
}

pub(crate) fn copy_data(a: &Vec<i64>) -> (r: Vec<i64>)
    ensures
        r@ == a@,
{
    let mut r: Vec<i64> = Vec::new();
    let mut i: usize = 0;
    while i < a.len()
        invariant
            i <= a.len(),
            r@ =~= a@.take(i as int),
        decreases a.len() - i,
    {
        r.push(a[i]);
        i = i + 1;
    }
    r
}

/// Appends a tensor produced by `op` and returns its handle.
pub fn new_tensor_with_graph(tape: &mut Tape, shape: Vec<usize>, data: Vec<i64>, requires_grad: bool, node: Graph) -> (t: Tensor)
    requires
        old(tape).wf(),
        data@.len() == shape_size(shape@),
        op_wf(old(tape).records().push(CoreTensor { shape, data, requires_grad, graph: Some(node) }), old(tape).len() as int, node),
    ensures
        final(tape).wf(),
        final(tape).extends(old(tape)),
        final(tape).len() == old(tape).len() + 1,
        t.id == old(tape).len(),
        final(tape).shape_of(t) == shape@,
        final(tape).data_of(t) == data@,
        final(tape).requires_grad_of(t) == requires_grad,
        final(tape).graph_of(t) == Some(node),
{
    tape.push_record(CoreTensor { shape, data, requires_grad, graph: Some(node) })
}

/// Appends a leaf tensor that does not take part in differentiation.
pub fn new_tensor_simple(tape: &mut Tape, shape: Vec<usize>, data: Vec<i64>) -> (t: Tensor)
    requires
        old(tape).wf(),
        data@.len() == shape_size(shape@),
    ensures
        final(tape).wf(),
        final(tape).extends(old(tape)),
        final(tape).len() == old(tape).len() + 1,
        t.id == old(tape).len(),
        final(tape).shape_of(t) == shape@,
        final(tape).data_of(t) == data@,
        !final(tape).requires_grad_of(t),
        final(tape).graph_of(t) is None,
{
    tape.push_record(CoreTensor { shape, data, requires_grad: false, graph: None })
}

/// `t` replicated to `shape`: a tensor of shape `[1]` to any shape, or a tensor of
/// shape `s` to `[b] ++ s`.
pub fn broadcast(tape: &mut Tape, t: Tensor, shape: Vec<usize>) -> (r: Result<Tensor, TensorError>)
    requires
        old(tape).wf(),
        old(tape).contains(t),
    ensures
        final(tape).wf(),
        final(tape).extends(old(tape)),
        (r is Ok) <==> (broadcast_shapes(old(tape).shape_of(t), shape@) && shape_size(shape@) <= usize::MAX),
        match r {
            Ok(b) => {
                &&& b.id == old(tape).len()
                &&& final(tape).len() == old(tape).len() + 1
                &&& final(tape).shape_of(b) == shape@
                &&& final(tape).data_of(b) == repeat(old(tape).data_of(t), broadcast_count(old(tape).shape_of(t), shape@))
                &&& final(tape).requires_grad_of(b) == old(tape).requires_grad_of(t)
                &&& final(tape).graph_of(b) == Some(Graph::Broadcast(BroadcastOperation { t }))
            },
            Err(e) => final(tape).len() == old(tape).len() && e is ShapeMismatch,
        },
{
    let rec = tape.record(t);
    let src_shape = copy_shape(&rec.shape);
    let len = rec.data.len();
    let rg = rec.requires_grad;
    let count: usize;
    proof {
        tape.lemma_extends_refl();
        lemma_shape_size_nonneg(shape@);
        assert(tape.records()[t.id as int].data@.len() == shape_size(src_shape@));
    }
    if is_scalar_shape(&src_shape) {
        match checked_size(&shape) {
            Some(n) => {
                count = n;
            },
            None => {
                return Err(TensorError::ShapeMismatch(src_shape, shape));
            },
        }
        proof {
            lemma_shape_size_small(src_shape@);
            lemma_shape_size_small(seq![1usize]);
        }
        assert(len == 1);
        assert(count * len <= usize::MAX) by (nonlinear_arith)
            requires
                len == 1,
                count <= usize::MAX,
        ;
    } else if is_batch_of(&src_shape, &shape) {
        count = shape[0];
        assert(shape_size(shape@) == count * shape_size(src_shape@));
        if count.checked_mul(len).is_none() {
            return Err(TensorError::ShapeMismatch(src_shape, shape));
        }
    } else {
        return Err(TensorError::ShapeMismatch(src_shape, shape));
    }
    let data = if len == 0 {
        let e: Vec<i64> = Vec::new();
        assert((count as int) * (tape.data_of(t).len() as int) == 0) by (nonlinear_arith)
            requires
                tape.data_of(t).len() == 0,
        ;
        assert(e@ =~= repeat(tape.data_of(t), count as int));
        e
    } else {
        repeat_kernel(&tape.record(t).data, count)
    };
    proof {
        if src_shape@ == seq![1usize] {
            lemma_shape_size_small(src_shape@);
        }
    }
    Ok(new_tensor_with_graph(tape, shape, data, rg, Graph::Broadcast(BroadcastOperation { t })))
}

/// Brings `lhs` and `rhs` to one shape: equal shapes stay, a `[1]` operand is broadcast
/// to the other's shape, and an operand of rank one less is broadcast across the other's
/// leading axis.
pub fn broadcast_to_same_dim(tape: &mut Tape, lhs: Tensor, rhs: Tensor) -> (r: Result<(Tensor, Tensor), TensorError>)
    requires
        old(tape).wf(),
        old(tape).contains(lhs),
        old(tape).contains(rhs),
    ensures
        final(tape).wf(),
        final(tape).extends(old(tape)),
        (r is Ok) <==> common_shape(old(tape).shape_of(lhs), old(tape).shape_of(rhs)) is Some,
        match r {
            Ok((l, q)) => {
                let target = common_shape(old(tape).shape_of(lhs), old(tape).shape_of(rhs)).unwrap();
                &&& final(tape).contains(l)
                &&& final(tape).contains(q)
                &&& final(tape).shape_of(l) == target
                &&& final(tape).shape_of(q) == target
                &&& final(tape).data_of(l) == expanded(old(tape).data_of(lhs), old(tape).shape_of(lhs), target)
                &&& final(tape).data_of(q) == expanded(old(tape).data_of(rhs), old(tape).shape_of(rhs), target)
                &&& final(tape).requires_grad_of(l) == old(tape).requires_grad_of(lhs)
                &&& final(tape).requires_grad_of(q) == old(tape).requires_grad_of(rhs)
                &&& brought_to(final(tape), l, lhs, old(tape).shape_of(lhs), target)
                &&& brought_to(final(tape), q, rhs, old(tape).shape_of(rhs), target)
            },
            Err(e) => final(tape).len() == old(tape).len() && e is ShapeMismatch,
        },
{
    let ghost t0 = *tape;
    let sa = copy_shape(&tape.record(lhs).shape);
    let sb = copy_shape(&tape.record(rhs).shape);
    let la = tape.record(lhs).data.len();
    let lb = tape.record(rhs).data.len();
    proof {
        tape.lemma_extends_refl();
        assert(tape.records()[lhs.id as int].data@.len() == shape_size(sa@));
        assert(tape.records()[rhs.id as int].data@.len() == shape_size(sb@));
        assert(shape_size(sa@) == la && shape_size(sb@) == lb);
    }
    if shape_eq(&sa, &sb) {
        return Ok((lhs, rhs));
    }
    let bl = is_scalar_shape(&sa);
    let br = !bl && is_scalar_shape(&sb);
    if bl || (!br && is_batch_of(&sa, &sb)) {
        match broadcast(tape, lhs, sb) {
            Ok(l) => {
                proof {
                    assert(tape.records()[rhs.id as int] == t0.records()[rhs.id as int]);
                }
                Ok((l, rhs))
            },
            Err(e) => Err(e),
        }
    } else if br || is_batch_of(&sb, &sa) {
        match broadcast(tape, rhs, sa) {
            Ok(q) => {
                proof {
                    assert(tape.records()[lhs.id as int] == t0.records()[lhs.id as int]);
                }
                Ok((lhs, q))
            },
            Err(e) => Err(e),
        }
    } else {
        Err(TensorError::ShapeMismatch(sa, sb))
    }
}

/// Elementwise `lhs + rhs` after bringing both to one shape.
pub fn add(tape: &mut Tape, lhs: Tensor, rhs: Tensor) -> (r: Result<Tensor, TensorError>)
    requires
        old(tape).wf(),
        old(tape).contains(lhs),
        old(tape).contains(rhs),
    ensures
        final(tape).wf(),
        final(tape).extends(old(tape)),
        (r is Ok) <==> common_shape(old(tape).shape_of(lhs), old(tape).shape_of(rhs)) is Some,
        match r {
            Ok(c) => {
                let target = common_shape(old(tape).shape_of(lhs), old(tape).shape_of(rhs)).unwrap();
                &&& c.id + 1 == final(tape).len()
                &&& final(tape).shape_of(c) == target
                &&& final(tape).data_of(c) == elem_add(
                    expanded(old(tape).data_of(lhs), old(tape).shape_of(lhs), target),
                    expanded(old(tape).data_of(rhs), old(tape).shape_of(rhs), target),
                )
                &&& final(tape).requires_grad_of(c) == (old(tape).requires_grad_of(lhs) || old(tape).requires_grad_of(rhs))
                &&& final(tape).graph_of(c) matches Some(Graph::Add(o))
                    && brought_to(final(tape), o.lhs, lhs, old(tape).shape_of(lhs), target)
                    && brought_to(final(tape), o.rhs, rhs, old(tape).shape_of(rhs), target)
            },
            Err(e) => final(tape).len() == old(tape).len() && e is ShapeMismatch,
        },
{
    let ghost t0 = *tape;
    match broadcast_to_same_dim(tape, lhs, rhs) {
        Err(e) => Err(e),
        Ok((l, q)) => {
            let ghost t1 = *tape;
            proof {
                assert(tape.records()[l.id as int].data@.len() == shape_size(tape.shape_of(l)));
                assert(tape.records()[q.id as int].data@.len() == shape_size(tape.shape_of(q)));
            }
            let data = add_kernel(&tape.record(l).data, &tape.record(q).data);
            let shape = copy_shape(&tape.record(l).shape);
            let rg = tape.record(l).requires_grad || tape.record(q).requires_grad;
            let c = new_tensor_with_graph(tape, shape, data, rg, Graph::Add(AddOperation { lhs: l, rhs: q }));
            proof {
                Tape::lemma_extends_trans(&t0, &t1, tape);
            }
            Ok(c)
        },
    }
}

/// Elementwise `lhs * rhs` after bringing both to one shape.
pub fn mul(tape: &mut Tape, lhs: Tensor, rhs: Tensor) -> (r: Result<Tensor, TensorError>)
    requires
        old(tape).wf(),
        old(tape).contains(lhs),
        old(tape).contains(rhs),
    ensures
        final(tape).wf(),
        final(tape).extends(old(tape)),
        (r is Ok) <==> common_shape(old(tape).shape_of(lhs), old(tape).shape_of(rhs)) is Some,
        match r {
            Ok(c) => {
                let target = common_shape(old(tape).shape_of(lhs), old(tape).shape_of(rhs)).unwrap();
                &&& c.id + 1 == final(tape).len()
                &&& final(tape).shape_of(c) == target
                &&& final(tape).data_of(c) == elem_mul(
                    expanded(old(tape).data_of(lhs), old(tape).shape_of(lhs), target),
                    expanded(old(tape).data_of(rhs), old(tape).shape_of(rhs), target),
                )
                &&& final(tape).requires_grad_of(c) == (old(tape).requires_grad_of(lhs) || old(tape).requires_grad_of(rhs))
                &&& final(tape).graph_of(c) matches Some(Graph::Mul(o))
                    && brought_to(final(tape), o.lhs, lhs, old(tape).shape_of(lhs), target)
                    && brought_to(final(tape), o.rhs, rhs, old(tape).shape_of(rhs), target)
            },
            Err(e) => final(tape).len() == old(tape).len() && e is ShapeMismatch,
        },
{
    let ghost t0 = *tape;
    match broadcast_to_same_dim(tape, lhs, rhs) {
        Err(e) => Err(e),
        Ok((l, q)) => {
            let ghost t1 = *tape;
            proof {
                assert(tape.records()[l.id as int].data@.len() == shape_size(tape.shape_of(l)));
                assert(tape.records()[q.id as int].data@.len() == shape_size(tape.shape_of(q)));
            }
            let data = mul_kernel(&tape.record(l).data, &tape.record(q).data);
            let shape = copy_shape(&tape.record(l).shape);
            let rg = tape.record(l).requires_grad || tape.record(q).requires_grad;
            let c = new_tensor_with_graph(tape, shape, data, rg, Graph::Mul(MulOperation { lhs: l, rhs: q }));
            proof {
                Tape::lemma_extends_trans(&t0, &t1, tape);
            }
            Ok(c)
        },
    }
}

/// Elementwise `-t`.
pub fn neg(tape: &mut Tape, t: Tensor) -> (r: Tensor)
    requires
        old(tape).wf(),
        old(tape).contains(t),
    ensures
        final(tape).wf(),
        final(tape).extends(old(tape)),
        r.id == old(tape).len(),
        final(tape).len() == old(tape).len() + 1,
        final(tape).shape_of(r) == old(tape).shape_of(t),
        final(tape).data_of(r) == elem_neg(old(tape).data_of(t)),
        final(tape).requires_grad_of(r) == old(tape).requires_grad_of(t),
        final(tape).graph_of(r) == Some(Graph::Neg(NegOperation { t })),
{
    proof {
        assert(tape.records()[t.id as int].data@.len() == shape_size(tape.shape_of(t)));
    }
    let data = neg_kernel(&tape.record(t).data);
    let shape = copy_shape(&tape.record(t).shape);
    let rg = tape.record(t).requires_grad;
    new_tensor_with_graph(tape, shape, data, rg, Graph::Neg(NegOperation { t }))
}

/// Elementwise `max(t, 0)`.
pub fn relu(tape: &mut Tape, t: Tensor) -> (r: Tensor)
    requires
        old(tape).wf(),
        old(tape).contains(t),
    ensures
        final(tape).wf(),
        final(tape).extends(old(tape)),
        r.id == old(tape).len(),
        final(tape).len() == old(tape).len() + 1,
        final(tape).shape_of(r) == old(tape).shape_of(t),
        final(tape).data_of(r) == elem_relu(old(tape).data_of(t)),
        final(tape).requires_grad_of(r) == old(tape).requires_grad_of(t),
        final(tape).graph_of(r) == Some(Graph::Relu(ReluOperation { t })),
{
    proof {
        assert(tape.records()[t.id as int].data@.len() == shape_size(tape.shape_of(t)));
    }
    let data = relu_kernel(&tape.record(t).data);
    let shape = copy_shape(&tape.record(t).shape);
    let rg = tape.record(t).requires_grad;
    new_tensor_with_graph(tape, shape, data, rg, Graph::Relu(ReluOperation { t }))
}

/// `lhs - rhs`, computed as `lhs + (-rhs)`.
pub fn sub(tape: &mut Tape, lhs: Tensor, rhs: Tensor) -> (r: Result<Tensor, TensorError>)
    requires
        old(tape).wf(),
        old(tape).contains(lhs),
        old(tape).contains(rhs),
    ensures
        final(tape).wf(),
        final(tape).extends(old(tape)),
        (r is Ok) <==> common_shape(old(tape).shape_of(lhs), old(tape).shape_of(rhs)) is Some,
        match r {
            Ok(c) => {
                let target = common_shape(old(tape).shape_of(lhs), old(tape).shape_of(rhs)).unwrap();
                &&& c.id + 1 == final(tape).len()
                &&& final(tape).shape_of(c) == target
                &&& final(tape).data_of(c) == elem_add(
                    expanded(old(tape).data_of(lhs), old(tape).shape_of(lhs), target),
                    expanded(elem_neg(old(tape).data_of(rhs)), old(tape).shape_of(rhs), target),
                )
                &&& final(tape).requires_grad_of(c) == (old(tape).requires_grad_of(lhs) || old(tape).requires_grad_of(rhs))
                &&& final(tape).graph_of(c) matches Some(Graph::Add(o))
                    && brought_to(final(tape), o.lhs, lhs, old(tape).shape_of(lhs), target)
                    && final(tape).graph_of(Tensor { id: old(tape).len() as usize }) == Some(Graph::Neg(NegOperation { t: rhs }))
                    && brought_to(final(tape), o.rhs, Tensor { id: old(tape).len() as usize }, old(tape).shape_of(rhs), target)
            },
            Err(e) => e is ShapeMismatch,
        },
{
    let ghost t0 = *tape;
    let n = neg(tape, rhs);
    let ghost t1 = *tape;
    proof {
        assert(tape.records()[lhs.id as int] == t0.records()[lhs.id as int]);
    }
    let r = crate::operations::add(tape, lhs, n);
    proof {
        Tape::lemma_extends_trans(&t0, &t1, tape);
    }
    r
}

/// The sum of all elements of `t`, as a tensor of shape `[1]`.
pub fn reduce_sum(tape: &mut Tape, t: Tensor) -> (r: Tensor)
    requires
        old(tape).wf(),
        old(tape).contains(t),
    ensures
        final(tape).wf(),
        final(tape).extends(old(tape)),
        r.id == old(tape).len(),
        final(tape).len() == old(tape).len() + 1,
        final(tape).shape_of(r) == seq![1usize],
        final(tape).data_of(r) == seq![wsum(old(tape).data_of(t))],
        final(tape).requires_grad_of(r) == old(tape).requires_grad_of(t),
        final(tape).graph_of(r) == Some(Graph::ReduceSum(ReduceSumOperation { t })),
{
    let total = sum_kernel(&tape.record(t).data);
    let rg = tape.record(t).requires_grad;
    let shape = vec![1usize];
    let data = vec![total];
    proof {
        lemma_shape_size_small(shape@);
        assert(shape@ =~= seq![1usize]);
        assert(data@ =~= seq![total]);
    }
    new_tensor_with_graph(tape, shape, data, rg, Graph::ReduceSum(ReduceSumOperation { t }))
}

/// Swaps the last two axes of data `d` of shape `shape`.
pub fn transpose_last2(d: &Vec<i64>, shape: &Vec<usize>) -> (r: Vec<i64>)
    requires
        shape.len() >= 2,
        d.len() == shape_size(shape@),
    ensures
        r@ == transposed(d@, batch_of(shape@), shape@[shape.len() - 2] as int, shape@[shape.len() - 1] as int),
        r@.len() == d@.len(),
{
    let s = shape;
    let n = s.len();
    let rows = s[n - 2];
    let cols = s[n - 1];
    let mut prefix: Vec<usize> = Vec::new();
    let mut i: usize = 0;
    while i < n - 2
        invariant
            n == s.len() >= 2,
            i <= n - 2,
            prefix@ =~= s@.take(i as int),
        decreases n - 2 - i,
    {
        prefix.push(s[i]);
        i = i + 1;
    }
    let len = d.len();
    proof {
        lemma_shape_size_last2(s@);
        lemma_shape_size_nonneg(prefix@);
    }
    let batch = match checked_size(&prefix) {
        Some(b) => b,
        None => {
            assert(rows * cols == 0) by (nonlinear_arith)
                requires
                    shape_size(prefix@) > usize::MAX,
                    shape_size(prefix@) * (rows * cols) == len,
                    len <= usize::MAX,
            ;
            0
        },
    };
    assert(len == batch * (rows * cols)) by (nonlinear_arith)
        requires
            len == shape_size(prefix@) * (rows * cols),
            batch == shape_size(prefix@) || rows * cols == 0,
    ;
    let r = transpose_kernel(d, batch, rows, cols);
    assert(r@ =~= transposed(d@, batch_of(s@), rows as int, cols as int)) by {
        if batch != shape_size(prefix@) {
            assert(batch_of(s@) * (rows * cols) == 0) by (nonlinear_arith)
                requires
                    rows * cols == 0,
            ;
        }
    }
    r
}

/// `t` with its last two axes swapped; every leading axis is kept.
pub fn transpose(tape: &mut Tape, t: Tensor) -> (r: Result<Tensor, TensorError>)
    requires
        old(tape).wf(),
        old(tape).contains(t),
    ensures
        final(tape).wf(),
        final(tape).extends(old(tape)),
        (r is Ok) <==> old(tape).shape_of(t).len() >= 2,
        match r {
            Ok(q) => {
                let s = old(tape).shape_of(t);
                &&& q.id == old(tape).len()
                &&& final(tape).len() == old(tape).len() + 1
                &&& final(tape).shape_of(q) == swap_last(s)
                &&& final(tape).data_of(q) == transposed(old(tape).data_of(t), batch_of(s), s[s.len() - 2] as int, s[s.len() - 1] as int)
                &&& final(tape).requires_grad_of(q) == old(tape).requires_grad_of(t)
                &&& final(tape).graph_of(q) == Some(Graph::Transpose(TransposeOperation { t }))
            },
            Err(e) => final(tape).len() == old(tape).len() && e is ShapeMismatch,
        },
{
    proof {
        tape.lemma_extends_refl();
    }
    let s = copy_shape(&tape.record(t).shape);
    let n = s.len();
    if n < 2 {
        return Err(TensorError::ShapeMismatch(s, Vec::new()));
    }
    let rows = s[n - 2];
    let cols = s[n - 1];
    proof {
        assert(tape.records()[t.id as int].data@.len() == shape_size(s@));
    }
    let data = transpose_last2(&tape.record(t).data, &s);
    let mut shape = copy_shape(&s);
    shape.set(n - 2, cols);
    shape.set(n - 1, rows);
    proof {
        assert(shape@ =~= swap_last(s@));
        assert(shape@.take(n - 2) =~= s@.take(n - 2));
        lemma_shape_size_last2(s@);
        lemma_shape_size_last2(shape@);
        assert(cols * rows == rows * cols) by (nonlinear_arith);
    }
    let rg = tape.record(t).requires_grad;
    Ok(new_tensor_with_graph(tape, shape, data, rg, Graph::Transpose(TransposeOperation { t })))
}

/// `lhs @ rhs` for operands of equal rank: `[m, n] @ [n, p]` or `[b, m, n] @ [b, n, p]`.
fn matmul_equal_rank(tape: &mut Tape, lhs: Tensor, rhs: Tensor) -> (r: Result<Tensor, TensorError>)
    requires
        old(tape).wf(),
        old(tape).contains(lhs),
        old(tape).contains(rhs),
        old(tape).shape_of(lhs).len() == old(tape).shape_of(rhs).len(),
    ensures
        final(tape).wf(),
        final(tape).extends(old(tape)),
        (r is Ok) <==> matmul_ok(old(tape).shape_of(lhs), old(tape).shape_of(rhs)),
        match r {
            Ok(c) => {
                let (b, m, n, p) = matmul_dims(old(tape).shape_of(lhs), old(tape).shape_of(rhs));
                &&& c.id == old(tape).len()
                &&& final(tape).len() == old(tape).len() + 1
                &&& final(tape).shape_of(c) == matmul_result(old(tape).shape_of(lhs), old(tape).shape_of(rhs)).unwrap()
                &&& final(tape).data_of(c) == mat_product(old(tape).data_of(lhs), old(tape).data_of(rhs), b, m, n, p)
                &&& final(tape).requires_grad_of(c) == (old(tape).requires_grad_of(lhs) || old(tape).requires_grad_of(rhs))
                &&& final(tape).graph_of(c) == Some(Graph::MatMul(MatMulOperation { lhs, rhs }))
            },
            Err(e) => final(tape).len() == old(tape).len() && e is ShapeMismatch,
        },
{
    proof {
        tape.lemma_extends_refl();
        assert(tape.records()[lhs.id as int].data@.len() == shape_size(tape.shape_of(lhs)));
        assert(tape.records()[rhs.id as int].data@.len() == shape_size(tape.shape_of(rhs)));
        lemma_shape_size_small(tape.shape_of(lhs));
        lemma_shape_size_small(tape.shape_of(rhs));
    }
    let sa = copy_shape(&tape.record(lhs).shape);
    let sb = copy_shape(&tape.record(rhs).shape);
    let batch: usize;
    let m: usize;
    let n: usize;
    let p: usize;
    let shape: Vec<usize>;
    if sa.len() == 2 && sa[1] == sb[0] {
        batch = 1;
        m = sa[0];
        n = sa[1];
        p = sb[1];
        shape = vec![m, p];
    } else if sa.len() == 3 && sa[0] == sb[0] && sa[2] == sb[1] {
        batch = sa[0];
        m = sa[1];
        n = sa[2];
        p = sb[2];
        shape = vec![batch, m, p];
    } else {
        return Err(TensorError::ShapeMismatch(sa, sb));
    }
    proof {
        lemma_shape_size_small(shape@);
        if sa.len() == 2 {
            assert(shape@ =~= seq![sa@[0], sb@[1]]);
        } else {
            assert(shape@ =~= seq![sa@[0], sa@[1], sb@[2]]);
        }
    }
    if checked_size(&shape).is_none() {
        return Err(TensorError::ShapeMismatch(sa, sb));
    }
    assert(batch * m * p == batch * (m * p) && batch * m * n == batch * (m * n)) by (nonlinear_arith);
    assert(batch == 1 ==> shape_size(shape@) == batch * (m * p)) by (nonlinear_arith)
        requires
            batch == 1 ==> shape_size(shape@) == m * p,
    ;
    let data = batch_matmul_kernel(&tape.record(lhs).data, &tape.record(rhs).data, m, n, p, batch);
    let rg = tape.record(lhs).requires_grad || tape.record(rhs).requires_grad;
    Ok(new_tensor_with_graph(tape, shape, data, rg, Graph::MatMul(MatMulOperation { lhs, rhs })))
}

/// The right operand of `a @ b` as the product reads it: `b` itself, or `b` repeated
/// across the batch of a rank-3 `a`.
pub open spec fn matmul_rhs(a: Seq<usize>, b: Seq<usize>, db: Seq<i64>) -> Seq<i64> {
    if a.len() == 3 && b.len() == 2 {
        repeat(db, a[0] as int)
    } else {
        db
    }
}

/// The shape of the right operand of `a @ b` as the product reads it.
pub open spec fn matmul_rhs_shape(a: Seq<usize>, b: Seq<usize>) -> Seq<usize> {
    if a.len() == 3 && b.len() == 2 {
        seq![a[0], b[0], b[1]]
    } else {
        b
    }
}

/// The dimensions of `a @ b`, with a rank-2 `b` of a rank-3 `a` taken across its batch.
pub open spec fn matmul_result_dims(a: Seq<usize>, b: Seq<usize>) -> (int, int, int, int) {
    if a.len() == 3 && b.len() == 2 {
        (a[0] as int, a[1] as int, a[2] as int, b[1] as int)
    } else {
        matmul_dims(a, b)
    }
}

/// The matrix product `lhs @ rhs`: `[m, n] @ [n, p] -> [m, p]`,
/// `[b, m, n] @ [b, n, p] -> [b, m, p]`, and `[b, m, n] @ [n, p] -> [b, m, p]`, where the
/// right operand is first broadcast across the batch.
pub fn matmul(tape: &mut Tape, lhs: Tensor, rhs: Tensor) -> (r: Result<Tensor, TensorError>)
    requires
        old(tape).wf(),
        old(tape).contains(lhs),
        old(tape).contains(rhs),
    ensures
        final(tape).wf(),
        final(tape).extends(old(tape)),
        (r is Ok) <==> matmul_ok(old(tape).shape_of(lhs), old(tape).shape_of(rhs)),
        match r {
            Ok(c) => {
                let sa = old(tape).shape_of(lhs);
                let sb = old(tape).shape_of(rhs);
                let (b, m, n, p) = matmul_result_dims(sa, sb);
                &&& c.id + 1 == final(tape).len()
                &&& final(tape).shape_of(c) == matmul_result(sa, sb).unwrap()
                &&& final(tape).data_of(c) == mat_product(old(tape).data_of(lhs), matmul_rhs(sa, sb, old(tape).data_of(rhs)), b, m, n, p)
                &&& final(tape).requires_grad_of(c) == (old(tape).requires_grad_of(lhs) || old(tape).requires_grad_of(rhs))
                &&& final(tape).graph_of(c) matches Some(Graph::MatMul(o))
                    && o.lhs == lhs
                    && brought_to(final(tape), o.rhs, rhs, sb, matmul_rhs_shape(sa, sb))
            },
            Err(e) => e is ShapeMismatch,
        },
{
    let ghost t0 = *tape;
    proof {
        tape.lemma_extends_refl();
    }
    let sa = copy_shape(&tape.record(lhs).shape);
    let sb = copy_shape(&tape.record(rhs).shape);
    if sa.len() == 3 && sb.len() == 2 {
        if sa[2] != sb[0] {
            return Err(TensorError::ShapeMismatch(sa, sb));
        }
        let bshape = vec![sa[0], sb[0], sb[1]];
        proof {
            lemma_shape_size_small(bshape@);
            assert(bshape@.drop_first() =~= sb@);
        }
        match broadcast(tape, rhs, bshape) {
            Err(e) => Err(e),
            Ok(b2) => {
                let ghost t1 = *tape;
                proof {
                    assert(tape.records()[lhs.id as int] == t0.records()[lhs.id as int]);
                    lemma_shape_size_small(sb@);
                    assert(sb@ != seq![1usize]);
                    lemma_shape_size_small(matmul_result(sa@, sb@).unwrap());
                    lemma_shape_size_small(matmul_result(sa@, tape.shape_of(b2)).unwrap());
                }
                let r = matmul_equal_rank(tape, lhs, b2);
                proof {
                    Tape::lemma_extends_trans(&t0, &t1, tape);
                }
                r
            },
        }
    } else if sa.len() != sb.len() {
        Err(TensorError::ShapeMismatch(sa, sb))
    } else {
        matmul_equal_rank(tape, lhs, rhs)
    }
}

/// Shape `a` with its last two dimensions swapped.
fn swapped(a: &Vec<usize>) -> (r: Vec<usize>)
    requires
        a.len() >= 2,
    ensures
        r@ == swap_last(a@),
{
    let n = a.len();
    let mut r = copy_shape(a);
    r.set(n - 2, a[n - 1]);
    r.set(n - 1, a[n - 2]);
    assert(r@ =~= swap_last(a@));
    r
}

fn matmul_shapes_fit(a: &Vec<usize>, b: &Vec<usize>, c: &Vec<usize>) -> (r: bool)
    ensures
        r == matmul_shapes(a@, b@, c@),
{
    if a.len() == 2 && b.len() == 2 && a[1] == b[0] {
        let e = vec![a[0], b[1]];
        assert(e@ =~= seq![a@[0], b@[1]]);
        shape_eq(&e, c)
    } else if a.len() == 3 && b.len() == 3 && a[0] == b[0] && a[2] == b[1] {
        let e = vec![a[0], a[1], b[2]];
        assert(e@ =~= seq![a@[0], a@[1], b@[2]]);
        shape_eq(&e, c)
    } else {
        false
    }
}

/// Whether `op` may have produced record `i`: its inputs come before `i` and their
/// shapes fit the operation and the shape of record `i`.
fn op_fits(tape: &Tape, i: usize, op: Graph) -> (r: bool)
    requires
        tape.wf(),
        i < tape.len(),
    ensures
        r == op_wf(tape.records(), i as int, op),
{
    let (a, b) = match op {
        Graph::Add(o) => (o.lhs, o.rhs),
        Graph::Mul(o) => (o.lhs, o.rhs),
        Graph::MatMul(o) => (o.lhs, o.rhs),
        Graph::Neg(o) => (o.t, o.t),
        Graph::Transpose(o) => (o.t, o.t),
        Graph::ReduceSum(o) => (o.t, o.t),
        Graph::Relu(o) => (o.t, o.t),
        Graph::Broadcast(o) => (o.t, o.t),
    };
    assert((a, b) == op_inputs(op));
    if a.id >= i || b.id >= i {
        return false;
    }
    let sa = &tape.record(a).shape;
    let sb = &tape.record(b).shape;
    let si = &tape.record(Tensor { id: i }).shape;
    match op {
        Graph::Add(_) => shape_eq(sa, si) && shape_eq(sb, si),
        Graph::Mul(_) => shape_eq(sa, si) && shape_eq(sb, si),
        Graph::MatMul(_) => matmul_shapes_fit(sa, sb, si),
        Graph::Neg(_) => shape_eq(sa, si),
        Graph::Relu(_) => shape_eq(sa, si),
        Graph::Transpose(_) => {
            if sa.len() < 2 {
                false
            } else {
                let e = swapped(sa);
                shape_eq(&e, si)
            }
        },
        Graph::ReduceSum(_) => is_scalar_shape(si),
        Graph::Broadcast(_) => is_scalar_shape(sa) || is_batch_of(sa, si),
    }
}

impl Tensor {
    /// Replaces the operation recorded as this tensor's producer; a node that does not
    /// fit this tensor is refused.
    pub fn set_graph(&self, tape: &mut Tape, graph: Option<Graph>) -> (r: Result<(), TensorError>)
        requires
            old(tape).wf(),
            old(tape).contains(*self),
        ensures
            final(tape).wf(),
            final(tape).len() == old(tape).len(),
            final(tape).grads() == old(tape).grads(),
            (r is Ok) <==> match graph {
                Some(op) => op_wf(old(tape).records(), self.id as int, op),
                None => true,
            },
            r is Ok ==> {
                &&& final(tape).graph_of(*self) == graph
                &&& final(tape).shape_of(*self) == old(tape).shape_of(*self)
                &&& final(tape).data_of(*self) == old(tape).data_of(*self)
                &&& final(tape).requires_grad_of(*self) == old(tape).requires_grad_of(*self)
                &&& forall|k: int| 0 <= k < old(tape).len() && k != self.id ==> final(tape).records()[k] == old(tape).records()[k]
            },
            r is Err ==> final(tape).records() == old(tape).records() && r matches Err(TensorError::InvariantViolation),
    {
        if let Some(op) = graph {
            if !op_fits(tape, self.id, op) {
                return Err(TensorError::InvariantViolation);
            }
        }
        tape.replace_graph(self.id, graph);
        Ok(())
    }
}

} // verus!
