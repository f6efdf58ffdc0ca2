//! Reverse-mode propagation: the gradient rule of each operation, the traversal that
//! accumulates gradients from an output back to the leaves, and its laws.
use vstd::prelude::*;

use crate::kernels::{
    add_kernel, batch_matmul_kernel, column_sums, column_sums_kernel, elem_add, elem_mul,
    elem_neg, mat_product, mul_kernel, neg_kernel, relu_mask, relu_mask_kernel, repeat,
    repeat_kernel, transpose_kernel, transposed,
};
use crate::operations::{copy_data, copy_shape, transpose_last2};
use crate::shape::{lemma_shape_size_last2, lemma_shape_size_nonneg, lemma_shape_size_small, shape_size};
use crate::tensor::{
    batch_of, grads_wf, matmul_dims, op_inputs, op_wf, records_wf, CoreTensor, Graph, Tape,
    Tensor, TensorError,
};

verus! {

/// A gradient slot after `g` arrives: `g` added to what it held, or `g` itself.
pub open spec fn accumulate(prev: Option<Seq<i64>>, g: Seq<i64>) -> Seq<i64> {
    match prev {
        Some(h) => elem_add(h, g),
        None => g,
    }
}

/// Whether `op` has two inputs.
pub open spec fn is_binary(op: Graph) -> bool {
    op is Add || op is Mul || op is MatMul
}

/// The gradients that record `i`, produced by `op`, passes to its first and second
/// input when its own gradient is `acc`. An operation of one input passes the first.
pub open spec fn input_grads(ts: Seq<CoreTensor>, i: int, op: Graph, acc: Seq<i64>) -> (Seq<i64>, Seq<i64>) {
    let (a, b) = op_inputs(op);
    let da = ts[a.id as int].data@;
    let db = ts[b.id as int].data@;
    let sa = ts[a.id as int].shape@;
    let sb = ts[b.id as int].shape@;
    let si = ts[i].shape@;
    match op {
        Graph::Add(_) => (acc, acc),
        Graph::Mul(_) => (elem_mul(acc, db), elem_mul(acc, da)),
        Graph::MatMul(_) => {
            let (bt, m, n, p) = matmul_dims(sa, sb);
            (
                mat_product(acc, transposed(db, bt, n, p), bt, m, p, n),
                mat_product(transposed(da, bt, m, n), acc, bt, n, m, p),
            )
        },
        Graph::Neg(_) => (elem_neg(acc), elem_neg(acc)),
        Graph::Transpose(_) => {
            let g = transposed(acc, batch_of(si), si[si.len() - 2] as int, si[si.len() - 1] as int);
            (g, g)
        },
        Graph::ReduceSum(_) => (repeat(acc, shape_size(sa)), repeat(acc, shape_size(sa))),
        Graph::Relu(_) => (relu_mask(da, acc), relu_mask(da, acc)),
        Graph::Broadcast(_) => (column_sums(acc, shape_size(sa)), column_sums(acc, shape_size(sa))),
    }
}

/// The gradient slots after gradient `g` arrives at record `i`: nothing happens unless
/// the record takes part in differentiation; else `g` is accumulated into its slot and
/// the accumulated gradient is sent through the rule of the operation that produced
/// it, depth first, to its first input and then to its second.
pub open spec fn propagate(ts: Seq<CoreTensor>, gs: Seq<Option<Seq<i64>>>, i: int, g: Seq<i64>) -> Seq<Option<Seq<i64>>>
    decreases i,
{
    if 0 <= i < ts.len() && i < gs.len() && ts[i].requires_grad {
        let acc = accumulate(gs[i], g);
        let gs1 = gs.update(i, Some(acc));
        match ts[i].graph {
            None => gs1,
            Some(op) => {
                let (a, b) = op_inputs(op);
                let (ga, gb) = input_grads(ts, i, op, acc);
                if a.id < i && b.id < i {
                    let gs2 = propagate(ts, gs1, a.id as int, ga);
                    if is_binary(op) {
                        propagate(ts, gs2, b.id as int, gb)
                    } else {
                        gs2
                    }
                } else {
                    gs1
                }
            }
        }
    } else {
        gs
    }
}

/// The gradients that an operation passes to its inputs have their inputs' sizes.
pub proof fn lemma_input_grads_len(ts: Seq<CoreTensor>, i: int, op: Graph, acc: Seq<i64>)
    requires
        records_wf(ts),
        0 <= i < ts.len(),
        ts[i].graph == Some(op),
        acc.len() == ts[i].data@.len(),
    ensures
        ({
            let (a, b) = op_inputs(op);
            let (ga, gb) = input_grads(ts, i, op, acc);
            &&& ga.len() == ts[a.id as int].data@.len()
            &&& is_binary(op) ==> gb.len() == ts[b.id as int].data@.len()
        }),
{
    assert(op_wf(ts, i, op));
    let (a, b) = op_inputs(op);
    let ra = ts[a.id as int];
    let rb = ts[b.id as int];
    let ri = ts[i];
    assert(ra.data@.len() == shape_size(ra.shape@));
    assert(rb.data@.len() == shape_size(rb.shape@));
    assert(ri.data@.len() == shape_size(ri.shape@));
    lemma_shape_size_nonneg(ra.shape@);
    lemma_shape_size_nonneg(ri.shape@);
    match op {
        Graph::MatMul(_) => {
            lemma_shape_size_small(ra.shape@);
            lemma_shape_size_small(rb.shape@);
            lemma_shape_size_small(ri.shape@);
            let (bt, m, n, p) = matmul_dims(ra.shape@, rb.shape@);
            assert(bt * m * n == bt * (m * n) && bt * n * p == bt * (n * p) && bt * m * p == bt * (m * p)) by (nonlinear_arith);
            assert(1 * m * n == m * n && 1 * n * p == n * p) by (nonlinear_arith);
        },
        Graph::Transpose(_) => {
            let s = ra.shape@;
            let si = ri.shape@;
            lemma_shape_size_last2(s);
            lemma_shape_size_last2(si);
            assert(si.take(si.len() - 2) =~= s.take(s.len() - 2));
            lemma_shape_size_nonneg(si.take(si.len() - 2));
            assert(s[s.len() - 2] * s[s.len() - 1] == s[s.len() - 1] * s[s.len() - 2]) by (nonlinear_arith);
        },
        Graph::ReduceSum(_) => {
            lemma_shape_size_small(ri.shape@);
            assert(shape_size(ra.shape@) * 1 == shape_size(ra.shape@));
        },
        _ => {},
    }
}

/// `propagate` changes no slot after `i`, and leaves in slot `i` of a record that takes
/// part in differentiation the accumulated gradient.
pub proof fn lemma_propagate_frame(ts: Seq<CoreTensor>, gs: Seq<Option<Seq<i64>>>, i: int, g: Seq<i64>)
    ensures
        propagate(ts, gs, i, g).len() == gs.len(),
        forall|k: int| i < k < gs.len() ==> #[trigger] propagate(ts, gs, i, g)[k] == gs[k],
        (0 <= i < ts.len() && i < gs.len() && ts[i].requires_grad) ==> propagate(ts, gs, i, g)[i] == Some(accumulate(gs[i], g)),
    decreases i,
{
    if 0 <= i < ts.len() && i < gs.len() && ts[i].requires_grad {
        let acc = accumulate(gs[i], g);
        let gs1 = gs.update(i, Some(acc));
        match ts[i].graph {
            None => {},
            Some(op) => {
                let (a, b) = op_inputs(op);
                let (ga, gb) = input_grads(ts, i, op, acc);
                if a.id < i && b.id < i {
                    lemma_propagate_frame(ts, gs1, a.id as int, ga);
                    let gs2 = propagate(ts, gs1, a.id as int, ga);
                    if is_binary(op) {
                        lemma_propagate_frame(ts, gs2, b.id as int, gb);
                    }
                }
            },
        }
    }
}

/// `propagate` keeps every gradient slot of the size of its tensor.
pub proof fn lemma_propagate_wf(ts: Seq<CoreTensor>, gs: Seq<Option<Seq<i64>>>, i: int, g: Seq<i64>)
    requires
        records_wf(ts),
        grads_wf(ts, gs),
        0 <= i < ts.len(),
        g.len() == ts[i].data@.len(),
    ensures
        grads_wf(ts, propagate(ts, gs, i, g)),
    decreases i,
{
    if ts[i].requires_grad {
        let acc = accumulate(gs[i], g);
        let gs1 = gs.update(i, Some(acc));
        assert(acc.len() == ts[i].data@.len());
        assert(grads_wf(ts, gs1)) by {
            assert forall|k: int| 0 <= k < gs1.len() implies match #[trigger] gs1[k] {
                Some(h) => h.len() == ts[k].data@.len(),
                None => true,
            } by {
                if k != i {
                    assert(gs1[k] == gs[k]);
                }
            }
        }
        match ts[i].graph {
            None => {},
            Some(op) => {
                assert(op_wf(ts, i, op));
                lemma_input_grads_len(ts, i, op, acc);
                let (a, b) = op_inputs(op);
                let (ga, gb) = input_grads(ts, i, op, acc);
                lemma_propagate_wf(ts, gs1, a.id as int, ga);
                let gs2 = propagate(ts, gs1, a.id as int, ga);
                if is_binary(op) {
                    lemma_propagate_wf(ts, gs2, b.id as int, gb);
                }
            },
        }
    }
}

/// After backward from record `i` of a well-formed tape, every gradient present has as
/// many elements as its tensor's shape holds, and record `i` holds one.
pub proof fn law_gradient_shapes(ts: Seq<CoreTensor>, gs: Seq<Option<Seq<i64>>>, i: int, g: Seq<i64>)
    requires
        records_wf(ts),
        grads_wf(ts, gs),
        0 <= i < ts.len(),
        ts[i].requires_grad,
        g.len() == ts[i].data@.len(),
    ensures
        propagate(ts, gs, i, g)[i] is Some,
        forall|k: int|
            0 <= k < ts.len() ==> match #[trigger] propagate(ts, gs, i, g)[k] {
                Some(h) => h.len() == shape_size(ts[k].shape@),
                None => true,
            },
{
    lemma_propagate_frame(ts, gs, i, g);
    lemma_propagate_wf(ts, gs, i, g);
    assert forall|k: int| 0 <= k < ts.len() implies match #[trigger] propagate(ts, gs, i, g)[k] {
        Some(h) => h.len() == shape_size(ts[k].shape@),
        None => true,
    } by {
        assert(ts[k].data@.len() == shape_size(ts[k].shape@));
    }
}

/// For `c = a + b` of two distinct leaves that take part in differentiation, backward
/// from `c` with gradient `g`, where none of the three holds a gradient yet, leaves `g`
/// as the gradient of `a` and of `b`.
pub proof fn law_add_gradients(ts: Seq<CoreTensor>, gs: Seq<Option<Seq<i64>>>, c: int, o: crate::tensor::AddOperation, g: Seq<i64>)
    requires
        records_wf(ts),
        grads_wf(ts, gs),
        0 <= c < ts.len(),
        ts[c].graph == Some(Graph::Add(o)),
        ts[c].requires_grad,
        o.lhs != o.rhs,
        ts[o.lhs.id as int].graph is None,
        ts[o.rhs.id as int].graph is None,
        ts[o.lhs.id as int].requires_grad,
        ts[o.rhs.id as int].requires_grad,
        gs[c] is None,
        gs[o.lhs.id as int] is None,
        gs[o.rhs.id as int] is None,
        g.len() == ts[c].data@.len(),
    ensures
        propagate(ts, gs, c, g)[o.lhs.id as int] == Some(g),
        propagate(ts, gs, c, g)[o.rhs.id as int] == Some(g),
{
    assert(op_wf(ts, c, Graph::Add(o)));
    let gs1 = gs.update(c, Some(g));
    let gs2 = propagate(ts, gs1, o.lhs.id as int, g);
    lemma_propagate_frame(ts, gs1, o.lhs.id as int, g);
    lemma_propagate_frame(ts, gs2, o.rhs.id as int, g);
    assert(gs2 == gs1.update(o.lhs.id as int, Some(g)));
    assert(propagate(ts, gs2, o.rhs.id as int, g) == gs2.update(o.rhs.id as int, Some(g)));
}

/// A sequence of `n` ones.
pub open spec fn ones(n: int) -> Seq<i64> {
    Seq::new(n as nat, |k: int| 1i64)
}

/// For `d = reduce_sum(c)`, backward from `d` without a gradient (that is, from `[1]`),
/// where neither holds a gradient yet, leaves in `c` a gradient of ones of its size.
pub proof fn law_reduce_sum_gradient(ts: Seq<CoreTensor>, gs: Seq<Option<Seq<i64>>>, d: int, c: Tensor)
    requires
        records_wf(ts),
        grads_wf(ts, gs),
        0 <= d < ts.len(),
        ts[d].graph == Some(Graph::ReduceSum(crate::tensor::ReduceSumOperation { t: c })),
        ts[d].requires_grad,
        ts[c.id as int].requires_grad,
        gs[d] is None,
        gs[c.id as int] is None,
    ensures
        propagate(ts, gs, d, seq![1i64])[c.id as int] == Some(ones(shape_size(ts[c.id as int].shape@))),
{
    let op = Graph::ReduceSum(crate::tensor::ReduceSumOperation { t: c });
    assert(op_wf(ts, d, op));
    let gs1 = gs.update(d, Some(seq![1i64]));
    let ga = repeat(seq![1i64], shape_size(ts[c.id as int].shape@));
    lemma_propagate_frame(ts, gs1, c.id as int, ga);
    lemma_shape_size_nonneg(ts[c.id as int].shape@);
    let n = shape_size(ts[c.id as int].shape@);
    assert(n * 1 == n);
    assert forall|k: int| 0 <= k < n implies #[trigger] ga[k] == 1i64 by {
        assert(k % 1 == 0);
    }
    assert(ga =~= ones(n));
}

/// For `b`, the scalar `s` of shape `[1]` broadcast to any shape, backward from `b` with
/// gradient `g`, where neither holds a gradient yet, leaves in `s` the sum of `g`.
pub proof fn law_broadcast_scalar_gradient(ts: Seq<CoreTensor>, gs: Seq<Option<Seq<i64>>>, b: int, s: Tensor, g: Seq<i64>)
    requires
        records_wf(ts),
        grads_wf(ts, gs),
        0 <= b < ts.len(),
        ts[b].graph == Some(Graph::Broadcast(crate::tensor::BroadcastOperation { t: s })),
        ts[s.id as int].shape@ == seq![1usize],
        ts[b].requires_grad,
        ts[s.id as int].requires_grad,
        gs[b] is None,
        gs[s.id as int] is None,
        g.len() == ts[b].data@.len(),
    ensures
        propagate(ts, gs, b, g)[s.id as int] == Some(seq![crate::kernels::wsum(g)]),
{
    let op = Graph::Broadcast(crate::tensor::BroadcastOperation { t: s });
    assert(op_wf(ts, b, op));
    lemma_shape_size_small(ts[s.id as int].shape@);
    let gs1 = gs.update(b, Some(g));
    let ga = column_sums(g, 1);
    lemma_propagate_frame(ts, gs1, s.id as int, ga);
    assert(crate::kernels::column(g, 1, 0) =~= g);
    assert(ga =~= seq![crate::kernels::wsum(g)]);
}

proof fn lemma_wrapping_add_assoc(a: i64, b: i64, c: i64)
    ensures
        a.wrapping_add(b).wrapping_add(c) == a.wrapping_add(b.wrapping_add(c)),
{
}

/// What a slot holding `h` holds after the contribution `d` is added to it.
pub open spec fn combine(h: Option<Seq<i64>>, d: Option<Seq<i64>>) -> Option<Seq<i64>> {
    match (h, d) {
        (Some(x), Some(y)) => Some(elem_add(x, y)),
        (Some(x), None) => Some(x),
        (None, d) => d,
    }
}

proof fn lemma_leaf_shift(
    ts: Seq<CoreTensor>,
    a: Seq<Option<Seq<i64>>>,
    b: Seq<Option<Seq<i64>>>,
    x: int,
    h: Option<Seq<i64>>,
    y: int,
    g: Seq<i64>,
)
    requires
        records_wf(ts),
        grads_wf(ts, a),
        grads_wf(ts, b),
        0 <= x < ts.len(),
        ts[x].graph is None,
        forall|k: int| 0 <= k < ts.len() && k != x ==> a[k] == b[k],
        a[x] == combine(h, b[x]),
        match h {
            Some(v) => v.len() == ts[x].data@.len(),
            None => true,
        },
        0 <= y < ts.len(),
        g.len() == ts[y].data@.len(),
    ensures
        forall|k: int| 0 <= k < ts.len() && k != x ==> propagate(ts, a, y, g)[k] == propagate(ts, b, y, g)[k],
        propagate(ts, a, y, g)[x] == combine(h, propagate(ts, b, y, g)[x]),
    decreases y,
{
    lemma_propagate_frame(ts, a, y, g);
    lemma_propagate_frame(ts, b, y, g);
    if !ts[y].requires_grad {
        return;
    }
    let acc_a = accumulate(a[y], g);
    let acc_b = accumulate(b[y], g);
    let a1 = a.update(y, Some(acc_a));
    let b1 = b.update(y, Some(acc_b));
    if y == x {
        match (h, b[x]) {
            (Some(v), Some(d)) => {
                assert(elem_add(elem_add(v, d), g) =~= elem_add(v, elem_add(d, g))) by {
                    assert forall|k: int| 0 <= k < v.len() implies #[trigger] elem_add(elem_add(v, d), g)[k] == elem_add(v, elem_add(d, g))[k] by {
                        lemma_wrapping_add_assoc(v[k], d[k], g[k]);
                    }
                }
            },
            _ => {},
        }
        return;
    }
    assert(acc_a == acc_b);
    lemma_propagate_wf(ts, a, y, g);
    lemma_propagate_wf(ts, b, y, g);
    let acc = acc_a;
    assert(acc.len() == ts[y].data@.len());
    assert(grads_wf(ts, a1) && grads_wf(ts, b1)) by {
        assert forall|k: int| 0 <= k < a1.len() implies match #[trigger] a1[k] {
            Some(q) => q.len() == ts[k].data@.len(),
            None => true,
        } by {
            if k != y {
                assert(a1[k] == a[k]);
            }
        }
        assert forall|k: int| 0 <= k < b1.len() implies match #[trigger] b1[k] {
            Some(q) => q.len() == ts[k].data@.len(),
            None => true,
        } by {
            if k != y {
                assert(b1[k] == b[k]);
            }
        }
    }
    match ts[y].graph {
        None => {},
        Some(op) => {
            assert(op_wf(ts, y, op));
            lemma_input_grads_len(ts, y, op, acc);
            let (p, q) = op_inputs(op);
            let (gp, gq) = input_grads(ts, y, op, acc);
            lemma_leaf_shift(ts, a1, b1, x, h, p.id as int, gp);
            if is_binary(op) {
                let a2 = propagate(ts, a1, p.id as int, gp);
                let b2 = propagate(ts, b1, p.id as int, gp);
                lemma_propagate_wf(ts, a1, p.id as int, gp);
                lemma_propagate_wf(ts, b1, p.id as int, gp);
                lemma_leaf_shift(ts, a2, b2, x, h, q.id as int, gq);
            }
        },
    }
}

/// Gradients accumulate at a leaf: backward from `y` leaves in leaf `x` what `x` held
/// before plus what the same backward leaves in `x` when `x` holds no gradient. So after
/// backward from two outputs that share the leaf, the leaf holds the sum of what each
/// run contributes.
pub proof fn law_leaf_accumulation(ts: Seq<CoreTensor>, gs: Seq<Option<Seq<i64>>>, x: int, y: int, g: Seq<i64>)
    requires
        records_wf(ts),
        grads_wf(ts, gs),
        0 <= x < ts.len(),
        ts[x].graph is None,
        0 <= y < ts.len(),
        g.len() == ts[y].data@.len(),
    ensures
        propagate(ts, gs, y, g)[x] == combine(gs[x], propagate(ts, gs.update(x, None), y, g)[x]),
{
    let b = gs.update(x, None);
    assert(grads_wf(ts, b)) by {
        assert forall|k: int| 0 <= k < b.len() implies match #[trigger] b[k] {
            Some(q) => q.len() == ts[k].data@.len(),
            None => true,
        } by {
            if k != x {
                assert(b[k] == gs[k]);
            }
        }
    }
    lemma_leaf_shift(ts, gs, b, x, gs[x], y, g);
}

/// Backward from `y1` and then from `y2` leaves in leaf `x` what it held, plus what the
/// first run contributes, plus what the second run contributes; each contribution is
/// what that run leaves in `x` when `x` holds no gradient.
pub proof fn law_two_branch_accumulation(
    ts: Seq<CoreTensor>,
    gs: Seq<Option<Seq<i64>>>,
    x: int,
    y1: int,
    g1: Seq<i64>,
    y2: int,
    g2: Seq<i64>,
)
    requires
        records_wf(ts),
        grads_wf(ts, gs),
        0 <= x < ts.len(),
        ts[x].graph is None,
        0 <= y1 < ts.len(),
        g1.len() == ts[y1].data@.len(),
        0 <= y2 < ts.len(),
        g2.len() == ts[y2].data@.len(),
    ensures
        ({
            let s1 = propagate(ts, gs, y1, g1);
            let d1 = propagate(ts, gs.update(x, None), y1, g1)[x];
            let d2 = propagate(ts, s1.update(x, None), y2, g2)[x];
            propagate(ts, s1, y2, g2)[x] == combine(combine(gs[x], d1), d2)
        }),
{
    let s1 = propagate(ts, gs, y1, g1);
    law_leaf_accumulation(ts, gs, x, y1, g1);
    lemma_propagate_wf(ts, gs, y1, g1);
    law_leaf_accumulation(ts, s1, x, y2, g2);
}

impl Tape {
    /// The gradients that the product at record `i` of `lhs` and `rhs` passes to them.
    fn matmul_grads(&self, i: usize, lhs: Tensor, rhs: Tensor, acc: &Vec<i64>) -> (r: (Vec<i64>, Vec<i64>))
        requires
            self.wf(),
            i < self.len(),
            self.records()[i as int].graph == Some(Graph::MatMul(crate::tensor::MatMulOperation { lhs, rhs })),
            acc@.len() == self.records()[i as int].data@.len(),
        ensures
            (r.0@, r.1@) == input_grads(self.records(), i as int, Graph::MatMul(crate::tensor::MatMulOperation { lhs, rhs }), acc@),
    {
        let ghost ts = self.records();
        let ghost op = Graph::MatMul(crate::tensor::MatMulOperation { lhs, rhs });
        proof {
            assert(op_wf(ts, i as int, op));
            lemma_input_grads_len(ts, i as int, op, acc@);
            assert(ts[lhs.id as int].data@.len() == shape_size(ts[lhs.id as int].shape@));
            assert(ts[rhs.id as int].data@.len() == shape_size(ts[rhs.id as int].shape@));
            assert(ts[i as int].data@.len() == shape_size(ts[i as int].shape@));
            lemma_shape_size_small(ts[lhs.id as int].shape@);
            lemma_shape_size_small(ts[rhs.id as int].shape@);
            lemma_shape_size_small(ts[i as int].shape@);
        }
        let sa = &self.record(lhs).shape;
        let sb = &self.record(rhs).shape;
        let (bt, m, n, p) = if sa.len() == 2 {
            (1usize, sa[0], sa[1], sb[1])
        } else {
            (sa[0], sa[1], sa[2], sb[2])
        };
        assert(bt * m * n == bt * (m * n) && bt * n * p == bt * (n * p) && bt * m * p == bt * (m * p)
            && bt * p * n == bt * (p * n) && bt * n * m == bt * (n * m)) by (nonlinear_arith);
        assert(1 * (m * n) == m * n && 1 * (n * p) == n * p && 1 * (m * p) == m * p) by (nonlinear_arith);
        assert(p * n == n * p && n * m == m * n) by (nonlinear_arith);
        let la = self.record(lhs).data.len();
        let lb = self.record(rhs).data.len();
        assert(la == bt * (m * n) && lb == bt * (n * p));
        assert(bt * m * n <= usize::MAX && bt * n * p <= usize::MAX);
        let rt = transpose_kernel(&self.record(rhs).data, bt, n, p);
        let lt = transpose_kernel(&self.record(lhs).data, bt, m, n);
        let ga = batch_matmul_kernel(acc, &rt, m, p, n, bt);
        let gb = batch_matmul_kernel(&lt, acc, n, m, p, bt);
        (ga, gb)
    }

    /// The gradient that the broadcast at record `i` of `t` passes to `t`.
    fn broadcast_grad(&self, i: usize, t: Tensor, acc: &Vec<i64>) -> (r: Vec<i64>)
        requires
            self.wf(),
            i < self.len(),
            self.records()[i as int].graph == Some(Graph::Broadcast(crate::tensor::BroadcastOperation { t })),
            acc@.len() == self.records()[i as int].data@.len(),
        ensures
            r@ == column_sums(acc@, shape_size(self.records()[t.id as int].shape@)),
    {
        let ghost ts = self.records();
        proof {
            assert(op_wf(ts, i as int, Graph::Broadcast(crate::tensor::BroadcastOperation { t })));
            assert(ts[t.id as int].data@.len() == shape_size(ts[t.id as int].shape@));
            assert(ts[i as int].data@.len() == shape_size(ts[i as int].shape@));
        }
        let len = self.record(t).data.len();
        if len == 0 {
            let e: Vec<i64> = Vec::new();
            assert(e@ =~= column_sums(acc@, 0));
            return e;
        }
        proof {
            let s = ts[t.id as int].shape@;
            let target = ts[i as int].shape@;
            if s == seq![1usize] {
                lemma_shape_size_small(s);
            } else {
                assert(shape_size(target) == target[0] * shape_size(s));
            }
            assert((acc@.len() as int) % (len as int) == 0) by {
                if s == seq![1usize] {
                    assert((acc@.len() as int) % 1 == 0);
                } else {
                    vstd::arithmetic::div_mod::lemma_mod_multiples_basic(target[0] as int, len as int);
                }
            }
        }
        column_sums_kernel(acc, len)
    }

    /// Sends gradient `g` into record `i`, as `propagate` describes.
    fn propagate(&mut self, i: usize, g: Vec<i64>)
        requires
            old(self).wf(),
            i < old(self).len(),
            g@.len() == old(self).records()[i as int].data@.len(),
        ensures
            final(self).wf(),
            final(self).records() == old(self).records(),
            final(self).grads() == propagate(old(self).records(), old(self).grads(), i as int, g@),
        decreases i,
    {
        let rec = self.record(Tensor { id: i });
        if !rec.requires_grad {
            return;
        }
        let acc = match self.grad_slot(i) {
            Some(h) => add_kernel(h, &g),
            None => g,
        };
        let graph = self.record(Tensor { id: i }).graph;
        self.set_grad_slot(i, copy_data(&acc));
        let ghost ts = self.records();
        match graph {
            None => {},
            Some(op) => {
                proof {
                    assert(op_wf(ts, i as int, op));
                    lemma_input_grads_len(ts, i as int, op, acc@);
                }
                match op {
                    Graph::Add(o) => {
                        let acc2 = copy_data(&acc);
                        self.propagate(o.lhs.id, acc);
                        self.propagate(o.rhs.id, acc2);
                    },
                    Graph::Mul(o) => {
                        let ga = mul_kernel(&acc, &self.record(o.rhs).data);
                        let gb = mul_kernel(&acc, &self.record(o.lhs).data);
                        self.propagate(o.lhs.id, ga);
                        self.propagate(o.rhs.id, gb);
                    },
                    Graph::MatMul(o) => {
                        let (ga, gb) = self.matmul_grads(i, o.lhs, o.rhs, &acc);
                        self.propagate(o.lhs.id, ga);
                        self.propagate(o.rhs.id, gb);
                    },
                    Graph::Neg(o) => {
                        let ga = neg_kernel(&acc);
                        self.propagate(o.t.id, ga);
                    },
                    Graph::Transpose(o) => {
                        proof {
                            assert(ts[i as int].data@.len() == shape_size(ts[i as int].shape@));
                        }
                        let ga = transpose_last2(&acc, &self.record(Tensor { id: i }).shape);
                        self.propagate(o.t.id, ga);
                    },
                    Graph::ReduceSum(o) => {
                        proof {
                            assert(ts[i as int].data@.len() == shape_size(ts[i as int].shape@));
                            lemma_shape_size_small(ts[i as int].shape@);
                        }
                        let n = self.record(o.t).data.len();
                        assert(n * 1 <= usize::MAX);
                        let ga = repeat_kernel(&acc, n);
                        self.propagate(o.t.id, ga);
                    },
                    Graph::Relu(o) => {
                        let ga = relu_mask_kernel(&self.record(o.t).data, &acc);
                        self.propagate(o.t.id, ga);
                    },
                    Graph::Broadcast(o) => {
                        let ga = self.broadcast_grad(i, o.t, &acc);
                        self.propagate(o.t.id, ga);
                    },
                }
            },
        }
    }
}

impl Tensor {
    /// Runs reverse-mode differentiation from this tensor with incoming gradient `grad`
    /// (of this tensor's shape), accumulating into the gradient slot of every record
    /// reached that takes part in differentiation. Without `grad`, a tensor of shape
    /// `[1]` starts from the gradient `[1]`.
    pub fn backward(&self, tape: &mut Tape, grad: Option<Vec<i64>>) -> (r: Result<(), TensorError>)
        requires
            old(tape).wf(),
            old(tape).contains(*self),
        ensures
            final(tape).wf(),
            final(tape).records() == old(tape).records(),
            !old(tape).requires_grad_of(*self) ==> r is Ok && final(tape).grads() == old(tape).grads(),
            old(tape).requires_grad_of(*self) ==> match grad {
                None => if old(tape).shape_of(*self) == seq![1usize] {
                    &&& r is Ok
                    &&& final(tape).grads() == propagate(old(tape).records(), old(tape).grads(), self.id as int, seq![1i64])
                } else {
                    &&& r matches Err(TensorError::MissingGradient(s)) && s@ == old(tape).shape_of(*self)
                    &&& final(tape).grads() == old(tape).grads()
                },
                Some(g) => if g@.len() == old(tape).data_of(*self).len() {
                    &&& r is Ok
                    &&& final(tape).grads() == propagate(old(tape).records(), old(tape).grads(), self.id as int, g@)
                } else {
                    &&& r matches Err(TensorError::ShapeMismatch(s, d)) && s@ == old(tape).shape_of(*self) && d@ == seq![g@.len() as usize]
                    &&& final(tape).grads() == old(tape).grads()
                },
            },
    {
        let rec = tape.record(*self);
        if !rec.requires_grad {
            return Ok(());
        }
        let seed = match grad {
            Some(g) => {
                if g.len() != rec.data.len() {
                    let s = copy_shape(&rec.shape);
                    let n = g.len();
                    return Err(TensorError::ShapeMismatch(s, vec![n]));
                }
                g
            },
            None => {
                if !(rec.shape.len() == 1 && rec.shape[0] == 1) {
                    let s = copy_shape(&rec.shape);
                    return Err(TensorError::MissingGradient(s));
                }
                proof {
                    assert(rec.shape@ =~= seq![1usize]);
                    assert(rec.data@.len() == shape_size(rec.shape@));
                    lemma_shape_size_small(rec.shape@);
                }
                let one = vec![1i64];
                assert(one@ =~= seq![1i64]);
                one
            },
        };
        proof {
            if grad is None {
                assert(tape.shape_of(*self) =~= seq![1usize]);
            }
        }
        tape.propagate(self.id, seed);
        Ok(())
    }
}

} // verus!
