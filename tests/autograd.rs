use autodiff::operations::{
    add, broadcast, broadcast_to_same_dim, matmul, mul, neg, reduce_sum, relu, sub, transpose,
};
use autodiff::shape::strides;
use autodiff::tensor::{Graph, NegOperation, ReduceSumOperation, Tape, Tensor, TensorError};

fn leaf(tape: &mut Tape, shape: Vec<usize>, data: Vec<i64>) -> Tensor {
    Tensor::new(tape, shape, data, true).unwrap()
}

#[test]
fn new_rejects_data_that_does_not_fill_the_shape() {
    let mut tape = Tape::new();
    let r = Tensor::new(&mut tape, vec![2, 3], vec![1, 2, 3, 4, 5], true);
    assert_eq!(r, Err(TensorError::ShapeMismatch(vec![2, 3], vec![5])));
}

#[test]
fn new_keeps_shape_data_and_flag() {
    let mut tape = Tape::new();
    let t = Tensor::new(&mut tape, vec![2, 2], vec![1, 2, 3, 4], false).unwrap();
    assert_eq!(t.get_shape(&tape), vec![2, 2]);
    assert_eq!(t.get_data(&tape), vec![1, 2, 3, 4]);
    assert_eq!(*t.get_data_ref(&tape), vec![1, 2, 3, 4]);
    assert!(!t.get_requires_grad(&tape));
    assert_eq!(t.get_grad(&tape), None);
    assert_eq!(t.get_graph(&tape), None);
}

#[test]
fn new_accepts_empty_shape_with_zero_dimension() {
    let mut tape = Tape::new();
    let t = Tensor::new(&mut tape, vec![3, 0], vec![], true).unwrap();
    assert_eq!(t.get_data(&tape), Vec::<i64>::new());
}

#[test]
fn backward_without_gradient_on_non_scalar_fails() {
    let mut tape = Tape::new();
    let t = leaf(&mut tape, vec![2], vec![1, 2]);
    assert_eq!(t.backward(&mut tape, None), Err(TensorError::MissingGradient(vec![2])));
    assert_eq!(t.get_grad(&tape), None);
}

#[test]
fn backward_with_gradient_of_wrong_size_fails() {
    let mut tape = Tape::new();
    let t = leaf(&mut tape, vec![2], vec![1, 2]);
    assert_eq!(
        t.backward(&mut tape, Some(vec![1, 2, 3])),
        Err(TensorError::ShapeMismatch(vec![2], vec![3]))
    );
}

#[test]
fn backward_on_tensor_without_grad_does_nothing() {
    let mut tape = Tape::new();
    let t = Tensor::new(&mut tape, vec![2], vec![1, 2], false).unwrap();
    assert_eq!(t.backward(&mut tape, None), Ok(()));
    assert_eq!(t.get_grad(&tape), None);
}

#[test]
fn add_gradient_reaches_both_operands() {
    let mut tape = Tape::new();
    let a = leaf(&mut tape, vec![3], vec![1, 2, 3]);
    let b = leaf(&mut tape, vec![3], vec![4, 5, 6]);
    let c = add(&mut tape, a, b).unwrap();
    assert_eq!(c.get_data(&tape), vec![5, 7, 9]);
    c.backward(&mut tape, Some(vec![7, -8, 9])).unwrap();
    assert_eq!(a.get_grad(&tape), Some(vec![7, -8, 9]));
    assert_eq!(b.get_grad(&tape), Some(vec![7, -8, 9]));
}

#[test]
fn mul_gradient_is_the_other_operand() {
    let mut tape = Tape::new();
    let a = leaf(&mut tape, vec![2], vec![3, 4]);
    let b = leaf(&mut tape, vec![2], vec![5, -6]);
    let c = mul(&mut tape, a, b).unwrap();
    assert_eq!(c.get_data(&tape), vec![15, -24]);
    c.backward(&mut tape, Some(vec![1, 2])).unwrap();
    assert_eq!(a.get_grad(&tape), Some(vec![5, -12]));
    assert_eq!(b.get_grad(&tape), Some(vec![3, 8]));
}

#[test]
fn sub_is_add_of_negation() {
    let mut tape = Tape::new();
    let a = leaf(&mut tape, vec![2], vec![10, 20]);
    let b = leaf(&mut tape, vec![2], vec![1, 2]);
    let c = sub(&mut tape, a, b).unwrap();
    assert_eq!(c.get_data(&tape), vec![9, 18]);
    c.backward(&mut tape, Some(vec![1, 1])).unwrap();
    assert_eq!(a.get_grad(&tape), Some(vec![1, 1]));
    assert_eq!(b.get_grad(&tape), Some(vec![-1, -1]));
}

#[test]
fn neg_negates_data_and_gradient() {
    let mut tape = Tape::new();
    let a = leaf(&mut tape, vec![3], vec![1, -2, 0]);
    let n = neg(&mut tape, a);
    assert_eq!(n.get_data(&tape), vec![-1, 2, 0]);
    n.backward(&mut tape, Some(vec![3, 4, 5])).unwrap();
    assert_eq!(a.get_grad(&tape), Some(vec![-3, -4, -5]));
}

#[test]
fn relu_masks_gradient_where_input_is_not_positive() {
    let mut tape = Tape::new();
    let a = leaf(&mut tape, vec![4], vec![-2, 0, 3, 5]);
    let r = relu(&mut tape, a);
    assert_eq!(r.get_data(&tape), vec![0, 0, 3, 5]);
    r.backward(&mut tape, Some(vec![1, 2, 3, 4])).unwrap();
    assert_eq!(a.get_grad(&tape), Some(vec![0, 0, 3, 4]));
}

#[test]
fn reduce_sum_round_trip_gives_ones() {
    let mut tape = Tape::new();
    let a = leaf(&mut tape, vec![2, 3], vec![1, 2, 3, 4, 5, 6]);
    let b = leaf(&mut tape, vec![2, 3], vec![7, 8, 9, 10, 11, 12]);
    let c = add(&mut tape, a, b).unwrap();
    let d = reduce_sum(&mut tape, c);
    assert_eq!(d.get_shape(&tape), vec![1]);
    assert_eq!(d.get_data(&tape), vec![78]);
    d.backward(&mut tape, None).unwrap();
    assert_eq!(d.get_grad(&tape), Some(vec![1]));
    assert_eq!(c.get_grad(&tape), Some(vec![1; 6]));
    assert_eq!(a.get_grad(&tape), Some(vec![1; 6]));
    assert_eq!(b.get_grad(&tape), Some(vec![1; 6]));
}

#[test]
fn matmul_gradients_follow_transposes() {
    let mut tape = Tape::new();
    let a = leaf(&mut tape, vec![2, 3], vec![1, 2, 3, 4, 5, 6]);
    let b = leaf(&mut tape, vec![3, 2], vec![7, 8, 9, 10, 11, 12]);
    let c = matmul(&mut tape, a, b).unwrap();
    assert_eq!(c.get_shape(&tape), vec![2, 2]);
    assert_eq!(c.get_data(&tape), vec![58, 64, 139, 154]);
    c.backward(&mut tape, Some(vec![1, 1, 1, 1])).unwrap();
    // ones([2,2]) @ transpose(B) and transpose(A) @ ones([2,2])
    assert_eq!(a.get_grad(&tape), Some(vec![15, 19, 23, 15, 19, 23]));
    assert_eq!(b.get_grad(&tape), Some(vec![5, 5, 7, 7, 9, 9]));
}

#[test]
fn matmul_batched_multiplies_each_slice() {
    let mut tape = Tape::new();
    let a = leaf(&mut tape, vec![2, 1, 2], vec![1, 2, 3, 4]);
    let b = leaf(&mut tape, vec![2, 2, 1], vec![5, 6, 7, 8]);
    let c = matmul(&mut tape, a, b).unwrap();
    assert_eq!(c.get_shape(&tape), vec![2, 1, 1]);
    assert_eq!(c.get_data(&tape), vec![17, 53]);
    c.backward(&mut tape, Some(vec![1, 2])).unwrap();
    assert_eq!(a.get_grad(&tape), Some(vec![5, 6, 14, 16]));
    assert_eq!(b.get_grad(&tape), Some(vec![1, 2, 6, 8]));
}

#[test]
fn matmul_broadcasts_a_matrix_across_the_batch() {
    let mut tape = Tape::new();
    let a = leaf(&mut tape, vec![2, 1, 2], vec![1, 2, 3, 4]);
    let w = leaf(&mut tape, vec![2, 1], vec![10, 100]);
    let c = matmul(&mut tape, a, w).unwrap();
    assert_eq!(c.get_shape(&tape), vec![2, 1, 1]);
    assert_eq!(c.get_data(&tape), vec![210, 430]);
    c.backward(&mut tape, Some(vec![1, 1])).unwrap();
    assert_eq!(w.get_grad(&tape), Some(vec![4, 6]));
}

#[test]
fn matmul_rejects_mismatched_inner_dimensions() {
    let mut tape = Tape::new();
    let a = leaf(&mut tape, vec![2, 3], vec![0; 6]);
    let b = leaf(&mut tape, vec![2, 3], vec![0; 6]);
    assert!(matches!(matmul(&mut tape, a, b), Err(TensorError::ShapeMismatch(_, _))));
    let v = leaf(&mut tape, vec![3], vec![0; 3]);
    assert!(matches!(matmul(&mut tape, a, v), Err(TensorError::ShapeMismatch(_, _))));
}

#[test]
fn transpose_swaps_last_two_axes() {
    let mut tape = Tape::new();
    let a = leaf(&mut tape, vec![2, 3], vec![1, 2, 3, 4, 5, 6]);
    let t = transpose(&mut tape, a).unwrap();
    assert_eq!(t.get_shape(&tape), vec![3, 2]);
    assert_eq!(t.get_data(&tape), vec![1, 4, 2, 5, 3, 6]);
    t.backward(&mut tape, Some(vec![1, 2, 3, 4, 5, 6])).unwrap();
    assert_eq!(a.get_grad(&tape), Some(vec![1, 3, 5, 2, 4, 6]));
}

#[test]
fn transpose_of_rank_three_keeps_the_batch_axis() {
    let mut tape = Tape::new();
    let a = leaf(&mut tape, vec![2, 1, 2], vec![1, 2, 3, 4]);
    let t = transpose(&mut tape, a).unwrap();
    assert_eq!(t.get_shape(&tape), vec![2, 2, 1]);
    assert_eq!(t.get_data(&tape), vec![1, 2, 3, 4]);
    let b = leaf(&mut tape, vec![1, 2, 2], vec![1, 2, 3, 4]);
    let u = transpose(&mut tape, b).unwrap();
    assert_eq!(u.get_data(&tape), vec![1, 3, 2, 4]);
}

#[test]
fn transpose_of_rank_one_fails() {
    let mut tape = Tape::new();
    let a = leaf(&mut tape, vec![3], vec![1, 2, 3]);
    assert!(matches!(transpose(&mut tape, a), Err(TensorError::ShapeMismatch(_, _))));
}

#[test]
fn broadcast_scalar_gradient_sums_contributions() {
    let mut tape = Tape::new();
    let s = leaf(&mut tape, vec![1], vec![5]);
    let b = broadcast(&mut tape, s, vec![3]).unwrap();
    assert_eq!(b.get_data(&tape), vec![5, 5, 5]);
    b.backward(&mut tape, Some(vec![1, 1, 1])).unwrap();
    assert_eq!(s.get_grad(&tape), Some(vec![3]));
}

#[test]
fn broadcast_batch_gradient_sums_over_batch_axis() {
    let mut tape = Tape::new();
    let t = leaf(&mut tape, vec![2], vec![1, 2]);
    let b = broadcast(&mut tape, t, vec![3, 2]).unwrap();
    assert_eq!(b.get_data(&tape), vec![1, 2, 1, 2, 1, 2]);
    b.backward(&mut tape, Some(vec![1, 10, 2, 20, 3, 30])).unwrap();
    assert_eq!(t.get_grad(&tape), Some(vec![6, 60]));
    assert!(matches!(b.get_graph(&tape), Some(Graph::Broadcast(_))));
}

#[test]
fn broadcast_rejects_incompatible_shapes() {
    let mut tape = Tape::new();
    let t = leaf(&mut tape, vec![2], vec![1, 2]);
    assert!(matches!(broadcast(&mut tape, t, vec![3, 3]), Err(TensorError::ShapeMismatch(_, _))));
    assert!(matches!(broadcast(&mut tape, t, vec![4]), Err(TensorError::ShapeMismatch(_, _))));
}

#[test]
fn add_broadcasts_scalar_and_batch_operands() {
    let mut tape = Tape::new();
    let a = leaf(&mut tape, vec![2, 2], vec![1, 2, 3, 4]);
    let s = leaf(&mut tape, vec![1], vec![10]);
    let c = add(&mut tape, s, a).unwrap();
    assert_eq!(c.get_data(&tape), vec![11, 12, 13, 14]);
    let row = leaf(&mut tape, vec![2], vec![100, 200]);
    let d = add(&mut tape, a, row).unwrap();
    assert_eq!(d.get_shape(&tape), vec![2, 2]);
    assert_eq!(d.get_data(&tape), vec![101, 202, 103, 204]);
    d.backward(&mut tape, Some(vec![1, 1, 1, 1])).unwrap();
    assert_eq!(row.get_grad(&tape), Some(vec![2, 2]));
}

#[test]
fn broadcast_to_same_dim_rejects_other_mismatches() {
    let mut tape = Tape::new();
    let a = leaf(&mut tape, vec![2, 2], vec![0; 4]);
    let b = leaf(&mut tape, vec![3], vec![0; 3]);
    assert!(matches!(
        broadcast_to_same_dim(&mut tape, a, b),
        Err(TensorError::ShapeMismatch(_, _))
    ));
    let c = leaf(&mut tape, vec![2, 2], vec![0; 4]);
    assert_eq!(broadcast_to_same_dim(&mut tape, a, c), Ok((a, c)));
    assert!(matches!(add(&mut tape, a, b), Err(TensorError::ShapeMismatch(_, _))));
}

#[test]
fn gradients_accumulate_over_two_backward_runs() {
    // Shared leaf x feeds y1 = x * w and y2 = -x.
    let build = |tape: &mut Tape| {
        let x = leaf(tape, vec![2], vec![3, 4]);
        let w = Tensor::new(tape, vec![2], vec![2, 5], false).unwrap();
        let y1 = mul(tape, x, w).unwrap();
        let y2 = neg(tape, x);
        (x, y1, y2)
    };
    let mut t1 = Tape::new();
    let (x1, y1, _) = build(&mut t1);
    y1.backward(&mut t1, Some(vec![1, 1])).unwrap();
    let g1 = x1.get_grad(&t1).unwrap();
    let mut t2 = Tape::new();
    let (x2, _, y2) = build(&mut t2);
    y2.backward(&mut t2, Some(vec![1, 1])).unwrap();
    let g2 = x2.get_grad(&t2).unwrap();
    let mut t = Tape::new();
    let (x, y1, y2) = build(&mut t);
    y1.backward(&mut t, Some(vec![1, 1])).unwrap();
    y2.backward(&mut t, Some(vec![1, 1])).unwrap();
    assert_eq!(x.get_grad(&t), Some(vec![g1[0] + g2[0], g1[1] + g2[1]]));
    assert_eq!(x.get_grad(&t), Some(vec![1, 4]));
}

#[test]
fn gradient_shapes_match_after_a_chain_of_ops() {
    let mut tape = Tape::new();
    let a = leaf(&mut tape, vec![2, 3], vec![1, -2, 3, -4, 5, -6]);
    let b = leaf(&mut tape, vec![3, 2], vec![1, 2, 3, 4, 5, 6]);
    let s = leaf(&mut tape, vec![1], vec![2]);
    let m = matmul(&mut tape, a, b).unwrap();
    let r = relu(&mut tape, m);
    let t = transpose(&mut tape, r).unwrap();
    let u = mul(&mut tape, t, s).unwrap();
    let d = reduce_sum(&mut tape, u);
    d.backward(&mut tape, None).unwrap();
    for x in [a, b, s, m, r, t, u, d] {
        let n = x.get_data(&tape).len();
        assert_eq!(x.get_grad(&tape).unwrap().len(), n);
    }
}

#[test]
fn leaf_without_grad_is_skipped() {
    let mut tape = Tape::new();
    let a = leaf(&mut tape, vec![2], vec![1, 2]);
    let k = Tensor::new(&mut tape, vec![2], vec![3, 4], false).unwrap();
    let c = add(&mut tape, a, k).unwrap();
    assert!(c.get_requires_grad(&tape));
    c.backward(&mut tape, Some(vec![1, 1])).unwrap();
    assert_eq!(k.get_grad(&tape), None);
    assert_eq!(a.get_grad(&tape), Some(vec![1, 1]));
}

#[test]
fn set_grad_checks_size() {
    let mut tape = Tape::new();
    let a = leaf(&mut tape, vec![2], vec![1, 2]);
    assert!(matches!(a.set_grad(&mut tape, Some(vec![1])), Err(TensorError::ShapeMismatch(_, _))));
    assert_eq!(a.set_grad(&mut tape, Some(vec![4, 5])), Ok(()));
    assert_eq!(a.get_grad(&tape), Some(vec![4, 5]));
    assert_eq!(a.set_grad(&mut tape, None), Ok(()));
    assert_eq!(a.get_grad(&tape), None);
}

#[test]
fn element_arithmetic_wraps() {
    let mut tape = Tape::new();
    let a = leaf(&mut tape, vec![1], vec![i64::MAX]);
    let b = leaf(&mut tape, vec![1], vec![1]);
    let c = add(&mut tape, a, b).unwrap();
    assert_eq!(c.get_data(&tape), vec![i64::MIN]);
}

#[test]
fn strides_are_row_major() {
    assert_eq!(strides(&vec![2, 3, 4]), vec![12, 4, 1]);
    assert_eq!(strides(&vec![5]), vec![1]);
}

#[test]
fn set_graph_accepts_fitting_nodes_only() {
    let mut tape = Tape::new();
    let a = leaf(&mut tape, vec![2], vec![1, 2]);
    let b = leaf(&mut tape, vec![2], vec![3, 4]);
    assert_eq!(
        b.set_graph(&mut tape, Some(Graph::ReduceSum(ReduceSumOperation { t: a }))),
        Err(TensorError::InvariantViolation)
    );
    assert_eq!(b.get_graph(&tape), None);
    assert_eq!(b.set_graph(&mut tape, Some(Graph::Neg(NegOperation { t: a }))), Ok(()));
    b.backward(&mut tape, Some(vec![1, 1])).unwrap();
    assert_eq!(a.get_grad(&tape), Some(vec![-1, -1]));
    assert_eq!(
        a.set_graph(&mut tape, Some(Graph::Neg(NegOperation { t: b }))),
        Err(TensorError::InvariantViolation)
    );
    assert_eq!(b.set_graph(&mut tape, None), Ok(()));
    assert_eq!(b.get_graph(&tape), None);
}

#[test]
fn eq_values_compares_shape_and_data() {
    let mut tape = Tape::new();
    let a = leaf(&mut tape, vec![2], vec![1, 2]);
    let b = leaf(&mut tape, vec![2], vec![1, 2]);
    let c = leaf(&mut tape, vec![1, 2], vec![1, 2]);
    let d = leaf(&mut tape, vec![2], vec![1, 3]);
    assert!(a.eq_values(&b, &tape));
    assert!(!a.eq_values(&c, &tape));
    assert!(!a.eq_values(&d, &tape));
}

#[test]
fn gradient_accumulates_onto_an_existing_gradient() {
    let mut tape = Tape::new();
    let x = leaf(&mut tape, vec![2], vec![1, 2]);
    let y = neg(&mut tape, x);
    x.set_grad(&mut tape, Some(vec![10, 20])).unwrap();
    y.backward(&mut tape, Some(vec![1, 2])).unwrap();
    assert_eq!(x.get_grad(&tape), Some(vec![9, 18]));
    y.backward(&mut tape, Some(vec![1, 1])).unwrap();
    assert_eq!(y.get_grad(&tape), Some(vec![2, 3]));
}
