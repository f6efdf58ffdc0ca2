//! Shapes: element counts and row-major strides.
use vstd::prelude::*;

verus! {

/// Number of elements of a tensor of shape `s`: the product of its dimensions.
pub open spec fn shape_size(s: Seq<usize>) -> int
    decreases s.len(),
{
    if s.len() == 0 {
        1
    } else {
        s[0] * shape_size(s.drop_first())
    }
}

pub proof fn lemma_shape_size_nonneg(s: Seq<usize>)
    ensures
        shape_size(s) >= 0,
    decreases s.len(),
{
    if s.len() > 0 {
        lemma_shape_size_nonneg(s.drop_first());
        vstd::arithmetic::mul::lemma_mul_nonnegative(s[0] as int, shape_size(s.drop_first()));
    }
}

/// With no zero dimension, a shape has at least as many elements as any of its suffixes.
pub proof fn lemma_shape_size_suffix_grows(s: Seq<usize>, i: int)
    requires
        0 <= i <= s.len(),
        forall|k: int| 0 <= k < s.len() ==> s[k] >= 1,
    ensures
        1 <= shape_size(s.subrange(i, s.len() as int)) <= shape_size(s),
    decreases s.len(),
{
    if s.len() == 0 {
        assert(s.subrange(i, s.len() as int) =~= s);
    } else if i > 0 {
        let rest = s.drop_first();
        lemma_shape_size_suffix_grows(rest, i - 1);
        lemma_shape_size_suffix_grows(rest, 0);
        assert(rest.subrange(i - 1, rest.len() as int) =~= s.subrange(i, s.len() as int));
        assert(rest.subrange(0, rest.len() as int) =~= rest);
        vstd::arithmetic::mul::lemma_mul_increases(s[0] as int, shape_size(rest));
    } else {
        let rest = s.drop_first();
        lemma_shape_size_suffix_grows(rest, 0);
        assert(rest.subrange(0, rest.len() as int) =~= rest);
        vstd::arithmetic::mul::lemma_mul_increases(s[0] as int, shape_size(rest));
        assert(s.subrange(0, s.len() as int) =~= s);
    }
}

/// A shape with a zero dimension has no elements.
pub proof fn lemma_shape_size_zero(s: Seq<usize>, i: int)
    requires
        0 <= i < s.len(),
        s[i] == 0,
    ensures
        shape_size(s) == 0,
    decreases i,
{
    if i > 0 {
        lemma_shape_size_zero(s.drop_first(), i - 1);
    }
}

/// The size of a shape of rank two or three, written out.
pub proof fn lemma_shape_size_small(s: Seq<usize>)
    ensures
        s.len() == 1 ==> shape_size(s) == s[0],
        s.len() == 2 ==> shape_size(s) == s[0] * s[1],
        s.len() == 3 ==> shape_size(s) == s[0] * (s[1] * s[2]),
{
    if s.len() >= 1 {
        let r1 = s.drop_first();
        if r1.len() >= 1 {
            let r2 = r1.drop_first();
            if r2.len() >= 1 {
                let r3 = r2.drop_first();
                assert(shape_size(r3) == 1 || r3.len() > 0);
            }
        }
    }
    reveal_with_fuel(shape_size, 4);
}

/// The size of a shape is the size of its first `k` dimensions times that of the rest.
pub proof fn lemma_shape_size_split(s: Seq<usize>, k: int)
    requires
        0 <= k <= s.len(),
    ensures
        shape_size(s) == shape_size(s.take(k)) * shape_size(s.skip(k)),
    decreases k,
{
    if k == 0 {
        assert(s.skip(0) =~= s);
        assert(shape_size(s.take(0)) == 1);
    } else {
        let rest = s.drop_first();
        lemma_shape_size_split(rest, k - 1);
        assert(rest.skip(k - 1) =~= s.skip(k));
        assert(s.take(k).drop_first() =~= rest.take(k - 1));
        assert(shape_size(s.take(k)) == s[0] * shape_size(rest.take(k - 1)));
        vstd::arithmetic::mul::lemma_mul_is_associative(
            s[0] as int,
            shape_size(rest.take(k - 1)),
            shape_size(rest.skip(k - 1)),
        );
    }
}

/// The size of a shape of rank two or more: its batch count times the size of one matrix.
pub proof fn lemma_shape_size_last2(s: Seq<usize>)
    requires
        s.len() >= 2,
    ensures
        shape_size(s) == shape_size(s.take(s.len() - 2)) * (s[s.len() - 2] * s[s.len() - 1]),
{
    lemma_shape_size_split(s, s.len() - 2);
    let t = s.skip(s.len() - 2);
    lemma_shape_size_small(t);
}

/// The element count of `shape`, or `None` when it does not fit in a `usize`.
pub fn checked_size(shape: &Vec<usize>) -> (r: Option<usize>)
    ensures
        match r {
            Some(n) => n == shape_size(shape@),
            None => shape_size(shape@) > usize::MAX,
        },
{
    let mut z: usize = 0;
    while z < shape.len()
        invariant
            z <= shape.len(),
            forall|k: int| 0 <= k < z ==> shape@[k] >= 1,
        decreases shape.len() - z,
    {
        if shape[z] == 0 {
            proof {
                lemma_shape_size_zero(shape@, z as int);
            }
            return Some(0);
        }
        z = z + 1;
    }
    let mut acc: usize = 1;
    let mut i: usize = shape.len();
    assert(shape@.subrange(i as int, shape@.len() as int) =~= Seq::<usize>::empty());
    while i > 0
        invariant
            i <= shape.len(),
            forall|k: int| 0 <= k < shape.len() ==> shape@[k] >= 1,
            acc == shape_size(shape@.subrange(i as int, shape@.len() as int)),
        decreases i,
    {
        let d = shape[i - 1];
        let ghost tail = shape@.subrange(i as int, shape@.len() as int);
        let ghost longer = shape@.subrange(i - 1, shape@.len() as int);
        assert(longer.drop_first() =~= tail);
        assert(shape_size(longer) == d * acc);
        assert(d * acc == acc * d) by (nonlinear_arith);
        match acc.checked_mul(d) {
            Some(v) => {
                acc = v;
            },
            None => {
                proof {
                    lemma_shape_size_suffix_grows(shape@, i - 1);
                }
                return None;
            },
        }
        i = i - 1;
    }
    assert(shape@.subrange(0, shape@.len() as int) =~= shape@);
    Some(acc)
}

/// Row-major strides of `shape`: the step in the flat buffer of one step along each axis.
pub fn strides(shape: &Vec<usize>) -> (r: Vec<usize>)
    requires
        shape.len() >= 1,
        forall|k: int| 1 <= k <= shape.len() ==> shape_size(#[trigger] shape@.skip(k)) <= usize::MAX,
    ensures
        r.len() == shape.len(),
        forall|k: int| 0 <= k < shape.len() ==> r@[k] == shape_size(#[trigger] shape@.skip(k + 1)),
{
    let n = shape.len();
    let mut r: Vec<usize> = Vec::new();
    let mut k: usize = 0;
    while k < n
        invariant
            k <= n,
            r.len() == k,
            forall|c: int| 0 <= c < k ==> r@[c] == 1,
        decreases n - k,
    {
        r.push(1);
        k = k + 1;
    }
    assert(shape@.skip(n as int) =~= Seq::<usize>::empty());
    let mut i: usize = n - 1;
    while i > 0
        invariant
            n == shape.len() == r.len(),
            1 <= n,
            i < n,
            forall|k: int| 1 <= k <= shape.len() ==> shape_size(#[trigger] shape@.skip(k)) <= usize::MAX,
            forall|k: int| i <= k < n ==> r@[k] == shape_size(#[trigger] shape@.skip(k + 1)),
        decreases i,
    {
        assert(shape@.skip(i as int).drop_first() =~= shape@.skip(i + 1));
        assert(shape_size(shape@.skip(i as int)) == shape@[i as int] * shape_size(shape@.skip(i + 1)));
        assert(shape@[i as int] * r@[i as int] == r@[i as int] * shape@[i as int]) by (nonlinear_arith);
        let v = r[i] * shape[i];
        r.set(i - 1, v);
        i = i - 1;
    }
    r
}

} // verus!
