//! Numeric kernels on flat row-major buffers, with wrapping `i64` arithmetic.
use rayon::iter::{IndexedParallelIterator, IntoParallelIterator, ParallelIterator};
use vstd::prelude::*;

verus! {

/// Elementwise wrapping sum.
pub open spec fn elem_add(a: Seq<i64>, b: Seq<i64>) -> Seq<i64> {
    Seq::new(a.len(), |k: int| a[k].wrapping_add(b[k]))
}

/// Elementwise wrapping product.
pub open spec fn elem_mul(a: Seq<i64>, b: Seq<i64>) -> Seq<i64> {
    Seq::new(a.len(), |k: int| a[k].wrapping_mul(b[k]))
}

/// Elementwise wrapping negation.
pub open spec fn elem_neg(a: Seq<i64>) -> Seq<i64> {
    Seq::new(a.len(), |k: int| 0i64.wrapping_sub(a[k]))
}

/// Elementwise `max(x, 0)`.
pub open spec fn elem_relu(a: Seq<i64>) -> Seq<i64> {
    Seq::new(a.len(), |k: int| if a[k] > 0 { a[k] } else { 0i64 })
}

/// `g` where `x` is positive, zero elsewhere: the gradient of relu at `x`.
pub open spec fn relu_mask(x: Seq<i64>, g: Seq<i64>) -> Seq<i64> {
    Seq::new(x.len(), |k: int| if x[k] > 0 { g[k] } else { 0i64 })
}

/// Wrapping sum of all elements, taken front to back.
pub open spec fn wsum(s: Seq<i64>) -> i64
    decreases s.len(),
{
    if s.len() == 0 {
        0i64
    } else {
        wsum(s.drop_last()).wrapping_add(s.last())
    }
}

/// `d` laid end to end `count` times.
pub open spec fn repeat(d: Seq<i64>, count: int) -> Seq<i64> {
    Seq::new((count * (d.len() as int)) as nat, |k: int| d[k % (d.len() as int)])
}

/// Column `j` of `g` read as rows of `len` elements.
pub open spec fn column(g: Seq<i64>, len: int, j: int) -> Seq<i64> {
    Seq::new(((g.len() as int) / len) as nat, |b: int| g[b * len + j])
}

/// Sums of the rows of `g` read as rows of `len` elements: the inverse of `repeat`
/// in reverse mode.
pub open spec fn column_sums(g: Seq<i64>, len: int) -> Seq<i64> {
    Seq::new(len as nat, |j: int| wsum(column(g, len, j)))
}

/// Where element `k` of the transpose of a batch of `rows` x `cols` matrices comes from.
pub open spec fn transpose_source(k: int, rows: int, cols: int) -> int {
    let s = rows * cols;
    (k / s) * s + (k % s % rows) * cols + (k % s / rows)
}

/// A batch of `rows` x `cols` matrices with the last two axes swapped.
pub open spec fn transposed(d: Seq<i64>, batch: int, rows: int, cols: int) -> Seq<i64> {
    Seq::new((batch * (rows * cols)) as nat, |k: int| d[transpose_source(k, rows, cols)])
}

/// Wrapping dot product of `n` elements of `x` from `xo` on with `n` elements of `y`
/// from `yo` on, `stride` apart.
pub open spec fn dot(x: Seq<i64>, y: Seq<i64>, xo: int, yo: int, stride: int, n: int) -> i64
    decreases n,
{
    if n <= 0 {
        0i64
    } else {
        dot(x, y, xo, yo, stride, n - 1).wrapping_add(
            x[xo + n - 1].wrapping_mul(y[yo + (n - 1) * stride]),
        )
    }
}

/// Entry `j` of row `r` of the product of a batch of `m` x `n` matrices with a batch of
/// `n` x `p` matrices; rows of all batches are numbered in one sequence.
pub open spec fn product_entry(x: Seq<i64>, y: Seq<i64>, r: int, j: int, m: int, n: int, p: int) -> i64 {
    dot(x, y, r * n, (r / m) * (n * p) + j, p, n)
}

/// The batched matrix product, as a flat `[batch, m, p]` buffer.
pub open spec fn mat_product(x: Seq<i64>, y: Seq<i64>, batch: int, m: int, n: int, p: int) -> Seq<i64> {
    Seq::new((batch * m * p) as nat, |k: int| product_entry(x, y, k / p, k % p, m, n, p))
}

proof fn lemma_row_index(a: int, b: int, c: int, d: int)
    requires
        0 <= a < b,
        0 <= c < d,
    ensures
        0 <= a * d + c < b * d,
{
    assert(a * d + c < b * d) by (nonlinear_arith)
        requires
            0 <= a < b,
            0 <= c < d,
    ;
    assert(0 <= a * d) by (nonlinear_arith)
        requires
            0 <= a,
            0 <= c < d,
    ;
}

proof fn lemma_div_below(r: int, m: int, batch: int)
    requires
        0 <= r < batch * m,
        m > 0,
    ensures
        0 <= r / m < batch,
{
    vstd::arithmetic::div_mod::lemma_fundamental_div_mod(r, m);
    vstd::arithmetic::div_mod::lemma_div_pos_is_pos(r, m);
    let q = r / m;
    assert(q < batch) by (nonlinear_arith)
        requires
            r == m * q + r % m,
            0 <= r % m,
            r < batch * m,
            m > 0,
    ;
}

pub fn add_kernel(a: &Vec<i64>, b: &Vec<i64>) -> (r: Vec<i64>)
    requires
        a.len() == b.len(),
    ensures
        r@ == elem_add(a@, b@),
{
    let mut r: Vec<i64> = Vec::new();
    let mut k: usize = 0;
    while k < a.len()
        invariant
            k <= a.len() == b.len(),
            r@ =~= elem_add(a@, b@).take(k as int),
        decreases a.len() - k,
    {
        r.push(a[k].wrapping_add(b[k]));
        k = k + 1;
    }
    r
}

pub fn mul_kernel(a: &Vec<i64>, b: &Vec<i64>) -> (r: Vec<i64>)
    requires
        a.len() == b.len(),
    ensures
        r@ == elem_mul(a@, b@),
{
    let mut r: Vec<i64> = Vec::new();
    let mut k: usize = 0;
    while k < a.len()
        invariant
            k <= a.len() == b.len(),
            r@ =~= elem_mul(a@, b@).take(k as int),
        decreases a.len() - k,
    {
        r.push(a[k].wrapping_mul(b[k]));
        k = k + 1;
    }
    r
}

pub fn neg_kernel(a: &Vec<i64>) -> (r: Vec<i64>)
    ensures
        r@ == elem_neg(a@),
{
    let mut r: Vec<i64> = Vec::new();
    let mut k: usize = 0;
    while k < a.len()
        invariant
            k <= a.len(),
            r@ =~= elem_neg(a@).take(k as int),
        decreases a.len() - k,
    {
        r.push(0i64.wrapping_sub(a[k]));
        k = k + 1;
    }
    r
}

pub fn relu_kernel(a: &Vec<i64>) -> (r: Vec<i64>)
    ensures
        r@ == elem_relu(a@),
{
    let mut r: Vec<i64> = Vec::new();
    let mut k: usize = 0;
    while k < a.len()
        invariant
            k <= a.len(),
            r@ =~= elem_relu(a@).take(k as int),
        decreases a.len() - k,
    {
        let v = a[k];
        r.push(if v > 0 { v } else { 0i64 });
        k = k + 1;
    }
    r
}

pub fn relu_mask_kernel(x: &Vec<i64>, g: &Vec<i64>) -> (r: Vec<i64>)
    requires
        x.len() == g.len(),
    ensures
        r@ == relu_mask(x@, g@),
{
    let mut r: Vec<i64> = Vec::new();
    let mut k: usize = 0;
    while k < x.len()
        invariant
            k <= x.len() == g.len(),
            r@ =~= relu_mask(x@, g@).take(k as int),
        decreases x.len() - k,
    {
        r.push(if x[k] > 0 { g[k] } else { 0i64 });
        k = k + 1;
    }
    r
}

pub fn sum_kernel(a: &Vec<i64>) -> (r: i64)
    ensures
        r == wsum(a@),
{
    let mut acc: i64 = 0;
    let mut k: usize = 0;
    while k < a.len()
        invariant
            k <= a.len(),
            acc == wsum(a@.take(k as int)),
        decreases a.len() - k,
    {
        assert(a@.take(k + 1).drop_last() =~= a@.take(k as int));
        acc = acc.wrapping_add(a[k]);
        k = k + 1;
    }
    assert(a@.take(a.len() as int) =~= a@);
    acc
}

/// `d` laid end to end `count` times.
pub fn repeat_kernel(d: &Vec<i64>, count: usize) -> (r: Vec<i64>)
    requires
        d.len() > 0,
        count * d.len() <= usize::MAX,
    ensures
        r@ == repeat(d@, count as int),
{
    let len = d.len();
    let mut r: Vec<i64> = Vec::new();
    let mut b: usize = 0;
    while b < count
        invariant
            len == d.len() > 0,
            b <= count,
            count * len <= usize::MAX,
            r.len() == b * len,
            forall|k: int| 0 <= k < r.len() ==> r@[k] == d@[k % (len as int)],
        decreases count - b,
    {
        let mut j: usize = 0;
        proof {
            lemma_row_index(b as int, count as int, 0, len as int);
        }
        while j < len
            invariant
                len == d.len() > 0,
                b < count,
                j <= len,
                count * len <= usize::MAX,
                r.len() == b * len + j,
                forall|k: int| 0 <= k < r.len() ==> r@[k] == d@[k % (len as int)],
            decreases len - j,
        {
            proof {
                lemma_row_index(b as int, count as int, j as int, len as int);
                vstd::arithmetic::div_mod::lemma_fundamental_div_mod_converse(
                    (b * len + j) as int,
                    len as int,
                    b as int,
                    j as int,
                );
            }
            r.push(d[j]);
            j = j + 1;
        }
        assert((b + 1) * len == b * len + len) by (nonlinear_arith);
        b = b + 1;
    }
    assert(r@ =~= repeat(d@, count as int));
    r
}

/// Sums of the rows of `g`, read as rows of `len` elements.
pub fn column_sums_kernel(g: &Vec<i64>, len: usize) -> (r: Vec<i64>)
    requires
        len > 0,
        g.len() % len == 0,
    ensures
        r@ == column_sums(g@, len as int),
{
    let count = g.len() / len;
    proof {
        vstd::arithmetic::div_mod::lemma_fundamental_div_mod(g.len() as int, len as int);
    }
    let mut r: Vec<i64> = Vec::new();
    let mut j: usize = 0;
    while j < len
        invariant
            len > 0,
            count == g.len() / len,
            g.len() == len * count,
            j <= len,
            r.len() == j,
            forall|c: int| 0 <= c < j ==> r@[c] == wsum(column(g@, len as int, c)),
        decreases len - j,
    {
        let mut acc: i64 = 0;
        let mut b: usize = 0;
        let ghost col = column(g@, len as int, j as int);
        while b < count
            invariant
                len > 0,
                count == g.len() / len,
                g.len() == len * count,
                j < len,
                b <= count,
                col == column(g@, len as int, j as int),
                col.len() == count,
                acc == wsum(col.take(b as int)),
            decreases count - b,
        {
            proof {
                lemma_row_index(b as int, count as int, j as int, len as int);
                assert(len * count == count * len) by (nonlinear_arith);
            }
            assert(col.take(b + 1).drop_last() =~= col.take(b as int));
            acc = acc.wrapping_add(g[b * len + j]);
            b = b + 1;
        }
        assert(col.take(count as int) =~= col);
        r.push(acc);
        j = j + 1;
    }
    assert(r@ =~= column_sums(g@, len as int));
    r
}

proof fn lemma_transpose_source(k: int, batch: int, rows: int, cols: int)
    requires
        0 <= k < batch * (rows * cols),
        rows > 0,
        cols > 0,
    ensures
        0 <= transpose_source(k, rows, cols) < batch * (rows * cols),
{
    let s = rows * cols;
    assert(rows * cols > 0) by (nonlinear_arith)
        requires
            rows > 0,
            cols > 0,
    ;
    lemma_div_below(k, s, batch);
    let q = k % s;
    vstd::arithmetic::div_mod::lemma_mod_bound(k, s);
    vstd::arithmetic::div_mod::lemma_mod_bound(q, rows);
    vstd::arithmetic::div_mod::lemma_div_pos_is_pos(q, rows);
    vstd::arithmetic::div_mod::lemma_fundamental_div_mod(q, rows);
    let i = q / rows;
    assert(i < cols) by (nonlinear_arith)
        requires
            q == rows * i + q % rows,
            0 <= q % rows,
            q < rows * cols,
            rows > 0,
    ;
    lemma_row_index(q % rows, rows, i, cols);
    assert(rows * cols == s);
    lemma_row_index(k / s, batch, (q % rows) * cols + i, s);
}

/// Swaps the last two axes of a batch of `rows` x `cols` matrices.
pub fn transpose_kernel(d: &Vec<i64>, batch: usize, rows: usize, cols: usize) -> (r: Vec<i64>)
    requires
        d.len() == batch * (rows * cols),
    ensures
        r@ == transposed(d@, batch as int, rows as int, cols as int),
{
    let mut r: Vec<i64> = Vec::new();
    let n = d.len();
    let mut k: usize = 0;
    while k < n
        invariant
            n == d.len() == batch * (rows * cols),
            k <= n,
            r@ =~= transposed(d@, batch as int, rows as int, cols as int).take(k as int),
        decreases n - k,
    {
        proof {
            if rows == 0 || cols == 0 {
                assert(rows * cols == 0) by (nonlinear_arith)
                    requires
                        rows == 0 || cols == 0,
                ;
                assert(batch * (rows * cols) == 0) by (nonlinear_arith)
                    requires
                        rows * cols == 0,
                ;
            }
            lemma_transpose_source(k as int, batch as int, rows as int, cols as int);
            assert(rows > 0 && cols > 0);
            assert(rows * cols > 0 && rows * cols <= batch * (rows * cols)) by (nonlinear_arith)
                requires
                    rows > 0,
                    cols > 0,
                    k < batch * (rows * cols),
            ;
            let ki = k as int;
            let si = rows as int * cols as int;
            let qi = ki % si;
            vstd::arithmetic::div_mod::lemma_fundamental_div_mod(ki, si);
            vstd::arithmetic::div_mod::lemma_mod_bound(ki, si);
            vstd::arithmetic::div_mod::lemma_mod_bound(qi, rows as int);
            vstd::arithmetic::div_mod::lemma_div_pos_is_pos(qi, rows as int);
            vstd::arithmetic::div_mod::lemma_div_pos_is_pos(ki, si);
            vstd::arithmetic::mul::lemma_mul_nonnegative(ki / si, si);
            vstd::arithmetic::mul::lemma_mul_nonnegative(qi % (rows as int), cols as int);
        }
        let s = rows * cols;
        let q = k % s;
        let src = (k / s) * s + (q % rows) * cols + q / rows;
        r.push(d[src]);
        k = k + 1;
    }
    r
}

/// Row `r` of the batched product of `m` x `n` matrices in `x` with `n` x `p`
/// matrices in `y`.
pub fn matmul_row(x: &Vec<i64>, y: &Vec<i64>, r: usize, batch: usize, m: usize, n: usize, p: usize) -> (row: Vec<i64>)
    requires
        x.len() == batch * m * n,
        y.len() == batch * (n * p),
        r < batch * m,
    ensures
        row.len() == p,
        forall|j: int| 0 <= j < p ==> row@[j] == product_entry(x@, y@, r as int, j, m as int, n as int, p as int),
{
    assert(m > 0) by (nonlinear_arith)
        requires
            r < batch * m,
    ;
    let base = r / m;
    proof {
        lemma_div_below(r as int, m as int, batch as int);
    }
    let mut row: Vec<i64> = Vec::new();
    let mut j: usize = 0;
    while j < p
        invariant
            x.len() == batch * m * n,
            y.len() == batch * (n * p),
            r < batch * m,
            m > 0,
            base == r / m < batch,
            j <= p,
            row.len() == j,
            forall|c: int| 0 <= c < j ==> row@[c] == product_entry(x@, y@, r as int, c, m as int, n as int, p as int),
        decreases p - j,
    {
        let mut acc: i64 = 0;
        let mut k: usize = 0;
        while k < n
            invariant
                x.len() == batch * m * n,
                y.len() == batch * (n * p),
                r < batch * m,
                base == r / m < batch,
                j < p,
                k <= n,
                acc == dot(x@, y@, r * n, base * (n * p) + j, p as int, k as int),
            decreases n - k,
        {
            proof {
                lemma_row_index(r as int, (batch * m) as int, k as int, n as int);
                lemma_row_index(k as int, n as int, j as int, p as int);
                lemma_row_index(base as int, batch as int, (k * p + j) as int, (n * p) as int);
                assert(n * p <= batch * (n * p)) by (nonlinear_arith)
                    requires
                        base < batch,
                ;
                vstd::arithmetic::mul::lemma_mul_nonnegative(base as int, (n * p) as int);
            }
            let xi = r * n + k;
            let yi = base * (n * p) + k * p + j;
            acc = acc.wrapping_add(x[xi].wrapping_mul(y[yi]));
            k = k + 1;
        }
        row.push(acc);
        j = j + 1;
    }
    row
}

/// Relies on rayon's `into_par_iter` over a range and `collect_into_vec`: the rows
/// `0..rows` are computed in parallel and collected in index order.
#[verifier::external_body]
fn par_rows(x: &Vec<i64>, y: &Vec<i64>, rows: usize, batch: usize, m: usize, n: usize, p: usize) -> (out: Vec<Vec<i64>>)
    requires
        rows == batch * m,
        x.len() == batch * m * n,
        y.len() == batch * (n * p),
    ensures
        out.len() == rows,
        forall|r: int|
            0 <= r < rows ==> (#[trigger] out@[r]).len() == p && forall|j: int|
                0 <= j < p ==> out@[r]@[j] == product_entry(x@, y@, r, j, m as int, n as int, p as int),
{
    let mut out = Vec::new();
    (0..rows).into_par_iter().map(|r| matmul_row(x, y, r, batch, m, n, p)).collect_into_vec(&mut out);
    out
}

/// The product of a batch of `m` x `n` matrices with a batch of `n` x `p` matrices,
/// one row per parallel task.
pub fn batch_matmul_kernel(lhs: &Vec<i64>, rhs: &Vec<i64>, m: usize, n: usize, p: usize, batch_size: usize) -> (r: Vec<i64>)
    requires
        lhs.len() == batch_size * m * n,
        rhs.len() == batch_size * (n * p),
        batch_size * m * p <= usize::MAX,
    ensures
        r@ == mat_product(lhs@, rhs@, batch_size as int, m as int, n as int, p as int),
{
    if p == 0 {
        let r: Vec<i64> = Vec::new();
        assert(r@ =~= mat_product(lhs@, rhs@, batch_size as int, m as int, n as int, p as int));
        return r;
    }
    assert(batch_size * m <= batch_size * m * p) by (nonlinear_arith)
        requires
            p > 0,
    ;
    let rows = batch_size * m;
    let parts = par_rows(lhs, rhs, rows, batch_size, m, n, p);
    let mut r: Vec<i64> = Vec::new();
    let mut i: usize = 0;
    while i < rows
        invariant
            rows == batch_size * m,
            p > 0,
            rows * p <= usize::MAX,
            parts.len() == rows,
            forall|q: int|
                0 <= q < rows ==> (#[trigger] parts@[q]).len() == p && forall|j: int|
                    0 <= j < p ==> parts@[q]@[j] == product_entry(lhs@, rhs@, q, j, m as int, n as int, p as int),
            i <= rows,
            r.len() == i * p,
            forall|k: int| 0 <= k < r.len() ==> r@[k] == product_entry(lhs@, rhs@, k / (p as int), k % (p as int), m as int, n as int, p as int),
        decreases rows - i,
    {
        let row = &parts[i];
        assert(row.len() == p);
        let mut j: usize = 0;
        proof {
            lemma_row_index(i as int, rows as int, 0, p as int);
        }
        while j < p
            invariant
                rows * p <= usize::MAX,
                p > 0,
                i < rows,
                row.len() == p,
                forall|c: int| 0 <= c < p ==> row@[c] == product_entry(lhs@, rhs@, i as int, c, m as int, n as int, p as int),
                j <= p,
                r.len() == i * p + j,
                forall|k: int| 0 <= k < r.len() ==> r@[k] == product_entry(lhs@, rhs@, k / (p as int), k % (p as int), m as int, n as int, p as int),
            decreases p - j,
        {
            proof {
                lemma_row_index(i as int, rows as int, j as int, p as int);
                vstd::arithmetic::div_mod::lemma_fundamental_div_mod_converse(
                    (i * p + j) as int,
                    p as int,
                    i as int,
                    j as int,
                );
            }
            r.push(row[j]);
            j = j + 1;
        }
        assert((i + 1) * p == i * p + p) by (nonlinear_arith);
        i = i + 1;
    }
    assert(r@ =~= mat_product(lhs@, rhs@, batch_size as int, m as int, n as int, p as int));
    r
}

/// The product of an `m` x `n` matrix with an `n` x `p` matrix.
pub fn matul_kernel(lhs: &Vec<i64>, rhs: &Vec<i64>, m: usize, n: usize, p: usize) -> (r: Vec<i64>)
    requires
        lhs.len() == m * n,
        rhs.len() == n * p,
        m * p <= usize::MAX,
    ensures
        r@ == mat_product(lhs@, rhs@, 1, m as int, n as int, p as int),
{
    batch_matmul_kernel(lhs, rhs, m, n, p, 1)
}

} // verus!
