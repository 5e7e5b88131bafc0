use vstd::prelude::*;
use vstd::arithmetic::div_mod::lemma_fundamental_div_mod_converse;

use crate::error::FftError;

verus! {

/// The row-major `cols x rows` grid whose row `j` is column `j` of the
/// row-major `rows x cols` grid `s`: entry `(j, i)` of the result is entry
/// `(i, j)` of `s`.
pub open spec fn transposed<T>(s: Seq<T>, rows: nat, cols: nat) -> Seq<T> {
    Seq::new(rows * cols, |k: int| s[(k % rows as int) * cols + k / rows as int])
}

proof fn lemma_split_index(k: int, d: int, q: int, r: int)
    requires
        d > 0,
        0 <= r < d,
        k == q * d + r,
    ensures
        k / d == q,
        k % d == r,
{
    lemma_fundamental_div_mod_converse(k, d, q, r);
}

proof fn lemma_grid_index(i: int, j: int, rows: int, cols: int)
    requires
        0 <= i < rows,
        0 <= j < cols,
    ensures
        0 <= i * cols + j < rows * cols,
{
    assert(i * cols + j < rows * cols) by (nonlinear_arith)
        requires
            0 <= i < rows,
            0 <= j < cols,
    ;
    assert(0 <= i * cols) by (nonlinear_arith)
        requires
            0 <= i,
            0 <= cols,
    ;
}

/// Entry `(j, i)` of the transposed grid is entry `(i, j)` of the grid.
pub proof fn lemma_transposed_index<T>(s: Seq<T>, rows: nat, cols: nat, i: int, j: int)
    requires
        0 <= i < rows,
        0 <= j < cols,
    ensures
        0 <= j * rows + i < rows * cols,
        transposed(s, rows, cols)[j * rows + i] == s[i * cols + j],
{
    lemma_grid_index(j, i, cols as int, rows as int);
    assert(cols * rows == rows * cols) by (nonlinear_arith);
    lemma_split_index(j * rows + i, rows as int, j, i);
}

/// Transposing a grid and transposing the result gives back the grid.
pub proof fn lemma_transpose_involution<T>(s: Seq<T>, rows: nat, cols: nat)
    requires
        s.len() == rows * cols,
    ensures
        transposed(transposed(s, rows, cols), cols, rows) == s,
{
    let t = transposed(s, rows, cols);
    let u = transposed(t, cols, rows);
    assert(cols * rows == rows * cols) by (nonlinear_arith);
    assert forall|k: int| 0 <= k < s.len() implies u[k] == s[k] by {
        assert(cols > 0) by (nonlinear_arith)
            requires
                0 <= k < rows * cols,
        ;
        let i = k / cols as int;
        let j = k % cols as int;
        assert(k == i * cols + j) by {
            vstd::arithmetic::div_mod::lemma_fundamental_div_mod(k, cols as int);
            vstd::arithmetic::mul::lemma_mul_is_commutative(i, cols as int);
        }
        assert(0 <= i < rows) by {
            vstd::arithmetic::div_mod::lemma_div_pos_is_pos(k, cols as int);
            assert(i < rows) by (nonlinear_arith)
                requires
                    k == i * cols + j,
                    0 <= j,
                    0 <= k < rows * cols,
                    cols > 0,
            ;
        }
        lemma_transposed_index(t, cols, rows, j, i);
        lemma_transposed_index(s, rows, cols, i, j);
    }
    assert(u =~= s);
}

/// Relies on transpose::transpose, which writes entry `(i, j)` of the
/// row-major `rows x cols` input to entry `(j, i)` of the `cols x rows`
/// output; it panics unless both buffers hold `rows * cols` items.
#[verifier::external_body]
pub(crate) fn transpose_buffer<T: Copy>(src: &Vec<T>, rows: usize, cols: usize) -> (r: Vec<T>)
    requires
        src.len() == rows * cols,
    ensures
        r@ == transposed(src@, rows as nat, cols as nat),
{
    let mut out = src.clone();
    transpose::transpose(src, &mut out, cols, rows);
    out
}

/// Turns the row-major `rows x cols` grid `src` into the row-major
/// `cols x rows` grid of its columns.
pub fn transpose<T: Copy>(src: &Vec<T>, rows: usize, cols: usize) -> (r: Result<Vec<T>, FftError>)
    ensures
        src.len() == rows * cols <==> r is Ok,
        r is Err ==> r->Err_0 == FftError::LengthMismatch,
        r matches Ok(out) ==> out@ == transposed(src@, rows as nat, cols as nat),
{
    match rows.checked_mul(cols) {
        Some(n) => {
            if n == src.len() {
                Ok(transpose_buffer(src, rows, cols))
            } else {
                Err(FftError::LengthMismatch)
            }
        },
        None => {
            assert(src.len() != rows * cols);
            Err(FftError::LengthMismatch)
        },
    }
}

} // verus!
