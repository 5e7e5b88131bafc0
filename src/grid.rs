use vstd::prelude::*;

use crate::error::FftError;
use crate::lines::{copy_line, lemma_line_fits, line};

verus! {

/// `flat` holds the rows of `g`, each `cols` samples long, one after another.
pub open spec fn is_grid_of<T>(flat: Seq<T>, g: Seq<Vec<T>>, cols: nat) -> bool {
    &&& flat.len() == g.len() * cols
    &&& forall|i: int| 0 <= i < g.len() ==> #[trigger] g[i]@ == line(flat, cols, i)
}

/// The rows of `g`, each taken as `cols` samples long, one after another.
pub open spec fn flat_of<T>(g: Seq<Vec<T>>, cols: nat) -> Seq<T> {
    Seq::new(g.len() * cols, |k: int| g[k / cols as int]@[k % cols as int])
}

/// A buffer that holds the rows of `g` one after another is `flat_of(g, cols)`.
pub proof fn lemma_grid_is_flat<T>(flat: Seq<T>, g: Seq<Vec<T>>, cols: nat)
    requires
        is_grid_of(flat, g, cols),
    ensures
        flat == flat_of(g, cols),
{
    assert forall|k: int| 0 <= k < flat.len() implies flat[k] == flat_of(g, cols)[k] by {
        assert(cols > 0) by (nonlinear_arith)
            requires
                0 <= k < g.len() * cols,
        ;
        let i = k / cols as int;
        let j = k % cols as int;
        vstd::arithmetic::div_mod::lemma_fundamental_div_mod(k, cols as int);
        vstd::arithmetic::div_mod::lemma_div_pos_is_pos(k, cols as int);
        assert(k == i * cols + j) by {
            vstd::arithmetic::mul::lemma_mul_is_commutative(i, cols as int);
        }
        assert(i < g.len()) by (nonlinear_arith)
            requires
                k == i * cols + j,
                0 <= j,
                0 <= k < g.len() * cols,
                cols > 0,
        ;
        assert(i + 1 <= g.len());
        assert(i * cols + cols <= g.len() * cols) by (nonlinear_arith)
            requires
                i + 1 <= g.len(),
                cols > 0,
        ;
        assert(0 <= i * cols) by (nonlinear_arith)
            requires
                0 <= i,
                cols > 0,
        ;
        assert(g[i]@ == line(flat, cols, i));
    }
    assert(flat =~= flat_of(g, cols));
}

/// Some row of `g` is not as long as its first row.
pub open spec fn is_ragged<T>(g: Seq<Vec<T>>) -> bool {
    exists|i: int| 0 <= i < g.len() && #[trigger] g[i].len() != g[0].len()
}

/// Lays the rows of `g` out one after another in a row-major buffer. Fails
/// with `InvalidLength` when there is no row or the first row is empty, and
/// with `DimensionMismatch` when the rows differ in length.
pub fn grid_from_rows<T: Copy>(g: &Vec<Vec<T>>) -> (r: Result<Vec<T>, FftError>)
    ensures
        (g.len() == 0 || g[0].len() == 0) <==> r == Err::<Vec<T>, FftError>(FftError::InvalidLength),
        (g.len() > 0 && g[0].len() > 0 && is_ragged(g@)) <==> r == Err::<Vec<T>, FftError>(
            FftError::DimensionMismatch,
        ),
        r is Ok <==> (g.len() > 0 && g[0].len() > 0 && !is_ragged(g@)),
        r matches Ok(flat) ==> is_grid_of(flat@, g@, g[0].len() as nat),
{
    if g.len() == 0 || g[0].len() == 0 {
        return Err(FftError::InvalidLength);
    }
    let cols = g[0].len();
    let mut out: Vec<T> = Vec::new();
    let mut i: usize = 0;
    while i < g.len()
        invariant
            i <= g.len(),
            g.len() > 0,
            cols == g[0].len(),
            cols > 0,
            out.len() == i * cols,
            forall|r: int| 0 <= r < i ==> #[trigger] g[r]@ == line(out@, cols as nat, r),
            forall|r: int| 0 <= r < i ==> #[trigger] g[r].len() == cols,
        decreases g.len() - i,
    {
        if g[i].len() != cols {
            assert(g@[i as int].len() != g@[0].len());
            assert(is_ragged(g@));
            return Err(FftError::DimensionMismatch);
        }
        let row = copy_line(&g[i], cols, 0, 1);
        assert(row@ =~= g[i as int]@);
        let ghost old_out = out@;
        let mut row = row;
        out.append(&mut row);
        proof {
            assert(line(out@, cols as nat, i as int) =~= g[i as int]@) by {
                assert(i * cols + cols == (i + 1) * cols) by (nonlinear_arith);
            }
            assert forall|r: int| 0 <= r < i + 1 implies #[trigger] g[r]@ == line(out@, cols as nat, r) by {
                if r < i {
                    lemma_line_fits(r, i as int, cols as int);
                    assert(line(out@, cols as nat, r) =~= line(old_out, cols as nat, r));
                }
            }
            assert(out.len() == (i + 1) * cols) by (nonlinear_arith)
                requires
                    out.len() == i * cols + cols,
            ;
        }
        i += 1;
    }
    assert(!is_ragged(g@));
    Ok(out)
}

/// Splits the row-major buffer `data` into its `count` lines of `width`
/// samples.
pub(crate) fn split_lines<T: Copy>(data: &Vec<T>, count: usize, width: usize) -> (r: Vec<Vec<T>>)
    requires
        data.len() == count * width,
    ensures
        r.len() == count,
        is_grid_of(data@, r@, width as nat),
{
    let mut out: Vec<Vec<T>> = Vec::new();
    let mut i: usize = 0;
    while i < count
        invariant
            i <= count,
            data.len() == count * width,
            out.len() == i,
            forall|r: int| 0 <= r < i ==> #[trigger] out[r]@ == line(data@, width as nat, r),
        decreases count - i,
    {
        let row = copy_line(data, width, i, count);
        out.push(row);
        i += 1;
    }
    out
}

} // verus!
