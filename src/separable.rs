use vstd::prelude::*;

use crate::error::FftError;
use crate::grid::{flat_of, grid_from_rows, is_ragged, lemma_grid_is_flat, split_lines};
use crate::grid::is_grid_of;
use crate::lines::{
    kernel_gives, keeps_length, lemma_line_fits, lemma_lines_equal, line, lines_mapped, transform_lines,
};
use crate::normalize::{leaves_samples, normalization_divisor, scale_all, scaled, Direction};
use crate::transpose2d::{lemma_transpose_involution, transpose_buffer, transposed};

verus! {

/// `out` is the two-dimensional spectrum of the row-major `rows x cols`
/// grid `grid`, laid out `cols x rows`: `kernel` runs on every row, the
/// result is transposed, and `kernel` runs on every row of that.
pub open spec fn forward_passes<T, K: Fn(Vec<T>) -> Option<Vec<T>>>(
    kernel: K,
    grid: Seq<T>,
    out: Seq<T>,
    rows: nat,
    cols: nat,
) -> bool {
    exists|a: Seq<T>|
        #[trigger] lines_mapped(kernel, grid, a, rows, cols)
            && lines_mapped(kernel, transposed(a, rows, cols), out, cols, rows)
}

/// `out` is the row-major `rows x cols` grid rebuilt from the `cols x rows`
/// spectrum `spectrum`: `kernel` runs on every row of the spectrum, the
/// result is transposed, `kernel` runs on every row of that, and `scale`
/// divides every sample by `rows * cols`.
pub open spec fn inverse_passes<T, K: Fn(Vec<T>) -> Option<Vec<T>>, S: Fn(T, usize) -> T>(
    kernel: K,
    scale: S,
    spectrum: Seq<T>,
    out: Seq<T>,
    rows: nat,
    cols: nat,
) -> bool {
    exists|b: Seq<T>, c: Seq<T>|
        #[trigger] lines_mapped(kernel, spectrum, b, cols, rows)
            && #[trigger] lines_mapped(kernel, transposed(b, cols, rows), c, rows, cols)
            && scaled(scale, c, (rows * cols) as usize, out)
}

/// Applying `inverse` to every line that `forward` produced gives back the
/// line `forward` started from.
pub open spec fn undoes<T, K: Fn(Vec<T>) -> Option<Vec<T>>, J: Fn(Vec<T>) -> Option<Vec<T>>>(
    inverse: J,
    forward: K,
) -> bool {
    forall|x: Seq<T>, y: Seq<T>, z: Seq<T>|
        #![trigger kernel_gives(forward, x, y), kernel_gives(inverse, y, z)]
        kernel_gives(forward, x, y) && kernel_gives(inverse, y, z) ==> z == x
}

proof fn lemma_lines_undone<T, K: Fn(Vec<T>) -> Option<Vec<T>>, J: Fn(Vec<T>) -> Option<Vec<T>>>(
    forward: K,
    inverse: J,
    x: Seq<T>,
    y: Seq<T>,
    z: Seq<T>,
    count: nat,
    width: nat,
)
    requires
        undoes(inverse, forward),
        lines_mapped(forward, x, y, count, width),
        lines_mapped(inverse, y, z, count, width),
    ensures
        z == x,
{
    assert forall|i: int| 0 <= i < count implies #[trigger] line(z, width, i) == line(x, width, i) by {
        assert(kernel_gives(forward, line(x, width, i), line(y, width, i)));
        assert(kernel_gives(inverse, line(y, width, i), line(z, width, i)));
    }
    lemma_lines_equal(z, x, count, width);
}

/// The passes are laid out so that the inverse undoes the forward: when the
/// inverse line kernel gives back every line that the forward line kernel
/// produced and `scale` leaves samples as they are, the grid rebuilt from
/// the spectrum of `grid` is `grid` itself.
pub proof fn lemma_passes_round_trip<
    T,
    K: Fn(Vec<T>) -> Option<Vec<T>>,
    J: Fn(Vec<T>) -> Option<Vec<T>>,
    S: Fn(T, usize) -> T,
>(
    forward: K,
    inverse: J,
    scale: S,
    grid: Seq<T>,
    spectrum: Seq<T>,
    out: Seq<T>,
    rows: nat,
    cols: nat,
)
    requires
        undoes(inverse, forward),
        leaves_samples(scale),
        forward_passes(forward, grid, spectrum, rows, cols),
        inverse_passes(inverse, scale, spectrum, out, rows, cols),
    ensures
        out == grid,
{
    let a = choose|a: Seq<T>|
        #[trigger] lines_mapped(forward, grid, a, rows, cols)
            && lines_mapped(forward, transposed(a, rows, cols), spectrum, cols, rows);
    let (b, c) = choose|b: Seq<T>, c: Seq<T>|
        #[trigger] lines_mapped(inverse, spectrum, b, cols, rows)
            && #[trigger] lines_mapped(inverse, transposed(b, cols, rows), c, rows, cols)
            && scaled(scale, c, (rows * cols) as usize, out);
    lemma_swap_dims(rows, cols);
    lemma_lines_undone(forward, inverse, transposed(a, rows, cols), spectrum, b, cols, rows);
    lemma_transpose_involution(a, rows, cols);
    lemma_lines_undone(forward, inverse, grid, a, c, rows, cols);
    assert forall|k: int| 0 <= k < out.len() implies out[k] == c[k] by {
        assert(scale.ensures((c[k], (rows * cols) as usize), out[k]));
    }
    assert(out =~= c);
}

/// Checks the dimensions of a `rows x cols` grid held in a buffer of `len`
/// samples.
fn check_dimensions(len: usize, rows: usize, cols: usize) -> (r: Result<(), FftError>)
    ensures
        (rows == 0 || cols == 0) <==> r == Err::<(), FftError>(FftError::InvalidLength),
        (rows > 0 && cols > 0 && len != rows * cols) <==> r == Err::<(), FftError>(
            FftError::DimensionMismatch,
        ),
        r is Ok <==> (rows > 0 && cols > 0 && len == rows * cols),
{
    if rows == 0 || cols == 0 {
        return Err(FftError::InvalidLength);
    }
    match rows.checked_mul(cols) {
        Some(n) => {
            if n == len {
                Ok(())
            } else {
                Err(FftError::DimensionMismatch)
            }
        },
        None => Err(FftError::DimensionMismatch),
    }
}

proof fn lemma_swap_dims(rows: nat, cols: nat)
    ensures
        rows * cols == cols * rows,
{
    assert(rows * cols == cols * rows) by (nonlinear_arith);
}

/// Two-dimensional forward transform of the row-major `rows x cols` grid
/// `grid` by the one-dimensional `kernel`, by rows and then by columns. The
/// spectrum comes back laid out `cols x rows`.
pub fn forward_2d<T: Copy, K: Fn(Vec<T>) -> Option<Vec<T>>>(
    grid: &Vec<T>,
    rows: usize,
    cols: usize,
    kernel: &K,
) -> (r: Result<Vec<T>, FftError>)
    requires
        forall|a: Vec<T>| kernel.requires((a,)),
    ensures
        (rows == 0 || cols == 0) <==> r == Err::<Vec<T>, FftError>(FftError::InvalidLength),
        (rows > 0 && cols > 0 && grid.len() != rows * cols) <==> r == Err::<Vec<T>, FftError>(
            FftError::DimensionMismatch,
        ),
        r is Err && rows > 0 && cols > 0 && grid.len() == rows * cols ==> r->Err_0
            == FftError::KernelError && !keeps_length(*kernel),
        r matches Ok(out) ==> out.len() == grid.len() && forward_passes(
            *kernel,
            grid@,
            out@,
            rows as nat,
            cols as nat,
        ),
{
    match check_dimensions(grid.len(), rows, cols) {
        Err(e) => {
            return Err(e);
        },
        Ok(()) => {},
    }
    let a = match transform_lines(grid, rows, cols, kernel) {
        Ok(a) => a,
        Err(e) => {
            return Err(e);
        },
    };
    let t = transpose_buffer(&a, rows, cols);
    proof {
        lemma_swap_dims(rows as nat, cols as nat);
    }
    let out = match transform_lines(&t, cols, rows, kernel) {
        Ok(out) => out,
        Err(e) => {
            return Err(e);
        },
    };
    assert(lines_mapped(*kernel, grid@, a@, rows as nat, cols as nat));
    Ok(out)
}

/// Two-dimensional inverse transform of the `cols x rows` spectrum that
/// `forward_2d` lays out, by the one-dimensional inverse `kernel`: the
/// row-major `rows x cols` grid comes back, every sample divided once by
/// `rows * cols` through `scale`.
pub fn inverse_2d<T: Copy, K: Fn(Vec<T>) -> Option<Vec<T>>, S: Fn(T, usize) -> T>(
    spectrum: &Vec<T>,
    rows: usize,
    cols: usize,
    kernel: &K,
    scale: &S,
) -> (r: Result<Vec<T>, FftError>)
    requires
        forall|a: Vec<T>| kernel.requires((a,)),
        forall|x: T, d: usize| scale.requires((x, d)),
    ensures
        (rows == 0 || cols == 0) <==> r == Err::<Vec<T>, FftError>(FftError::InvalidLength),
        (rows > 0 && cols > 0 && spectrum.len() != rows * cols) <==> r == Err::<Vec<T>, FftError>(
            FftError::DimensionMismatch,
        ),
        r is Err && rows > 0 && cols > 0 && spectrum.len() == rows * cols ==> r->Err_0
            == FftError::KernelError && !keeps_length(*kernel),
        r matches Ok(out) ==> out.len() == spectrum.len() && inverse_passes(
            *kernel,
            *scale,
            spectrum@,
            out@,
            rows as nat,
            cols as nat,
        ),
{
    match check_dimensions(spectrum.len(), rows, cols) {
        Err(e) => {
            return Err(e);
        },
        Ok(()) => {},
    }
    proof {
        lemma_swap_dims(rows as nat, cols as nat);
    }
    let b = match transform_lines(spectrum, cols, rows, kernel) {
        Ok(b) => b,
        Err(e) => {
            return Err(e);
        },
    };
    let t = transpose_buffer(&b, cols, rows);
    let c = match transform_lines(&t, rows, cols, kernel) {
        Ok(c) => c,
        Err(e) => {
            return Err(e);
        },
    };
    let divisor = normalization_divisor(Direction::Inverse, spectrum.len());
    let out = scale_all(&c, divisor, scale);
    assert(lines_mapped(*kernel, spectrum@, b@, cols as nat, rows as nat));
    assert(lines_mapped(*kernel, transposed(b@, cols as nat, rows as nat), c@, rows as nat, cols as nat));
    Ok(out)
}

proof fn lemma_rows_have_width<T>(flat: Seq<T>, g: Seq<Vec<T>>, cols: nat)
    requires
        is_grid_of(flat, g, cols),
    ensures
        forall|i: int| 0 <= i < g.len() ==> #[trigger] g[i].len() == cols,
{
    assert forall|i: int| 0 <= i < g.len() implies #[trigger] g[i].len() == cols by {
        lemma_line_fits(i, g.len() as int, cols as int);
        assert(g[i]@ == line(flat, cols, i));
    }
}

/// Two-dimensional forward transform of the grid `g`, given as `R` rows of
/// `C` samples, by the one-dimensional `kernel`. The spectrum comes back as
/// `C` rows of `R` bins: the axes are swapped.
pub fn complex_forward_2d<T: Copy, K: Fn(Vec<T>) -> Option<Vec<T>>>(
    g: &Vec<Vec<T>>,
    kernel: &K,
) -> (r: Result<Vec<Vec<T>>, FftError>)
    requires
        forall|a: Vec<T>| kernel.requires((a,)),
    ensures
        (g.len() == 0 || g[0].len() == 0) <==> r == Err::<Vec<Vec<T>>, FftError>(
            FftError::InvalidLength,
        ),
        (g.len() > 0 && g[0].len() > 0 && is_ragged(g@)) <==> r == Err::<Vec<Vec<T>>, FftError>(
            FftError::DimensionMismatch,
        ),
        r is Err && g.len() > 0 && g[0].len() > 0 && !is_ragged(g@) ==> r->Err_0
            == FftError::KernelError && !keeps_length(*kernel),
        r matches Ok(out) ==> out.len() == g[0].len() && (forall|j: int|
            0 <= j < out.len() ==> #[trigger] out[j].len() == g.len()) && forward_passes(
            *kernel,
            flat_of(g@, g[0].len() as nat),
            flat_of(out@, g.len() as nat),
            g.len() as nat,
            g[0].len() as nat,
        ),
{
    let flat = match grid_from_rows(g) {
        Ok(flat) => flat,
        Err(e) => {
            return Err(e);
        },
    };
    let rows = g.len();
    let cols = g[0].len();
    let spectrum = match forward_2d(&flat, rows, cols, kernel) {
        Ok(spectrum) => spectrum,
        Err(e) => {
            return Err(e);
        },
    };
    proof {
        lemma_swap_dims(rows as nat, cols as nat);
    }
    let out = split_lines(&spectrum, cols, rows);
    proof {
        lemma_grid_is_flat(flat@, g@, cols as nat);
        lemma_grid_is_flat(spectrum@, out@, rows as nat);
        lemma_rows_have_width(spectrum@, out@, rows as nat);
    }
    Ok(out)
}

/// Two-dimensional inverse transform of the spectrum `s`, given as `C` rows
/// of `R` bins as `complex_forward_2d` lays it out, by the one-dimensional
/// inverse `kernel`. The grid comes back as `R` rows of `C` samples, every
/// sample divided once by `R * C` through `scale`.
pub fn complex_inverse_2d<T: Copy, K: Fn(Vec<T>) -> Option<Vec<T>>, S: Fn(T, usize) -> T>(
    s: &Vec<Vec<T>>,
    kernel: &K,
    scale: &S,
) -> (r: Result<Vec<Vec<T>>, FftError>)
    requires
        forall|a: Vec<T>| kernel.requires((a,)),
        forall|x: T, d: usize| scale.requires((x, d)),
    ensures
        (s.len() == 0 || s[0].len() == 0) <==> r == Err::<Vec<Vec<T>>, FftError>(
            FftError::InvalidLength,
        ),
        (s.len() > 0 && s[0].len() > 0 && is_ragged(s@)) <==> r == Err::<Vec<Vec<T>>, FftError>(
            FftError::DimensionMismatch,
        ),
        r is Err && s.len() > 0 && s[0].len() > 0 && !is_ragged(s@) ==> r->Err_0
            == FftError::KernelError && !keeps_length(*kernel),
        r matches Ok(out) ==> out.len() == s[0].len() && (forall|i: int|
            0 <= i < out.len() ==> #[trigger] out[i].len() == s.len()) && inverse_passes(
            *kernel,
            *scale,
            flat_of(s@, s[0].len() as nat),
            flat_of(out@, s.len() as nat),
            s[0].len() as nat,
            s.len() as nat,
        ),
{
    let flat = match grid_from_rows(s) {
        Ok(flat) => flat,
        Err(e) => {
            return Err(e);
        },
    };
    let rows = s[0].len();
    let cols = s.len();
    proof {
        lemma_swap_dims(rows as nat, cols as nat);
    }
    let grid = match inverse_2d(&flat, rows, cols, kernel, scale) {
        Ok(grid) => grid,
        Err(e) => {
            return Err(e);
        },
    };
    let out = split_lines(&grid, rows, cols);
    proof {
        lemma_grid_is_flat(flat@, s@, rows as nat);
        lemma_grid_is_flat(grid@, out@, cols as nat);
        lemma_rows_have_width(grid@, out@, cols as nat);
    }
    Ok(out)
}

} // verus!
