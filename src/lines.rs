use vstd::prelude::*;

use crate::error::FftError;

verus! {

/// Line `i` of a row-major buffer whose lines hold `width` samples each.
pub open spec fn line<T>(s: Seq<T>, width: nat, i: int) -> Seq<T> {
    s.subrange(i * width, i * width + width)
}

/// `y` is a result that `kernel` may hand back for the line `x`.
pub open spec fn kernel_gives<A, B, K: Fn(Vec<A>) -> Option<Vec<B>>>(
    kernel: K,
    x: Seq<A>,
    y: Seq<B>,
) -> bool {
    exists|a: Vec<A>, b: Vec<B>| a@ == x && b@ == y && #[trigger] kernel.ensures((a,), Some(b))
}

/// `kernel` accepts every line and always answers with a line of the same length.
pub open spec fn keeps_length<T, K: Fn(Vec<T>) -> Option<Vec<T>>>(kernel: K) -> bool {
    forall|a: Vec<T>, r: Option<Vec<T>>| #[trigger]
        kernel.ensures((a,), r) ==> (r matches Some(b) && b.len() == a.len())
}

/// On the line `x`, `kernel` may fail or answer with a line whose length is
/// not `width`.
pub open spec fn kernel_may_fail<A, B, K: Fn(Vec<A>) -> Option<Vec<B>>>(
    kernel: K,
    x: Seq<A>,
    width: nat,
) -> bool {
    exists|a: Vec<A>, res: Option<Vec<B>>|
        a@ == x && #[trigger] kernel.ensures((a,), res) && !(res matches Some(b) && b.len() == width)
}

/// Each of the `count` lines of `output` is a result of `kernel` on the
/// matching line of `input`.
pub open spec fn lines_mapped<T, K: Fn(Vec<T>) -> Option<Vec<T>>>(
    kernel: K,
    input: Seq<T>,
    output: Seq<T>,
    count: nat,
    width: nat,
) -> bool {
    &&& input.len() == count * width
    &&& output.len() == count * width
    &&& forall|i: int|
        0 <= i < count ==> kernel_gives(kernel, line(input, width, i), #[trigger] line(output, width, i))
}

pub(crate) proof fn lemma_line_fits(j: int, i: int, width: int)
    requires
        0 <= j < i,
        0 <= width,
    ensures
        0 <= j * width,
        j * width + width <= i * width,
{
    assert(0 <= j * width) by (nonlinear_arith)
        requires
            0 <= j,
            0 <= width,
    ;
    assert(j * width + width <= i * width) by (nonlinear_arith)
        requires
            0 <= j < i,
            0 <= width,
    ;
}

/// Two buffers of `count` lines of `width` samples that agree on every
/// line are equal.
pub proof fn lemma_lines_equal<T>(s: Seq<T>, t: Seq<T>, count: nat, width: nat)
    requires
        s.len() == count * width,
        t.len() == count * width,
        forall|i: int| 0 <= i < count ==> #[trigger] line(s, width, i) == line(t, width, i),
    ensures
        s == t,
{
    assert forall|k: int| 0 <= k < s.len() implies s[k] == t[k] by {
        assert(width > 0) by (nonlinear_arith)
            requires
                0 <= k < count * width,
        ;
        let i = k / width as int;
        let j = k % width as int;
        vstd::arithmetic::div_mod::lemma_fundamental_div_mod(k, width as int);
        vstd::arithmetic::div_mod::lemma_div_pos_is_pos(k, width as int);
        assert(k == i * width + j) by {
            vstd::arithmetic::mul::lemma_mul_is_commutative(i, width as int);
        }
        assert(i < count) by (nonlinear_arith)
            requires
                k == i * width + j,
                0 <= j,
                0 <= k < count * width,
                width > 0,
        ;
        assert(i * width + width <= count * width) by (nonlinear_arith)
            requires
                i + 1 <= count,
                width > 0,
        ;
        assert(0 <= i * width) by (nonlinear_arith)
            requires
                0 <= i,
                width > 0,
        ;
        assert(line(s, width, i)[j] == line(t, width, i)[j]);
    }
    assert(s =~= t);
}

/// Copies line `i` of `data` into a fresh buffer.
pub(crate) fn copy_line<T: Copy>(data: &Vec<T>, width: usize, i: usize, count: usize) -> (r: Vec<T>)
    requires
        data.len() == count * width,
        i < count,
    ensures
        r@ == line(data@, width as nat, i as int),
{
    proof {
        lemma_line_fits(i as int, count as int, width as int);
    }
    let start = i * width;
    let mut row: Vec<T> = Vec::new();
    let mut k: usize = 0;
    while k < width
        invariant
            k <= width,
            start + width <= data.len(),
            row@ == data@.subrange(start as int, start + k),
        decreases width - k,
    {
        row.push(data[start + k]);
        k += 1;
        assert(row@ =~= data@.subrange(start as int, start + k));
    }
    row
}

/// Runs `kernel` on each of the `count` lines of `data`, which hold `width`
/// samples each, and gathers the results in line order. Fails with
/// `KernelError` as soon as the kernel fails or answers with a line of
/// another length.
pub fn transform_lines<T: Copy, K: Fn(Vec<T>) -> Option<Vec<T>>>(
    data: &Vec<T>,
    count: usize,
    width: usize,
    kernel: &K,
) -> (r: Result<Vec<T>, FftError>)
    requires
        data.len() == count * width,
        forall|a: Vec<T>| kernel.requires((a,)),
    ensures
        r matches Ok(out) ==> lines_mapped(*kernel, data@, out@, count as nat, width as nat),
        r is Err ==> r->Err_0 == FftError::KernelError,
        r is Err ==> exists|i: int|
            0 <= i < count && #[trigger] kernel_may_fail(*kernel, line(data@, width as nat, i), width as nat),
        keeps_length(*kernel) ==> r is Ok,
{
    let mut out: Vec<T> = Vec::new();
    let mut i: usize = 0;
    while i < count
        invariant
            i <= count,
            data.len() == count * width,
            out.len() == i * width,
            forall|a: Vec<T>| kernel.requires((a,)),
            forall|j: int|
                0 <= j < i ==> kernel_gives(*kernel, line(data@, width as nat, j), #[trigger] line(out@, width as nat, j)),
        decreases count - i,
    {
        let row = copy_line(data, width, i, count);
        proof {
            lemma_line_fits(i as int, count as int, width as int);
        }
        let ghost row_g = row;
        let res = kernel(row);
        match res {
            Some(y) => {
                if y.len() != width {
                    assert(kernel.ensures((row_g,), res));
                    assert(kernel_may_fail(*kernel, line(data@, width as nat, i as int), width as nat));
                    return Err(FftError::KernelError);
                }
                let ghost old_out = out@;
                let ghost y_g = y;
                let mut y = y;
                out.append(&mut y);
                proof {
                    assert(kernel.ensures((row_g,), Some(y_g)));
                    assert(line(out@, width as nat, i as int) =~= y_g@) by {
                        assert(i * width + width == (i + 1) * width) by (nonlinear_arith);
                    }
                    assert forall|j: int| 0 <= j < i + 1 implies kernel_gives(
                        *kernel,
                        line(data@, width as nat, j),
                        #[trigger] line(out@, width as nat, j),
                    ) by {
                        if j < i {
                            lemma_line_fits(j, i as int, width as int);
                            assert(line(out@, width as nat, j) =~= line(old_out, width as nat, j));
                        }
                    }
                    assert(out.len() == (i + 1) * width) by (nonlinear_arith)
                        requires
                            out.len() == i * width + width,
                    ;
                }
            },
            None => {
                assert(kernel.ensures((row_g,), res));
                assert(kernel_may_fail(*kernel, line(data@, width as nat, i as int), width as nat));
                return Err(FftError::KernelError);
            },
        }
        i += 1;
    }
    Ok(out)
}

} // verus!
