use vstd::prelude::*;

use crate::error::FftError;
use crate::lines::{copy_line, kernel_gives, kernel_may_fail};
use crate::normalize::{leaves_samples, normalization_divisor, scale_all, scaled, Direction};

verus! {

/// How many bins hold the non-redundant half of the spectrum of `n` real
/// samples.
pub open spec fn half_len(n: nat) -> nat {
    n / 2 + 1
}

/// The number of bins in the spectrum of `n` real samples: `n / 2 + 1`.
pub fn spectrum_len(n: usize) -> (r: usize)
    ensures
        r == half_len(n as nat),
{
    n / 2 + 1
}

/// `kernel` turns every real signal into a half spectrum of the right length.
pub open spec fn gives_half_spectrum<T, U, K: Fn(Vec<T>) -> Option<Vec<U>>>(kernel: K) -> bool {
    forall|a: Vec<T>, r: Option<Vec<U>>| #[trigger]
        kernel.ensures((a,), r) ==> (r matches Some(b) && b.len() == half_len(a.len() as nat))
}

/// `y` is a result that the synthesis `kernel` may hand back for the half
/// spectrum `x` of a signal of `n` samples.
pub open spec fn synthesis_gives<U, T, K: Fn(Vec<U>, usize) -> Option<Vec<T>>>(
    kernel: K,
    x: Seq<U>,
    n: usize,
    y: Seq<T>,
) -> bool {
    exists|a: Vec<U>, b: Vec<T>| a@ == x && b@ == y && #[trigger] kernel.ensures((a, n), Some(b))
}

/// On the half spectrum `x`, the synthesis `kernel` may fail or answer
/// with a signal whose length is not `n`.
pub open spec fn synthesis_may_fail<U, T, K: Fn(Vec<U>, usize) -> Option<Vec<T>>>(
    kernel: K,
    x: Seq<U>,
    n: usize,
) -> bool {
    exists|a: Vec<U>, res: Option<Vec<T>>|
        a@ == x && #[trigger] kernel.ensures((a, n), res) && !(res matches Some(b) && b.len() == n)
}

/// The synthesis `kernel` always answers with a signal of the length it is
/// asked for.
pub open spec fn gives_signal<U, T, K: Fn(Vec<U>, usize) -> Option<Vec<T>>>(kernel: K) -> bool {
    forall|a: Vec<U>, n: usize, r: Option<Vec<T>>| #[trigger]
        kernel.ensures((a, n), r) ==> (r matches Some(b) && b.len() == n)
}

/// Forward transform of a real signal of `n` samples into its `n / 2 + 1`
/// non-redundant bins, by the real-input `kernel`.
pub fn real_forward<T: Copy, U, K: Fn(Vec<T>) -> Option<Vec<U>>>(
    signal: &Vec<T>,
    kernel: &K,
) -> (r: Result<Vec<U>, FftError>)
    requires
        forall|a: Vec<T>| kernel.requires((a,)),
    ensures
        signal.len() == 0 <==> r == Err::<Vec<U>, FftError>(FftError::InvalidLength),
        r is Err && signal.len() > 0 ==> r->Err_0 == FftError::KernelError && kernel_may_fail(
            *kernel,
            signal@,
            half_len(signal.len() as nat),
        ),
        signal.len() > 0 && gives_half_spectrum(*kernel) ==> r is Ok,
        r matches Ok(out) ==> out.len() == half_len(signal.len() as nat) && kernel_gives(
            *kernel,
            signal@,
            out@,
        ),
{
    let n = signal.len();
    if n == 0 {
        return Err(FftError::InvalidLength);
    }
    let bins = spectrum_len(n);
    let input = copy_line(signal, n, 0, 1);
    assert(input@ =~= signal@);
    let ghost input_g = input;
    let res = kernel(input);
    assert(kernel.ensures((input_g,), res));
    match res {
        Some(out) => {
            if out.len() == bins {
                assert(kernel_gives(*kernel, signal@, out@));
                Ok(out)
            } else {
                assert(kernel_may_fail(*kernel, signal@, bins as nat));
                Err(FftError::KernelError)
            }
        },
        None => {
            assert(kernel_may_fail(*kernel, signal@, bins as nat));
            Err(FftError::KernelError)
        },
    }
}

/// Inverse transform of the `n / 2 + 1` bins `spectrum` back into a real
/// signal of `n` samples: the synthesis `kernel` rebuilds the unscaled
/// signal, and `scale` divides each sample once by `n`.
pub fn real_inverse<U: Copy, T: Copy, K: Fn(Vec<U>, usize) -> Option<Vec<T>>, S: Fn(T, usize) -> T>(
    spectrum: &Vec<U>,
    n: usize,
    kernel: &K,
    scale: &S,
) -> (r: Result<Vec<T>, FftError>)
    requires
        forall|a: Vec<U>, m: usize| kernel.requires((a, m)),
        forall|x: T, d: usize| scale.requires((x, d)),
    ensures
        n == 0 <==> r == Err::<Vec<T>, FftError>(FftError::InvalidLength),
        (n > 0 && spectrum.len() != half_len(n as nat)) <==> r == Err::<Vec<T>, FftError>(
            FftError::LengthMismatch,
        ),
        r is Err && n > 0 && spectrum.len() == half_len(n as nat) ==> r->Err_0
            == FftError::KernelError && synthesis_may_fail(*kernel, spectrum@, n),
        n > 0 && spectrum.len() == half_len(n as nat) && gives_signal(*kernel) ==> r is Ok,
        r matches Ok(out) ==> out.len() == n && exists|raw: Seq<T>|
            #[trigger] synthesis_gives(*kernel, spectrum@, n, raw) && scaled(*scale, raw, n, out@),
{
    if n == 0 {
        return Err(FftError::InvalidLength);
    }
    let bins = spectrum.len();
    if bins != spectrum_len(n) {
        return Err(FftError::LengthMismatch);
    }
    let input = copy_line(spectrum, bins, 0, 1);
    assert(input@ =~= spectrum@);
    let ghost input_g = input;
    let res = kernel(input, n);
    assert(kernel.ensures((input_g, n), res));
    match res {
        Some(raw) => {
            if raw.len() == n {
                assert(synthesis_gives(*kernel, spectrum@, n, raw@));
                let divisor = normalization_divisor(Direction::Inverse, n);
                Ok(scale_all(&raw, divisor, scale))
            } else {
                assert(synthesis_may_fail(*kernel, spectrum@, n));
                Err(FftError::KernelError)
            }
        },
        None => {
            assert(synthesis_may_fail(*kernel, spectrum@, n));
            Err(FftError::KernelError)
        },
    }
}

/// Running `synthesis` for `n` samples on any half spectrum that `analysis`
/// produced from a signal of `n` samples gives back that signal.
pub open spec fn synthesis_undoes<T, U, K: Fn(Vec<T>) -> Option<Vec<U>>, J: Fn(Vec<U>, usize) -> Option<Vec<T>>>(
    synthesis: J,
    analysis: K,
) -> bool {
    forall|x: Seq<T>, y: Seq<U>, n: usize, z: Seq<T>|
        #![trigger kernel_gives(analysis, x, y), synthesis_gives(synthesis, y, n, z)]
        kernel_gives(analysis, x, y) && synthesis_gives(synthesis, y, n, z) && n == x.len() ==> z == x
}

/// When `synthesis` undoes `analysis` and `scale` leaves samples as they
/// are, the signal that `real_inverse` rebuilds from the spectrum that
/// `real_forward` made of `signal` is `signal` itself.
pub proof fn lemma_real_round_trip<
    T,
    U,
    K: Fn(Vec<T>) -> Option<Vec<U>>,
    J: Fn(Vec<U>, usize) -> Option<Vec<T>>,
    S: Fn(T, usize) -> T,
>(
    analysis: K,
    synthesis: J,
    scale: S,
    signal: Seq<T>,
    spectrum: Seq<U>,
    n: usize,
    out: Seq<T>,
)
    requires
        synthesis_undoes(synthesis, analysis),
        leaves_samples(scale),
        n == signal.len(),
        kernel_gives(analysis, signal, spectrum),
        exists|raw: Seq<T>| #[trigger] synthesis_gives(synthesis, spectrum, n, raw) && scaled(scale, raw, n, out),
    ensures
        out == signal,
{
    let raw = choose|raw: Seq<T>|
        #[trigger] synthesis_gives(synthesis, spectrum, n, raw) && scaled(scale, raw, n, out);
    assert(raw == signal);
    assert forall|k: int| 0 <= k < out.len() implies out[k] == raw[k] by {
        assert(scale.ensures((raw[k], n), out[k]));
    }
    assert(out =~= signal);
}

} // verus!
