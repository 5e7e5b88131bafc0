use vstd::prelude::*;

verus! {

/// Which way a transform runs.
#[derive(Debug, Clone, Copy, PartialEq, Eq, Structural)]
pub enum Direction {
    /// Signal to spectrum, without scaling.
    Forward,
    /// Spectrum to signal, divided by the number of samples.
    Inverse,
}

/// What every output sample of a transform over `n` samples is divided by.
pub open spec fn divisor_of(direction: Direction, n: nat) -> nat {
    match direction {
        Direction::Forward => 1,
        Direction::Inverse => n,
    }
}

/// The divisor applied once to every sample at the end of a transform over
/// `n` samples: none going forward, `n` going back.
pub fn normalization_divisor(direction: Direction, n: usize) -> (r: usize)
    ensures
        r == divisor_of(direction, n as nat),
{
    match direction {
        Direction::Forward => 1,
        Direction::Inverse => n,
    }
}

/// Each sample of `out` is a result of `scale` on the matching sample of
/// `raw` and the divisor `d`.
pub open spec fn scaled<T, S: Fn(T, usize) -> T>(scale: S, raw: Seq<T>, d: usize, out: Seq<T>) -> bool {
    &&& out.len() == raw.len()
    &&& forall|k: int| 0 <= k < raw.len() ==> scale.ensures((raw[k], d), #[trigger] out[k])
}

/// `scale` hands back every sample as it is.
pub open spec fn leaves_samples<T, S: Fn(T, usize) -> T>(scale: S) -> bool {
    forall|x: T, d: usize, y: T| #[trigger] scale.ensures((x, d), y) ==> y == x
}

/// Divides every sample of `data` by `divisor` through `scale`.
pub fn scale_all<T: Copy, S: Fn(T, usize) -> T>(data: &Vec<T>, divisor: usize, scale: &S) -> (r: Vec<T>)
    requires
        forall|x: T, d: usize| scale.requires((x, d)),
    ensures
        scaled(*scale, data@, divisor, r@),
{
    let mut out: Vec<T> = Vec::new();
    let mut k: usize = 0;
    while k < data.len()
        invariant
            k <= data.len(),
            out.len() == k,
            forall|x: T, d: usize| scale.requires((x, d)),
            forall|j: int| 0 <= j < k ==> scale.ensures((data@[j], divisor), #[trigger] out@[j]),
        decreases data.len() - k,
    {
        let v = scale(data[k], divisor);
        out.push(v);
        k += 1;
    }
    out
}

} // verus!
