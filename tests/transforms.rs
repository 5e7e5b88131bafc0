use std::sync::Arc;

use realfft::RealFftPlanner;
use rustfft::num_complex::Complex64;
use rustfft::algorithm::Dft;
use rustfft::{Fft, FftDirection, FftPlanner, Length};
use sepfft::error::FftError;
use sepfft::real1d::{real_forward, real_inverse};
use sepfft::separable::{complex_forward_2d, complex_inverse_2d, forward_2d, inverse_2d};

fn real_kernel(n: usize) -> impl Fn(Vec<f64>) -> Option<Vec<Complex64>> {
    let plan = RealFftPlanner::<f64>::new().plan_fft_forward(n);
    move |mut signal: Vec<f64>| {
        let mut out = plan.make_output_vec();
        plan.process(&mut signal, &mut out).ok()?;
        Some(out)
    }
}

fn synthesis_kernel(n: usize) -> impl Fn(Vec<Complex64>, usize) -> Option<Vec<f64>> {
    let plan = RealFftPlanner::<f64>::new().plan_fft_inverse(n);
    move |mut spectrum: Vec<Complex64>, len: usize| {
        if len != plan.len() {
            return None;
        }
        let mut out = plan.make_output_vec();
        plan.process(&mut spectrum, &mut out).ok()?;
        Some(out)
    }
}

fn divide_real(x: f64, d: usize) -> f64 {
    x / d as f64
}

fn divide_complex(x: Complex64, d: usize) -> Complex64 {
    x / d as f64
}

fn line_kernel(lengths: &[usize], inverse: bool) -> impl Fn(Vec<Complex64>) -> Option<Vec<Complex64>> {
    let mut planner = FftPlanner::<f64>::new();
    let plans: Vec<Arc<dyn Fft<f64>>> = lengths
        .iter()
        .map(|&n| if inverse { planner.plan_fft_inverse(n) } else { planner.plan_fft_forward(n) })
        .collect();
    move |mut line: Vec<Complex64>| {
        let plan = plans.iter().find(|p| p.len() == line.len())?;
        plan.process(&mut line);
        Some(line)
    }
}

fn direct_kernel(n: usize, direction: FftDirection) -> impl Fn(Vec<Complex64>) -> Option<Vec<Complex64>> {
    let plan = Dft::<f64>::new(n, direction);
    move |mut line: Vec<Complex64>| {
        if line.len() != plan.len() {
            return None;
        }
        plan.process(&mut line);
        Some(line)
    }
}

fn real_round_trip(signal: &Vec<f64>) -> Vec<f64> {
    let n = signal.len();
    let spectrum = real_forward(signal, &real_kernel(n)).unwrap();
    assert_eq!(spectrum.len(), n / 2 + 1);
    real_inverse(&spectrum, n, &synthesis_kernel(n), &divide_real).unwrap()
}

fn grid(rows: usize, cols: usize) -> Vec<Complex64> {
    (0..rows * cols)
        .map(|k| Complex64::new((k * 7 % 11) as f64 - 3.0, (k * 5 % 13) as f64 * 0.5))
        .collect()
}

#[test]
fn real_round_trip_seven_samples() {
    let answer: Vec<f64> = vec![0, 1, 2, 3, 2, 1, 0].into_iter().map(|x| x as f64).collect();
    let real = real_round_trip(&answer);
    assert_eq!(real.len(), answer.len());
    for (a, f) in answer.iter().zip(real.iter()) {
        assert!((a - f).abs() <= 1e-15, "{} vs {}", a, f);
    }
}

#[test]
fn real_round_trip_many_lengths() {
    for n in 1..=64usize {
        let signal: Vec<f64> = (0..n).map(|k| ((k * 37 % 17) as f64) - 8.0 + 0.25 * k as f64).collect();
        let back = real_round_trip(&signal);
        let scale = signal.iter().fold(1.0f64, |m, x| m.max(x.abs()));
        for (a, f) in signal.iter().zip(back.iter()) {
            assert!((a - f).abs() <= 1e-12 * scale, "n = {}: {} vs {}", n, a, f);
        }
    }
}

#[test]
fn real_forward_known_bins() {
    let signal = vec![1.0, 2.0, 3.0, 4.0];
    let spectrum = real_forward(&signal, &real_kernel(4)).unwrap();
    let expected = [Complex64::new(10.0, 0.0), Complex64::new(-2.0, 2.0), Complex64::new(-2.0, 0.0)];
    assert_eq!(spectrum.len(), 3);
    for (s, e) in spectrum.iter().zip(expected.iter()) {
        assert!((s - e).norm() <= 1e-12);
    }
}

#[test]
fn real_forward_self_conjugate_bins() {
    for n in [7usize, 8] {
        let signal: Vec<f64> = (0..n).map(|k| (k * k) as f64 - 3.5).collect();
        let spectrum = real_forward(&signal, &real_kernel(n)).unwrap();
        assert!(spectrum[0].im.abs() <= 1e-12);
        if n % 2 == 0 {
            assert!(spectrum[n / 2].im.abs() <= 1e-12);
        }
    }
}

#[test]
fn real_forward_is_linear() {
    let n = 10usize;
    let x: Vec<f64> = (0..n).map(|k| (k as f64).sin()).collect();
    let y: Vec<f64> = (0..n).map(|k| (k * k) as f64 * 0.1).collect();
    let (a, b) = (2.5, -0.75);
    let mix: Vec<f64> = x.iter().zip(y.iter()).map(|(p, q)| a * p + b * q).collect();
    let kernel = real_kernel(n);
    let fx = real_forward(&x, &kernel).unwrap();
    let fy = real_forward(&y, &kernel).unwrap();
    let fm = real_forward(&mix, &kernel).unwrap();
    for k in 0..fm.len() {
        assert!((fm[k] - (fx[k] * a + fy[k] * b)).norm() <= 1e-12);
    }
}

#[test]
fn real_forward_empty_signal() {
    let signal: Vec<f64> = Vec::new();
    assert_eq!(real_forward(&signal, &real_kernel(4)), Err(FftError::InvalidLength));
}

#[test]
fn real_forward_kernel_failure() {
    let signal = vec![1.0, 2.0, 3.0];
    assert_eq!(real_forward(&signal, &real_kernel(4)), Err(FftError::KernelError));
    let short = |_: Vec<f64>| Some(vec![Complex64::new(0.0, 0.0)]);
    assert_eq!(real_forward(&signal, &short), Err(FftError::KernelError));
}

#[test]
fn real_inverse_errors() {
    let spectrum = vec![Complex64::new(1.0, 0.0); 4];
    assert_eq!(real_inverse(&spectrum, 0, &synthesis_kernel(7), &divide_real), Err(FftError::InvalidLength));
    assert_eq!(real_inverse(&spectrum, 8, &synthesis_kernel(8), &divide_real), Err(FftError::LengthMismatch));
    assert_eq!(real_inverse(&spectrum, 6, &synthesis_kernel(7), &divide_real), Err(FftError::KernelError));
    let bad = vec![Complex64::new(1.0, 1.0); 4];
    assert_eq!(real_inverse(&bad, 7, &synthesis_kernel(7), &divide_real), Err(FftError::KernelError));
}

#[test]
fn real_inverse_divides_by_length() {
    let spectrum = vec![Complex64::new(8.0, 0.0), Complex64::new(0.0, 0.0), Complex64::new(0.0, 0.0)];
    let signal = real_inverse(&spectrum, 4, &synthesis_kernel(4), &divide_real).unwrap();
    assert_eq!(signal.len(), 4);
    for s in signal {
        assert!((s - 2.0).abs() <= 1e-12);
    }
}

// The planner's length-3 butterfly leaves about 1.2e-15 on the zero entry.
#[test]
fn grid_three_by_three_planned_kernel() {
    const LINE_LEN: usize = 3;
    let answer: Vec<Complex64> =
        vec![0, 1, 2, 3, 2, 1, 2, 1, 0].into_iter().map(|x| Complex64::new(x as f64, 0.0)).collect();
    let spectrum = forward_2d(&answer, LINE_LEN, LINE_LEN, &line_kernel(&[LINE_LEN], false)).unwrap();
    let back = inverse_2d(&spectrum, LINE_LEN, LINE_LEN, &line_kernel(&[LINE_LEN], true), &divide_complex).unwrap();
    assert_eq!(back.len(), answer.len());
    for (a, f) in answer.iter().zip(back.iter()) {
        assert!((a.re - f.re).abs() <= 1e-14, "{} vs {}", a, f);
        assert!((a.im - f.im).abs() <= 1e-14, "{} vs {}", a, f);
    }
}

#[test]
fn grid_forward_layout_is_transposed() {
    let g: Vec<Complex64> = [1.0, 2.0, 3.0, 4.0, 5.0, 6.0].iter().map(|&x| Complex64::new(x, 0.0)).collect();
    let spectrum = forward_2d(&g, 2, 3, &line_kernel(&[2, 3], false)).unwrap();
    let expected = [
        Complex64::new(21.0, 0.0),
        Complex64::new(-9.0, 0.0),
        Complex64::new(-3.0, 1.7320508075688772),
        Complex64::new(0.0, 0.0),
        Complex64::new(-3.0, -1.7320508075688772),
        Complex64::new(0.0, 0.0),
    ];
    for (s, e) in spectrum.iter().zip(expected.iter()) {
        assert!((s - e).norm() <= 1e-12, "{} vs {}", s, e);
    }
}

#[test]
fn grid_round_trip_many_shapes() {
    for rows in 1..=16usize {
        for cols in [1usize, 2, 3, 5, 8, 13, 16] {
            let g = grid(rows, cols);
            let spectrum = forward_2d(&g, rows, cols, &line_kernel(&[rows, cols], false)).unwrap();
            let back =
                inverse_2d(&spectrum, rows, cols, &line_kernel(&[rows, cols], true), &divide_complex).unwrap();
            let scale = g.iter().fold(1.0f64, |m, x| m.max(x.norm()));
            for (a, f) in g.iter().zip(back.iter()) {
                assert!((a - f).norm() <= 1e-12 * scale, "{}x{}: {} vs {}", rows, cols, a, f);
            }
        }
    }
}

#[test]
fn grid_errors() {
    let g = grid(2, 3);
    let fwd = line_kernel(&[2, 3], false);
    assert_eq!(forward_2d(&g, 0, 3, &fwd), Err(FftError::InvalidLength));
    assert_eq!(forward_2d(&g, 2, 0, &fwd), Err(FftError::InvalidLength));
    assert_eq!(forward_2d(&g, 3, 3, &fwd), Err(FftError::DimensionMismatch));
    assert_eq!(forward_2d(&g, usize::MAX, 2, &fwd), Err(FftError::DimensionMismatch));
    assert_eq!(forward_2d(&g, 2, 3, &line_kernel(&[3], false)), Err(FftError::KernelError));
    let inv = line_kernel(&[2, 3], true);
    assert_eq!(inverse_2d(&g, 0, 6, &inv, &divide_complex), Err(FftError::InvalidLength));
    assert_eq!(inverse_2d(&g, 2, 2, &inv, &divide_complex), Err(FftError::DimensionMismatch));
    assert_eq!(inverse_2d(&g, 2, 3, &line_kernel(&[2], true), &divide_complex), Err(FftError::KernelError));
}

#[test]
fn grid_three_by_three_round_trip() {
    const LINE_LEN: usize = 3;
    let answer: Vec<Complex64> =
        vec![0, 1, 2, 3, 2, 1, 2, 1, 0].into_iter().map(|x| Complex64::new(x as f64, 0.0)).collect();
    let spectrum = forward_2d(&answer, LINE_LEN, LINE_LEN, &direct_kernel(LINE_LEN, FftDirection::Forward)).unwrap();
    let back = inverse_2d(&spectrum, LINE_LEN, LINE_LEN, &direct_kernel(LINE_LEN, FftDirection::Inverse), &divide_complex)
        .unwrap();
    for (a, f) in answer.iter().zip(back.iter()) {
        assert!((a.re - f.re).abs() <= 1e-15, "{} vs {}", a, f);
        assert!((a.im - f.im).abs() <= 1e-15, "{} vs {}", a, f);
    }
}

#[test]
fn nested_grid_round_trip() {
    let g: Vec<Vec<Complex64>> = (0..4)
        .map(|i| (0..3).map(|j| Complex64::new((i * 3 + j) as f64, (i as f64) - (j as f64))).collect())
        .collect();
    let spectrum = complex_forward_2d(&g, &line_kernel(&[3, 4], false)).unwrap();
    assert_eq!(spectrum.len(), 3);
    assert!(spectrum.iter().all(|row| row.len() == 4));
    let total: Complex64 = g.iter().flatten().sum();
    assert!((spectrum[0][0] - total).norm() <= 1e-12);
    let back = complex_inverse_2d(&spectrum, &line_kernel(&[3, 4], true), &divide_complex).unwrap();
    assert_eq!(back.len(), 4);
    for (row_a, row_b) in g.iter().zip(back.iter()) {
        assert_eq!(row_b.len(), 3);
        for (a, b) in row_a.iter().zip(row_b.iter()) {
            assert!((a - b).norm() <= 1e-12);
        }
    }
}

#[test]
fn nested_grid_errors() {
    let fwd = line_kernel(&[2, 3], false);
    let empty: Vec<Vec<Complex64>> = Vec::new();
    assert_eq!(complex_forward_2d(&empty, &fwd), Err(FftError::InvalidLength));
    let blank: Vec<Vec<Complex64>> = vec![Vec::new(), Vec::new()];
    assert_eq!(complex_forward_2d(&blank, &fwd), Err(FftError::InvalidLength));
    let ragged = vec![vec![Complex64::new(1.0, 0.0); 3], vec![Complex64::new(1.0, 0.0); 2]];
    assert_eq!(complex_forward_2d(&ragged, &fwd), Err(FftError::DimensionMismatch));
    let inv = line_kernel(&[2, 3], true);
    assert_eq!(complex_inverse_2d(&ragged, &inv, &divide_complex), Err(FftError::DimensionMismatch));
    let square = vec![vec![Complex64::new(1.0, 0.0); 5]; 5];
    assert_eq!(complex_forward_2d(&square, &fwd), Err(FftError::KernelError));
    assert_eq!(complex_inverse_2d(&square, &inv, &divide_complex), Err(FftError::KernelError));
}
