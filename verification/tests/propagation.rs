//! A few time steps of Hilbert-space propagation, the objective's inner loop, with the controls laid out by the
//! library: the parameter vector is cut into one column per control (`slice_column`), the columns are placed
//! side by side (`hstack`), and the matrices are built and held in `Mat`.  The exponentials come from nalgebra and
//! the gradient from the adjoint of the propagation written here; the library holds no differentiation of its
//! own, so what is checked against central differences is that the library's layout puts each parameter where the
//! propagation reads it.

use ctrl_freeq::linalg::{Mat, hstack, slice_column};
use nalgebra::DMatrix;
use num_complex::Complex64 as C;

/// A few pseudo-random numbers in (-1, 1).
fn numbers(n: usize, seed: u64) -> Vec<f64> {
    let mut s = seed.wrapping_add(0x9E3779B97F4A7C15);
    (0..n)
        .map(|_| {
            s ^= s << 13;
            s ^= s >> 7;
            s ^= s << 17;
            (s >> 11) as f64 / (1u64 << 53) as f64 * 2.0 - 1.0
        })
        .collect()
}

fn hermitian(n: usize, seed: u64, scale: f64) -> Mat<C> {
    let v = numbers(2 * n * n, seed);
    let m = Mat::from_fn(n, n, |r, c| C::new(v[2 * (r * n + c)], v[2 * (r * n + c) + 1]));
    Mat::from_fn(n, n, |r, c| (m.get(r, c) + m.get(c, r).conj()) * (0.5 * scale))
}

fn unit_vector(n: usize, seed: u64) -> Mat<C> {
    let v = numbers(2 * n, seed);
    let m = Mat::from_fn(n, 1, |r, _| C::new(v[2 * r], v[2 * r + 1]));
    let norm = m.data.iter().map(|z| z.norm_sqr()).sum::<f64>().sqrt();
    m.map(|z| z / norm)
}

fn dense(m: &Mat<C>) -> DMatrix<C> {
    DMatrix::from_row_slice(m.rows, m.cols, &m.data)
}

/// `exp(-i·dt·h)` and, for each direction `e`, the derivative of `exp(-i·dt·(h + s·e))` in `s` at 0.
fn step(h: &DMatrix<C>, dt: f64, directions: &[DMatrix<C>]) -> (DMatrix<C>, Vec<DMatrix<C>>) {
    let n = h.nrows();
    let a = h * C::new(0.0, -dt);
    let u = a.clone().exp();
    let derivatives = directions
        .iter()
        .map(|e| {
            let mut block = DMatrix::<C>::zeros(2 * n, 2 * n);
            block.view_mut((0, 0), (n, n)).copy_from(&a);
            block.view_mut((n, n), (n, n)).copy_from(&a);
            block.view_mut((0, n), (n, n)).copy_from(&(e * C::new(0.0, -dt)));
            block.exp().view((0, n), (n, n)).into_owned()
        })
        .collect();
    (u, derivatives)
}

struct Problem {
    h0: DMatrix<C>,
    ops: Vec<DMatrix<C>>,
    psi0: DMatrix<C>,
    target: DMatrix<C>,
    steps: usize,
    dt: f64,
}

impl Problem {
    /// The controls as a `steps × controls` matrix: `x` holds them column by column, control k's values for every
    /// step, then control k + 1's.
    fn controls(&self, x: &[f64]) -> Mat<f64> {
        let v = Mat::column(x.to_vec());
        let cols: Vec<Mat<f64>> =
            (0..self.ops.len()).map(|k| slice_column(&v, k * self.steps, self.steps).unwrap()).collect();
        hstack(&cols).unwrap()
    }

    /// The Hamiltonian of step `s`.
    fn hamiltonian(&self, x: &[f64], s: usize) -> DMatrix<C> {
        let u = self.controls(x);
        let mut h = self.h0.clone();
        for (k, op) in self.ops.iter().enumerate() {
            h += op * C::new(u.get(s, k), 0.0);
        }
        h
    }

    /// `|⟨target|ψ(T)⟩|²`.
    fn value(&self, x: &[f64]) -> f64 {
        let mut psi = self.psi0.clone();
        for s in 0..self.steps {
            let (u, _) = step(&self.hamiltonian(x, s), self.dt, &[]);
            psi = u * psi;
        }
        (self.target.adjoint() * psi)[(0, 0)].norm_sqr()
    }

    /// The gradient of [`value`](Self::value), by propagating forward and pulling the overlap back.
    fn gradient(&self, x: &[f64]) -> Vec<f64> {
        let mut states = vec![self.psi0.clone()];
        let mut steps = Vec::new();
        for s in 0..self.steps {
            let (u, du) = step(&self.hamiltonian(x, s), self.dt, &self.ops);
            states.push(&u * &states[s]);
            steps.push((u, du));
        }
        let overlap = (self.target.adjoint() * &states[self.steps])[(0, 0)];
        let mut grad = vec![0.0; x.len()];
        let mut back = self.target.adjoint();
        for s in (0..self.steps).rev() {
            let (u, du) = &steps[s];
            for (k, d) in du.iter().enumerate() {
                let dov = (&back * d * &states[s])[(0, 0)];
                grad[k * self.steps + s] = 2.0 * (overlap.conj() * dov).re;
            }
            back = &back * u;
        }
        grad
    }
}

/// Central-difference check of the gradient of `p` at `x`.
fn check_gradient(name: &str, p: &Problem, x: &[f64], tol: f64) {
    let g = p.gradient(x);
    let h = 1e-6;
    for i in 0..x.len() {
        let mut plus = x.to_vec();
        let mut minus = x.to_vec();
        plus[i] += h;
        minus[i] -= h;
        let fd = (p.value(&plus) - p.value(&minus)) / (2.0 * h);
        let scale = fd.abs().max(g[i].abs()).max(1.0);
        assert!((fd - g[i]).abs() <= tol * scale, "{name}: d/dx{i} adjoint {} vs fd {fd}", g[i]);
    }
}

/// A few time steps of Hilbert-space propagation, the objective's inner loop.
fn hilbert_propagation(dim: usize) {
    let n_ctrl = 2;
    let steps = 3;
    let p = Problem {
        h0: dense(&hermitian(dim, 11, 2.0)),
        ops: (0..n_ctrl).map(|k| dense(&hermitian(dim, 20 + k as u64, 1.0))).collect(),
        psi0: dense(&unit_vector(dim, 30)),
        target: dense(&unit_vector(dim, 31)),
        steps,
        dt: 0.4,
    };
    let x = numbers(steps * n_ctrl, 7);
    check_gradient(&format!("hilbert D={dim}"), &p, &x, 1e-5);
}

#[test]
fn hilbert_propagation_gradients() {
    hilbert_propagation(2);
    hilbert_propagation(4);
    hilbert_propagation(3);
}

#[test]
fn test_matrices_are_hermitian_and_states_normalised() {
    let h = hermitian(3, 11, 2.0);
    for r in 0..3 {
        for c in 0..3 {
            assert_eq!(h.get(r, c), h.get(c, r).conj());
        }
    }
    let psi = unit_vector(4, 30);
    let norm: f64 = psi.data.iter().map(|z| z.norm_sqr()).sum();
    assert!((norm - 1.0).abs() < 1e-12);
}
