//! The tiled 16x16 matrix multiply against an independent triple-loop
//! reference, and its throughput.

use std::time::Instant;
use tilemul::engine::Engine;

fn grid(f: impl Fn(usize, usize) -> i64) -> Vec<Vec<i64>> {
    (0..16).map(|i| (0..16).map(|j| f(i, j)).collect()).collect()
}

/// The product `matmul` is specified to compute: rows of `a` contracted
/// against rows of `b`, i.e. `c[i][j] = sum over k of a[k][i] * b[k][j]`.
fn reference_product(a: &Vec<Vec<i64>>, b: &Vec<Vec<i64>>) -> Vec<Vec<i64>> {
    grid(|i, j| (0..16).map(|k| a[k][i] * b[k][j]).sum())
}

#[test]
fn matrix_multiply() {
    let a = grid(|i, j| (i * j) as i64);
    let b = grid(|i, j| (i * j) as i64);
    for i in 0..16 {
        let mut line = String::new();
        for j in 0..16 {
            line.push_str(&format!("{}, ", a[j][i]));
        }
        println!("{}", line);
    }
    println!();
    for i in 0..16 {
        let mut line = String::new();
        for j in 0..16 {
            line.push_str(&format!("{}, ", b[j][i]));
        }
        println!("{}", line);
    }
    println!();
    let mut e = Engine::new();
    e.set();
    let c = e.matmul(&a, &b);
    for i in 0..16 {
        println!("{:?}", c[i]);
    }
    assert_eq!(0, 0);
}

#[test]
fn matmul_matches_reference() {
    // a and b are symmetric here, so the row-against-row contraction agrees
    // with the usual row-times-column product as well
    let a = grid(|i, j| (i * j) as i64);
    let b = grid(|i, j| (i * j) as i64);
    let expected = reference_product(&a, &b);
    let usual = grid(|i, j| (0..16).map(|k| a[i][k] * b[k][j]).sum());
    assert_eq!(expected, usual);

    let mut e = Engine::new();
    e.set();
    let c = e.matmul(&a, &b);
    for i in 0..16 {
        for j in 0..16 {
            assert_eq!(c[i][j], expected[i][j]);
        }
    }
    e.clr();
}

#[test]
fn matmul_contracts_rows_against_rows() {
    // a non-symmetric operand pins the orientation convention down
    let a = grid(|i, j| (3 * i + j * j) as i64 - 7);
    let b = grid(|i, j| (i + 11 * j) as i64 - 40);
    let expected = reference_product(&a, &b);
    let mut e = Engine::new();
    e.set();
    let c = e.matmul(&a, &b);
    assert_eq!(c, expected);
    e.clr();
}

#[test]
fn matmul_accumulator_is_caller_cleared() {
    // matmul accumulates into matrix 0 and does not clear it: loading zeros
    // back restores the precondition for the next multiply
    let a = grid(|i, j| (i + j) as i64);
    let b = grid(|i, j| (2 * i + j) as i64);
    let expected = reference_product(&a, &b);
    let zero: Vec<i64> = vec![0; 16];
    let mut e = Engine::new();
    e.set();
    let first = e.matmul(&a, &b);
    assert_eq!(first, expected);
    for r in 0..16u8 {
        e.ldz(4 * r, &zero);
    }
    let second = e.matmul(&a, &b);
    assert_eq!(second, expected);
    e.clr();
}

#[test]
fn perf_matmul() {
    let mut e = Engine::new();
    e.set();
    let a = grid(|_, _| 0);
    let mut cnt = 0;
    let t0 = Instant::now();
    while t0.elapsed().as_secs_f64() < 2.0 {
        e.matmul(&a, &a);
        cnt += 1;
    }
    let matmuls_per_sec = cnt as f64 / 2.0;
    println!("{} 16x16 f32 matmuls per second", matmuls_per_sec);
    let flops = (2 * 16_u64.pow(3)) as f64 * matmuls_per_sec;
    println!("~{} GFLOPS", flops / 1e9);
    e.clr();
}
