//! Round trips through every register of every bank, index masking, and
//! recovery after a disable.

use tilemul::engine::Engine;

#[test]
fn ldstx() {
    let mut e = Engine::new();
    e.set();

    // Check each of the 8 512-bit registers
    for ridx in 0..8u8 {
        let x: Vec<i64> = (0..16).map(|i| 16 * ridx as i64 + i).collect();
        e.ldx(ridx, &x);
    }
    for ridx in 0..8u8 {
        let x: Vec<i64> = (0..16).map(|i| 16 * ridx as i64 + i).collect();
        let xout = e.stx(ridx);
        for i in 0..16 {
            assert_eq!(xout[i], x[i]);
        }
    }
    e.clr();
}

#[test]
fn ldsty() {
    let mut e = Engine::new();
    e.set();
    let x: Vec<i64> = (0..16).collect();

    // Check each of the 8 512-bit registers
    for ridx in 0..8u8 {
        e.ldy(ridx, &x);
        let xout = e.sty(ridx);
        for i in 0..16 {
            assert_eq!(xout[i], x[i]);
        }
    }
    e.clr();
}

#[test]
fn ldstz() {
    let mut e = Engine::new();
    e.set();

    // Check each of the 64 accumulator rows
    for ridx in 0..64u8 {
        let x: Vec<i64> = (0..16).map(|i| 16 * ridx as i64 + i).collect();
        e.ldz(ridx, &x);
    }
    for ridx in 0..64u8 {
        let x: Vec<i64> = (0..16).map(|i| 16 * ridx as i64 + i).collect();
        let xout = e.stz(ridx);
        for i in 0..16 {
            assert_eq!(xout[i], x[i]);
        }
    }
    e.clr();
}

#[test]
fn xy_index_masked_modulo_8() {
    let mut e = Engine::new();
    e.set();
    let v: Vec<i64> = (0..16).map(|i| 100 + i).collect();
    // index 11 selects register 3 (3-bit field)
    e.ldx(11, &v);
    let out = e.stx(3);
    assert_eq!(out, v);
    let out11 = e.stx(11);
    assert_eq!(out11, v);
}

#[test]
fn z_row_masked_modulo_64() {
    let mut e = Engine::new();
    e.set();
    let v: Vec<i64> = (0..16).map(|i| 7 * i).collect();
    // selector 69 addresses physical row 5 (6-bit field)
    e.ldz(69, &v);
    let out = e.stz(5);
    assert_eq!(out, v);
}

#[test]
fn disable_enable_reload() {
    let mut e = Engine::new();
    e.set();
    let v: Vec<i64> = (0..16).map(|i| i * i).collect();
    e.ldx(4, &v);
    assert_eq!(e.stx(4), v);

    // A disable invalidates the bank contents; a fresh enable plus a
    // reload restores exact round trips.
    e.clr();
    assert!(!e.enabled());
    e.set();
    assert!(e.enabled());
    e.ldx(4, &v);
    assert_eq!(e.stx(4), v);
    let w: Vec<i64> = (0..16).map(|i| 3 - i).collect();
    e.ldz(60, &w);
    assert_eq!(e.stz(60), w);
    e.clr();
}
