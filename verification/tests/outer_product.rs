//! The fused outer-product accumulation: correctness of a single product,
//! additivity of repeated products, offset wrapping, and the stride-4
//! mapping of the four accumulator matrices.

use tilemul::engine::Engine;

#[test]
fn _fma32() {
    let mut e = Engine::new();
    e.set();

    let x: Vec<i64> = (0..16).collect();
    e.ldx(0, &x);

    let y: Vec<i64> = (0..16).collect();
    e.ldy(0, &y);

    // Only 2 lsbs of the first parameter (the accumulator selector) matter.
    // The output of a 16 element outer product is 16x16, and Z holds 64*16
    // values, so there are 4 times as many output spaces as required; the
    // selector chooses which matrix to dump into, accessed at stride 4 (so
    // with selector 1, row 0 is read from physical row 1, row 1 from 5, row
    // 2 from 9, and so on).
    e.fma32(0, 0, 0);
    for i in 0..16u8 {
        let z = e.stz(4 * i);
        println!("{}: {:?}", i, z);
    }
    println!();
    e.fma32(1, 4, 0);
    for i in 0..16u8 {
        let z = e.stz(4 * i + 1);
        println!("{}: {:?}", i, z);
    }
    println!();
    e.fma32(2, 0, 8);
    for i in 0..16u8 {
        let z = e.stz(4 * i + 2);
        println!("{}: {:?}", i, z);
    }
    println!();
    e.fma32(3, 4, 4);
    for i in 0..16u8 {
        let z = e.stz(4 * i + 3);
        println!("{}: {:?}", i, z);
    }
    println!();

    e.clr();
    assert_eq!(0, 0);
}

#[test]
fn outer_product_rows() {
    let mut e = Engine::new();
    e.set();
    let x: Vec<i64> = (0..16).collect();
    let y: Vec<i64> = (0..16).collect();
    e.ldx(0, &x);
    e.ldy(0, &y);
    e.fma32(0, 0, 0);
    // row r of accumulator matrix 0 is x[r] * y, elementwise
    for r in 0..16u8 {
        let row = e.stz(4 * r);
        for c in 0..16 {
            assert_eq!(row[c], x[r as usize] * y[c]);
        }
    }
    e.clr();
}

#[test]
fn fma_accumulates_not_overwrites() {
    let mut e = Engine::new();
    e.set();
    let x: Vec<i64> = (0..16).map(|i| i + 1).collect();
    let y: Vec<i64> = (0..16).map(|i| 2 * i + 3).collect();
    e.ldx(0, &x);
    e.ldy(0, &y);
    e.fma32(0, 0, 0);
    e.fma32(0, 0, 0);
    // two identical issues leave twice the single outer product
    for r in 0..16u8 {
        let row = e.stz(4 * r);
        for c in 0..16 {
            assert_eq!(row[c], 2 * x[r as usize] * y[c]);
        }
    }
    e.clr();
}

#[test]
fn offsets_wrap_across_registers() {
    let mut e = Engine::new();
    e.set();
    let x0: Vec<i64> = (0..16).collect();
    let x1: Vec<i64> = (0..16).map(|i| 1000 + i).collect();
    let y: Vec<i64> = (0..16).map(|_| 1).collect();
    e.ldx(0, &x0);
    e.ldx(1, &x1);
    e.ldy(0, &y);
    // byte offset 4 starts the X vector at lane 1; its last lane wraps
    // into register 1's first lane
    e.fma32(0, 4, 0);
    for r in 0..15u8 {
        let row = e.stz(4 * r);
        assert_eq!(row[0], x0[r as usize + 1]);
    }
    let last = e.stz(4 * 15);
    assert_eq!(last[0], x1[0]);
    e.clr();
}

#[test]
fn stride_mapping_of_accumulators() {
    // each accumulator matrix k lives at physical rows k, k+4, ..., k+60,
    // in row order, and an outer product into k touches no other matrix
    for k in 0..4u8 {
        let mut e = Engine::new();
        e.set();
        let x: Vec<i64> = (0..16).map(|i| i + 2).collect();
        let y: Vec<i64> = (0..16).map(|i| 5 - i).collect();
        e.ldx(0, &x);
        e.ldy(0, &y);
        e.fma32(k, 0, 0);
        for w in 0..64u8 {
            let row = e.stz(w);
            if w % 4 == k {
                let r = (w / 4) as usize;
                for c in 0..16 {
                    assert_eq!(row[c], x[r] * y[c]);
                }
            } else {
                for c in 0..16 {
                    assert_eq!(row[c], 0);
                }
            }
        }
        e.clr();
    }
}

#[test]
fn accumulator_selector_masked_modulo_4() {
    let mut e = Engine::new();
    e.set();
    let x: Vec<i64> = (0..16).collect();
    e.ldx(0, &x);
    e.ldy(0, &x);
    // selector 6 lands in accumulator matrix 2
    e.fma32(6, 0, 0);
    let row = e.stz(4 * 3 + 2);
    for c in 0..16 {
        assert_eq!(row[c], 3 * x[c]);
    }
    e.clr();
}
