//! The protocol-level guarantees of the engine, stated over the
//! mathematical state and proved once and for all: register round trips,
//! additivity of the outer-product accumulation, the outer-product rows of
//! a clear accumulator, and the stride-4 mapping between accumulator
//! matrices and physical Z rows.

use vstd::prelude::*;

use crate::engine::{
    acc_select, acc_zero, bank_lane, fma_apply, load_xy, load_z, read_xy, read_z, term_at, wf,
    z_row, EngineView,
};

verus! {

/// Round-trip identity for the X and Y banks: loading a 16-lane vector
/// into any register (the index is masked to 3 bits, so every `u8` index
/// addresses some register) and storing that register back yields the
/// vector, unchanged.
///
/// The bank contents are universally quantified: nothing about the bank's
/// history is assumed. In particular the identity holds for the unspecified
/// contents a context has right after a disable and a fresh enable —
/// reloading a register is enough to restore exact round trips.
pub proof fn lemma_xy_round_trip(bank: Seq<int>, regidx: u8, v: Seq<int>)
    requires
        bank.len() == 128,
        v.len() == 16,
    ensures
        read_xy(load_xy(bank, regidx, v), regidx) == v,
{
    assert(read_xy(load_xy(bank, regidx, v), regidx) =~= v);
}

/// Round-trip identity for the Z bank: loading a 16-lane vector into any
/// physical row (the selector is masked to 6 bits) and storing that row
/// back yields the vector, unchanged. As for the X/Y banks, the prior bank
/// contents are arbitrary.
pub proof fn lemma_z_round_trip(bank: Seq<int>, zrow: u8, v: Seq<int>)
    requires
        bank.len() == 1024,
        v.len() == 16,
    ensures
        read_z(load_z(bank, zrow, v), zrow) == v,
{
    assert(read_z(load_z(bank, zrow, v), zrow) =~= v);
}

/// The outer product accumulates rather than overwrites: issuing the same
/// outer product twice from state `s` leaves every lane of the selected
/// accumulator matrix at its old value plus twice the product — and every
/// other lane untouched. The input banks are not consumed by the first
/// issue, which is why the second adds the identical product.
pub proof fn lemma_fma_accumulates(s: EngineView, zrow: u8, xoffset: u16, yoffset: u16)
    requires
        wf(s),
    ensures
        forall|n: int|
            0 <= n < 1024 ==> fma_apply(fma_apply(s, zrow, xoffset, yoffset), zrow, xoffset, yoffset).z[n]
                == (if (n / 16) % 4 == acc_select(zrow) {
                s.z[n] + 2 * term_at(s, zrow, xoffset, yoffset, (n / 16) / 4, n % 16)
            } else {
                s.z[n]
            }),
{
    let s1 = fma_apply(s, zrow, xoffset, yoffset);
    assert(s1.x == s.x && s1.y == s.y);
    assert forall|n: int| 0 <= n < 1024 implies fma_apply(s1, zrow, xoffset, yoffset).z[n] == (if (n
        / 16) % 4 == acc_select(zrow) {
        s.z[n] + 2 * term_at(s, zrow, xoffset, yoffset, (n / 16) / 4, n % 16)
    } else {
        s.z[n]
    }) by {
        if (n / 16) % 4 == acc_select(zrow) {
            assert(term_at(s1, zrow, xoffset, yoffset, (n / 16) / 4, n % 16) == term_at(
                s,
                zrow,
                xoffset,
                yoffset,
                (n / 16) / 4,
                n % 16,
            ));
        }
    }
}

/// From a clear accumulator matrix, one outer product leaves row `r`, lane
/// `c` of that matrix holding exactly the product of input lanes `r` and
/// `c`: row `r` is the X vector's lane `r` times the whole Y vector.
pub proof fn lemma_outer_product(s: EngineView, zrow: u8, xoffset: u16, yoffset: u16)
    requires
        wf(s),
        acc_zero(s, acc_select(zrow)),
    ensures
        forall|r: int, c: int|
            0 <= r < 16 && 0 <= c < 16 ==> fma_apply(s, zrow, xoffset, yoffset).z[16 * (4 * r
                + acc_select(zrow)) + c] == bank_lane(s.x, xoffset, r) * bank_lane(
                s.y,
                yoffset,
                c,
            ),
{
    assert forall|r: int, c: int| 0 <= r < 16 && 0 <= c < 16 implies fma_apply(
        s,
        zrow,
        xoffset,
        yoffset,
    ).z[16 * (4 * r + acc_select(zrow)) + c] == bank_lane(s.x, xoffset, r) * bank_lane(
        s.y,
        yoffset,
        c,
    ) by {
        let sel = acc_select(zrow);
        let n = 16 * (4 * r + sel) + c;
        assert(0 <= sel < 4);
        assert(n / 16 == 4 * r + sel && n % 16 == c);
        assert((4 * r + sel) % 4 == sel && (4 * r + sel) / 4 == r);
        assert(s.z[n] == 0);
    }
}

/// The stride mapping of the accumulator bank: an outer product into
/// accumulator matrix `acc_select(zrow)` is retrievable exactly from the
/// physical Z rows congruent to that selector modulo 4 — row `r` of the
/// matrix from physical row `4 * r + acc_select(zrow)`, in row order —
/// while a store of any other physical row returns what was there before.
pub proof fn lemma_stride_mapping(s: EngineView, zrow: u8, xoffset: u16, yoffset: u16, zr: u8)
    requires
        wf(s),
    ensures
        z_row(zr) % 4 == acc_select(zrow) ==> forall|c: int|
            0 <= c < 16 ==> read_z(fma_apply(s, zrow, xoffset, yoffset).z, zr)[c] == s.z[16
                * z_row(zr) + c] + term_at(s, zrow, xoffset, yoffset, z_row(zr) / 4, c),
        z_row(zr) % 4 != acc_select(zrow) ==> read_z(fma_apply(s, zrow, xoffset, yoffset).z, zr)
            == read_z(s.z, zr),
{
    let w = z_row(zr);
    if w % 4 == acc_select(zrow) {
        assert forall|c: int| 0 <= c < 16 implies read_z(
            fma_apply(s, zrow, xoffset, yoffset).z,
            zr,
        )[c] == s.z[16 * w + c] + term_at(s, zrow, xoffset, yoffset, w / 4, c) by {
            let n = 16 * w + c;
            assert(n / 16 == w && n % 16 == c);
        }
    } else {
        assert forall|c: int| 0 <= c < 16 implies read_z(fma_apply(s, zrow, xoffset, yoffset).z, zr)[c]
            == read_z(s.z, zr)[c] by {
            let n = 16 * w + c;
            assert(n / 16 == w && n % 16 == c);
        }
        assert(read_z(fma_apply(s, zrow, xoffset, yoffset).z, zr) =~= read_z(s.z, zr));
    }
}

} // verus!
