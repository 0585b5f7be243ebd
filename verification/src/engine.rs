//! The coprocessor engine: register file, state control, loads and stores,
//! the fused outer-product accumulation, and the tiled 16x16 matrix
//! multiply.
//!
//! The register file is one piece of mutable hardware state with exactly one
//! owner at a time. [`Engine`] is that owner's capability: it is not
//! `Clone`, every mutating operation takes it by exclusive reference, and so
//! concurrent or nested use is ruled out by the type system rather than left
//! as a silent race.
//!
//! Addressing follows the hardware's fields exactly: X/Y register indices
//! are taken modulo 8 (a 3-bit field), Z row selectors modulo 64 (a 6-bit
//! field), the outer-product offsets are byte offsets into the 512-byte
//! X/Y banks (9-bit fields, 4 bytes per lane, 64 bytes per register,
//! wrapping across the bank), and the accumulator selector uses only the
//! low 2 bits of its 6-bit field. Offsets are taken at lane granularity:
//! the low two bits of a byte offset are ignored.
//!
//! Lane values are 64-bit integers standing for the unit's 32-bit
//! floating-point lanes; see the crate root for why the protocol's
//! guarantees do not depend on the carrier.

use vstd::prelude::*;
use vstd::pervasive::VecAdditionalExecFns;

verus! {

/// Lanes per register or accumulator row.
pub const LANES: usize = 16;

/// Registers per input bank (X and Y).
pub const XY_REGS: usize = 8;

/// Physical rows of the accumulator bank (Z).
pub const Z_ROWS: usize = 64;

/// The mathematical state of the engine: the enabled flag and the three
/// banks, each flattened lane by lane. Lane `j` of X/Y register `r` is
/// `x[16 * r + j]`; lane `c` of physical Z row `w` is `z[16 * w + c]`.
#[verifier::ext_equal]
pub struct EngineView {
    pub enabled: bool,
    pub x: Seq<int>,
    pub y: Seq<int>,
    pub z: Seq<int>,
}

/// A well-formed engine state: the banks have their hardware sizes.
pub open spec fn wf(s: EngineView) -> bool {
    s.x.len() == XY_REGS * LANES && s.y.len() == XY_REGS * LANES && s.z.len() == Z_ROWS * LANES
}

/// The lanes of a buffer, as mathematical integers.
pub open spec fn lanes(v: Seq<i64>) -> Seq<int> {
    v.map_values(|a: i64| a as int)
}

/// The register an X/Y index selects: indices are taken modulo 8 (the
/// hardware masks the 3-bit field).
pub open spec fn xy_index(regidx: u8) -> int {
    (regidx as int) % 8
}

/// The physical row a Z selector selects: rows are taken modulo 64 (the
/// hardware masks the 6-bit field).
pub open spec fn z_row(zrow: u8) -> int {
    (zrow as int) % 64
}

/// Which of the four interleaved accumulator matrices an outer product
/// lands in: only the low 2 bits of the selector are meaningful.
pub open spec fn acc_select(zrow: u8) -> int {
    (zrow as int) % 4
}

/// The first lane an outer-product byte offset selects: the offset is
/// masked to 9 bits and taken at lane (4-byte) granularity.
pub open spec fn lane_start(offset: u16) -> int {
    ((offset as int) % 512) / 4
}

/// Lane `i` of the 16-element vector an outer product draws from a bank,
/// starting at byte `offset` and wrapping across the bank's 128 lanes.
pub open spec fn bank_lane(bank: Seq<int>, offset: u16, i: int) -> int {
    bank[(lane_start(offset) + i) % 128]
}

/// An X/Y bank after loading the 16 lanes of `v` into the register that
/// `regidx` selects.
pub open spec fn load_xy(bank: Seq<int>, regidx: u8, v: Seq<int>) -> Seq<int> {
    Seq::new(128, |n: int| if 16 * xy_index(regidx) <= n < 16 * xy_index(regidx) + 16 {
        v[n - 16 * xy_index(regidx)]
    } else {
        bank[n]
    })
}

/// The 16 lanes of the X/Y register that `regidx` selects.
pub open spec fn read_xy(bank: Seq<int>, regidx: u8) -> Seq<int> {
    Seq::new(16, |j: int| bank[16 * xy_index(regidx) + j])
}

/// The Z bank after loading the 16 lanes of `v` into the physical row that
/// `zrow` selects.
pub open spec fn load_z(bank: Seq<int>, zrow: u8, v: Seq<int>) -> Seq<int> {
    Seq::new(1024, |n: int| if 16 * z_row(zrow) <= n < 16 * z_row(zrow) + 16 {
        v[n - 16 * z_row(zrow)]
    } else {
        bank[n]
    })
}

/// The 16 lanes of the physical Z row that `zrow` selects.
pub open spec fn read_z(bank: Seq<int>, zrow: u8) -> Seq<int> {
    Seq::new(16, |j: int| bank[16 * z_row(zrow) + j])
}

/// The state after the fused outer-product accumulation: row `r`, lane `c`
/// of accumulator matrix `acc_select(zrow)` — physical row `4 * r +
/// acc_select(zrow)` — gains the product of input lanes `r` and `c`; every
/// other physical row, and both input banks, are untouched.
pub open spec fn fma_apply(s: EngineView, zrow: u8, xoffset: u16, yoffset: u16) -> EngineView {
    EngineView {
        z: Seq::new(1024, |n: int| if (n / 16) % 4 == acc_select(zrow) {
            s.z[n] + bank_lane(s.x, xoffset, (n / 16) / 4) * bank_lane(s.y, yoffset, n % 16)
        } else {
            s.z[n]
        }),
        ..s
    }
}

/// Whether every lane the outer product writes stays representable in a
/// 64-bit lane: each product of input lanes, and each accumulator lane plus
/// that product, fits. A machine limit of the model, not of the protocol.
pub open spec fn fma_fits(s: EngineView, zrow: u8, xoffset: u16, yoffset: u16) -> bool {
    forall|r: int, c: int|
        0 <= r < 16 && 0 <= c < 16 ==> fits_i64(
            #[trigger] term_at(s, zrow, xoffset, yoffset, r, c),
        ) && fits_i64(s.z[16 * (4 * r + acc_select(zrow)) + c] + term_at(s, zrow, xoffset, yoffset, r, c))
}

/// The product the outer product adds at row `r`, lane `c`.
pub open spec fn term_at(s: EngineView, zrow: u8, xoffset: u16, yoffset: u16, r: int, c: int) -> int {
    bank_lane(s.x, xoffset, r) * bank_lane(s.y, yoffset, c)
}

/// Whether a mathematical value is representable as a 64-bit lane.
pub open spec fn fits_i64(v: int) -> bool {
    i64::MIN <= v <= i64::MAX
}

/// The Z bank part way through an outer-product accumulation: the lanes
/// whose pair index `16 * r + c` is below `upto` are already accumulated,
/// the rest still hold their old values. `fma_apply` is the `upto == 256`
/// end state.
spec fn fma_partial(s: EngineView, zrow: u8, xoffset: u16, yoffset: u16, upto: int) -> Seq<
    int,
> {
    Seq::new(1024, |n: int| if (n / 16) % 4 == acc_select(zrow) && ((n / 16) / 4) * 16 + n % 16
        < upto {
        s.z[n] + term_at(s, zrow, xoffset, yoffset, (n / 16) / 4, n % 16)
    } else {
        s.z[n]
    })
}

/// Largest entry magnitude `matmul` accepts: keeps every lane of the
/// accumulation representable in a 64-bit lane (16 products of two such
/// entries). A machine limit of the model, not of the protocol.
pub const ENTRY_BOUND: i64 = 0x1000_0000;

/// A 16x16 matrix of lanes, row by row.
pub open spec fn mat_view(m: Seq<Vec<i64>>) -> Seq<Seq<int>> {
    Seq::new(m.len(), |i: int| lanes(m[i]@))
}

/// Whether `m` is a 16x16 grid.
pub open spec fn is_mat16(m: Seq<Seq<int>>) -> bool {
    m.len() == 16 && forall|i: int| 0 <= i < 16 ==> (#[trigger] m[i]).len() == 16
}

/// Whether every entry of the 16x16 grid `m` has magnitude at most `bound`.
pub open spec fn bounded16(m: Seq<Seq<int>>, bound: int) -> bool {
    forall|i: int, j: int| 0 <= i < 16 && 0 <= j < 16 ==> -bound <= #[trigger] m[i][j] <= bound
}

/// Whether every lane of accumulator matrix `k` is zero in `s`.
pub open spec fn acc_zero(s: EngineView, k: int) -> bool {
    forall|n: int| 0 <= n < 1024 && (n / 16) % 4 == k ==> #[trigger] s.z[n] == 0
}

/// The first `k` terms of the contraction at entry `(i, j)`: the partial
/// sum over `m < k` of `a[m][i] * b[m][j]`.
pub open spec fn dot(a: Seq<Seq<int>>, b: Seq<Seq<int>>, i: int, j: int, k: nat) -> int
    decreases k,
{
    if k == 0 {
        0
    } else {
        dot(a, b, i, j, (k - 1) as nat) + a[k - 1][i] * b[k - 1][j]
    }
}

/// Entry `(i, j)` of the product `matmul` computes: the sum over all 16
/// rows `k` of `a[k][i] * b[k][j]`. Rows of `a` and `b` are contracted
/// against each other, so in row-major terms the result is `transpose(a)
/// * b`.
pub open spec fn mat_product(a: Seq<Seq<int>>, b: Seq<Seq<int>>, i: int, j: int) -> int {
    dot(a, b, i, j, 16)
}

/// A partial contraction of entries bounded by `bound` is bounded by `k`
/// products of two such entries.
proof fn lemma_dot_bound(
    a: Seq<Seq<int>>,
    b: Seq<Seq<int>>,
    i: int,
    j: int,
    k: nat,
    bound: int,
)
    requires
        is_mat16(a),
        is_mat16(b),
        bounded16(a, bound),
        bounded16(b, bound),
        0 <= i < 16,
        0 <= j < 16,
        k <= 16,
        bound >= 0,
    ensures
        -((k as int) * (bound * bound)) <= dot(a, b, i, j, k) <= (k as int) * (bound * bound),
    decreases k,
{
    let b2 = bound * bound;
    if k > 0 {
        lemma_dot_bound(a, b, i, j, (k - 1) as nat, bound);
        let av = a[k - 1][i];
        let bv = b[k - 1][j];
        assert(-b2 <= av * bv <= b2) by (nonlinear_arith)
            requires
                -bound <= av <= bound,
                -bound <= bv <= bound,
                b2 == bound * bound,
        ;
        assert(((k as int) - 1) * b2 + b2 == (k as int) * b2) by (nonlinear_arith);
    }
}

/// After loading the 16 lanes of `v` into register `rid`, the outer-product
/// vector drawn at byte offset `64 * rid` is exactly `v`.
proof fn lemma_loaded_register(bank0: Seq<int>, rid: u8, v: Seq<int>, xo: u16)
    requires
        bank0.len() == 128,
        v.len() == 16,
        rid < 8,
        xo == 64 * (rid as int),
    ensures
        forall|r: int| 0 <= r < 16 ==> #[trigger] bank_lane(load_xy(bank0, rid, v), xo, r) == v[r],
{
    assert(lane_start(xo) == 16 * (rid as int));
    assert forall|r: int| 0 <= r < 16 implies #[trigger] bank_lane(load_xy(bank0, rid, v), xo, r)
        == v[r] by {
        assert((16 * (rid as int) + r) % 128 == 16 * (rid as int) + r);
    }
}

/// One rank-1 update of the tile multiply: with row `k` of each operand in
/// the selected registers and accumulator matrix 0 holding the first `k`
/// terms of the contraction (on top of base state `z0` elsewhere), the
/// outer product fits in 64-bit lanes and advances the contraction to
/// `k + 1` terms.
proof fn lemma_matmul_step(
    s2: EngineView,
    z0: Seq<int>,
    va: Seq<Seq<int>>,
    vb: Seq<Seq<int>>,
    k: int,
    xo: u16,
)
    requires
        wf(s2),
        is_mat16(va),
        is_mat16(vb),
        bounded16(va, ENTRY_BOUND as int),
        bounded16(vb, ENTRY_BOUND as int),
        0 <= k < 16,
        forall|r: int| 0 <= r < 16 ==> #[trigger] bank_lane(s2.x, xo, r) == va[k][r],
        forall|r: int| 0 <= r < 16 ==> #[trigger] bank_lane(s2.y, xo, r) == vb[k][r],
        forall|n: int|
            0 <= n < 1024 ==> s2.z[n] == (if (n / 16) % 4 == 0 {
                dot(va, vb, (n / 16) / 4, n % 16, k as nat)
            } else {
                z0[n]
            }),
    ensures
        fma_fits(s2, 0, xo, xo),
        forall|n: int|
            0 <= n < 1024 ==> fma_apply(s2, 0, xo, xo).z[n] == (if (n / 16) % 4 == 0 {
                dot(va, vb, (n / 16) / 4, n % 16, (k + 1) as nat)
            } else {
                z0[n]
            }),
{
    assert(acc_select(0) == 0);
    assert forall|r: int, c: int| 0 <= r < 16 && 0 <= c < 16 implies fits_i64(
        #[trigger] term_at(s2, 0, xo, xo, r, c),
    ) && fits_i64(s2.z[16 * (4 * r + acc_select(0)) + c] + term_at(s2, 0, xo, xo, r, c)) by {
        lemma_dot_bound(va, vb, r, c, k as nat, ENTRY_BOUND as int);
        let av = va[k][r];
        let bv = vb[k][c];
        assert(-(0x1000_0000 * 0x1000_0000) <= av * bv <= 0x1000_0000 * 0x1000_0000)
            by (nonlinear_arith)
            requires
                -0x1000_0000 <= av <= 0x1000_0000,
                -0x1000_0000 <= bv <= 0x1000_0000,
        ;
        let n = 16 * (4 * r) + c;
        assert(n / 16 == 4 * r && n % 16 == c);
        assert((4 * r) % 4 == 0 && (4 * r) / 4 == r);
        assert(s2.z[n] == dot(va, vb, r, c, k as nat));
    }
    assert forall|n: int| 0 <= n < 1024 implies fma_apply(s2, 0, xo, xo).z[n] == (if (n / 16) % 4
        == 0 {
        dot(va, vb, (n / 16) / 4, n % 16, (k + 1) as nat)
    } else {
        z0[n]
    }) by {
        if (n / 16) % 4 == 0 {
            let r = (n / 16) / 4;
            let c = n % 16;
            assert(0 <= r < 16 && 0 <= c < 16);
            assert(fma_apply(s2, 0, xo, xo).z[n] == s2.z[n] + term_at(s2, 0, xo, xo, r, c));
            assert(dot(va, vb, r, c, (k + 1) as nat) == dot(va, vb, r, c, k as nat) + va[k][r]
                * vb[k][c]);
        }
    }
}

/// The exclusive capability over the coprocessor context and its register
/// file.
pub struct Engine {
    enabled: bool,
    x: Vec<i64>,
    y: Vec<i64>,
    z: Vec<i64>,
}

impl View for Engine {
    type V = EngineView;

    closed spec fn view(&self) -> EngineView {
        EngineView {
            enabled: self.enabled,
            x: lanes(self.x@),
            y: lanes(self.y@),
            z: lanes(self.z@),
        }
    }
}

impl Engine {
    /// A fresh context: disabled, with every lane of every bank zero.
    pub fn new() -> (e: Engine)
        ensures
            wf(e@),
            !e@.enabled,
            forall|n: int| 0 <= n < 128 ==> e@.x[n] == 0 && e@.y[n] == 0,
            forall|n: int| 0 <= n < 1024 ==> e@.z[n] == 0,
    {
        let mut x: Vec<i64> = Vec::new();
        let mut y: Vec<i64> = Vec::new();
        let mut z: Vec<i64> = Vec::new();
        for i in 0..128
            invariant
                x@.len() == i,
                y@.len() == i,
                forall|n: int| 0 <= n < i ==> x@[n] == 0i64 && y@[n] == 0i64,
        {
            x.push(0);
            y.push(0);
        }
        for i in 0..1024
            invariant
                z@.len() == i,
                forall|n: int| 0 <= n < i ==> z@[n] == 0i64,
        {
            z.push(0);
        }
        Engine { enabled: false, x, y, z }
    }

    /// Whether the execution context is currently enabled.
    pub fn enabled(&self) -> (b: bool)
        ensures
            b == self@.enabled,
    {
        self.enabled
    }

    /// Enables the execution context (instruction word: opcode 17, operand
    /// 0). Idempotent: on an already enabled context nothing changes. On a
    /// disabled context the register banks come up with unspecified
    /// contents; callers load them afresh before reading.
    pub fn set(&mut self)
        requires
            wf(old(self)@),
        ensures
            wf(final(self)@),
            final(self)@.enabled,
            old(self)@.enabled ==> final(self)@ == old(self)@,
    {
        self.enabled = true;
    }

    /// Disables the execution context (instruction word: opcode 17, operand
    /// 1). The logical contents of all register banks are unspecified
    /// afterwards; nothing may be read back without an intervening `set`
    /// and fresh loads.
    pub fn clr(&mut self)
        requires
            wf(old(self)@),
        ensures
            wf(final(self)@),
            !final(self)@.enabled,
    {
        self.enabled = false;
    }

    /// Loads the 16 lanes of `src` into X register `regidx & 0x7` (opcode
    /// 0, operand `xy_operand(regidx, src)`).
    pub fn ldx(&mut self, regidx: u8, src: &Vec<i64>)
        requires
            wf(old(self)@),
            old(self)@.enabled,
            src@.len() == 16,
        ensures
            wf(final(self)@),
            final(self)@ == (EngineView { x: load_xy(old(self)@.x, regidx, lanes(src@)), ..old(self)@ }),
    {
        let base: usize = 16 * ((regidx & 0x7) as usize);
        assert(regidx & 0x7 == regidx % 8 && regidx & 0x7 < 8) by (bit_vector);
        for j in 0..16
            invariant
                self.x@.len() == 128,
                self.y == old(self).y,
                self.z == old(self).z,
                self.enabled == old(self).enabled,
                base == 16 * xy_index(regidx),
                base + 16 <= 128,
                src@.len() == 16,
                forall|n: int|
                    0 <= n < 128 ==> self.x@[n] == (if base <= n < base + j {
                        src@[n - base]
                    } else {
                        old(self).x@[n]
                    }),
        {
            self.x.set(base + j, src[j]);
        }
        proof {
            assert(lanes(self.x@) =~= load_xy(lanes(old(self).x@), regidx, lanes(src@)));
            assert(self@ =~= (EngineView {
                x: load_xy(old(self)@.x, regidx, lanes(src@)),
                ..old(self)@
            }));
        }
    }

    /// Loads the 16 lanes of `src` into Y register `regidx & 0x7` (opcode
    /// 1, operand `xy_operand(regidx, src)`).
    pub fn ldy(&mut self, regidx: u8, src: &Vec<i64>)
        requires
            wf(old(self)@),
            old(self)@.enabled,
            src@.len() == 16,
        ensures
            wf(final(self)@),
            final(self)@ == (EngineView { y: load_xy(old(self)@.y, regidx, lanes(src@)), ..old(self)@ }),
    {
        let base: usize = 16 * ((regidx & 0x7) as usize);
        assert(regidx & 0x7 == regidx % 8 && regidx & 0x7 < 8) by (bit_vector);
        for j in 0..16
            invariant
                self.y@.len() == 128,
                self.x == old(self).x,
                self.z == old(self).z,
                self.enabled == old(self).enabled,
                base == 16 * xy_index(regidx),
                base + 16 <= 128,
                src@.len() == 16,
                forall|n: int|
                    0 <= n < 128 ==> self.y@[n] == (if base <= n < base + j {
                        src@[n - base]
                    } else {
                        old(self).y@[n]
                    }),
        {
            self.y.set(base + j, src[j]);
        }
        proof {
            assert(lanes(self.y@) =~= load_xy(lanes(old(self).y@), regidx, lanes(src@)));
            assert(self@ =~= (EngineView {
                y: load_xy(old(self)@.y, regidx, lanes(src@)),
                ..old(self)@
            }));
        }
    }

    /// Stores the 16 lanes of X register `regidx & 0x7` out to a fresh
    /// buffer (opcode 2, operand `xy_operand(regidx, dst)`).
    pub fn stx(&self, regidx: u8) -> (out: Vec<i64>)
        requires
            wf(self@),
            self@.enabled,
        ensures
            out@.len() == 16,
            lanes(out@) == read_xy(self@.x, regidx),
    {
        let base: usize = 16 * ((regidx & 0x7) as usize);
        assert(regidx & 0x7 == regidx % 8 && regidx & 0x7 < 8) by (bit_vector);
        let mut out: Vec<i64> = Vec::new();
        for j in 0..16
            invariant
                out@.len() == j,
                base == 16 * xy_index(regidx),
                base + 16 <= 128,
                self@.x.len() == 128,
                forall|n: int| 0 <= n < j ==> out@[n] == self.x@[base + n],
        {
            out.push(self.x[base + j]);
        }
        proof {
            assert(lanes(out@) =~= read_xy(self@.x, regidx));
        }
        out
    }

    /// Stores the 16 lanes of Y register `regidx & 0x7` out to a fresh
    /// buffer (opcode 3, operand `xy_operand(regidx, dst)`).
    pub fn sty(&self, regidx: u8) -> (out: Vec<i64>)
        requires
            wf(self@),
            self@.enabled,
        ensures
            out@.len() == 16,
            lanes(out@) == read_xy(self@.y, regidx),
    {
        let base: usize = 16 * ((regidx & 0x7) as usize);
        assert(regidx & 0x7 == regidx % 8 && regidx & 0x7 < 8) by (bit_vector);
        let mut out: Vec<i64> = Vec::new();
        for j in 0..16
            invariant
                out@.len() == j,
                base == 16 * xy_index(regidx),
                base + 16 <= 128,
                self@.y.len() == 128,
                forall|n: int| 0 <= n < j ==> out@[n] == self.y@[base + n],
        {
            out.push(self.y[base + j]);
        }
        proof {
            assert(lanes(out@) =~= read_xy(self@.y, regidx));
        }
        out
    }

    /// Loads the 16 lanes of `src` into physical Z row `zrow & 0x3f`
    /// (opcode 4, operand `z_operand(zrow, src)`).
    pub fn ldz(&mut self, zrow: u8, src: &Vec<i64>)
        requires
            wf(old(self)@),
            old(self)@.enabled,
            src@.len() == 16,
        ensures
            wf(final(self)@),
            final(self)@ == (EngineView { z: load_z(old(self)@.z, zrow, lanes(src@)), ..old(self)@ }),
    {
        let base: usize = 16 * ((zrow & 0x3f) as usize);
        assert(zrow & 0x3f == zrow % 64 && zrow & 0x3f < 64) by (bit_vector);
        for j in 0..16
            invariant
                self.z@.len() == 1024,
                self.x == old(self).x,
                self.y == old(self).y,
                self.enabled == old(self).enabled,
                base == 16 * z_row(zrow),
                base + 16 <= 1024,
                src@.len() == 16,
                forall|n: int|
                    0 <= n < 1024 ==> self.z@[n] == (if base <= n < base + j {
                        src@[n - base]
                    } else {
                        old(self).z@[n]
                    }),
        {
            self.z.set(base + j, src[j]);
        }
        proof {
            assert(lanes(self.z@) =~= load_z(lanes(old(self).z@), zrow, lanes(src@)));
            assert(self@ =~= (EngineView {
                z: load_z(old(self)@.z, zrow, lanes(src@)),
                ..old(self)@
            }));
        }
    }

    /// Stores the 16 lanes of physical Z row `zrow & 0x3f` out to a fresh
    /// buffer (opcode 5, operand `z_operand(zrow, dst)`).
    pub fn stz(&self, zrow: u8) -> (out: Vec<i64>)
        requires
            wf(self@),
            self@.enabled,
        ensures
            out@.len() == 16,
            lanes(out@) == read_z(self@.z, zrow),
    {
        let base: usize = 16 * ((zrow & 0x3f) as usize);
        assert(zrow & 0x3f == zrow % 64 && zrow & 0x3f < 64) by (bit_vector);
        let mut out: Vec<i64> = Vec::new();
        for j in 0..16
            invariant
                out@.len() == j,
                base == 16 * z_row(zrow),
                base + 16 <= 1024,
                self@.z.len() == 1024,
                forall|n: int| 0 <= n < j ==> out@[n] == self.z@[base + n],
        {
            out.push(self.z[base + j]);
        }
        proof {
            assert(lanes(out@) =~= read_z(self@.z, zrow));
        }
        out
    }

    /// Issues the fused outer-product accumulation (opcode 12, operand
    /// `fma_operand(zrow, xoffset, yoffset)`): the outer product of the
    /// 16-lane vector drawn from the X bank at byte `xoffset` with the one
    /// drawn from the Y bank at byte `yoffset` is added, element-wise, into
    /// accumulator matrix `zrow % 4`. This accumulates on top of the current
    /// contents — repeated calls add up — and touches no other accumulator
    /// matrix and neither input bank.
    pub fn fma32(&mut self, zrow: u8, xoffset: u16, yoffset: u16)
        requires
            wf(old(self)@),
            old(self)@.enabled,
            fma_fits(old(self)@, zrow, xoffset, yoffset),
        ensures
            wf(final(self)@),
            final(self)@ == fma_apply(old(self)@, zrow, xoffset, yoffset),
    {
        let sel: usize = (zrow % 4) as usize;
        let xs: usize = ((xoffset & 0x1ff) as usize) / 4;
        let ys: usize = ((yoffset & 0x1ff) as usize) / 4;
        assert(xoffset & 0x1ff == xoffset % 512 && xoffset & 0x1ff < 512) by (bit_vector);
        assert(yoffset & 0x1ff == yoffset % 512 && yoffset & 0x1ff < 512) by (bit_vector);
        proof {
            assert(lanes(self.z@) =~= fma_partial(old(self)@, zrow, xoffset, yoffset, 0));
        }
        for t in 0..256
            invariant
                self.x == old(self).x,
                self.y == old(self).y,
                self.enabled == old(self).enabled,
                self.z@.len() == 1024,
                wf(old(self)@),
                fma_fits(old(self)@, zrow, xoffset, yoffset),
                sel == acc_select(zrow),
                xs == lane_start(xoffset),
                ys == lane_start(yoffset),
                xs < 128,
                ys < 128,
                sel < 4,
                lanes(self.z@) == fma_partial(old(self)@, zrow, xoffset, yoffset, t as int),
        {
            let r = t / 16;
            let c = t % 16;
            let xi = (xs + r) % 128;
            let yi = (ys + c) % 128;
            let zi = 16 * (4 * r + sel) + c;
            let xv = self.x[xi];
            let yv = self.y[yi];
            let ghost s0 = old(self)@;
            proof {
                assert(xv as int == bank_lane(s0.x, xoffset, r as int));
                assert(yv as int == bank_lane(s0.y, yoffset, c as int));
                assert(zi as int / 16 == 4 * (r as int) + sel);
                assert(zi as int % 16 == c as int);
                assert((4 * (r as int) + sel) % 4 == sel);
                assert((4 * (r as int) + sel) / 4 == r as int);
                assert(fits_i64(term_at(s0, zrow, xoffset, yoffset, r as int, c as int)));
                assert(fits_i64(
                    s0.z[16 * (4 * (r as int) + acc_select(zrow)) + c] + term_at(
                        s0,
                        zrow,
                        xoffset,
                        yoffset,
                        r as int,
                        c as int,
                    ),
                ));
                assert(lanes(self.z@)[zi as int] == s0.z[zi as int]);
                assert(16 * (r as int) + (c as int) == t as int);
            }
            let p = xv * yv;
            let zv = self.z[zi];
            self.z.set(zi, zv + p);
            proof {
                assert forall|n: int| 0 <= n < 1024 implies lanes(self.z@)[n] == fma_partial(
                    s0,
                    zrow,
                    xoffset,
                    yoffset,
                    t + 1,
                )[n] by {
                    if n == zi as int {
                        assert(lanes(self.z@)[n] == s0.z[n] + term_at(
                            s0,
                            zrow,
                            xoffset,
                            yoffset,
                            r as int,
                            c as int,
                        ));
                        assert(((n / 16) / 4) * 16 + n % 16 == t as int);
                    } else if (n / 16) % 4 == acc_select(zrow) {
                        let w = n / 16;
                        assert(n == 16 * w + n % 16);
                        assert(w == 4 * (w / 4) + w % 4);
                        assert(lanes(self.z@)[n] == fma_partial(s0, zrow, xoffset, yoffset, t as int)[n]);
                        if (w / 4) * 16 + n % 16 == t as int {
                            assert(w / 4 == r as int && n % 16 == c as int);
                            assert(n == zi as int);
                        }
                    } else {
                        assert(lanes(self.z@)[n] == fma_partial(s0, zrow, xoffset, yoffset, t as int)[n]);
                    }
                }
                assert(lanes(self.z@) =~= fma_partial(s0, zrow, xoffset, yoffset, t + 1));
            }
        }
        proof {
            assert forall|n: int| 0 <= n < 1024 implies lanes(self.z@)[n] == fma_apply(
                old(self)@,
                zrow,
                xoffset,
                yoffset,
            ).z[n] by {
                if (n / 16) % 4 == acc_select(zrow) {
                    assert(n / 16 < 64);
                    assert(((n / 16) / 4) * 16 + n % 16 < 256);
                }
            }
            assert(lanes(self.z@) =~= fma_apply(old(self)@, zrow, xoffset, yoffset).z);
            assert(self@ =~= fma_apply(old(self)@, zrow, xoffset, yoffset));
        }
    }

    /// The tiled 16x16 matrix multiply: contracts the rows of `a` against
    /// the rows of `b` (in row-major terms the result is `transpose(a) * b`)
    /// as 16 rank-1 outer-product updates into accumulator matrix 0 — row
    /// `k` of each operand goes to X/Y register `k % 8`, each input bank
    /// having only eight registers, so the second eight rows overwrite the
    /// first — then reads the result back from physical Z rows 0, 4, ...,
    /// 60.
    ///
    /// Accumulator matrix 0 must be logically zero on entry — the multiply
    /// accumulates and does not clear — and holds the product afterwards;
    /// the other three accumulator matrices are untouched. The X and Y banks
    /// are clobbered by the operand loads.
    #[verifier::rlimit(60)]
    pub fn matmul(&mut self, a: &Vec<Vec<i64>>, b: &Vec<Vec<i64>>) -> (c: Vec<Vec<i64>>)
        requires
            wf(old(self)@),
            old(self)@.enabled,
            is_mat16(mat_view(a@)),
            is_mat16(mat_view(b@)),
            bounded16(mat_view(a@), ENTRY_BOUND as int),
            bounded16(mat_view(b@), ENTRY_BOUND as int),
            acc_zero(old(self)@, 0),
        ensures
            wf(final(self)@),
            final(self)@.enabled,
            is_mat16(mat_view(c@)),
            forall|i: int, j: int|
                0 <= i < 16 && 0 <= j < 16 ==> mat_view(c@)[i][j] == mat_product(
                    mat_view(a@),
                    mat_view(b@),
                    i,
                    j,
                ),
            forall|n: int|
                0 <= n < 1024 ==> final(self)@.z[n] == (if (n / 16) % 4 == 0 {
                    mat_product(mat_view(a@), mat_view(b@), (n / 16) / 4, n % 16)
                } else {
                    old(self)@.z[n]
                }),
    {
        let ghost va = mat_view(a@);
        let ghost vb = mat_view(b@);
        for k in 0..16usize
            invariant
                wf(self@),
                self@.enabled,
                is_mat16(va),
                is_mat16(vb),
                va == mat_view(a@),
                vb == mat_view(b@),
                bounded16(va, ENTRY_BOUND as int),
                bounded16(vb, ENTRY_BOUND as int),
                a@.len() == 16,
                b@.len() == 16,
                forall|n: int|
                    0 <= n < 1024 ==> self@.z[n] == (if (n / 16) % 4 == 0 {
                        dot(va, vb, (n / 16) / 4, n % 16, k as nat)
                    } else {
                        old(self)@.z[n]
                    }),
        {
            let ridx = k % 8;
            let ghost sh = self@;
            proof {
                assert(mat_view(a@)[k as int] == lanes(a@[k as int]@));
                assert(mat_view(b@)[k as int] == lanes(b@[k as int]@));
                assert(a@[k as int]@.len() == 16 && b@[k as int]@.len() == 16);
            }
            self.ldx(ridx as u8, &a[k]);
            self.ldy(ridx as u8, &b[k]);
            let ghost s2 = self@;
            let xo: u16 = (64 * ridx) as u16;
            proof {
                lemma_loaded_register(sh.x, ridx as u8, lanes(a@[k as int]@), xo);
                lemma_loaded_register(sh.y, ridx as u8, lanes(b@[k as int]@), xo);
                assert(s2.x == load_xy(sh.x, ridx as u8, lanes(a@[k as int]@)));
                assert(s2.y == load_xy(sh.y, ridx as u8, lanes(b@[k as int]@)));
                assert(s2.z == sh.z);
                lemma_matmul_step(s2, old(self)@.z, va, vb, k as int, xo);
            }
            self.fma32(0, xo, xo);
        }
        let mut output: Vec<Vec<i64>> = Vec::new();
        for i in 0..16usize
            invariant
                wf(self@),
                self@.enabled,
                output@.len() == i,
                forall|n: int|
                    0 <= n < 1024 ==> self@.z[n] == (if (n / 16) % 4 == 0 {
                        dot(va, vb, (n / 16) / 4, n % 16, 16)
                    } else {
                        old(self)@.z[n]
                    }),
                forall|ii: int| 0 <= ii < i ==> (#[trigger] mat_view(output@)[ii]).len() == 16,
                forall|ii: int, j: int|
                    0 <= ii < i && 0 <= j < 16 ==> #[trigger] mat_view(output@)[ii][j] == dot(
                        va,
                        vb,
                        ii,
                        j,
                        16,
                    ),
        {
            let zr: u8 = (4 * i) as u8;
            let row = self.stz(zr);
            proof {
                assert forall|j: int| 0 <= j < 16 implies lanes(row@)[j] == dot(
                    va,
                    vb,
                    i as int,
                    j,
                    16,
                ) by {
                    let n = 16 * (4 * (i as int)) + j;
                    assert(n / 16 == 4 * (i as int) && n % 16 == j);
                    assert((4 * (i as int)) % 4 == 0 && (4 * (i as int)) / 4 == i as int);
                    assert(lanes(row@)[j] == self@.z[n]);
                }
            }
            let ghost out0 = output@;
            output.push(row);
            proof {
                assert forall|ii: int| 0 <= ii < i + 1 implies (#[trigger] mat_view(output@)[ii]).len()
                    == 16 by {
                    if ii < i {
                        assert(mat_view(output@)[ii] == lanes(output@[ii]@));
                        assert(output@[ii] == out0[ii]);
                        assert(mat_view(out0)[ii] == lanes(out0[ii]@));
                    } else {
                        assert(mat_view(output@)[ii] == lanes(row@));
                    }
                }
                assert forall|ii: int, j: int| 0 <= ii < i + 1 && 0 <= j < 16 implies #[trigger] mat_view(
                    output@,
                )[ii][j] == dot(va, vb, ii, j, 16) by {
                    if ii < i {
                        assert(output@[ii] == out0[ii]);
                        assert(mat_view(out0)[ii][j] == dot(va, vb, ii, j, 16));
                        assert(mat_view(output@)[ii] == lanes(output@[ii]@));
                        assert(mat_view(out0)[ii] == lanes(out0[ii]@));
                    } else {
                        assert(mat_view(output@)[ii] == lanes(row@));
                        assert(lanes(row@)[j] == dot(va, vb, ii, j, 16));
                    }
                }
            }
        }
        proof {
            assert(va == mat_view(a@) && vb == mat_view(b@));
        }
        output
    }
}

} // verus!
