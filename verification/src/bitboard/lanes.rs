//! Arithmetic on words split into 6-bit lanes: a `u64` holds ten lanes (one
//! per board column), a `u32` holds four (one per column of a piece).
use vstd::prelude::*;

verus! {

/// Lane `i` of a 64-bit word: bits `6i` to `6i + 5`.
pub open spec fn lane(w: u64, i: int) -> u64 {
    (w >> ((6 * i) as u64)) & 63
}

/// Lane `j` of a 32-bit word.
pub open spec fn lane32(w: u32, j: int) -> u32 {
    (w >> ((6 * j) as u32)) & 63
}

/// The ten lanes of a word below 2^60 determine it.
pub open spec fn fits60(w: u64) -> bool {
    w < 0x1000_0000_0000_0000
}

pub proof fn lemma_lane_concrete(w: u64)
    ensures
        lane(w, 0) == (w >> 0u64) & 63u64,
        lane(w, 1) == (w >> 6u64) & 63u64,
        lane(w, 2) == (w >> 12u64) & 63u64,
        lane(w, 3) == (w >> 18u64) & 63u64,
        lane(w, 4) == (w >> 24u64) & 63u64,
        lane(w, 5) == (w >> 30u64) & 63u64,
        lane(w, 6) == (w >> 36u64) & 63u64,
        lane(w, 7) == (w >> 42u64) & 63u64,
        lane(w, 8) == (w >> 48u64) & 63u64,
        lane(w, 9) == (w >> 54u64) & 63u64,
{
}

pub proof fn lemma_lane32_concrete(w: u32)
    ensures
        lane32(w, 0) == (w >> 0u32) & 63u32,
        lane32(w, 1) == (w >> 6u32) & 63u32,
        lane32(w, 2) == (w >> 12u32) & 63u32,
        lane32(w, 3) == (w >> 18u32) & 63u32,
        lane32(w, 4) == (w >> 24u32) & 63u32,
{
}

proof fn bv_sub10(a: u64, b: u64)
    by (bit_vector)
    requires
        a < 0x1000_0000_0000_0000u64,
        b < 0x1000_0000_0000_0000u64,
        ((b >> 0u64) & 63u64) <= ((a >> 0u64) & 63u64),
        ((b >> 6u64) & 63u64) <= ((a >> 6u64) & 63u64),
        ((b >> 12u64) & 63u64) <= ((a >> 12u64) & 63u64),
        ((b >> 18u64) & 63u64) <= ((a >> 18u64) & 63u64),
        ((b >> 24u64) & 63u64) <= ((a >> 24u64) & 63u64),
        ((b >> 30u64) & 63u64) <= ((a >> 30u64) & 63u64),
        ((b >> 36u64) & 63u64) <= ((a >> 36u64) & 63u64),
        ((b >> 42u64) & 63u64) <= ((a >> 42u64) & 63u64),
        ((b >> 48u64) & 63u64) <= ((a >> 48u64) & 63u64),
        ((b >> 54u64) & 63u64) <= ((a >> 54u64) & 63u64),
    ensures
        b <= a,
        ((((a - b) as u64) >> 0u64) & 63u64) == ((a >> 0u64) & 63u64) - ((b >> 0u64) & 63u64),
        ((((a - b) as u64) >> 6u64) & 63u64) == ((a >> 6u64) & 63u64) - ((b >> 6u64) & 63u64),
        ((((a - b) as u64) >> 12u64) & 63u64) == ((a >> 12u64) & 63u64) - ((b >> 12u64) & 63u64),
        ((((a - b) as u64) >> 18u64) & 63u64) == ((a >> 18u64) & 63u64) - ((b >> 18u64) & 63u64),
        ((((a - b) as u64) >> 24u64) & 63u64) == ((a >> 24u64) & 63u64) - ((b >> 24u64) & 63u64),
        ((((a - b) as u64) >> 30u64) & 63u64) == ((a >> 30u64) & 63u64) - ((b >> 30u64) & 63u64),
        ((((a - b) as u64) >> 36u64) & 63u64) == ((a >> 36u64) & 63u64) - ((b >> 36u64) & 63u64),
        ((((a - b) as u64) >> 42u64) & 63u64) == ((a >> 42u64) & 63u64) - ((b >> 42u64) & 63u64),
        ((((a - b) as u64) >> 48u64) & 63u64) == ((a >> 48u64) & 63u64) - ((b >> 48u64) & 63u64),
        ((((a - b) as u64) >> 54u64) & 63u64) == ((a >> 54u64) & 63u64) - ((b >> 54u64) & 63u64),
{
}

proof fn bv_add10(a: u64, b: u64)
    by (bit_vector)
    requires
        a < 0x1000_0000_0000_0000u64,
        b < 0x1000_0000_0000_0000u64,
        ((a >> 0u64) & 63u64) + ((b >> 0u64) & 63u64) < 64,
        ((a >> 6u64) & 63u64) + ((b >> 6u64) & 63u64) < 64,
        ((a >> 12u64) & 63u64) + ((b >> 12u64) & 63u64) < 64,
        ((a >> 18u64) & 63u64) + ((b >> 18u64) & 63u64) < 64,
        ((a >> 24u64) & 63u64) + ((b >> 24u64) & 63u64) < 64,
        ((a >> 30u64) & 63u64) + ((b >> 30u64) & 63u64) < 64,
        ((a >> 36u64) & 63u64) + ((b >> 36u64) & 63u64) < 64,
        ((a >> 42u64) & 63u64) + ((b >> 42u64) & 63u64) < 64,
        ((a >> 48u64) & 63u64) + ((b >> 48u64) & 63u64) < 64,
        ((a >> 54u64) & 63u64) + ((b >> 54u64) & 63u64) < 64,
    ensures
        a + b < 0x1000_0000_0000_0000u64,
        ((((a + b) as u64) >> 0u64) & 63u64) == ((a >> 0u64) & 63u64) + ((b >> 0u64) & 63u64),
        ((((a + b) as u64) >> 6u64) & 63u64) == ((a >> 6u64) & 63u64) + ((b >> 6u64) & 63u64),
        ((((a + b) as u64) >> 12u64) & 63u64) == ((a >> 12u64) & 63u64) + ((b >> 12u64) & 63u64),
        ((((a + b) as u64) >> 18u64) & 63u64) == ((a >> 18u64) & 63u64) + ((b >> 18u64) & 63u64),
        ((((a + b) as u64) >> 24u64) & 63u64) == ((a >> 24u64) & 63u64) + ((b >> 24u64) & 63u64),
        ((((a + b) as u64) >> 30u64) & 63u64) == ((a >> 30u64) & 63u64) + ((b >> 30u64) & 63u64),
        ((((a + b) as u64) >> 36u64) & 63u64) == ((a >> 36u64) & 63u64) + ((b >> 36u64) & 63u64),
        ((((a + b) as u64) >> 42u64) & 63u64) == ((a >> 42u64) & 63u64) + ((b >> 42u64) & 63u64),
        ((((a + b) as u64) >> 48u64) & 63u64) == ((a >> 48u64) & 63u64) + ((b >> 48u64) & 63u64),
        ((((a + b) as u64) >> 54u64) & 63u64) == ((a >> 54u64) & 63u64) + ((b >> 54u64) & 63u64),
{
}

proof fn bv_eq10(a: u64, b: u64)
    by (bit_vector)
    requires
        a < 0x1000_0000_0000_0000u64,
        b < 0x1000_0000_0000_0000u64,
        ((a >> 0u64) & 63u64) == ((b >> 0u64) & 63u64),
        ((a >> 6u64) & 63u64) == ((b >> 6u64) & 63u64),
        ((a >> 12u64) & 63u64) == ((b >> 12u64) & 63u64),
        ((a >> 18u64) & 63u64) == ((b >> 18u64) & 63u64),
        ((a >> 24u64) & 63u64) == ((b >> 24u64) & 63u64),
        ((a >> 30u64) & 63u64) == ((b >> 30u64) & 63u64),
        ((a >> 36u64) & 63u64) == ((b >> 36u64) & 63u64),
        ((a >> 42u64) & 63u64) == ((b >> 42u64) & 63u64),
        ((a >> 48u64) & 63u64) == ((b >> 48u64) & 63u64),
        ((a >> 54u64) & 63u64) == ((b >> 54u64) & 63u64),
    ensures
        a == b,
{
}

proof fn bv_sub4(a: u32, b: u32)
    by (bit_vector)
    requires
        a < 0x100_0000u32,
        b < 0x100_0000u32,
        ((b >> 0u32) & 63u32) <= ((a >> 0u32) & 63u32),
        ((b >> 6u32) & 63u32) <= ((a >> 6u32) & 63u32),
        ((b >> 12u32) & 63u32) <= ((a >> 12u32) & 63u32),
        ((b >> 18u32) & 63u32) <= ((a >> 18u32) & 63u32),
    ensures
        b <= a,
        a - b < 0x100_0000u32,
        ((((a - b) as u32) >> 0u32) & 63u32) == ((a >> 0u32) & 63u32) - ((b >> 0u32) & 63u32),
        ((((a - b) as u32) >> 6u32) & 63u32) == ((a >> 6u32) & 63u32) - ((b >> 6u32) & 63u32),
        ((((a - b) as u32) >> 12u32) & 63u32) == ((a >> 12u32) & 63u32) - ((b >> 12u32) & 63u32),
        ((((a - b) as u32) >> 18u32) & 63u32) == ((a >> 18u32) & 63u32) - ((b >> 18u32) & 63u32),
{
}

proof fn bv_eq4(a: u32, b: u32)
    by (bit_vector)
    requires
        a < 0x100_0000u32,
        b < 0x100_0000u32,
        ((a >> 0u32) & 63u32) == ((b >> 0u32) & 63u32),
        ((a >> 6u32) & 63u32) == ((b >> 6u32) & 63u32),
        ((a >> 12u32) & 63u32) == ((b >> 12u32) & 63u32),
        ((a >> 18u32) & 63u32) == ((b >> 18u32) & 63u32),
    ensures
        a == b,
{
}

proof fn bv_spread10(k: u64)
    by (bit_vector)
    requires
        k < 64,
    ensures
        k * 0o01010101010101010101u64 < 0x1000_0000_0000_0000u64,
        ((((k * 0o01010101010101010101u64) as u64) >> 0u64) & 63u64) == k,
        ((((k * 0o01010101010101010101u64) as u64) >> 6u64) & 63u64) == k,
        ((((k * 0o01010101010101010101u64) as u64) >> 12u64) & 63u64) == k,
        ((((k * 0o01010101010101010101u64) as u64) >> 18u64) & 63u64) == k,
        ((((k * 0o01010101010101010101u64) as u64) >> 24u64) & 63u64) == k,
        ((((k * 0o01010101010101010101u64) as u64) >> 30u64) & 63u64) == k,
        ((((k * 0o01010101010101010101u64) as u64) >> 36u64) & 63u64) == k,
        ((((k * 0o01010101010101010101u64) as u64) >> 42u64) & 63u64) == k,
        ((((k * 0o01010101010101010101u64) as u64) >> 48u64) & 63u64) == k,
        ((((k * 0o01010101010101010101u64) as u64) >> 54u64) & 63u64) == k,
{
}

proof fn bv_spread4(k: u32, m: u32)
    by (bit_vector)
    requires
        k < 64,
        m == 1u32 || m == 0x41u32 || m == 0x1041u32 || m == 0x41041u32,
    ensures
        k * m < 0x100_0000u32,
        (((k * m) as u32) >> 0u32) & 63u32 == k * ((m >> 0u32) & 63u32),
        (((k * m) as u32) >> 6u32) & 63u32 == k * ((m >> 6u32) & 63u32),
        (((k * m) as u32) >> 12u32) & 63u32 == k * ((m >> 12u32) & 63u32),
        (((k * m) as u32) >> 18u32) & 63u32 == k * ((m >> 18u32) & 63u32),
{
}

proof fn bv_guard_down10(a: u64)
    by (bit_vector)
    requires
        a & !0o40404040404040404040u64 == 0,
    ensures
        (((a >> 5u64) >> 0u64) & 63u64) == ((a >> 0u64) & 63u64) >> 5u64,
        (((a >> 5u64) >> 6u64) & 63u64) == ((a >> 6u64) & 63u64) >> 5u64,
        (((a >> 5u64) >> 12u64) & 63u64) == ((a >> 12u64) & 63u64) >> 5u64,
        (((a >> 5u64) >> 18u64) & 63u64) == ((a >> 18u64) & 63u64) >> 5u64,
        (((a >> 5u64) >> 24u64) & 63u64) == ((a >> 24u64) & 63u64) >> 5u64,
        (((a >> 5u64) >> 30u64) & 63u64) == ((a >> 30u64) & 63u64) >> 5u64,
        (((a >> 5u64) >> 36u64) & 63u64) == ((a >> 36u64) & 63u64) >> 5u64,
        (((a >> 5u64) >> 42u64) & 63u64) == ((a >> 42u64) & 63u64) >> 5u64,
        (((a >> 5u64) >> 48u64) & 63u64) == ((a >> 48u64) & 63u64) >> 5u64,
        (((a >> 5u64) >> 54u64) & 63u64) == ((a >> 54u64) & 63u64) >> 5u64,
{
}

proof fn bv_guard_down4(a: u32)
    by (bit_vector)
    requires
        a & !0o40404040u32 == 0,
    ensures
        a >> 5u32 < 0x100_0000u32,
        (((a >> 5u32) >> 0u32) & 63u32) == ((a >> 0u32) & 63u32) >> 5u32,
        (((a >> 5u32) >> 6u32) & 63u32) == ((a >> 6u32) & 63u32) >> 5u32,
        (((a >> 5u32) >> 12u32) & 63u32) == ((a >> 12u32) & 63u32) >> 5u32,
        (((a >> 5u32) >> 18u32) & 63u32) == ((a >> 18u32) & 63u32) >> 5u32,
{
}

proof fn bv_and_shift(a: u64, b: u64, s: u64)
    by (bit_vector)
    ensures
        ((a & b) >> s) & 63u64 == ((a >> s) & 63u64) & ((b >> s) & 63u64),
        ((a | b) >> s) & 63u64 == ((a >> s) & 63u64) | ((b >> s) & 63u64),
        ((!a) >> s) & 63u64 == (!((a >> s) & 63u64)) & 63u64 || s >= 59,
{
}

proof fn bv_and_shift32(a: u32, b: u32, s: u32)
    by (bit_vector)
    ensures
        ((a & b) >> s) & 63u32 == ((a >> s) & 63u32) & ((b >> s) & 63u32),
        ((a | b) >> s) & 63u32 == ((a >> s) & 63u32) | ((b >> s) & 63u32),
        s <= 26 ==> ((!a) >> s) & 63u32 == (!((a >> s) & 63u32)) & 63u32,
{
}

proof fn bv_shr_shr(a: u64, s: u64, t: u64)
    by (bit_vector)
    requires
        s + t < 64,
    ensures
        ((a >> s) >> t) & 63u64 == (a >> (s + t)) & 63u64,
{
}

proof fn bv_shl_lane(a: u64, s: u64, t: u64)
    by (bit_vector)
    requires
        s < 64,
        t + 6 <= 64,
    ensures
        t >= s ==> ((a << s) >> t) & 63u64 == (a >> ((t - s) as u64)) & 63u64,
        t + 6 <= s ==> ((a << s) >> t) & 63u64 == 0,
{
}

proof fn bv_narrow(a: u64, t: u32)
    by (bit_vector)
    requires
        t <= 24,
    ensures
        (((a as u32) >> t) & 63u32) as u64 == (a >> (t as u64)) & 63u64,
{
}

proof fn bv_widen(a: u32, t: u64)
    by (bit_vector)
    requires
        t <= 24,
    ensures
        ((a as u64) >> t) & 63u64 == (((a >> (t as u32)) & 63u32) as u64),
{
}

/// Facts about small values that the board code relies on.
pub proof fn lemma_small_bits(v: u64, w: u32)
    ensures
        v & 0 == 0,
        v | 0 == v,
        0 | v == v,
        v | v == v,
        w & 0 == 0,
        w | 0 == w,
        0 | w == w,
        v < 64 ==> (!v) & 63 == 63 - v,
        w < 64 ==> (!w) & 63 == 63 - w,
        v < 64 ==> v & 63 == v,
        w < 64 ==> w & 63 == w,
        v < 64 ==> v >> 5 == (if v >= 32 { 1u64 } else { 0u64 }),
        w < 64 ==> w >> 5 == (if w >= 32 { 1u32 } else { 0u32 }),
        v < 32 ==> v & 31 == v,
        v < 32 ==> v | 32 == v + 32,
        v < 64 ==> (v & 32 == 32 <==> v >= 32),
        v < 64 ==> (v & 32 == 32 || v & 32 == 0),
        32 <= v < 64 ==> v & 31 == v - 32,
        w < 32 ==> w & 31 == w,
        w < 32 ==> w | 32 == w + 32,
        w < 64 ==> (w & 32 == 32 <==> w >= 32),
        w < 64 ==> (w & 32 == 32 || w & 32 == 0),
        32 <= w < 64 ==> w & 31 == w - 32,
{
    bv_small(v, w);
}

proof fn bv_small(v: u64, w: u32)
    by (bit_vector)
    ensures
        v & 0 == 0,
        v | 0 == v,
        0 | v == v,
        v | v == v,
        w & 0 == 0,
        w | 0 == w,
        0 | w == w,
        v < 64 ==> (!v) & 63 == 63 - v,
        w < 64 ==> (!w) & 63 == 63 - w,
        v < 64 ==> v & 63 == v,
        w < 64 ==> w & 63 == w,
        v < 64 ==> v >> 5 == (if v >= 32 { 1u64 } else { 0u64 }),
        w < 64 ==> w >> 5 == (if w >= 32 { 1u32 } else { 0u32 }),
        v < 32 ==> v & 31 == v,
        v < 32 ==> v | 32 == v + 32,
        v < 64 ==> (v & 32 == 32 <==> v >= 32),
        v < 64 ==> (v & 32 == 32 || v & 32 == 0),
        32 <= v < 64 ==> v & 31 == v - 32,
        w < 32 ==> w & 31 == w,
        w < 32 ==> w | 32 == w + 32,
        w < 64 ==> (w & 32 == 32 <==> w >= 32),
        w < 64 ==> (w & 32 == 32 || w & 32 == 0),
        32 <= w < 64 ==> w & 31 == w - 32,
{
}

/// A mask never exceeds what it is taken with.
pub proof fn lemma_and_le(a: u64, b: u64, c: u32, d: u32)
    by (bit_vector)
    ensures
        a & b <= b,
        c & d <= d,
        a & b <= a,
        c & d <= c,
        a >> 5u64 <= a,
        a | b <= a + b,
{
}

/// Bit `r` of a column of `c` cells starting at row `b`.
pub proof fn lemma_column_bits(b: u32, c: u32, r: u32)
    by (bit_vector)
    requires
        b <= 2,
        1 <= c <= 4,
        r < 6,
    ensures
        (((((1u32 << c) - 1u32) as u32) << b) >> r) & 1u32 == 1u32 <==> (b <= r && r < b + c),
        (((((1u32 << c) - 1u32) as u32) << b) >> r) & 1u32 == 1u32 || (((((1u32 << c) - 1u32) as u32) << b) >> r) & 1u32 == 0u32,
        b + c <= 4 ==> ((((1u32 << c) - 1u32) as u32) << b) < 16,
{
}

proof fn bv_row_select(a: u32, m: u32, r: u32)
    by (bit_vector)
    requires
        r < 6,
        m == 1u32 || m == 0x41u32 || m == 0x1041u32 || m == 0x41041u32,
    ensures
        (((a >> r) & m) << 5u32) < 0x100_0000u32,
        ((m >> 0u32) & 63u32) == 1u32 ==> (((((a >> r) & m) << 5u32) >> 0u32) & 63u32) == ((((a >> 0u32) & 63u32) >> r) & 1u32) << 5u32,
        ((m >> 0u32) & 63u32) == 0u32 ==> (((((a >> r) & m) << 5u32) >> 0u32) & 63u32) == 0u32,
        ((m >> 6u32) & 63u32) == 1u32 ==> (((((a >> r) & m) << 5u32) >> 6u32) & 63u32) == ((((a >> 6u32) & 63u32) >> r) & 1u32) << 5u32,
        ((m >> 6u32) & 63u32) == 0u32 ==> (((((a >> r) & m) << 5u32) >> 6u32) & 63u32) == 0u32,
        ((m >> 12u32) & 63u32) == 1u32 ==> (((((a >> r) & m) << 5u32) >> 12u32) & 63u32) == ((((a >> 12u32) & 63u32) >> r) & 1u32) << 5u32,
        ((m >> 12u32) & 63u32) == 0u32 ==> (((((a >> r) & m) << 5u32) >> 12u32) & 63u32) == 0u32,
        ((m >> 18u32) & 63u32) == 1u32 ==> (((((a >> r) & m) << 5u32) >> 18u32) & 63u32) == ((((a >> 18u32) & 63u32) >> r) & 1u32) << 5u32,
        ((m >> 18u32) & 63u32) == 0u32 ==> (((((a >> r) & m) << 5u32) >> 18u32) & 63u32) == 0u32,
{
}

/// Row `r` of each of the first lanes of `a`, as a guard bit (32) per lane.
pub proof fn lemma_row_select(a: u32, m: u32, r: u32)
    requires
        r < 6,
        m == 1u32 || m == 0x41u32 || m == 0x1041u32 || m == 0x41041u32,
    ensures
        (((a >> r) & m) << 5u32) < 0x100_0000,
        forall|j: int|
            0 <= j < 4 && lane32(m, j) == 1 ==> #[trigger] lane32(((a >> r) & m) << 5u32, j) == ((lane32(a, j) >> r)
                & 1u32) << 5u32,
        forall|j: int| 0 <= j < 4 && lane32(m, j) == 0 ==> #[trigger] lane32(((a >> r) & m) << 5u32, j) == 0,
{
    lemma_lane32_concrete(a);
    lemma_lane32_concrete(m);
    lemma_lane32_concrete(((a >> r) & m) << 5u32);
    bv_row_select(a, m, r);
    assert forall|j: int|
        0 <= j < 4 && lane32(m, j) == 1 implies #[trigger] lane32(((a >> r) & m) << 5u32, j) == ((lane32(a, j) >> r)
            & 1u32) << 5u32 by {
        assert(j == 0 || j == 1 || j == 2 || j == 3);
    }
    assert forall|j: int| 0 <= j < 4 && lane32(m, j) == 0 implies #[trigger] lane32(((a >> r) & m) << 5u32, j) == 0 by {
        assert(j == 0 || j == 1 || j == 2 || j == 3);
    }
}

/// One bit of a small value.
pub proof fn lemma_bit_of(v: u32, r: u32)
    by (bit_vector)
    ensures
        (v >> r) & 1u32 == 1u32 || (v >> r) & 1u32 == 0u32,
        ((v >> r) & 1u32) << 5u32 == 32u32 || ((v >> r) & 1u32) << 5u32 == 0u32,
        ((v >> r) & 1u32) << 5u32 == 32u32 <==> (v >> r) & 1u32 == 1u32,
{
}

/// A shift by a narrow amount is the same shift by the amount widened.
pub proof fn lemma_shift_widths(p: u64, s: u8, q: u32, t: u32)
    by (bit_vector)
    ensures
        p >> s == p >> (s as u64),
        p << s == p << (s as u64),
        p >> t == p >> (t as u64),
        (p & 63u64) & 31u64 == p & 31u64,
        (q & 63u32) & 31u32 == q & 31u32,
        q >> 0u32 == q,
        p >> 0u64 == p,
{
}

proof fn bv_board_consts()
    by (bit_vector)
    ensures
        0o40404040404040404040u64 >> 5u64 == 0o01010101010101010101u64,
        ((0o40404040404040404040u64 >> 0u64) & 63u64) == 32u64,
        ((0o01010101010101010101u64 >> 0u64) & 63u64) == 1u64,
        ((0o40404040404040404040u64 >> 6u64) & 63u64) == 32u64,
        ((0o01010101010101010101u64 >> 6u64) & 63u64) == 1u64,
        ((0o40404040404040404040u64 >> 12u64) & 63u64) == 32u64,
        ((0o01010101010101010101u64 >> 12u64) & 63u64) == 1u64,
        ((0o40404040404040404040u64 >> 18u64) & 63u64) == 32u64,
        ((0o01010101010101010101u64 >> 18u64) & 63u64) == 1u64,
        ((0o40404040404040404040u64 >> 24u64) & 63u64) == 32u64,
        ((0o01010101010101010101u64 >> 24u64) & 63u64) == 1u64,
        ((0o40404040404040404040u64 >> 30u64) & 63u64) == 32u64,
        ((0o01010101010101010101u64 >> 30u64) & 63u64) == 1u64,
        ((0o40404040404040404040u64 >> 36u64) & 63u64) == 32u64,
        ((0o01010101010101010101u64 >> 36u64) & 63u64) == 1u64,
        ((0o40404040404040404040u64 >> 42u64) & 63u64) == 32u64,
        ((0o01010101010101010101u64 >> 42u64) & 63u64) == 1u64,
        ((0o40404040404040404040u64 >> 48u64) & 63u64) == 32u64,
        ((0o01010101010101010101u64 >> 48u64) & 63u64) == 1u64,
        ((0o40404040404040404040u64 >> 54u64) & 63u64) == 32u64,
        ((0o01010101010101010101u64 >> 54u64) & 63u64) == 1u64,
{
}

/// The guard word holds 32 in each of the ten lanes; shifted down by five
/// it holds 1 in each.
pub proof fn lemma_board_consts()
    ensures
        0o40404040404040404040u64 >> 5u64 == 0o01010101010101010101u64,
        fits60(0o40404040404040404040u64),
        forall|i: int| 0 <= i < 10 ==> #[trigger] lane(0o40404040404040404040u64, i) == 32,
        forall|i: int| 0 <= i < 10 ==> #[trigger] lane(0o01010101010101010101u64, i) == 1,
{
    bv_board_consts();
    lemma_lane_concrete(0o40404040404040404040u64);
    lemma_lane_concrete(0o01010101010101010101u64);
    assert forall|i: int| 0 <= i < 10 implies #[trigger] lane(0o40404040404040404040u64, i) == 32 by {
        assert(i == 0 || i == 1 || i == 2 || i == 3 || i == 4 || i == 5 || i == 6 || i == 7 || i == 8 || i == 9);
    }
    assert forall|i: int| 0 <= i < 10 implies #[trigger] lane(0o01010101010101010101u64, i) == 1 by {
        assert(i == 0 || i == 1 || i == 2 || i == 3 || i == 4 || i == 5 || i == 6 || i == 7 || i == 8 || i == 9);
    }
}

/// Or-ing two words below a power of two stays below it.
pub proof fn lemma_or_below(a: u64, b: u64, c: u32, d: u32)
    by (bit_vector)
    ensures
        a < 0x1000_0000_0000_0000u64 && b < 0x1000_0000_0000_0000u64 ==> a | b < 0x1000_0000_0000_0000u64,
        c < 0x100_0000u32 && d < 0x100_0000u32 ==> c | d < 0x100_0000u32,
{
}

/// Setting bit `r` of a mask whose bits all lie below `r`.
pub proof fn lemma_set_bit(c: u32, r: u32, q: u32)
    by (bit_vector)
    requires
        r < 6,
        q < 6,
        c < (1u32 << r),
    ensures
        (c | (1u32 << r)) < (1u32 << (r + 1)),
        ((c | (1u32 << r)) >> q) & 1u32 == (if q == r { 1u32 } else { (c >> q) & 1u32 }),
        q >= r ==> (c >> q) & 1u32 == 0u32,
        (c >> q) & 1u32 == 1u32 || (c >> q) & 1u32 == 0u32,
        c & (1u32 << q) != 0 <==> (c >> q) & 1u32 == 1u32,
        (0u32 >> q) & 1u32 == 0u32,
        (1u32 << r) <= 32,
{
}

/// A value below `2^t` shifted left by `s` stays below `2^60` when `t + s`
/// is at most 60.
pub proof fn lemma_shl_below(a: u64, t: u64, s: u64)
    by (bit_vector)
    requires
        t + s <= 60,
        a < (1u64 << t),
    ensures
        a << s < 0x1000_0000_0000_0000u64,
{
}

/// Testing bit `q` with a mask.
pub proof fn lemma_test_bit(c: u32, q: u32)
    by (bit_vector)
    requires
        q < 32,
    ensures
        (c & (1u32 << q) != 0) <==> ((c >> q) & 1u32 == 1u32),
{
}

/// Facts about single-bit masks.
pub proof fn lemma_bit_masks(r: u32, q: u32)
    by (bit_vector)
    ensures
        (1u32 << 0u32) == 1u32,
        r < 6 ==> (1u32 << r) < (1u32 << (r + 1)),
        r <= 4 ==> (1u32 << r) <= 16,
        (0u32 >> q) & 1u32 == 0u32,
{
}

/// A 6-bit value `a` has no bit outside `b` exactly when each of its bits
/// is also a bit of `b`.
pub proof fn lemma_bits_within(a: u32, b: u32)
    by (bit_vector)
    requires
        a < 64,
    ensures
        (a & ((!b) & 63u32) == 0) == (((a >> 0u32) & 1u32 == 1u32 ==> (b >> 0u32) & 1u32 == 1u32) && ((a >> 1u32) & 1u32
            == 1u32 ==> (b >> 1u32) & 1u32 == 1u32) && ((a >> 2u32) & 1u32 == 1u32 ==> (b >> 2u32) & 1u32 == 1u32) && ((a
            >> 3u32) & 1u32 == 1u32 ==> (b >> 3u32) & 1u32 == 1u32) && ((a >> 4u32) & 1u32 == 1u32 ==> (b >> 4u32) & 1u32
            == 1u32) && ((a >> 5u32) & 1u32 == 1u32 ==> (b >> 5u32) & 1u32 == 1u32)),
        a < 16 ==> a & 32u32 == 0,
        a < 16 ==> a & b < 16,
        a & b <= a,
        a < 16 ==> a & 63u32 == a,
        a & 0u32 == 0,
{
}

/// The lanes of zero.
pub proof fn lemma_zero_lanes()
    ensures
        forall|i: int| #[trigger] lane(0, i) == 0,
        forall|j: int| #[trigger] lane32(0, j) == 0,
{
    assert forall|i: int| #[trigger] lane(0, i) == 0 by {
        bv_zero_shift((6 * i) as u64, 0);
    }
    assert forall|j: int| #[trigger] lane32(0, j) == 0 by {
        bv_zero_shift(0, (6 * j) as u32);
    }
}

proof fn bv_zero_shift(s: u64, t: u32)
    by (bit_vector)
    ensures
        (0u64 >> s) & 63u64 == 0,
        (0u32 >> t) & 63u32 == 0,
{
}

/// Every lane is below 64.
pub proof fn lemma_lanes_lt64(a: u64, b: u32)
    ensures
        forall|i: int| #[trigger] lane(a, i) < 64,
        forall|j: int| #[trigger] lane32(b, j) < 64,
{
    assert forall|i: int| #[trigger] lane(a, i) < 64 by {
        bv_lane_lt(a, (6 * i) as u64, b, 0);
    }
    assert forall|j: int| #[trigger] lane32(b, j) < 64 by {
        bv_lane_lt(a, 0, b, (6 * j) as u32);
    }
}

proof fn bv_lane_lt(a: u64, s: u64, b: u32, t: u32)
    by (bit_vector)
    ensures
        (a >> s) & 63u64 < 64,
        (b >> t) & 63u32 < 64,
{
}

/// What a mask keeps lies within the mask.
pub proof fn lemma_mask_within(a: u64, m: u64, b: u32, n: u32)
    by (bit_vector)
    ensures
        (a & m) & !m == 0,
        (b & n) & !n == 0,
        (b & (a as u32 & n)) & !n == 0,
        (a & m) <= m,
        (b & n) <= n,
{
}

/// Subtracting lane by lane: no lane borrows from the next.
pub proof fn lemma_lanes_sub(a: u64, b: u64)
    requires
        fits60(a),
        fits60(b),
        forall|i: int| 0 <= i < 10 ==> #[trigger] lane(b, i) <= lane(a, i),
    ensures
        b <= a,
        fits60((a - b) as u64),
        forall|i: int| 0 <= i < 10 ==> #[trigger] lane((a - b) as u64, i) == lane(a, i) - lane(b, i),
{
    lemma_lane_concrete(a);
    lemma_lane_concrete(b);
    lemma_lane_concrete((a - b) as u64);
    assert(lane(b, 0) <= lane(a, 0));
    assert(lane(b, 1) <= lane(a, 1));
    assert(lane(b, 2) <= lane(a, 2));
    assert(lane(b, 3) <= lane(a, 3));
    assert(lane(b, 4) <= lane(a, 4));
    assert(lane(b, 5) <= lane(a, 5));
    assert(lane(b, 6) <= lane(a, 6));
    assert(lane(b, 7) <= lane(a, 7));
    assert(lane(b, 8) <= lane(a, 8));
    assert(lane(b, 9) <= lane(a, 9));
    bv_sub10(a, b);
    assert forall|i: int| 0 <= i < 10 implies #[trigger] lane((a - b) as u64, i) == lane(a, i) - lane(b, i) by {
        assert(i == 0 || i == 1 || i == 2 || i == 3 || i == 4 || i == 5 || i == 6 || i == 7 || i == 8 || i == 9);
    }
}

/// Adding lane by lane: no lane carries into the next.
pub proof fn lemma_lanes_add(a: u64, b: u64)
    requires
        fits60(a),
        fits60(b),
        forall|i: int| 0 <= i < 10 ==> #[trigger] lane(a, i) + lane(b, i) < 64,
    ensures
        fits60((a + b) as u64),
        forall|i: int| 0 <= i < 10 ==> #[trigger] lane((a + b) as u64, i) == lane(a, i) + lane(b, i),
{
    lemma_lane_concrete(a);
    lemma_lane_concrete(b);
    lemma_lane_concrete((a + b) as u64);
    assert(lane(a, 0) + lane(b, 0) < 64);
    assert(lane(a, 1) + lane(b, 1) < 64);
    assert(lane(a, 2) + lane(b, 2) < 64);
    assert(lane(a, 3) + lane(b, 3) < 64);
    assert(lane(a, 4) + lane(b, 4) < 64);
    assert(lane(a, 5) + lane(b, 5) < 64);
    assert(lane(a, 6) + lane(b, 6) < 64);
    assert(lane(a, 7) + lane(b, 7) < 64);
    assert(lane(a, 8) + lane(b, 8) < 64);
    assert(lane(a, 9) + lane(b, 9) < 64);
    bv_add10(a, b);
    assert forall|i: int| 0 <= i < 10 implies #[trigger] lane((a + b) as u64, i) == lane(a, i) + lane(b, i) by {
        assert(i == 0 || i == 1 || i == 2 || i == 3 || i == 4 || i == 5 || i == 6 || i == 7 || i == 8 || i == 9);
    }
}

/// Two words below 2^60 with the same ten lanes are equal.
pub proof fn lemma_lanes_eq(a: u64, b: u64)
    requires
        fits60(a),
        fits60(b),
        forall|i: int| 0 <= i < 10 ==> #[trigger] lane(a, i) == lane(b, i),
    ensures
        a == b,
{
    lemma_lane_concrete(a);
    lemma_lane_concrete(b);
    assert(lane(a, 0) == lane(b, 0));
    assert(lane(a, 1) == lane(b, 1));
    assert(lane(a, 2) == lane(b, 2));
    assert(lane(a, 3) == lane(b, 3));
    assert(lane(a, 4) == lane(b, 4));
    assert(lane(a, 5) == lane(b, 5));
    assert(lane(a, 6) == lane(b, 6));
    assert(lane(a, 7) == lane(b, 7));
    assert(lane(a, 8) == lane(b, 8));
    assert(lane(a, 9) == lane(b, 9));
    bv_eq10(a, b);
}

/// `k` copied into each of the ten lanes.
pub proof fn lemma_lanes_spread(k: u64)
    requires
        k < 64,
    ensures
        k * 0o01010101010101010101u64 < 0x1000_0000_0000_0000,
        forall|i: int| 0 <= i < 10 ==> #[trigger] lane((k * 0o01010101010101010101u64) as u64, i) == k,
{
    lemma_lane_concrete((k * 0o01010101010101010101u64) as u64);
    bv_spread10(k);
    assert forall|i: int| 0 <= i < 10 implies #[trigger] lane((k * 0o01010101010101010101u64) as u64, i) == k by {
        assert(i == 0 || i == 1 || i == 2 || i == 3 || i == 4 || i == 5 || i == 6 || i == 7 || i == 8 || i == 9);
    }
}

/// `&`, `|` and `!` act lane by lane.
pub proof fn lemma_lanes_bitwise(a: u64, b: u64)
    ensures
        forall|i: int| 0 <= i < 10 ==> #[trigger] lane(a & b, i) == lane(a, i) & lane(b, i),
        forall|i: int| 0 <= i < 10 ==> #[trigger] lane(a | b, i) == lane(a, i) | lane(b, i),
        forall|i: int| 0 <= i < 9 ==> #[trigger] lane(!a, i) == (!lane(a, i)) & 63,
{
    assert forall|i: int| 0 <= i < 10 implies #[trigger] lane(a & b, i) == lane(a, i) & lane(b, i) by {
        bv_and_shift(a, b, (6 * i) as u64);
    }
    assert forall|i: int| 0 <= i < 10 implies #[trigger] lane(a | b, i) == lane(a, i) | lane(b, i) by {
        bv_and_shift(a, b, (6 * i) as u64);
    }
    assert forall|i: int| 0 <= i < 9 implies #[trigger] lane(!a, i) == (!lane(a, i)) & 63 by {
        bv_and_shift(a, b, (6 * i) as u64);
    }
}

/// `&`, `|` and `!` act lane by lane on 32-bit words.
pub proof fn lemma_lanes32_bitwise(a: u32, b: u32)
    ensures
        forall|j: int| 0 <= j < 4 ==> #[trigger] lane32(a & b, j) == lane32(a, j) & lane32(b, j),
        forall|j: int| 0 <= j < 4 ==> #[trigger] lane32(a | b, j) == lane32(a, j) | lane32(b, j),
        forall|j: int| 0 <= j < 4 ==> #[trigger] lane32(!a, j) == (!lane32(a, j)) & 63,
{
    assert forall|j: int| 0 <= j < 4 implies #[trigger] lane32(a & b, j) == lane32(a, j) & lane32(b, j) by {
        bv_and_shift32(a, b, (6 * j) as u32);
    }
    assert forall|j: int| 0 <= j < 4 implies #[trigger] lane32(a | b, j) == lane32(a, j) | lane32(b, j) by {
        bv_and_shift32(a, b, (6 * j) as u32);
    }
    assert forall|j: int| 0 <= j < 4 implies #[trigger] lane32(!a, j) == (!lane32(a, j)) & 63 by {
        bv_and_shift32(a, b, (6 * j) as u32);
    }
}

/// Shifting right by whole lanes.
pub proof fn lemma_lanes_shr(a: u64, x: int)
    requires
        0 <= x < 10,
    ensures
        forall|i: int| 0 <= i && i + x < 10 ==> #[trigger] lane(a >> ((6 * x) as u64), i) == lane(a, i + x),
{
    assert forall|i: int| 0 <= i && i + x < 10 implies #[trigger] lane(a >> ((6 * x) as u64), i) == lane(a, i + x) by {
        bv_shr_shr(a, (6 * x) as u64, (6 * i) as u64);
    }
}

/// Shifting left by whole lanes.
pub proof fn lemma_lanes_shl(a: u64, x: int)
    requires
        0 <= x < 10,
    ensures
        forall|i: int| x <= i < 10 ==> #[trigger] lane(a << ((6 * x) as u64), i) == lane(a, i - x),
        forall|i: int| 0 <= i < x ==> #[trigger] lane(a << ((6 * x) as u64), i) == 0,
{
    assert forall|i: int| x <= i < 10 implies #[trigger] lane(a << ((6 * x) as u64), i) == lane(a, i - x) by {
        bv_shl_lane(a, (6 * x) as u64, (6 * i) as u64);
    }
    assert forall|i: int| 0 <= i < x implies #[trigger] lane(a << ((6 * x) as u64), i) == 0 by {
        bv_shl_lane(a, (6 * x) as u64, (6 * i) as u64);
    }
}

/// The low four lanes survive a cast to `u32`.
pub proof fn lemma_lanes_narrow(a: u64)
    ensures
        forall|j: int| 0 <= j < 5 ==> #[trigger] lane32(a as u32, j) as u64 == lane(a, j),
{
    assert forall|j: int| 0 <= j < 5 implies #[trigger] lane32(a as u32, j) as u64 == lane(a, j) by {
        bv_narrow(a, (6 * j) as u32);
    }
}

/// A 32-bit word below 2^24 widened to 64 bits keeps its four lanes and has
/// nothing above them.
pub proof fn lemma_lanes_widen(a: u32)
    requires
        a < 0x100_0000,
    ensures
        forall|j: int| 0 <= j < 4 ==> #[trigger] lane(a as u64, j) == lane32(a, j) as u64,
        forall|j: int| 4 <= j < 10 ==> #[trigger] lane(a as u64, j) == 0,
        fits60(a as u64),
{
    assert forall|j: int| 0 <= j < 4 implies #[trigger] lane(a as u64, j) == lane32(a, j) as u64 by {
        bv_widen(a, (6 * j) as u64);
    }
    assert forall|j: int| 4 <= j < 10 implies #[trigger] lane(a as u64, j) == 0 by {
        bv_high_zero(a, (6 * j) as u64);
    }
}

proof fn bv_high_zero(a: u32, t: u64)
    by (bit_vector)
    requires
        a < 0x100_0000u32,
        t >= 24,
    ensures
        ((a as u64) >> t) & 63u64 == 0,
{
}

/// Subtracting lane by lane in a 32-bit word of four lanes.
pub proof fn lemma_lanes32_sub(a: u32, b: u32)
    requires
        a < 0x100_0000,
        b < 0x100_0000,
        forall|j: int| 0 <= j < 4 ==> #[trigger] lane32(b, j) <= lane32(a, j),
    ensures
        b <= a,
        a - b < 0x100_0000,
        forall|j: int| 0 <= j < 4 ==> #[trigger] lane32((a - b) as u32, j) == lane32(a, j) - lane32(b, j),
{
    lemma_lane32_concrete(a);
    lemma_lane32_concrete(b);
    lemma_lane32_concrete((a - b) as u32);
    assert(lane32(b, 0) <= lane32(a, 0));
    assert(lane32(b, 1) <= lane32(a, 1));
    assert(lane32(b, 2) <= lane32(a, 2));
    assert(lane32(b, 3) <= lane32(a, 3));
    bv_sub4(a, b);
    assert forall|j: int| 0 <= j < 4 implies #[trigger] lane32((a - b) as u32, j) == lane32(a, j) - lane32(b, j) by {
        assert(j == 0 || j == 1 || j == 2 || j == 3);
    }
}

/// Two 32-bit words below 2^24 with the same four lanes are equal.
pub proof fn lemma_lanes32_eq(a: u32, b: u32)
    requires
        a < 0x100_0000,
        b < 0x100_0000,
        forall|j: int| 0 <= j < 4 ==> #[trigger] lane32(a, j) == lane32(b, j),
    ensures
        a == b,
{
    lemma_lane32_concrete(a);
    lemma_lane32_concrete(b);
    assert(lane32(a, 0) == lane32(b, 0));
    assert(lane32(a, 1) == lane32(b, 1));
    assert(lane32(a, 2) == lane32(b, 2));
    assert(lane32(a, 3) == lane32(b, 3));
    bv_eq4(a, b);
}

/// `k` copied into the lanes where the one-per-lane mask `m` has a one.
pub proof fn lemma_lanes32_spread(k: u32, m: u32)
    requires
        k < 64,
        m == 1u32 || m == 0x41u32 || m == 0x1041u32 || m == 0x41041u32,
    ensures
        k * m < 0x100_0000,
        forall|j: int| 0 <= j < 4 ==> #[trigger] lane32((k * m) as u32, j) == k * lane32(m, j),
{
    lemma_lane32_concrete((k * m) as u32);
    lemma_lane32_concrete(m);
    bv_spread4(k, m);
    assert forall|j: int| 0 <= j < 4 implies #[trigger] lane32((k * m) as u32, j) == k * lane32(m, j) by {
        assert(j == 0 || j == 1 || j == 2 || j == 3);
    }
}

/// The guard bits (bit 5 of each lane) moved to bit 0.
pub proof fn lemma_lanes_guard_down(a: u64)
    requires
        a & !0o40404040404040404040u64 == 0,
    ensures
        forall|i: int| 0 <= i < 10 ==> #[trigger] lane(a >> 5, i) == lane(a, i) >> 5,
{
    lemma_lane_concrete(a);
    lemma_lane_concrete(a >> 5);
    bv_guard_down10(a);
    assert forall|i: int| 0 <= i < 10 implies #[trigger] lane(a >> 5, i) == lane(a, i) >> 5 by {
        assert(i == 0 || i == 1 || i == 2 || i == 3 || i == 4 || i == 5 || i == 6 || i == 7 || i == 8 || i == 9);
    }
}

/// The guard bits of a 32-bit word moved to bit 0.
pub proof fn lemma_lanes32_guard_down(a: u32)
    requires
        a & !0o40404040u32 == 0,
    ensures
        a >> 5 < 0x100_0000,
        forall|j: int| 0 <= j < 4 ==> #[trigger] lane32(a >> 5, j) == lane32(a, j) >> 5,
{
    lemma_lane32_concrete(a);
    lemma_lane32_concrete(a >> 5);
    bv_guard_down4(a);
    assert forall|j: int| 0 <= j < 4 implies #[trigger] lane32(a >> 5, j) == lane32(a, j) >> 5 by {
        assert(j == 0 || j == 1 || j == 2 || j == 3);
    }
}

} // verus!
