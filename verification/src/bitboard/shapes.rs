//! The nineteen piece orientations: their geometry, and the packed tables
//! that the board code reads.
//!
//! Orientation indices: Z 0-1, S 2-3, J 4-7, L 8-11, T 12-15, O 16, I 17-18.
use vstd::prelude::*;

verus! {

use crate::bitboard::lanes::{lane32, lemma_lane32_concrete};

/// The number of columns that piece orientation `s` spans.
pub open spec fn shape_width(s: int) -> int {
    if s == 0 {
        3
    } else if s == 1 {
        2
    } else if s == 2 {
        3
    } else if s == 3 {
        2
    } else if s == 4 {
        3
    } else if s == 5 {
        2
    } else if s == 6 {
        3
    } else if s == 7 {
        2
    } else if s == 8 {
        3
    } else if s == 9 {
        2
    } else if s == 10 {
        3
    } else if s == 11 {
        2
    } else if s == 12 {
        3
    } else if s == 13 {
        2
    } else if s == 14 {
        3
    } else if s == 15 {
        2
    } else if s == 16 {
        2
    } else if s == 17 {
        4
    } else {
        1
    }
}

/// The number of rows that piece orientation `s` spans.
pub open spec fn shape_height(s: int) -> int {
    if s == 0 {
        2
    } else if s == 1 {
        3
    } else if s == 2 {
        2
    } else if s == 3 {
        3
    } else if s == 4 {
        2
    } else if s == 5 {
        3
    } else if s == 6 {
        2
    } else if s == 7 {
        3
    } else if s == 8 {
        2
    } else if s == 9 {
        3
    } else if s == 10 {
        2
    } else if s == 11 {
        3
    } else if s == 12 {
        2
    } else if s == 13 {
        3
    } else if s == 14 {
        2
    } else if s == 15 {
        3
    } else if s == 16 {
        2
    } else if s == 17 {
        1
    } else {
        4
    }
}

/// The lowest row of each column of piece orientation `s`, counted from the
/// piece's lowest row.
pub open spec fn shape_bottoms(s: int) -> Seq<int> {
    if s == 0 {
        seq![1, 0, 0]
    } else if s == 1 {
        seq![0, 1]
    } else if s == 2 {
        seq![0, 0, 1]
    } else if s == 3 {
        seq![1, 0]
    } else if s == 4 {
        seq![0, 0, 0]
    } else if s == 5 {
        seq![0, 2]
    } else if s == 6 {
        seq![1, 1, 0]
    } else if s == 7 {
        seq![0, 0]
    } else if s == 8 {
        seq![0, 0, 0]
    } else if s == 9 {
        seq![0, 0]
    } else if s == 10 {
        seq![0, 1, 1]
    } else if s == 11 {
        seq![2, 0]
    } else if s == 12 {
        seq![0, 0, 0]
    } else if s == 13 {
        seq![0, 1]
    } else if s == 14 {
        seq![1, 0, 1]
    } else if s == 15 {
        seq![1, 0]
    } else if s == 16 {
        seq![0, 0]
    } else if s == 17 {
        seq![0, 0, 0, 0]
    } else {
        seq![0]
    }
}

/// The number of cells in each column of piece orientation `s`.
pub open spec fn shape_columns(s: int) -> Seq<int> {
    if s == 0 {
        seq![1, 2, 1]
    } else if s == 1 {
        seq![2, 2]
    } else if s == 2 {
        seq![1, 2, 1]
    } else if s == 3 {
        seq![2, 2]
    } else if s == 4 {
        seq![2, 1, 1]
    } else if s == 5 {
        seq![3, 1]
    } else if s == 6 {
        seq![1, 1, 2]
    } else if s == 7 {
        seq![1, 3]
    } else if s == 8 {
        seq![1, 1, 2]
    } else if s == 9 {
        seq![3, 1]
    } else if s == 10 {
        seq![2, 1, 1]
    } else if s == 11 {
        seq![1, 3]
    } else if s == 12 {
        seq![1, 2, 1]
    } else if s == 13 {
        seq![3, 1]
    } else if s == 14 {
        seq![1, 2, 1]
    } else if s == 15 {
        seq![1, 3]
    } else if s == 16 {
        seq![2, 2]
    } else if s == 17 {
        seq![1, 1, 1, 1]
    } else {
        seq![4]
    }
}

pub open spec fn spec_shape_mask_bits(s: int) -> u32 {
    if s == 0 {
        0x20218a9u32
    } else if s == 1 {
        0x3000aa2u32
    } else if s == 2 {
        0x20298a1u32
    } else if s == 3 {
        0x30008aau32
    } else if s == 4 {
        0x2021862u32
    } else if s == 5 {
        0x3000c63u32
    } else if s == 6 {
        0x2022a69u32
    } else if s == 7 {
        0x30008e1u32
    } else if s == 8 {
        0x2022861u32
    } else if s == 9 {
        0x3000863u32
    } else if s == 10 {
        0x2029a62u32
    } else if s == 11 {
        0x30008f1u32
    } else if s == 12 {
        0x20218a1u32
    } else if s == 13 {
        0x3000a63u32
    } else if s == 14 {
        0x20298a9u32
    } else if s == 15 {
        0x30008e9u32
    } else if s == 16 {
        0x20008a2u32
    } else if s == 17 {
        0x1861861u32
    } else {
        0x4000024u32
    }
}

/// The packed description of piece orientation `s` that `ShapeBoard` drops use.
pub fn shape_mask_bits(s: u8) -> (v: u32)
    requires
        s < 19,
    ensures
        v == spec_shape_mask_bits(s as int),
{
    match s {
        0 => 0x20218a9,
        1 => 0x3000aa2,
        2 => 0x20298a1,
        3 => 0x30008aa,
        4 => 0x2021862,
        5 => 0x3000c63,
        6 => 0x2022a69,
        7 => 0x30008e1,
        8 => 0x2022861,
        9 => 0x3000863,
        10 => 0x2029a62,
        11 => 0x30008f1,
        12 => 0x20218a1,
        13 => 0x3000a63,
        14 => 0x20298a9,
        15 => 0x30008e9,
        16 => 0x20008a2,
        17 => 0x1861861,
        _ => 0x4000024,
    }
}

pub open spec fn spec_bit_table(s: int) -> u32 {
    if s == 0 {
        0x20010c2u32
    } else if s == 1 {
        0x3000183u32
    } else if s == 2 {
        0x20020c1u32
    } else if s == 3 {
        0x30000c6u32
    } else if s == 4 {
        0x2001043u32
    } else if s == 5 {
        0x3000107u32
    } else if s == 6 {
        0x2003082u32
    } else if s == 7 {
        0x30001c1u32
    } else if s == 8 {
        0x2003041u32
    } else if s == 9 {
        0x3000047u32
    } else if s == 10 {
        0x2002083u32
    } else if s == 11 {
        0x30001c4u32
    } else if s == 12 {
        0x20010c1u32
    } else if s == 13 {
        0x3000087u32
    } else if s == 14 {
        0x20020c2u32
    } else if s == 15 {
        0x30001c2u32
    } else if s == 16 {
        0x20000c3u32
    } else if s == 17 {
        0x1041041u32
    } else {
        0x400000fu32
    }
}

/// The cells of piece orientation `s`, bit `6j + r` for column `j` and row `r`,
/// with the orientation's height in bits 24 and up.
pub fn bit_table(s: u8) -> (v: u32)
    requires
        s < 19,
    ensures
        v == spec_bit_table(s as int),
{
    match s {
        0 => 0x20010c2,
        1 => 0x3000183,
        2 => 0x20020c1,
        3 => 0x30000c6,
        4 => 0x2001043,
        5 => 0x3000107,
        6 => 0x2003082,
        7 => 0x30001c1,
        8 => 0x2003041,
        9 => 0x3000047,
        10 => 0x2002083,
        11 => 0x30001c4,
        12 => 0x20010c1,
        13 => 0x3000087,
        14 => 0x20020c2,
        15 => 0x30001c2,
        16 => 0x20000c3,
        17 => 0x1041041,
        _ => 0x400000f,
    }
}

pub open spec fn spec_finesse_table(s: int) -> u64 {
    if s == 0 {
        0x300055ec9100978du64
    } else if s == 1 {
        0x201619f48106a18eu64
    } else if s == 2 {
        0x300055ec9100978du64
    } else if s == 3 {
        0x201619f48106a18eu64
    } else if s == 4 {
        0x300055ec9100978du64
    } else if s == 5 {
        0x20167f348129f18eu64
    } else if s == 6 {
        0x300059fcd204a7ceu64
    } else if s == 7 {
        0x20161bf4d204a7ceu64
    } else if s == 8 {
        0x300055ec9100978du64
    } else if s == 9 {
        0x20167f348129f18eu64
    } else if s == 10 {
        0x300059fcd204a7ceu64
    } else if s == 11 {
        0x20161bf4d204a7ceu64
    } else if s == 12 {
        0x300055ec9100978du64
    } else if s == 13 {
        0x20167f348129f18eu64
    } else if s == 14 {
        0x300059fcd204a7ceu64
    } else if s == 15 {
        0x20161bf4d204a7ceu64
    } else if s == 16 {
        0x20153b244026a58du64
    } else if s == 17 {
        0x400001579100978du64
    } else {
        0x15861b2041a8618eu64
    }
}

/// The finesse description of piece orientation `s`.
pub fn finesse_table(s: u8) -> (v: u64)
    requires
        s < 19,
    ensures
        v == spec_finesse_table(s as int),
{
    match s {
        0 => 0x300055ec9100978d,
        1 => 0x201619f48106a18e,
        2 => 0x300055ec9100978d,
        3 => 0x201619f48106a18e,
        4 => 0x300055ec9100978d,
        5 => 0x20167f348129f18e,
        6 => 0x300059fcd204a7ce,
        7 => 0x20161bf4d204a7ce,
        8 => 0x300055ec9100978d,
        9 => 0x20167f348129f18e,
        10 => 0x300059fcd204a7ce,
        11 => 0x20161bf4d204a7ce,
        12 => 0x300055ec9100978d,
        13 => 0x20167f348129f18e,
        14 => 0x300059fcd204a7ce,
        15 => 0x20161bf4d204a7ce,
        16 => 0x20153b244026a58d,
        17 => 0x400001579100978d,
        _ => 0x15861b2041a8618e,
    }
}

proof fn bv_shape_tables()
    by (bit_vector)
    ensures
        (0x20218a9u32 & 0o40404040u32) >> 5u32 == 0x1041u32,
        0x20218a9u32 >> 24u32 == 2u32,
        ((0x20218a9u32 & 0o40404040u32) >> 0u32) & 63u32 == 32u32,
        (((0x20218a9u32 & 0o40404040u32) >> 5u32) >> 0u32) & 63u32 == 1u32,
        ((0x20218a9u32 & 0o07070707u32) >> 0u32) & 63u32 == 1u32,
        (((0x20218a9u32 & 0o30303030u32) >> 3u32) >> 0u32) & 63u32 == 1u32,
        ((0x20010c2u32 & 0xFFFFFFu32) >> 0u32) & 63u32 == (((1u32 << 1u32) - 1u32) as u32) << 1u32,
        ((0x20218a9u32 & 0o40404040u32) >> 6u32) & 63u32 == 32u32,
        (((0x20218a9u32 & 0o40404040u32) >> 5u32) >> 6u32) & 63u32 == 1u32,
        ((0x20218a9u32 & 0o07070707u32) >> 6u32) & 63u32 == 2u32,
        (((0x20218a9u32 & 0o30303030u32) >> 3u32) >> 6u32) & 63u32 == 0u32,
        ((0x20010c2u32 & 0xFFFFFFu32) >> 6u32) & 63u32 == (((1u32 << 2u32) - 1u32) as u32) << 0u32,
        ((0x20218a9u32 & 0o40404040u32) >> 12u32) & 63u32 == 32u32,
        (((0x20218a9u32 & 0o40404040u32) >> 5u32) >> 12u32) & 63u32 == 1u32,
        ((0x20218a9u32 & 0o07070707u32) >> 12u32) & 63u32 == 1u32,
        (((0x20218a9u32 & 0o30303030u32) >> 3u32) >> 12u32) & 63u32 == 0u32,
        ((0x20010c2u32 & 0xFFFFFFu32) >> 12u32) & 63u32 == (((1u32 << 1u32) - 1u32) as u32) << 0u32,
        ((0x20218a9u32 & 0o40404040u32) >> 18u32) & 63u32 == 0u32,
        (((0x20218a9u32 & 0o40404040u32) >> 5u32) >> 18u32) & 63u32 == 0u32,
        ((0x20218a9u32 & 0o07070707u32) >> 18u32) & 63u32 == 0u32,
        (((0x20218a9u32 & 0o30303030u32) >> 3u32) >> 18u32) & 63u32 == 0u32,
        ((0x20010c2u32 & 0xFFFFFFu32) >> 18u32) & 63u32 == 0u32,
        (0x20218a9u32 & 0o40404040u32) < 0x100_0000u32,
        (0x20218a9u32 & 0o07070707u32) < 0x100_0000u32,
        ((0x20218a9u32 & 0o07070707u32) as u64) < (1u64 << 18u64),
        ((0x20218a9u32 & 0o30303030u32) >> 3u32) < 0x100_0000u32,
        (0x20010c2u32 & 0xFFFFFFu32) < 0x100_0000u32,
        0x20010c2u32 >> 24u32 == 2u32,
        (((0x20010c2u32 as u64) & 0xFFFFFFu64)) < (1u64 << 14u64),
        (((0x20010c2u32 as u64) & 0xFFFFFFu64)) == ((0x20010c2u32 & 0xFFFFFFu32) as u64),
        (0x3000aa2u32 & 0o40404040u32) >> 5u32 == 0x41u32,
        0x3000aa2u32 >> 24u32 == 3u32,
        ((0x3000aa2u32 & 0o40404040u32) >> 0u32) & 63u32 == 32u32,
        (((0x3000aa2u32 & 0o40404040u32) >> 5u32) >> 0u32) & 63u32 == 1u32,
        ((0x3000aa2u32 & 0o07070707u32) >> 0u32) & 63u32 == 2u32,
        (((0x3000aa2u32 & 0o30303030u32) >> 3u32) >> 0u32) & 63u32 == 0u32,
        ((0x3000183u32 & 0xFFFFFFu32) >> 0u32) & 63u32 == (((1u32 << 2u32) - 1u32) as u32) << 0u32,
        ((0x3000aa2u32 & 0o40404040u32) >> 6u32) & 63u32 == 32u32,
        (((0x3000aa2u32 & 0o40404040u32) >> 5u32) >> 6u32) & 63u32 == 1u32,
        ((0x3000aa2u32 & 0o07070707u32) >> 6u32) & 63u32 == 2u32,
        (((0x3000aa2u32 & 0o30303030u32) >> 3u32) >> 6u32) & 63u32 == 1u32,
        ((0x3000183u32 & 0xFFFFFFu32) >> 6u32) & 63u32 == (((1u32 << 2u32) - 1u32) as u32) << 1u32,
        ((0x3000aa2u32 & 0o40404040u32) >> 12u32) & 63u32 == 0u32,
        (((0x3000aa2u32 & 0o40404040u32) >> 5u32) >> 12u32) & 63u32 == 0u32,
        ((0x3000aa2u32 & 0o07070707u32) >> 12u32) & 63u32 == 0u32,
        (((0x3000aa2u32 & 0o30303030u32) >> 3u32) >> 12u32) & 63u32 == 0u32,
        ((0x3000183u32 & 0xFFFFFFu32) >> 12u32) & 63u32 == 0u32,
        ((0x3000aa2u32 & 0o40404040u32) >> 18u32) & 63u32 == 0u32,
        (((0x3000aa2u32 & 0o40404040u32) >> 5u32) >> 18u32) & 63u32 == 0u32,
        ((0x3000aa2u32 & 0o07070707u32) >> 18u32) & 63u32 == 0u32,
        (((0x3000aa2u32 & 0o30303030u32) >> 3u32) >> 18u32) & 63u32 == 0u32,
        ((0x3000183u32 & 0xFFFFFFu32) >> 18u32) & 63u32 == 0u32,
        (0x3000aa2u32 & 0o40404040u32) < 0x100_0000u32,
        (0x3000aa2u32 & 0o07070707u32) < 0x100_0000u32,
        ((0x3000aa2u32 & 0o07070707u32) as u64) < (1u64 << 12u64),
        ((0x3000aa2u32 & 0o30303030u32) >> 3u32) < 0x100_0000u32,
        (0x3000183u32 & 0xFFFFFFu32) < 0x100_0000u32,
        0x3000183u32 >> 24u32 == 3u32,
        (((0x3000183u32 as u64) & 0xFFFFFFu64)) < (1u64 << 9u64),
        (((0x3000183u32 as u64) & 0xFFFFFFu64)) == ((0x3000183u32 & 0xFFFFFFu32) as u64),
        (0x20298a1u32 & 0o40404040u32) >> 5u32 == 0x1041u32,
        0x20298a1u32 >> 24u32 == 2u32,
        ((0x20298a1u32 & 0o40404040u32) >> 0u32) & 63u32 == 32u32,
        (((0x20298a1u32 & 0o40404040u32) >> 5u32) >> 0u32) & 63u32 == 1u32,
        ((0x20298a1u32 & 0o07070707u32) >> 0u32) & 63u32 == 1u32,
        (((0x20298a1u32 & 0o30303030u32) >> 3u32) >> 0u32) & 63u32 == 0u32,
        ((0x20020c1u32 & 0xFFFFFFu32) >> 0u32) & 63u32 == (((1u32 << 1u32) - 1u32) as u32) << 0u32,
        ((0x20298a1u32 & 0o40404040u32) >> 6u32) & 63u32 == 32u32,
        (((0x20298a1u32 & 0o40404040u32) >> 5u32) >> 6u32) & 63u32 == 1u32,
        ((0x20298a1u32 & 0o07070707u32) >> 6u32) & 63u32 == 2u32,
        (((0x20298a1u32 & 0o30303030u32) >> 3u32) >> 6u32) & 63u32 == 0u32,
        ((0x20020c1u32 & 0xFFFFFFu32) >> 6u32) & 63u32 == (((1u32 << 2u32) - 1u32) as u32) << 0u32,
        ((0x20298a1u32 & 0o40404040u32) >> 12u32) & 63u32 == 32u32,
        (((0x20298a1u32 & 0o40404040u32) >> 5u32) >> 12u32) & 63u32 == 1u32,
        ((0x20298a1u32 & 0o07070707u32) >> 12u32) & 63u32 == 1u32,
        (((0x20298a1u32 & 0o30303030u32) >> 3u32) >> 12u32) & 63u32 == 1u32,
        ((0x20020c1u32 & 0xFFFFFFu32) >> 12u32) & 63u32 == (((1u32 << 1u32) - 1u32) as u32) << 1u32,
        ((0x20298a1u32 & 0o40404040u32) >> 18u32) & 63u32 == 0u32,
        (((0x20298a1u32 & 0o40404040u32) >> 5u32) >> 18u32) & 63u32 == 0u32,
        ((0x20298a1u32 & 0o07070707u32) >> 18u32) & 63u32 == 0u32,
        (((0x20298a1u32 & 0o30303030u32) >> 3u32) >> 18u32) & 63u32 == 0u32,
        ((0x20020c1u32 & 0xFFFFFFu32) >> 18u32) & 63u32 == 0u32,
        (0x20298a1u32 & 0o40404040u32) < 0x100_0000u32,
        (0x20298a1u32 & 0o07070707u32) < 0x100_0000u32,
        ((0x20298a1u32 & 0o07070707u32) as u64) < (1u64 << 18u64),
        ((0x20298a1u32 & 0o30303030u32) >> 3u32) < 0x100_0000u32,
        (0x20020c1u32 & 0xFFFFFFu32) < 0x100_0000u32,
        0x20020c1u32 >> 24u32 == 2u32,
        (((0x20020c1u32 as u64) & 0xFFFFFFu64)) < (1u64 << 14u64),
        (((0x20020c1u32 as u64) & 0xFFFFFFu64)) == ((0x20020c1u32 & 0xFFFFFFu32) as u64),
        (0x30008aau32 & 0o40404040u32) >> 5u32 == 0x41u32,
        0x30008aau32 >> 24u32 == 3u32,
        ((0x30008aau32 & 0o40404040u32) >> 0u32) & 63u32 == 32u32,
        (((0x30008aau32 & 0o40404040u32) >> 5u32) >> 0u32) & 63u32 == 1u32,
        ((0x30008aau32 & 0o07070707u32) >> 0u32) & 63u32 == 2u32,
        (((0x30008aau32 & 0o30303030u32) >> 3u32) >> 0u32) & 63u32 == 1u32,
        ((0x30000c6u32 & 0xFFFFFFu32) >> 0u32) & 63u32 == (((1u32 << 2u32) - 1u32) as u32) << 1u32,
        ((0x30008aau32 & 0o40404040u32) >> 6u32) & 63u32 == 32u32,
        (((0x30008aau32 & 0o40404040u32) >> 5u32) >> 6u32) & 63u32 == 1u32,
        ((0x30008aau32 & 0o07070707u32) >> 6u32) & 63u32 == 2u32,
        (((0x30008aau32 & 0o30303030u32) >> 3u32) >> 6u32) & 63u32 == 0u32,
        ((0x30000c6u32 & 0xFFFFFFu32) >> 6u32) & 63u32 == (((1u32 << 2u32) - 1u32) as u32) << 0u32,
        ((0x30008aau32 & 0o40404040u32) >> 12u32) & 63u32 == 0u32,
        (((0x30008aau32 & 0o40404040u32) >> 5u32) >> 12u32) & 63u32 == 0u32,
        ((0x30008aau32 & 0o07070707u32) >> 12u32) & 63u32 == 0u32,
        (((0x30008aau32 & 0o30303030u32) >> 3u32) >> 12u32) & 63u32 == 0u32,
        ((0x30000c6u32 & 0xFFFFFFu32) >> 12u32) & 63u32 == 0u32,
        ((0x30008aau32 & 0o40404040u32) >> 18u32) & 63u32 == 0u32,
        (((0x30008aau32 & 0o40404040u32) >> 5u32) >> 18u32) & 63u32 == 0u32,
        ((0x30008aau32 & 0o07070707u32) >> 18u32) & 63u32 == 0u32,
        (((0x30008aau32 & 0o30303030u32) >> 3u32) >> 18u32) & 63u32 == 0u32,
        ((0x30000c6u32 & 0xFFFFFFu32) >> 18u32) & 63u32 == 0u32,
        (0x30008aau32 & 0o40404040u32) < 0x100_0000u32,
        (0x30008aau32 & 0o07070707u32) < 0x100_0000u32,
        ((0x30008aau32 & 0o07070707u32) as u64) < (1u64 << 12u64),
        ((0x30008aau32 & 0o30303030u32) >> 3u32) < 0x100_0000u32,
        (0x30000c6u32 & 0xFFFFFFu32) < 0x100_0000u32,
        0x30000c6u32 >> 24u32 == 3u32,
        (((0x30000c6u32 as u64) & 0xFFFFFFu64)) < (1u64 << 9u64),
        (((0x30000c6u32 as u64) & 0xFFFFFFu64)) == ((0x30000c6u32 & 0xFFFFFFu32) as u64),
        (0x2021862u32 & 0o40404040u32) >> 5u32 == 0x1041u32,
        0x2021862u32 >> 24u32 == 2u32,
        ((0x2021862u32 & 0o40404040u32) >> 0u32) & 63u32 == 32u32,
        (((0x2021862u32 & 0o40404040u32) >> 5u32) >> 0u32) & 63u32 == 1u32,
        ((0x2021862u32 & 0o07070707u32) >> 0u32) & 63u32 == 2u32,
        (((0x2021862u32 & 0o30303030u32) >> 3u32) >> 0u32) & 63u32 == 0u32,
        ((0x2001043u32 & 0xFFFFFFu32) >> 0u32) & 63u32 == (((1u32 << 2u32) - 1u32) as u32) << 0u32,
        ((0x2021862u32 & 0o40404040u32) >> 6u32) & 63u32 == 32u32,
        (((0x2021862u32 & 0o40404040u32) >> 5u32) >> 6u32) & 63u32 == 1u32,
        ((0x2021862u32 & 0o07070707u32) >> 6u32) & 63u32 == 1u32,
        (((0x2021862u32 & 0o30303030u32) >> 3u32) >> 6u32) & 63u32 == 0u32,
        ((0x2001043u32 & 0xFFFFFFu32) >> 6u32) & 63u32 == (((1u32 << 1u32) - 1u32) as u32) << 0u32,
        ((0x2021862u32 & 0o40404040u32) >> 12u32) & 63u32 == 32u32,
        (((0x2021862u32 & 0o40404040u32) >> 5u32) >> 12u32) & 63u32 == 1u32,
        ((0x2021862u32 & 0o07070707u32) >> 12u32) & 63u32 == 1u32,
        (((0x2021862u32 & 0o30303030u32) >> 3u32) >> 12u32) & 63u32 == 0u32,
        ((0x2001043u32 & 0xFFFFFFu32) >> 12u32) & 63u32 == (((1u32 << 1u32) - 1u32) as u32) << 0u32,
        ((0x2021862u32 & 0o40404040u32) >> 18u32) & 63u32 == 0u32,
        (((0x2021862u32 & 0o40404040u32) >> 5u32) >> 18u32) & 63u32 == 0u32,
        ((0x2021862u32 & 0o07070707u32) >> 18u32) & 63u32 == 0u32,
        (((0x2021862u32 & 0o30303030u32) >> 3u32) >> 18u32) & 63u32 == 0u32,
        ((0x2001043u32 & 0xFFFFFFu32) >> 18u32) & 63u32 == 0u32,
        (0x2021862u32 & 0o40404040u32) < 0x100_0000u32,
        (0x2021862u32 & 0o07070707u32) < 0x100_0000u32,
        ((0x2021862u32 & 0o07070707u32) as u64) < (1u64 << 18u64),
        ((0x2021862u32 & 0o30303030u32) >> 3u32) < 0x100_0000u32,
        (0x2001043u32 & 0xFFFFFFu32) < 0x100_0000u32,
        0x2001043u32 >> 24u32 == 2u32,
        (((0x2001043u32 as u64) & 0xFFFFFFu64)) < (1u64 << 14u64),
        (((0x2001043u32 as u64) & 0xFFFFFFu64)) == ((0x2001043u32 & 0xFFFFFFu32) as u64),
        (0x3000c63u32 & 0o40404040u32) >> 5u32 == 0x41u32,
        0x3000c63u32 >> 24u32 == 3u32,
        ((0x3000c63u32 & 0o40404040u32) >> 0u32) & 63u32 == 32u32,
        (((0x3000c63u32 & 0o40404040u32) >> 5u32) >> 0u32) & 63u32 == 1u32,
        ((0x3000c63u32 & 0o07070707u32) >> 0u32) & 63u32 == 3u32,
        (((0x3000c63u32 & 0o30303030u32) >> 3u32) >> 0u32) & 63u32 == 0u32,
        ((0x3000107u32 & 0xFFFFFFu32) >> 0u32) & 63u32 == (((1u32 << 3u32) - 1u32) as u32) << 0u32,
        ((0x3000c63u32 & 0o40404040u32) >> 6u32) & 63u32 == 32u32,
        (((0x3000c63u32 & 0o40404040u32) >> 5u32) >> 6u32) & 63u32 == 1u32,
        ((0x3000c63u32 & 0o07070707u32) >> 6u32) & 63u32 == 1u32,
        (((0x3000c63u32 & 0o30303030u32) >> 3u32) >> 6u32) & 63u32 == 2u32,
        ((0x3000107u32 & 0xFFFFFFu32) >> 6u32) & 63u32 == (((1u32 << 1u32) - 1u32) as u32) << 2u32,
        ((0x3000c63u32 & 0o40404040u32) >> 12u32) & 63u32 == 0u32,
        (((0x3000c63u32 & 0o40404040u32) >> 5u32) >> 12u32) & 63u32 == 0u32,
        ((0x3000c63u32 & 0o07070707u32) >> 12u32) & 63u32 == 0u32,
        (((0x3000c63u32 & 0o30303030u32) >> 3u32) >> 12u32) & 63u32 == 0u32,
        ((0x3000107u32 & 0xFFFFFFu32) >> 12u32) & 63u32 == 0u32,
        ((0x3000c63u32 & 0o40404040u32) >> 18u32) & 63u32 == 0u32,
        (((0x3000c63u32 & 0o40404040u32) >> 5u32) >> 18u32) & 63u32 == 0u32,
        ((0x3000c63u32 & 0o07070707u32) >> 18u32) & 63u32 == 0u32,
        (((0x3000c63u32 & 0o30303030u32) >> 3u32) >> 18u32) & 63u32 == 0u32,
        ((0x3000107u32 & 0xFFFFFFu32) >> 18u32) & 63u32 == 0u32,
        (0x3000c63u32 & 0o40404040u32) < 0x100_0000u32,
        (0x3000c63u32 & 0o07070707u32) < 0x100_0000u32,
        ((0x3000c63u32 & 0o07070707u32) as u64) < (1u64 << 12u64),
        ((0x3000c63u32 & 0o30303030u32) >> 3u32) < 0x100_0000u32,
        (0x3000107u32 & 0xFFFFFFu32) < 0x100_0000u32,
        0x3000107u32 >> 24u32 == 3u32,
        (((0x3000107u32 as u64) & 0xFFFFFFu64)) < (1u64 << 9u64),
        (((0x3000107u32 as u64) & 0xFFFFFFu64)) == ((0x3000107u32 & 0xFFFFFFu32) as u64),
        (0x2022a69u32 & 0o40404040u32) >> 5u32 == 0x1041u32,
        0x2022a69u32 >> 24u32 == 2u32,
        ((0x2022a69u32 & 0o40404040u32) >> 0u32) & 63u32 == 32u32,
        (((0x2022a69u32 & 0o40404040u32) >> 5u32) >> 0u32) & 63u32 == 1u32,
        ((0x2022a69u32 & 0o07070707u32) >> 0u32) & 63u32 == 1u32,
        (((0x2022a69u32 & 0o30303030u32) >> 3u32) >> 0u32) & 63u32 == 1u32,
        ((0x2003082u32 & 0xFFFFFFu32) >> 0u32) & 63u32 == (((1u32 << 1u32) - 1u32) as u32) << 1u32,
        ((0x2022a69u32 & 0o40404040u32) >> 6u32) & 63u32 == 32u32,
        (((0x2022a69u32 & 0o40404040u32) >> 5u32) >> 6u32) & 63u32 == 1u32,
        ((0x2022a69u32 & 0o07070707u32) >> 6u32) & 63u32 == 1u32,
        (((0x2022a69u32 & 0o30303030u32) >> 3u32) >> 6u32) & 63u32 == 1u32,
        ((0x2003082u32 & 0xFFFFFFu32) >> 6u32) & 63u32 == (((1u32 << 1u32) - 1u32) as u32) << 1u32,
        ((0x2022a69u32 & 0o40404040u32) >> 12u32) & 63u32 == 32u32,
        (((0x2022a69u32 & 0o40404040u32) >> 5u32) >> 12u32) & 63u32 == 1u32,
        ((0x2022a69u32 & 0o07070707u32) >> 12u32) & 63u32 == 2u32,
        (((0x2022a69u32 & 0o30303030u32) >> 3u32) >> 12u32) & 63u32 == 0u32,
        ((0x2003082u32 & 0xFFFFFFu32) >> 12u32) & 63u32 == (((1u32 << 2u32) - 1u32) as u32) << 0u32,
        ((0x2022a69u32 & 0o40404040u32) >> 18u32) & 63u32 == 0u32,
        (((0x2022a69u32 & 0o40404040u32) >> 5u32) >> 18u32) & 63u32 == 0u32,
        ((0x2022a69u32 & 0o07070707u32) >> 18u32) & 63u32 == 0u32,
        (((0x2022a69u32 & 0o30303030u32) >> 3u32) >> 18u32) & 63u32 == 0u32,
        ((0x2003082u32 & 0xFFFFFFu32) >> 18u32) & 63u32 == 0u32,
        (0x2022a69u32 & 0o40404040u32) < 0x100_0000u32,
        (0x2022a69u32 & 0o07070707u32) < 0x100_0000u32,
        ((0x2022a69u32 & 0o07070707u32) as u64) < (1u64 << 18u64),
        ((0x2022a69u32 & 0o30303030u32) >> 3u32) < 0x100_0000u32,
        (0x2003082u32 & 0xFFFFFFu32) < 0x100_0000u32,
        0x2003082u32 >> 24u32 == 2u32,
        (((0x2003082u32 as u64) & 0xFFFFFFu64)) < (1u64 << 14u64),
        (((0x2003082u32 as u64) & 0xFFFFFFu64)) == ((0x2003082u32 & 0xFFFFFFu32) as u64),
        (0x30008e1u32 & 0o40404040u32) >> 5u32 == 0x41u32,
        0x30008e1u32 >> 24u32 == 3u32,
        ((0x30008e1u32 & 0o40404040u32) >> 0u32) & 63u32 == 32u32,
        (((0x30008e1u32 & 0o40404040u32) >> 5u32) >> 0u32) & 63u32 == 1u32,
        ((0x30008e1u32 & 0o07070707u32) >> 0u32) & 63u32 == 1u32,
        (((0x30008e1u32 & 0o30303030u32) >> 3u32) >> 0u32) & 63u32 == 0u32,
        ((0x30001c1u32 & 0xFFFFFFu32) >> 0u32) & 63u32 == (((1u32 << 1u32) - 1u32) as u32) << 0u32,
        ((0x30008e1u32 & 0o40404040u32) >> 6u32) & 63u32 == 32u32,
        (((0x30008e1u32 & 0o40404040u32) >> 5u32) >> 6u32) & 63u32 == 1u32,
        ((0x30008e1u32 & 0o07070707u32) >> 6u32) & 63u32 == 3u32,
        (((0x30008e1u32 & 0o30303030u32) >> 3u32) >> 6u32) & 63u32 == 0u32,
        ((0x30001c1u32 & 0xFFFFFFu32) >> 6u32) & 63u32 == (((1u32 << 3u32) - 1u32) as u32) << 0u32,
        ((0x30008e1u32 & 0o40404040u32) >> 12u32) & 63u32 == 0u32,
        (((0x30008e1u32 & 0o40404040u32) >> 5u32) >> 12u32) & 63u32 == 0u32,
        ((0x30008e1u32 & 0o07070707u32) >> 12u32) & 63u32 == 0u32,
        (((0x30008e1u32 & 0o30303030u32) >> 3u32) >> 12u32) & 63u32 == 0u32,
        ((0x30001c1u32 & 0xFFFFFFu32) >> 12u32) & 63u32 == 0u32,
        ((0x30008e1u32 & 0o40404040u32) >> 18u32) & 63u32 == 0u32,
        (((0x30008e1u32 & 0o40404040u32) >> 5u32) >> 18u32) & 63u32 == 0u32,
        ((0x30008e1u32 & 0o07070707u32) >> 18u32) & 63u32 == 0u32,
        (((0x30008e1u32 & 0o30303030u32) >> 3u32) >> 18u32) & 63u32 == 0u32,
        ((0x30001c1u32 & 0xFFFFFFu32) >> 18u32) & 63u32 == 0u32,
        (0x30008e1u32 & 0o40404040u32) < 0x100_0000u32,
        (0x30008e1u32 & 0o07070707u32) < 0x100_0000u32,
        ((0x30008e1u32 & 0o07070707u32) as u64) < (1u64 << 12u64),
        ((0x30008e1u32 & 0o30303030u32) >> 3u32) < 0x100_0000u32,
        (0x30001c1u32 & 0xFFFFFFu32) < 0x100_0000u32,
        0x30001c1u32 >> 24u32 == 3u32,
        (((0x30001c1u32 as u64) & 0xFFFFFFu64)) < (1u64 << 9u64),
        (((0x30001c1u32 as u64) & 0xFFFFFFu64)) == ((0x30001c1u32 & 0xFFFFFFu32) as u64),
        (0x2022861u32 & 0o40404040u32) >> 5u32 == 0x1041u32,
        0x2022861u32 >> 24u32 == 2u32,
        ((0x2022861u32 & 0o40404040u32) >> 0u32) & 63u32 == 32u32,
        (((0x2022861u32 & 0o40404040u32) >> 5u32) >> 0u32) & 63u32 == 1u32,
        ((0x2022861u32 & 0o07070707u32) >> 0u32) & 63u32 == 1u32,
        (((0x2022861u32 & 0o30303030u32) >> 3u32) >> 0u32) & 63u32 == 0u32,
        ((0x2003041u32 & 0xFFFFFFu32) >> 0u32) & 63u32 == (((1u32 << 1u32) - 1u32) as u32) << 0u32,
        ((0x2022861u32 & 0o40404040u32) >> 6u32) & 63u32 == 32u32,
        (((0x2022861u32 & 0o40404040u32) >> 5u32) >> 6u32) & 63u32 == 1u32,
        ((0x2022861u32 & 0o07070707u32) >> 6u32) & 63u32 == 1u32,
        (((0x2022861u32 & 0o30303030u32) >> 3u32) >> 6u32) & 63u32 == 0u32,
        ((0x2003041u32 & 0xFFFFFFu32) >> 6u32) & 63u32 == (((1u32 << 1u32) - 1u32) as u32) << 0u32,
        ((0x2022861u32 & 0o40404040u32) >> 12u32) & 63u32 == 32u32,
        (((0x2022861u32 & 0o40404040u32) >> 5u32) >> 12u32) & 63u32 == 1u32,
        ((0x2022861u32 & 0o07070707u32) >> 12u32) & 63u32 == 2u32,
        (((0x2022861u32 & 0o30303030u32) >> 3u32) >> 12u32) & 63u32 == 0u32,
        ((0x2003041u32 & 0xFFFFFFu32) >> 12u32) & 63u32 == (((1u32 << 2u32) - 1u32) as u32) << 0u32,
        ((0x2022861u32 & 0o40404040u32) >> 18u32) & 63u32 == 0u32,
        (((0x2022861u32 & 0o40404040u32) >> 5u32) >> 18u32) & 63u32 == 0u32,
        ((0x2022861u32 & 0o07070707u32) >> 18u32) & 63u32 == 0u32,
        (((0x2022861u32 & 0o30303030u32) >> 3u32) >> 18u32) & 63u32 == 0u32,
        ((0x2003041u32 & 0xFFFFFFu32) >> 18u32) & 63u32 == 0u32,
        (0x2022861u32 & 0o40404040u32) < 0x100_0000u32,
        (0x2022861u32 & 0o07070707u32) < 0x100_0000u32,
        ((0x2022861u32 & 0o07070707u32) as u64) < (1u64 << 18u64),
        ((0x2022861u32 & 0o30303030u32) >> 3u32) < 0x100_0000u32,
        (0x2003041u32 & 0xFFFFFFu32) < 0x100_0000u32,
        0x2003041u32 >> 24u32 == 2u32,
        (((0x2003041u32 as u64) & 0xFFFFFFu64)) < (1u64 << 14u64),
        (((0x2003041u32 as u64) & 0xFFFFFFu64)) == ((0x2003041u32 & 0xFFFFFFu32) as u64),
        (0x3000863u32 & 0o40404040u32) >> 5u32 == 0x41u32,
        0x3000863u32 >> 24u32 == 3u32,
        ((0x3000863u32 & 0o40404040u32) >> 0u32) & 63u32 == 32u32,
        (((0x3000863u32 & 0o40404040u32) >> 5u32) >> 0u32) & 63u32 == 1u32,
        ((0x3000863u32 & 0o07070707u32) >> 0u32) & 63u32 == 3u32,
        (((0x3000863u32 & 0o30303030u32) >> 3u32) >> 0u32) & 63u32 == 0u32,
        ((0x3000047u32 & 0xFFFFFFu32) >> 0u32) & 63u32 == (((1u32 << 3u32) - 1u32) as u32) << 0u32,
        ((0x3000863u32 & 0o40404040u32) >> 6u32) & 63u32 == 32u32,
        (((0x3000863u32 & 0o40404040u32) >> 5u32) >> 6u32) & 63u32 == 1u32,
        ((0x3000863u32 & 0o07070707u32) >> 6u32) & 63u32 == 1u32,
        (((0x3000863u32 & 0o30303030u32) >> 3u32) >> 6u32) & 63u32 == 0u32,
        ((0x3000047u32 & 0xFFFFFFu32) >> 6u32) & 63u32 == (((1u32 << 1u32) - 1u32) as u32) << 0u32,
        ((0x3000863u32 & 0o40404040u32) >> 12u32) & 63u32 == 0u32,
        (((0x3000863u32 & 0o40404040u32) >> 5u32) >> 12u32) & 63u32 == 0u32,
        ((0x3000863u32 & 0o07070707u32) >> 12u32) & 63u32 == 0u32,
        (((0x3000863u32 & 0o30303030u32) >> 3u32) >> 12u32) & 63u32 == 0u32,
        ((0x3000047u32 & 0xFFFFFFu32) >> 12u32) & 63u32 == 0u32,
        ((0x3000863u32 & 0o40404040u32) >> 18u32) & 63u32 == 0u32,
        (((0x3000863u32 & 0o40404040u32) >> 5u32) >> 18u32) & 63u32 == 0u32,
        ((0x3000863u32 & 0o07070707u32) >> 18u32) & 63u32 == 0u32,
        (((0x3000863u32 & 0o30303030u32) >> 3u32) >> 18u32) & 63u32 == 0u32,
        ((0x3000047u32 & 0xFFFFFFu32) >> 18u32) & 63u32 == 0u32,
        (0x3000863u32 & 0o40404040u32) < 0x100_0000u32,
        (0x3000863u32 & 0o07070707u32) < 0x100_0000u32,
        ((0x3000863u32 & 0o07070707u32) as u64) < (1u64 << 12u64),
        ((0x3000863u32 & 0o30303030u32) >> 3u32) < 0x100_0000u32,
        (0x3000047u32 & 0xFFFFFFu32) < 0x100_0000u32,
        0x3000047u32 >> 24u32 == 3u32,
        (((0x3000047u32 as u64) & 0xFFFFFFu64)) < (1u64 << 9u64),
        (((0x3000047u32 as u64) & 0xFFFFFFu64)) == ((0x3000047u32 & 0xFFFFFFu32) as u64),
        (0x2029a62u32 & 0o40404040u32) >> 5u32 == 0x1041u32,
        0x2029a62u32 >> 24u32 == 2u32,
        ((0x2029a62u32 & 0o40404040u32) >> 0u32) & 63u32 == 32u32,
        (((0x2029a62u32 & 0o40404040u32) >> 5u32) >> 0u32) & 63u32 == 1u32,
        ((0x2029a62u32 & 0o07070707u32) >> 0u32) & 63u32 == 2u32,
        (((0x2029a62u32 & 0o30303030u32) >> 3u32) >> 0u32) & 63u32 == 0u32,
        ((0x2002083u32 & 0xFFFFFFu32) >> 0u32) & 63u32 == (((1u32 << 2u32) - 1u32) as u32) << 0u32,
        ((0x2029a62u32 & 0o40404040u32) >> 6u32) & 63u32 == 32u32,
        (((0x2029a62u32 & 0o40404040u32) >> 5u32) >> 6u32) & 63u32 == 1u32,
        ((0x2029a62u32 & 0o07070707u32) >> 6u32) & 63u32 == 1u32,
        (((0x2029a62u32 & 0o30303030u32) >> 3u32) >> 6u32) & 63u32 == 1u32,
        ((0x2002083u32 & 0xFFFFFFu32) >> 6u32) & 63u32 == (((1u32 << 1u32) - 1u32) as u32) << 1u32,
        ((0x2029a62u32 & 0o40404040u32) >> 12u32) & 63u32 == 32u32,
        (((0x2029a62u32 & 0o40404040u32) >> 5u32) >> 12u32) & 63u32 == 1u32,
        ((0x2029a62u32 & 0o07070707u32) >> 12u32) & 63u32 == 1u32,
        (((0x2029a62u32 & 0o30303030u32) >> 3u32) >> 12u32) & 63u32 == 1u32,
        ((0x2002083u32 & 0xFFFFFFu32) >> 12u32) & 63u32 == (((1u32 << 1u32) - 1u32) as u32) << 1u32,
        ((0x2029a62u32 & 0o40404040u32) >> 18u32) & 63u32 == 0u32,
        (((0x2029a62u32 & 0o40404040u32) >> 5u32) >> 18u32) & 63u32 == 0u32,
        ((0x2029a62u32 & 0o07070707u32) >> 18u32) & 63u32 == 0u32,
        (((0x2029a62u32 & 0o30303030u32) >> 3u32) >> 18u32) & 63u32 == 0u32,
        ((0x2002083u32 & 0xFFFFFFu32) >> 18u32) & 63u32 == 0u32,
        (0x2029a62u32 & 0o40404040u32) < 0x100_0000u32,
        (0x2029a62u32 & 0o07070707u32) < 0x100_0000u32,
        ((0x2029a62u32 & 0o07070707u32) as u64) < (1u64 << 18u64),
        ((0x2029a62u32 & 0o30303030u32) >> 3u32) < 0x100_0000u32,
        (0x2002083u32 & 0xFFFFFFu32) < 0x100_0000u32,
        0x2002083u32 >> 24u32 == 2u32,
        (((0x2002083u32 as u64) & 0xFFFFFFu64)) < (1u64 << 14u64),
        (((0x2002083u32 as u64) & 0xFFFFFFu64)) == ((0x2002083u32 & 0xFFFFFFu32) as u64),
        (0x30008f1u32 & 0o40404040u32) >> 5u32 == 0x41u32,
        0x30008f1u32 >> 24u32 == 3u32,
        ((0x30008f1u32 & 0o40404040u32) >> 0u32) & 63u32 == 32u32,
        (((0x30008f1u32 & 0o40404040u32) >> 5u32) >> 0u32) & 63u32 == 1u32,
        ((0x30008f1u32 & 0o07070707u32) >> 0u32) & 63u32 == 1u32,
        (((0x30008f1u32 & 0o30303030u32) >> 3u32) >> 0u32) & 63u32 == 2u32,
        ((0x30001c4u32 & 0xFFFFFFu32) >> 0u32) & 63u32 == (((1u32 << 1u32) - 1u32) as u32) << 2u32,
        ((0x30008f1u32 & 0o40404040u32) >> 6u32) & 63u32 == 32u32,
        (((0x30008f1u32 & 0o40404040u32) >> 5u32) >> 6u32) & 63u32 == 1u32,
        ((0x30008f1u32 & 0o07070707u32) >> 6u32) & 63u32 == 3u32,
        (((0x30008f1u32 & 0o30303030u32) >> 3u32) >> 6u32) & 63u32 == 0u32,
        ((0x30001c4u32 & 0xFFFFFFu32) >> 6u32) & 63u32 == (((1u32 << 3u32) - 1u32) as u32) << 0u32,
        ((0x30008f1u32 & 0o40404040u32) >> 12u32) & 63u32 == 0u32,
        (((0x30008f1u32 & 0o40404040u32) >> 5u32) >> 12u32) & 63u32 == 0u32,
        ((0x30008f1u32 & 0o07070707u32) >> 12u32) & 63u32 == 0u32,
        (((0x30008f1u32 & 0o30303030u32) >> 3u32) >> 12u32) & 63u32 == 0u32,
        ((0x30001c4u32 & 0xFFFFFFu32) >> 12u32) & 63u32 == 0u32,
        ((0x30008f1u32 & 0o40404040u32) >> 18u32) & 63u32 == 0u32,
        (((0x30008f1u32 & 0o40404040u32) >> 5u32) >> 18u32) & 63u32 == 0u32,
        ((0x30008f1u32 & 0o07070707u32) >> 18u32) & 63u32 == 0u32,
        (((0x30008f1u32 & 0o30303030u32) >> 3u32) >> 18u32) & 63u32 == 0u32,
        ((0x30001c4u32 & 0xFFFFFFu32) >> 18u32) & 63u32 == 0u32,
        (0x30008f1u32 & 0o40404040u32) < 0x100_0000u32,
        (0x30008f1u32 & 0o07070707u32) < 0x100_0000u32,
        ((0x30008f1u32 & 0o07070707u32) as u64) < (1u64 << 12u64),
        ((0x30008f1u32 & 0o30303030u32) >> 3u32) < 0x100_0000u32,
        (0x30001c4u32 & 0xFFFFFFu32) < 0x100_0000u32,
        0x30001c4u32 >> 24u32 == 3u32,
        (((0x30001c4u32 as u64) & 0xFFFFFFu64)) < (1u64 << 9u64),
        (((0x30001c4u32 as u64) & 0xFFFFFFu64)) == ((0x30001c4u32 & 0xFFFFFFu32) as u64),
        (0x20218a1u32 & 0o40404040u32) >> 5u32 == 0x1041u32,
        0x20218a1u32 >> 24u32 == 2u32,
        ((0x20218a1u32 & 0o40404040u32) >> 0u32) & 63u32 == 32u32,
        (((0x20218a1u32 & 0o40404040u32) >> 5u32) >> 0u32) & 63u32 == 1u32,
        ((0x20218a1u32 & 0o07070707u32) >> 0u32) & 63u32 == 1u32,
        (((0x20218a1u32 & 0o30303030u32) >> 3u32) >> 0u32) & 63u32 == 0u32,
        ((0x20010c1u32 & 0xFFFFFFu32) >> 0u32) & 63u32 == (((1u32 << 1u32) - 1u32) as u32) << 0u32,
        ((0x20218a1u32 & 0o40404040u32) >> 6u32) & 63u32 == 32u32,
        (((0x20218a1u32 & 0o40404040u32) >> 5u32) >> 6u32) & 63u32 == 1u32,
        ((0x20218a1u32 & 0o07070707u32) >> 6u32) & 63u32 == 2u32,
        (((0x20218a1u32 & 0o30303030u32) >> 3u32) >> 6u32) & 63u32 == 0u32,
        ((0x20010c1u32 & 0xFFFFFFu32) >> 6u32) & 63u32 == (((1u32 << 2u32) - 1u32) as u32) << 0u32,
        ((0x20218a1u32 & 0o40404040u32) >> 12u32) & 63u32 == 32u32,
        (((0x20218a1u32 & 0o40404040u32) >> 5u32) >> 12u32) & 63u32 == 1u32,
        ((0x20218a1u32 & 0o07070707u32) >> 12u32) & 63u32 == 1u32,
        (((0x20218a1u32 & 0o30303030u32) >> 3u32) >> 12u32) & 63u32 == 0u32,
        ((0x20010c1u32 & 0xFFFFFFu32) >> 12u32) & 63u32 == (((1u32 << 1u32) - 1u32) as u32) << 0u32,
        ((0x20218a1u32 & 0o40404040u32) >> 18u32) & 63u32 == 0u32,
        (((0x20218a1u32 & 0o40404040u32) >> 5u32) >> 18u32) & 63u32 == 0u32,
        ((0x20218a1u32 & 0o07070707u32) >> 18u32) & 63u32 == 0u32,
        (((0x20218a1u32 & 0o30303030u32) >> 3u32) >> 18u32) & 63u32 == 0u32,
        ((0x20010c1u32 & 0xFFFFFFu32) >> 18u32) & 63u32 == 0u32,
        (0x20218a1u32 & 0o40404040u32) < 0x100_0000u32,
        (0x20218a1u32 & 0o07070707u32) < 0x100_0000u32,
        ((0x20218a1u32 & 0o07070707u32) as u64) < (1u64 << 18u64),
        ((0x20218a1u32 & 0o30303030u32) >> 3u32) < 0x100_0000u32,
        (0x20010c1u32 & 0xFFFFFFu32) < 0x100_0000u32,
        0x20010c1u32 >> 24u32 == 2u32,
        (((0x20010c1u32 as u64) & 0xFFFFFFu64)) < (1u64 << 14u64),
        (((0x20010c1u32 as u64) & 0xFFFFFFu64)) == ((0x20010c1u32 & 0xFFFFFFu32) as u64),
        (0x3000a63u32 & 0o40404040u32) >> 5u32 == 0x41u32,
        0x3000a63u32 >> 24u32 == 3u32,
        ((0x3000a63u32 & 0o40404040u32) >> 0u32) & 63u32 == 32u32,
        (((0x3000a63u32 & 0o40404040u32) >> 5u32) >> 0u32) & 63u32 == 1u32,
        ((0x3000a63u32 & 0o07070707u32) >> 0u32) & 63u32 == 3u32,
        (((0x3000a63u32 & 0o30303030u32) >> 3u32) >> 0u32) & 63u32 == 0u32,
        ((0x3000087u32 & 0xFFFFFFu32) >> 0u32) & 63u32 == (((1u32 << 3u32) - 1u32) as u32) << 0u32,
        ((0x3000a63u32 & 0o40404040u32) >> 6u32) & 63u32 == 32u32,
        (((0x3000a63u32 & 0o40404040u32) >> 5u32) >> 6u32) & 63u32 == 1u32,
        ((0x3000a63u32 & 0o07070707u32) >> 6u32) & 63u32 == 1u32,
        (((0x3000a63u32 & 0o30303030u32) >> 3u32) >> 6u32) & 63u32 == 1u32,
        ((0x3000087u32 & 0xFFFFFFu32) >> 6u32) & 63u32 == (((1u32 << 1u32) - 1u32) as u32) << 1u32,
        ((0x3000a63u32 & 0o40404040u32) >> 12u32) & 63u32 == 0u32,
        (((0x3000a63u32 & 0o40404040u32) >> 5u32) >> 12u32) & 63u32 == 0u32,
        ((0x3000a63u32 & 0o07070707u32) >> 12u32) & 63u32 == 0u32,
        (((0x3000a63u32 & 0o30303030u32) >> 3u32) >> 12u32) & 63u32 == 0u32,
        ((0x3000087u32 & 0xFFFFFFu32) >> 12u32) & 63u32 == 0u32,
        ((0x3000a63u32 & 0o40404040u32) >> 18u32) & 63u32 == 0u32,
        (((0x3000a63u32 & 0o40404040u32) >> 5u32) >> 18u32) & 63u32 == 0u32,
        ((0x3000a63u32 & 0o07070707u32) >> 18u32) & 63u32 == 0u32,
        (((0x3000a63u32 & 0o30303030u32) >> 3u32) >> 18u32) & 63u32 == 0u32,
        ((0x3000087u32 & 0xFFFFFFu32) >> 18u32) & 63u32 == 0u32,
        (0x3000a63u32 & 0o40404040u32) < 0x100_0000u32,
        (0x3000a63u32 & 0o07070707u32) < 0x100_0000u32,
        ((0x3000a63u32 & 0o07070707u32) as u64) < (1u64 << 12u64),
        ((0x3000a63u32 & 0o30303030u32) >> 3u32) < 0x100_0000u32,
        (0x3000087u32 & 0xFFFFFFu32) < 0x100_0000u32,
        0x3000087u32 >> 24u32 == 3u32,
        (((0x3000087u32 as u64) & 0xFFFFFFu64)) < (1u64 << 9u64),
        (((0x3000087u32 as u64) & 0xFFFFFFu64)) == ((0x3000087u32 & 0xFFFFFFu32) as u64),
        (0x20298a9u32 & 0o40404040u32) >> 5u32 == 0x1041u32,
        0x20298a9u32 >> 24u32 == 2u32,
        ((0x20298a9u32 & 0o40404040u32) >> 0u32) & 63u32 == 32u32,
        (((0x20298a9u32 & 0o40404040u32) >> 5u32) >> 0u32) & 63u32 == 1u32,
        ((0x20298a9u32 & 0o07070707u32) >> 0u32) & 63u32 == 1u32,
        (((0x20298a9u32 & 0o30303030u32) >> 3u32) >> 0u32) & 63u32 == 1u32,
        ((0x20020c2u32 & 0xFFFFFFu32) >> 0u32) & 63u32 == (((1u32 << 1u32) - 1u32) as u32) << 1u32,
        ((0x20298a9u32 & 0o40404040u32) >> 6u32) & 63u32 == 32u32,
        (((0x20298a9u32 & 0o40404040u32) >> 5u32) >> 6u32) & 63u32 == 1u32,
        ((0x20298a9u32 & 0o07070707u32) >> 6u32) & 63u32 == 2u32,
        (((0x20298a9u32 & 0o30303030u32) >> 3u32) >> 6u32) & 63u32 == 0u32,
        ((0x20020c2u32 & 0xFFFFFFu32) >> 6u32) & 63u32 == (((1u32 << 2u32) - 1u32) as u32) << 0u32,
        ((0x20298a9u32 & 0o40404040u32) >> 12u32) & 63u32 == 32u32,
        (((0x20298a9u32 & 0o40404040u32) >> 5u32) >> 12u32) & 63u32 == 1u32,
        ((0x20298a9u32 & 0o07070707u32) >> 12u32) & 63u32 == 1u32,
        (((0x20298a9u32 & 0o30303030u32) >> 3u32) >> 12u32) & 63u32 == 1u32,
        ((0x20020c2u32 & 0xFFFFFFu32) >> 12u32) & 63u32 == (((1u32 << 1u32) - 1u32) as u32) << 1u32,
        ((0x20298a9u32 & 0o40404040u32) >> 18u32) & 63u32 == 0u32,
        (((0x20298a9u32 & 0o40404040u32) >> 5u32) >> 18u32) & 63u32 == 0u32,
        ((0x20298a9u32 & 0o07070707u32) >> 18u32) & 63u32 == 0u32,
        (((0x20298a9u32 & 0o30303030u32) >> 3u32) >> 18u32) & 63u32 == 0u32,
        ((0x20020c2u32 & 0xFFFFFFu32) >> 18u32) & 63u32 == 0u32,
        (0x20298a9u32 & 0o40404040u32) < 0x100_0000u32,
        (0x20298a9u32 & 0o07070707u32) < 0x100_0000u32,
        ((0x20298a9u32 & 0o07070707u32) as u64) < (1u64 << 18u64),
        ((0x20298a9u32 & 0o30303030u32) >> 3u32) < 0x100_0000u32,
        (0x20020c2u32 & 0xFFFFFFu32) < 0x100_0000u32,
        0x20020c2u32 >> 24u32 == 2u32,
        (((0x20020c2u32 as u64) & 0xFFFFFFu64)) < (1u64 << 14u64),
        (((0x20020c2u32 as u64) & 0xFFFFFFu64)) == ((0x20020c2u32 & 0xFFFFFFu32) as u64),
        (0x30008e9u32 & 0o40404040u32) >> 5u32 == 0x41u32,
        0x30008e9u32 >> 24u32 == 3u32,
        ((0x30008e9u32 & 0o40404040u32) >> 0u32) & 63u32 == 32u32,
        (((0x30008e9u32 & 0o40404040u32) >> 5u32) >> 0u32) & 63u32 == 1u32,
        ((0x30008e9u32 & 0o07070707u32) >> 0u32) & 63u32 == 1u32,
        (((0x30008e9u32 & 0o30303030u32) >> 3u32) >> 0u32) & 63u32 == 1u32,
        ((0x30001c2u32 & 0xFFFFFFu32) >> 0u32) & 63u32 == (((1u32 << 1u32) - 1u32) as u32) << 1u32,
        ((0x30008e9u32 & 0o40404040u32) >> 6u32) & 63u32 == 32u32,
        (((0x30008e9u32 & 0o40404040u32) >> 5u32) >> 6u32) & 63u32 == 1u32,
        ((0x30008e9u32 & 0o07070707u32) >> 6u32) & 63u32 == 3u32,
        (((0x30008e9u32 & 0o30303030u32) >> 3u32) >> 6u32) & 63u32 == 0u32,
        ((0x30001c2u32 & 0xFFFFFFu32) >> 6u32) & 63u32 == (((1u32 << 3u32) - 1u32) as u32) << 0u32,
        ((0x30008e9u32 & 0o40404040u32) >> 12u32) & 63u32 == 0u32,
        (((0x30008e9u32 & 0o40404040u32) >> 5u32) >> 12u32) & 63u32 == 0u32,
        ((0x30008e9u32 & 0o07070707u32) >> 12u32) & 63u32 == 0u32,
        (((0x30008e9u32 & 0o30303030u32) >> 3u32) >> 12u32) & 63u32 == 0u32,
        ((0x30001c2u32 & 0xFFFFFFu32) >> 12u32) & 63u32 == 0u32,
        ((0x30008e9u32 & 0o40404040u32) >> 18u32) & 63u32 == 0u32,
        (((0x30008e9u32 & 0o40404040u32) >> 5u32) >> 18u32) & 63u32 == 0u32,
        ((0x30008e9u32 & 0o07070707u32) >> 18u32) & 63u32 == 0u32,
        (((0x30008e9u32 & 0o30303030u32) >> 3u32) >> 18u32) & 63u32 == 0u32,
        ((0x30001c2u32 & 0xFFFFFFu32) >> 18u32) & 63u32 == 0u32,
        (0x30008e9u32 & 0o40404040u32) < 0x100_0000u32,
        (0x30008e9u32 & 0o07070707u32) < 0x100_0000u32,
        ((0x30008e9u32 & 0o07070707u32) as u64) < (1u64 << 12u64),
        ((0x30008e9u32 & 0o30303030u32) >> 3u32) < 0x100_0000u32,
        (0x30001c2u32 & 0xFFFFFFu32) < 0x100_0000u32,
        0x30001c2u32 >> 24u32 == 3u32,
        (((0x30001c2u32 as u64) & 0xFFFFFFu64)) < (1u64 << 9u64),
        (((0x30001c2u32 as u64) & 0xFFFFFFu64)) == ((0x30001c2u32 & 0xFFFFFFu32) as u64),
        (0x20008a2u32 & 0o40404040u32) >> 5u32 == 0x41u32,
        0x20008a2u32 >> 24u32 == 2u32,
        ((0x20008a2u32 & 0o40404040u32) >> 0u32) & 63u32 == 32u32,
        (((0x20008a2u32 & 0o40404040u32) >> 5u32) >> 0u32) & 63u32 == 1u32,
        ((0x20008a2u32 & 0o07070707u32) >> 0u32) & 63u32 == 2u32,
        (((0x20008a2u32 & 0o30303030u32) >> 3u32) >> 0u32) & 63u32 == 0u32,
        ((0x20000c3u32 & 0xFFFFFFu32) >> 0u32) & 63u32 == (((1u32 << 2u32) - 1u32) as u32) << 0u32,
        ((0x20008a2u32 & 0o40404040u32) >> 6u32) & 63u32 == 32u32,
        (((0x20008a2u32 & 0o40404040u32) >> 5u32) >> 6u32) & 63u32 == 1u32,
        ((0x20008a2u32 & 0o07070707u32) >> 6u32) & 63u32 == 2u32,
        (((0x20008a2u32 & 0o30303030u32) >> 3u32) >> 6u32) & 63u32 == 0u32,
        ((0x20000c3u32 & 0xFFFFFFu32) >> 6u32) & 63u32 == (((1u32 << 2u32) - 1u32) as u32) << 0u32,
        ((0x20008a2u32 & 0o40404040u32) >> 12u32) & 63u32 == 0u32,
        (((0x20008a2u32 & 0o40404040u32) >> 5u32) >> 12u32) & 63u32 == 0u32,
        ((0x20008a2u32 & 0o07070707u32) >> 12u32) & 63u32 == 0u32,
        (((0x20008a2u32 & 0o30303030u32) >> 3u32) >> 12u32) & 63u32 == 0u32,
        ((0x20000c3u32 & 0xFFFFFFu32) >> 12u32) & 63u32 == 0u32,
        ((0x20008a2u32 & 0o40404040u32) >> 18u32) & 63u32 == 0u32,
        (((0x20008a2u32 & 0o40404040u32) >> 5u32) >> 18u32) & 63u32 == 0u32,
        ((0x20008a2u32 & 0o07070707u32) >> 18u32) & 63u32 == 0u32,
        (((0x20008a2u32 & 0o30303030u32) >> 3u32) >> 18u32) & 63u32 == 0u32,
        ((0x20000c3u32 & 0xFFFFFFu32) >> 18u32) & 63u32 == 0u32,
        (0x20008a2u32 & 0o40404040u32) < 0x100_0000u32,
        (0x20008a2u32 & 0o07070707u32) < 0x100_0000u32,
        ((0x20008a2u32 & 0o07070707u32) as u64) < (1u64 << 12u64),
        ((0x20008a2u32 & 0o30303030u32) >> 3u32) < 0x100_0000u32,
        (0x20000c3u32 & 0xFFFFFFu32) < 0x100_0000u32,
        0x20000c3u32 >> 24u32 == 2u32,
        (((0x20000c3u32 as u64) & 0xFFFFFFu64)) < (1u64 << 8u64),
        (((0x20000c3u32 as u64) & 0xFFFFFFu64)) == ((0x20000c3u32 & 0xFFFFFFu32) as u64),
        (0x1861861u32 & 0o40404040u32) >> 5u32 == 0x41041u32,
        0x1861861u32 >> 24u32 == 1u32,
        ((0x1861861u32 & 0o40404040u32) >> 0u32) & 63u32 == 32u32,
        (((0x1861861u32 & 0o40404040u32) >> 5u32) >> 0u32) & 63u32 == 1u32,
        ((0x1861861u32 & 0o07070707u32) >> 0u32) & 63u32 == 1u32,
        (((0x1861861u32 & 0o30303030u32) >> 3u32) >> 0u32) & 63u32 == 0u32,
        ((0x1041041u32 & 0xFFFFFFu32) >> 0u32) & 63u32 == (((1u32 << 1u32) - 1u32) as u32) << 0u32,
        ((0x1861861u32 & 0o40404040u32) >> 6u32) & 63u32 == 32u32,
        (((0x1861861u32 & 0o40404040u32) >> 5u32) >> 6u32) & 63u32 == 1u32,
        ((0x1861861u32 & 0o07070707u32) >> 6u32) & 63u32 == 1u32,
        (((0x1861861u32 & 0o30303030u32) >> 3u32) >> 6u32) & 63u32 == 0u32,
        ((0x1041041u32 & 0xFFFFFFu32) >> 6u32) & 63u32 == (((1u32 << 1u32) - 1u32) as u32) << 0u32,
        ((0x1861861u32 & 0o40404040u32) >> 12u32) & 63u32 == 32u32,
        (((0x1861861u32 & 0o40404040u32) >> 5u32) >> 12u32) & 63u32 == 1u32,
        ((0x1861861u32 & 0o07070707u32) >> 12u32) & 63u32 == 1u32,
        (((0x1861861u32 & 0o30303030u32) >> 3u32) >> 12u32) & 63u32 == 0u32,
        ((0x1041041u32 & 0xFFFFFFu32) >> 12u32) & 63u32 == (((1u32 << 1u32) - 1u32) as u32) << 0u32,
        ((0x1861861u32 & 0o40404040u32) >> 18u32) & 63u32 == 32u32,
        (((0x1861861u32 & 0o40404040u32) >> 5u32) >> 18u32) & 63u32 == 1u32,
        ((0x1861861u32 & 0o07070707u32) >> 18u32) & 63u32 == 1u32,
        (((0x1861861u32 & 0o30303030u32) >> 3u32) >> 18u32) & 63u32 == 0u32,
        ((0x1041041u32 & 0xFFFFFFu32) >> 18u32) & 63u32 == (((1u32 << 1u32) - 1u32) as u32) << 0u32,
        (0x1861861u32 & 0o40404040u32) < 0x100_0000u32,
        (0x1861861u32 & 0o07070707u32) < 0x100_0000u32,
        ((0x1861861u32 & 0o07070707u32) as u64) < (1u64 << 24u64),
        ((0x1861861u32 & 0o30303030u32) >> 3u32) < 0x100_0000u32,
        (0x1041041u32 & 0xFFFFFFu32) < 0x100_0000u32,
        0x1041041u32 >> 24u32 == 1u32,
        (((0x1041041u32 as u64) & 0xFFFFFFu64)) < (1u64 << 19u64),
        (((0x1041041u32 as u64) & 0xFFFFFFu64)) == ((0x1041041u32 & 0xFFFFFFu32) as u64),
        (0x4000024u32 & 0o40404040u32) >> 5u32 == 0x1u32,
        0x4000024u32 >> 24u32 == 4u32,
        ((0x4000024u32 & 0o40404040u32) >> 0u32) & 63u32 == 32u32,
        (((0x4000024u32 & 0o40404040u32) >> 5u32) >> 0u32) & 63u32 == 1u32,
        ((0x4000024u32 & 0o07070707u32) >> 0u32) & 63u32 == 4u32,
        (((0x4000024u32 & 0o30303030u32) >> 3u32) >> 0u32) & 63u32 == 0u32,
        ((0x400000fu32 & 0xFFFFFFu32) >> 0u32) & 63u32 == (((1u32 << 4u32) - 1u32) as u32) << 0u32,
        ((0x4000024u32 & 0o40404040u32) >> 6u32) & 63u32 == 0u32,
        (((0x4000024u32 & 0o40404040u32) >> 5u32) >> 6u32) & 63u32 == 0u32,
        ((0x4000024u32 & 0o07070707u32) >> 6u32) & 63u32 == 0u32,
        (((0x4000024u32 & 0o30303030u32) >> 3u32) >> 6u32) & 63u32 == 0u32,
        ((0x400000fu32 & 0xFFFFFFu32) >> 6u32) & 63u32 == 0u32,
        ((0x4000024u32 & 0o40404040u32) >> 12u32) & 63u32 == 0u32,
        (((0x4000024u32 & 0o40404040u32) >> 5u32) >> 12u32) & 63u32 == 0u32,
        ((0x4000024u32 & 0o07070707u32) >> 12u32) & 63u32 == 0u32,
        (((0x4000024u32 & 0o30303030u32) >> 3u32) >> 12u32) & 63u32 == 0u32,
        ((0x400000fu32 & 0xFFFFFFu32) >> 12u32) & 63u32 == 0u32,
        ((0x4000024u32 & 0o40404040u32) >> 18u32) & 63u32 == 0u32,
        (((0x4000024u32 & 0o40404040u32) >> 5u32) >> 18u32) & 63u32 == 0u32,
        ((0x4000024u32 & 0o07070707u32) >> 18u32) & 63u32 == 0u32,
        (((0x4000024u32 & 0o30303030u32) >> 3u32) >> 18u32) & 63u32 == 0u32,
        ((0x400000fu32 & 0xFFFFFFu32) >> 18u32) & 63u32 == 0u32,
        (0x4000024u32 & 0o40404040u32) < 0x100_0000u32,
        (0x4000024u32 & 0o07070707u32) < 0x100_0000u32,
        ((0x4000024u32 & 0o07070707u32) as u64) < (1u64 << 6u64),
        ((0x4000024u32 & 0o30303030u32) >> 3u32) < 0x100_0000u32,
        (0x400000fu32 & 0xFFFFFFu32) < 0x100_0000u32,
        0x400000fu32 >> 24u32 == 4u32,
        (((0x400000fu32 as u64) & 0xFFFFFFu64)) < (1u64 << 4u64),
        (((0x400000fu32 as u64) & 0xFFFFFFu64)) == ((0x400000fu32 & 0xFFFFFFu32) as u64),
{
}

/// The keys (0 to 3, besides the drop) that orientation `i` needs to reach
/// each column `x` from the spawn position.
pub open spec fn finesse_keys(i: int) -> Seq<u64> {
    if i == 0 {
        seq![1u64, 2, 1, 0, 1, 2, 2, 1]
    } else if i == 1 {
        seq![2u64, 2, 2, 1, 1, 2, 3, 2, 2]
    } else if i == 2 {
        seq![1u64, 2, 1, 0, 1, 2, 2, 1]
    } else if i == 3 {
        seq![2u64, 2, 2, 1, 1, 2, 3, 2, 2]
    } else if i == 4 {
        seq![1u64, 2, 1, 0, 1, 2, 2, 1]
    } else if i == 5 {
        seq![2u64, 2, 3, 2, 1, 2, 3, 3, 2]
    } else if i == 6 {
        seq![2u64, 3, 2, 1, 2, 3, 3, 2]
    } else if i == 7 {
        seq![2u64, 3, 2, 1, 2, 3, 3, 2, 2]
    } else if i == 8 {
        seq![1u64, 2, 1, 0, 1, 2, 2, 1]
    } else if i == 9 {
        seq![2u64, 2, 3, 2, 1, 2, 3, 3, 2]
    } else if i == 10 {
        seq![2u64, 3, 2, 1, 2, 3, 3, 2]
    } else if i == 11 {
        seq![2u64, 3, 2, 1, 2, 3, 3, 2, 2]
    } else if i == 12 {
        seq![1u64, 2, 1, 0, 1, 2, 2, 1]
    } else if i == 13 {
        seq![2u64, 2, 3, 2, 1, 2, 3, 3, 2]
    } else if i == 14 {
        seq![2u64, 3, 2, 1, 2, 3, 3, 2]
    } else if i == 15 {
        seq![2u64, 3, 2, 1, 2, 3, 3, 2, 2]
    } else if i == 16 {
        seq![1u64, 2, 2, 1, 0, 1, 2, 2, 1]
    } else if i == 17 {
        seq![1u64, 2, 1, 0, 1, 2, 1]
    } else {
        seq![2u64, 2, 2, 2, 1, 1, 2, 2, 2, 2]
    }
}

/// Whether the first key of the move to each column is a DAS that the
/// previous piece's DAS can carry over (1) or not (0).
pub open spec fn finesse_reuse(i: int) -> Seq<u64> {
    if i == 0 {
        seq![1u64, 1, 0, 0, 0, 0, 1, 1]
    } else if i == 1 {
        seq![1u64, 1, 0, 0, 0, 0, 1, 1, 1]
    } else if i == 2 {
        seq![1u64, 1, 0, 0, 0, 0, 1, 1]
    } else if i == 3 {
        seq![1u64, 1, 0, 0, 0, 0, 1, 1, 1]
    } else if i == 4 {
        seq![1u64, 1, 0, 0, 0, 0, 1, 1]
    } else if i == 5 {
        seq![1u64, 1, 1, 0, 0, 0, 0, 1, 1]
    } else if i == 6 {
        seq![1u64, 1, 0, 0, 0, 0, 1, 1]
    } else if i == 7 {
        seq![1u64, 1, 0, 0, 0, 0, 1, 1, 1]
    } else if i == 8 {
        seq![1u64, 1, 0, 0, 0, 0, 1, 1]
    } else if i == 9 {
        seq![1u64, 1, 1, 0, 0, 0, 0, 1, 1]
    } else if i == 10 {
        seq![1u64, 1, 0, 0, 0, 0, 1, 1]
    } else if i == 11 {
        seq![1u64, 1, 0, 0, 0, 0, 1, 1, 1]
    } else if i == 12 {
        seq![1u64, 1, 0, 0, 0, 0, 1, 1]
    } else if i == 13 {
        seq![1u64, 1, 1, 0, 0, 0, 0, 1, 1]
    } else if i == 14 {
        seq![1u64, 1, 0, 0, 0, 0, 1, 1]
    } else if i == 15 {
        seq![1u64, 1, 0, 0, 0, 0, 1, 1, 1]
    } else if i == 16 {
        seq![1u64, 1, 0, 0, 0, 0, 0, 1, 1]
    } else if i == 17 {
        seq![1u64, 1, 0, 0, 0, 1, 1]
    } else {
        seq![1u64, 1, 1, 0, 0, 0, 0, 1, 1, 1]
    }
}

/// Whether the move to each column has a special form when the previous
/// piece's DAS is still held (1) or not (0).
pub open spec fn finesse_special(i: int) -> Seq<u64> {
    if i == 0 {
        seq![0u64, 0, 0, 0, 0, 1, 0, 0]
    } else if i == 1 {
        seq![0u64, 0, 1, 0, 0, 0, 0, 0, 0]
    } else if i == 2 {
        seq![0u64, 0, 0, 0, 0, 1, 0, 0]
    } else if i == 3 {
        seq![0u64, 0, 1, 0, 0, 0, 0, 0, 0]
    } else if i == 4 {
        seq![0u64, 0, 0, 0, 0, 1, 0, 0]
    } else if i == 5 {
        seq![0u64, 0, 0, 0, 0, 0, 1, 0, 0]
    } else if i == 6 {
        seq![0u64, 0, 0, 0, 0, 1, 0, 0]
    } else if i == 7 {
        seq![0u64, 0, 0, 0, 0, 0, 1, 0, 0]
    } else if i == 8 {
        seq![0u64, 0, 0, 0, 0, 1, 0, 0]
    } else if i == 9 {
        seq![0u64, 0, 0, 0, 0, 0, 1, 0, 0]
    } else if i == 10 {
        seq![0u64, 0, 0, 0, 0, 1, 0, 0]
    } else if i == 11 {
        seq![0u64, 0, 0, 0, 0, 0, 1, 0, 0]
    } else if i == 12 {
        seq![0u64, 0, 0, 0, 0, 1, 0, 0]
    } else if i == 13 {
        seq![0u64, 0, 0, 0, 0, 0, 1, 0, 0]
    } else if i == 14 {
        seq![0u64, 0, 0, 0, 0, 1, 0, 0]
    } else if i == 15 {
        seq![0u64, 0, 0, 0, 0, 0, 1, 0, 0]
    } else if i == 16 {
        seq![0u64, 0, 1, 0, 0, 0, 1, 0, 0]
    } else if i == 17 {
        seq![0u64, 0, 0, 0, 0, 0, 0]
    } else {
        seq![0u64, 0, 0, 1, 0, 0, 1, 0, 0, 0]
    }
}

proof fn bv_finesse_tables()
    by (bit_vector)
    ensures
        0x300055ec9100978du64 >> 60u64 == 3u64,
        ((0x300055ec9100978du64 & 0x0FFF_FFFF_FFFF_FFFFu64) >> 0u64) & 3u64 == 1u64,
        (((0x300055ec9100978du64 & 0x0FFF_FFFF_FFFF_FFFFu64) >> 0u64) & 4u64) >> 2u64 == 1u64,
        (((0x300055ec9100978du64 & 0x0FFF_FFFF_FFFF_FFFFu64) >> 0u64) & 0x20u64) >> 5u64 == 0u64,
        ((0x300055ec9100978du64 & 0x0FFF_FFFF_FFFF_FFFFu64) >> 6u64) & 3u64 == 2u64,
        (((0x300055ec9100978du64 & 0x0FFF_FFFF_FFFF_FFFFu64) >> 6u64) & 4u64) >> 2u64 == 1u64,
        (((0x300055ec9100978du64 & 0x0FFF_FFFF_FFFF_FFFFu64) >> 6u64) & 0x20u64) >> 5u64 == 0u64,
        ((0x300055ec9100978du64 & 0x0FFF_FFFF_FFFF_FFFFu64) >> 12u64) & 3u64 == 1u64,
        (((0x300055ec9100978du64 & 0x0FFF_FFFF_FFFF_FFFFu64) >> 12u64) & 4u64) >> 2u64 == 0u64,
        (((0x300055ec9100978du64 & 0x0FFF_FFFF_FFFF_FFFFu64) >> 12u64) & 0x20u64) >> 5u64 == 0u64,
        ((0x300055ec9100978du64 & 0x0FFF_FFFF_FFFF_FFFFu64) >> 18u64) & 3u64 == 0u64,
        (((0x300055ec9100978du64 & 0x0FFF_FFFF_FFFF_FFFFu64) >> 18u64) & 4u64) >> 2u64 == 0u64,
        (((0x300055ec9100978du64 & 0x0FFF_FFFF_FFFF_FFFFu64) >> 18u64) & 0x20u64) >> 5u64 == 0u64,
        ((0x300055ec9100978du64 & 0x0FFF_FFFF_FFFF_FFFFu64) >> 24u64) & 3u64 == 1u64,
        (((0x300055ec9100978du64 & 0x0FFF_FFFF_FFFF_FFFFu64) >> 24u64) & 4u64) >> 2u64 == 0u64,
        (((0x300055ec9100978du64 & 0x0FFF_FFFF_FFFF_FFFFu64) >> 24u64) & 0x20u64) >> 5u64 == 0u64,
        ((0x300055ec9100978du64 & 0x0FFF_FFFF_FFFF_FFFFu64) >> 30u64) & 3u64 == 2u64,
        (((0x300055ec9100978du64 & 0x0FFF_FFFF_FFFF_FFFFu64) >> 30u64) & 4u64) >> 2u64 == 0u64,
        (((0x300055ec9100978du64 & 0x0FFF_FFFF_FFFF_FFFFu64) >> 30u64) & 0x20u64) >> 5u64 == 1u64,
        ((0x300055ec9100978du64 & 0x0FFF_FFFF_FFFF_FFFFu64) >> 36u64) & 3u64 == 2u64,
        (((0x300055ec9100978du64 & 0x0FFF_FFFF_FFFF_FFFFu64) >> 36u64) & 4u64) >> 2u64 == 1u64,
        (((0x300055ec9100978du64 & 0x0FFF_FFFF_FFFF_FFFFu64) >> 36u64) & 0x20u64) >> 5u64 == 0u64,
        ((0x300055ec9100978du64 & 0x0FFF_FFFF_FFFF_FFFFu64) >> 42u64) & 3u64 == 1u64,
        (((0x300055ec9100978du64 & 0x0FFF_FFFF_FFFF_FFFFu64) >> 42u64) & 4u64) >> 2u64 == 1u64,
        (((0x300055ec9100978du64 & 0x0FFF_FFFF_FFFF_FFFFu64) >> 42u64) & 0x20u64) >> 5u64 == 0u64,
        0x201619f48106a18eu64 >> 60u64 == 2u64,
        ((0x201619f48106a18eu64 & 0x0FFF_FFFF_FFFF_FFFFu64) >> 0u64) & 3u64 == 2u64,
        (((0x201619f48106a18eu64 & 0x0FFF_FFFF_FFFF_FFFFu64) >> 0u64) & 4u64) >> 2u64 == 1u64,
        (((0x201619f48106a18eu64 & 0x0FFF_FFFF_FFFF_FFFFu64) >> 0u64) & 0x20u64) >> 5u64 == 0u64,
        ((0x201619f48106a18eu64 & 0x0FFF_FFFF_FFFF_FFFFu64) >> 6u64) & 3u64 == 2u64,
        (((0x201619f48106a18eu64 & 0x0FFF_FFFF_FFFF_FFFFu64) >> 6u64) & 4u64) >> 2u64 == 1u64,
        (((0x201619f48106a18eu64 & 0x0FFF_FFFF_FFFF_FFFFu64) >> 6u64) & 0x20u64) >> 5u64 == 0u64,
        ((0x201619f48106a18eu64 & 0x0FFF_FFFF_FFFF_FFFFu64) >> 12u64) & 3u64 == 2u64,
        (((0x201619f48106a18eu64 & 0x0FFF_FFFF_FFFF_FFFFu64) >> 12u64) & 4u64) >> 2u64 == 0u64,
        (((0x201619f48106a18eu64 & 0x0FFF_FFFF_FFFF_FFFFu64) >> 12u64) & 0x20u64) >> 5u64 == 1u64,
        ((0x201619f48106a18eu64 & 0x0FFF_FFFF_FFFF_FFFFu64) >> 18u64) & 3u64 == 1u64,
        (((0x201619f48106a18eu64 & 0x0FFF_FFFF_FFFF_FFFFu64) >> 18u64) & 4u64) >> 2u64 == 0u64,
        (((0x201619f48106a18eu64 & 0x0FFF_FFFF_FFFF_FFFFu64) >> 18u64) & 0x20u64) >> 5u64 == 0u64,
        ((0x201619f48106a18eu64 & 0x0FFF_FFFF_FFFF_FFFFu64) >> 24u64) & 3u64 == 1u64,
        (((0x201619f48106a18eu64 & 0x0FFF_FFFF_FFFF_FFFFu64) >> 24u64) & 4u64) >> 2u64 == 0u64,
        (((0x201619f48106a18eu64 & 0x0FFF_FFFF_FFFF_FFFFu64) >> 24u64) & 0x20u64) >> 5u64 == 0u64,
        ((0x201619f48106a18eu64 & 0x0FFF_FFFF_FFFF_FFFFu64) >> 30u64) & 3u64 == 2u64,
        (((0x201619f48106a18eu64 & 0x0FFF_FFFF_FFFF_FFFFu64) >> 30u64) & 4u64) >> 2u64 == 0u64,
        (((0x201619f48106a18eu64 & 0x0FFF_FFFF_FFFF_FFFFu64) >> 30u64) & 0x20u64) >> 5u64 == 0u64,
        ((0x201619f48106a18eu64 & 0x0FFF_FFFF_FFFF_FFFFu64) >> 36u64) & 3u64 == 3u64,
        (((0x201619f48106a18eu64 & 0x0FFF_FFFF_FFFF_FFFFu64) >> 36u64) & 4u64) >> 2u64 == 1u64,
        (((0x201619f48106a18eu64 & 0x0FFF_FFFF_FFFF_FFFFu64) >> 36u64) & 0x20u64) >> 5u64 == 0u64,
        ((0x201619f48106a18eu64 & 0x0FFF_FFFF_FFFF_FFFFu64) >> 42u64) & 3u64 == 2u64,
        (((0x201619f48106a18eu64 & 0x0FFF_FFFF_FFFF_FFFFu64) >> 42u64) & 4u64) >> 2u64 == 1u64,
        (((0x201619f48106a18eu64 & 0x0FFF_FFFF_FFFF_FFFFu64) >> 42u64) & 0x20u64) >> 5u64 == 0u64,
        ((0x201619f48106a18eu64 & 0x0FFF_FFFF_FFFF_FFFFu64) >> 48u64) & 3u64 == 2u64,
        (((0x201619f48106a18eu64 & 0x0FFF_FFFF_FFFF_FFFFu64) >> 48u64) & 4u64) >> 2u64 == 1u64,
        (((0x201619f48106a18eu64 & 0x0FFF_FFFF_FFFF_FFFFu64) >> 48u64) & 0x20u64) >> 5u64 == 0u64,
        0x300055ec9100978du64 >> 60u64 == 3u64,
        ((0x300055ec9100978du64 & 0x0FFF_FFFF_FFFF_FFFFu64) >> 0u64) & 3u64 == 1u64,
        (((0x300055ec9100978du64 & 0x0FFF_FFFF_FFFF_FFFFu64) >> 0u64) & 4u64) >> 2u64 == 1u64,
        (((0x300055ec9100978du64 & 0x0FFF_FFFF_FFFF_FFFFu64) >> 0u64) & 0x20u64) >> 5u64 == 0u64,
        ((0x300055ec9100978du64 & 0x0FFF_FFFF_FFFF_FFFFu64) >> 6u64) & 3u64 == 2u64,
        (((0x300055ec9100978du64 & 0x0FFF_FFFF_FFFF_FFFFu64) >> 6u64) & 4u64) >> 2u64 == 1u64,
        (((0x300055ec9100978du64 & 0x0FFF_FFFF_FFFF_FFFFu64) >> 6u64) & 0x20u64) >> 5u64 == 0u64,
        ((0x300055ec9100978du64 & 0x0FFF_FFFF_FFFF_FFFFu64) >> 12u64) & 3u64 == 1u64,
        (((0x300055ec9100978du64 & 0x0FFF_FFFF_FFFF_FFFFu64) >> 12u64) & 4u64) >> 2u64 == 0u64,
        (((0x300055ec9100978du64 & 0x0FFF_FFFF_FFFF_FFFFu64) >> 12u64) & 0x20u64) >> 5u64 == 0u64,
        ((0x300055ec9100978du64 & 0x0FFF_FFFF_FFFF_FFFFu64) >> 18u64) & 3u64 == 0u64,
        (((0x300055ec9100978du64 & 0x0FFF_FFFF_FFFF_FFFFu64) >> 18u64) & 4u64) >> 2u64 == 0u64,
        (((0x300055ec9100978du64 & 0x0FFF_FFFF_FFFF_FFFFu64) >> 18u64) & 0x20u64) >> 5u64 == 0u64,
        ((0x300055ec9100978du64 & 0x0FFF_FFFF_FFFF_FFFFu64) >> 24u64) & 3u64 == 1u64,
        (((0x300055ec9100978du64 & 0x0FFF_FFFF_FFFF_FFFFu64) >> 24u64) & 4u64) >> 2u64 == 0u64,
        (((0x300055ec9100978du64 & 0x0FFF_FFFF_FFFF_FFFFu64) >> 24u64) & 0x20u64) >> 5u64 == 0u64,
        ((0x300055ec9100978du64 & 0x0FFF_FFFF_FFFF_FFFFu64) >> 30u64) & 3u64 == 2u64,
        (((0x300055ec9100978du64 & 0x0FFF_FFFF_FFFF_FFFFu64) >> 30u64) & 4u64) >> 2u64 == 0u64,
        (((0x300055ec9100978du64 & 0x0FFF_FFFF_FFFF_FFFFu64) >> 30u64) & 0x20u64) >> 5u64 == 1u64,
        ((0x300055ec9100978du64 & 0x0FFF_FFFF_FFFF_FFFFu64) >> 36u64) & 3u64 == 2u64,
        (((0x300055ec9100978du64 & 0x0FFF_FFFF_FFFF_FFFFu64) >> 36u64) & 4u64) >> 2u64 == 1u64,
        (((0x300055ec9100978du64 & 0x0FFF_FFFF_FFFF_FFFFu64) >> 36u64) & 0x20u64) >> 5u64 == 0u64,
        ((0x300055ec9100978du64 & 0x0FFF_FFFF_FFFF_FFFFu64) >> 42u64) & 3u64 == 1u64,
        (((0x300055ec9100978du64 & 0x0FFF_FFFF_FFFF_FFFFu64) >> 42u64) & 4u64) >> 2u64 == 1u64,
        (((0x300055ec9100978du64 & 0x0FFF_FFFF_FFFF_FFFFu64) >> 42u64) & 0x20u64) >> 5u64 == 0u64,
        0x201619f48106a18eu64 >> 60u64 == 2u64,
        ((0x201619f48106a18eu64 & 0x0FFF_FFFF_FFFF_FFFFu64) >> 0u64) & 3u64 == 2u64,
        (((0x201619f48106a18eu64 & 0x0FFF_FFFF_FFFF_FFFFu64) >> 0u64) & 4u64) >> 2u64 == 1u64,
        (((0x201619f48106a18eu64 & 0x0FFF_FFFF_FFFF_FFFFu64) >> 0u64) & 0x20u64) >> 5u64 == 0u64,
        ((0x201619f48106a18eu64 & 0x0FFF_FFFF_FFFF_FFFFu64) >> 6u64) & 3u64 == 2u64,
        (((0x201619f48106a18eu64 & 0x0FFF_FFFF_FFFF_FFFFu64) >> 6u64) & 4u64) >> 2u64 == 1u64,
        (((0x201619f48106a18eu64 & 0x0FFF_FFFF_FFFF_FFFFu64) >> 6u64) & 0x20u64) >> 5u64 == 0u64,
        ((0x201619f48106a18eu64 & 0x0FFF_FFFF_FFFF_FFFFu64) >> 12u64) & 3u64 == 2u64,
        (((0x201619f48106a18eu64 & 0x0FFF_FFFF_FFFF_FFFFu64) >> 12u64) & 4u64) >> 2u64 == 0u64,
        (((0x201619f48106a18eu64 & 0x0FFF_FFFF_FFFF_FFFFu64) >> 12u64) & 0x20u64) >> 5u64 == 1u64,
        ((0x201619f48106a18eu64 & 0x0FFF_FFFF_FFFF_FFFFu64) >> 18u64) & 3u64 == 1u64,
        (((0x201619f48106a18eu64 & 0x0FFF_FFFF_FFFF_FFFFu64) >> 18u64) & 4u64) >> 2u64 == 0u64,
        (((0x201619f48106a18eu64 & 0x0FFF_FFFF_FFFF_FFFFu64) >> 18u64) & 0x20u64) >> 5u64 == 0u64,
        ((0x201619f48106a18eu64 & 0x0FFF_FFFF_FFFF_FFFFu64) >> 24u64) & 3u64 == 1u64,
        (((0x201619f48106a18eu64 & 0x0FFF_FFFF_FFFF_FFFFu64) >> 24u64) & 4u64) >> 2u64 == 0u64,
        (((0x201619f48106a18eu64 & 0x0FFF_FFFF_FFFF_FFFFu64) >> 24u64) & 0x20u64) >> 5u64 == 0u64,
        ((0x201619f48106a18eu64 & 0x0FFF_FFFF_FFFF_FFFFu64) >> 30u64) & 3u64 == 2u64,
        (((0x201619f48106a18eu64 & 0x0FFF_FFFF_FFFF_FFFFu64) >> 30u64) & 4u64) >> 2u64 == 0u64,
        (((0x201619f48106a18eu64 & 0x0FFF_FFFF_FFFF_FFFFu64) >> 30u64) & 0x20u64) >> 5u64 == 0u64,
        ((0x201619f48106a18eu64 & 0x0FFF_FFFF_FFFF_FFFFu64) >> 36u64) & 3u64 == 3u64,
        (((0x201619f48106a18eu64 & 0x0FFF_FFFF_FFFF_FFFFu64) >> 36u64) & 4u64) >> 2u64 == 1u64,
        (((0x201619f48106a18eu64 & 0x0FFF_FFFF_FFFF_FFFFu64) >> 36u64) & 0x20u64) >> 5u64 == 0u64,
        ((0x201619f48106a18eu64 & 0x0FFF_FFFF_FFFF_FFFFu64) >> 42u64) & 3u64 == 2u64,
        (((0x201619f48106a18eu64 & 0x0FFF_FFFF_FFFF_FFFFu64) >> 42u64) & 4u64) >> 2u64 == 1u64,
        (((0x201619f48106a18eu64 & 0x0FFF_FFFF_FFFF_FFFFu64) >> 42u64) & 0x20u64) >> 5u64 == 0u64,
        ((0x201619f48106a18eu64 & 0x0FFF_FFFF_FFFF_FFFFu64) >> 48u64) & 3u64 == 2u64,
        (((0x201619f48106a18eu64 & 0x0FFF_FFFF_FFFF_FFFFu64) >> 48u64) & 4u64) >> 2u64 == 1u64,
        (((0x201619f48106a18eu64 & 0x0FFF_FFFF_FFFF_FFFFu64) >> 48u64) & 0x20u64) >> 5u64 == 0u64,
        0x300055ec9100978du64 >> 60u64 == 3u64,
        ((0x300055ec9100978du64 & 0x0FFF_FFFF_FFFF_FFFFu64) >> 0u64) & 3u64 == 1u64,
        (((0x300055ec9100978du64 & 0x0FFF_FFFF_FFFF_FFFFu64) >> 0u64) & 4u64) >> 2u64 == 1u64,
        (((0x300055ec9100978du64 & 0x0FFF_FFFF_FFFF_FFFFu64) >> 0u64) & 0x20u64) >> 5u64 == 0u64,
        ((0x300055ec9100978du64 & 0x0FFF_FFFF_FFFF_FFFFu64) >> 6u64) & 3u64 == 2u64,
        (((0x300055ec9100978du64 & 0x0FFF_FFFF_FFFF_FFFFu64) >> 6u64) & 4u64) >> 2u64 == 1u64,
        (((0x300055ec9100978du64 & 0x0FFF_FFFF_FFFF_FFFFu64) >> 6u64) & 0x20u64) >> 5u64 == 0u64,
        ((0x300055ec9100978du64 & 0x0FFF_FFFF_FFFF_FFFFu64) >> 12u64) & 3u64 == 1u64,
        (((0x300055ec9100978du64 & 0x0FFF_FFFF_FFFF_FFFFu64) >> 12u64) & 4u64) >> 2u64 == 0u64,
        (((0x300055ec9100978du64 & 0x0FFF_FFFF_FFFF_FFFFu64) >> 12u64) & 0x20u64) >> 5u64 == 0u64,
        ((0x300055ec9100978du64 & 0x0FFF_FFFF_FFFF_FFFFu64) >> 18u64) & 3u64 == 0u64,
        (((0x300055ec9100978du64 & 0x0FFF_FFFF_FFFF_FFFFu64) >> 18u64) & 4u64) >> 2u64 == 0u64,
        (((0x300055ec9100978du64 & 0x0FFF_FFFF_FFFF_FFFFu64) >> 18u64) & 0x20u64) >> 5u64 == 0u64,
        ((0x300055ec9100978du64 & 0x0FFF_FFFF_FFFF_FFFFu64) >> 24u64) & 3u64 == 1u64,
        (((0x300055ec9100978du64 & 0x0FFF_FFFF_FFFF_FFFFu64) >> 24u64) & 4u64) >> 2u64 == 0u64,
        (((0x300055ec9100978du64 & 0x0FFF_FFFF_FFFF_FFFFu64) >> 24u64) & 0x20u64) >> 5u64 == 0u64,
        ((0x300055ec9100978du64 & 0x0FFF_FFFF_FFFF_FFFFu64) >> 30u64) & 3u64 == 2u64,
        (((0x300055ec9100978du64 & 0x0FFF_FFFF_FFFF_FFFFu64) >> 30u64) & 4u64) >> 2u64 == 0u64,
        (((0x300055ec9100978du64 & 0x0FFF_FFFF_FFFF_FFFFu64) >> 30u64) & 0x20u64) >> 5u64 == 1u64,
        ((0x300055ec9100978du64 & 0x0FFF_FFFF_FFFF_FFFFu64) >> 36u64) & 3u64 == 2u64,
        (((0x300055ec9100978du64 & 0x0FFF_FFFF_FFFF_FFFFu64) >> 36u64) & 4u64) >> 2u64 == 1u64,
        (((0x300055ec9100978du64 & 0x0FFF_FFFF_FFFF_FFFFu64) >> 36u64) & 0x20u64) >> 5u64 == 0u64,
        ((0x300055ec9100978du64 & 0x0FFF_FFFF_FFFF_FFFFu64) >> 42u64) & 3u64 == 1u64,
        (((0x300055ec9100978du64 & 0x0FFF_FFFF_FFFF_FFFFu64) >> 42u64) & 4u64) >> 2u64 == 1u64,
        (((0x300055ec9100978du64 & 0x0FFF_FFFF_FFFF_FFFFu64) >> 42u64) & 0x20u64) >> 5u64 == 0u64,
        0x20167f348129f18eu64 >> 60u64 == 2u64,
        ((0x20167f348129f18eu64 & 0x0FFF_FFFF_FFFF_FFFFu64) >> 0u64) & 3u64 == 2u64,
        (((0x20167f348129f18eu64 & 0x0FFF_FFFF_FFFF_FFFFu64) >> 0u64) & 4u64) >> 2u64 == 1u64,
        (((0x20167f348129f18eu64 & 0x0FFF_FFFF_FFFF_FFFFu64) >> 0u64) & 0x20u64) >> 5u64 == 0u64,
        ((0x20167f348129f18eu64 & 0x0FFF_FFFF_FFFF_FFFFu64) >> 6u64) & 3u64 == 2u64,
        (((0x20167f348129f18eu64 & 0x0FFF_FFFF_FFFF_FFFFu64) >> 6u64) & 4u64) >> 2u64 == 1u64,
        (((0x20167f348129f18eu64 & 0x0FFF_FFFF_FFFF_FFFFu64) >> 6u64) & 0x20u64) >> 5u64 == 0u64,
        ((0x20167f348129f18eu64 & 0x0FFF_FFFF_FFFF_FFFFu64) >> 12u64) & 3u64 == 3u64,
        (((0x20167f348129f18eu64 & 0x0FFF_FFFF_FFFF_FFFFu64) >> 12u64) & 4u64) >> 2u64 == 1u64,
        (((0x20167f348129f18eu64 & 0x0FFF_FFFF_FFFF_FFFFu64) >> 12u64) & 0x20u64) >> 5u64 == 0u64,
        ((0x20167f348129f18eu64 & 0x0FFF_FFFF_FFFF_FFFFu64) >> 18u64) & 3u64 == 2u64,
        (((0x20167f348129f18eu64 & 0x0FFF_FFFF_FFFF_FFFFu64) >> 18u64) & 4u64) >> 2u64 == 0u64,
        (((0x20167f348129f18eu64 & 0x0FFF_FFFF_FFFF_FFFFu64) >> 18u64) & 0x20u64) >> 5u64 == 0u64,
        ((0x20167f348129f18eu64 & 0x0FFF_FFFF_FFFF_FFFFu64) >> 24u64) & 3u64 == 1u64,
        (((0x20167f348129f18eu64 & 0x0FFF_FFFF_FFFF_FFFFu64) >> 24u64) & 4u64) >> 2u64 == 0u64,
        (((0x20167f348129f18eu64 & 0x0FFF_FFFF_FFFF_FFFFu64) >> 24u64) & 0x20u64) >> 5u64 == 0u64,
        ((0x20167f348129f18eu64 & 0x0FFF_FFFF_FFFF_FFFFu64) >> 30u64) & 3u64 == 2u64,
        (((0x20167f348129f18eu64 & 0x0FFF_FFFF_FFFF_FFFFu64) >> 30u64) & 4u64) >> 2u64 == 0u64,
        (((0x20167f348129f18eu64 & 0x0FFF_FFFF_FFFF_FFFFu64) >> 30u64) & 0x20u64) >> 5u64 == 0u64,
        ((0x20167f348129f18eu64 & 0x0FFF_FFFF_FFFF_FFFFu64) >> 36u64) & 3u64 == 3u64,
        (((0x20167f348129f18eu64 & 0x0FFF_FFFF_FFFF_FFFFu64) >> 36u64) & 4u64) >> 2u64 == 0u64,
        (((0x20167f348129f18eu64 & 0x0FFF_FFFF_FFFF_FFFFu64) >> 36u64) & 0x20u64) >> 5u64 == 1u64,
        ((0x20167f348129f18eu64 & 0x0FFF_FFFF_FFFF_FFFFu64) >> 42u64) & 3u64 == 3u64,
        (((0x20167f348129f18eu64 & 0x0FFF_FFFF_FFFF_FFFFu64) >> 42u64) & 4u64) >> 2u64 == 1u64,
        (((0x20167f348129f18eu64 & 0x0FFF_FFFF_FFFF_FFFFu64) >> 42u64) & 0x20u64) >> 5u64 == 0u64,
        ((0x20167f348129f18eu64 & 0x0FFF_FFFF_FFFF_FFFFu64) >> 48u64) & 3u64 == 2u64,
        (((0x20167f348129f18eu64 & 0x0FFF_FFFF_FFFF_FFFFu64) >> 48u64) & 4u64) >> 2u64 == 1u64,
        (((0x20167f348129f18eu64 & 0x0FFF_FFFF_FFFF_FFFFu64) >> 48u64) & 0x20u64) >> 5u64 == 0u64,
        0x300059fcd204a7ceu64 >> 60u64 == 3u64,
        ((0x300059fcd204a7ceu64 & 0x0FFF_FFFF_FFFF_FFFFu64) >> 0u64) & 3u64 == 2u64,
        (((0x300059fcd204a7ceu64 & 0x0FFF_FFFF_FFFF_FFFFu64) >> 0u64) & 4u64) >> 2u64 == 1u64,
        (((0x300059fcd204a7ceu64 & 0x0FFF_FFFF_FFFF_FFFFu64) >> 0u64) & 0x20u64) >> 5u64 == 0u64,
        ((0x300059fcd204a7ceu64 & 0x0FFF_FFFF_FFFF_FFFFu64) >> 6u64) & 3u64 == 3u64,
        (((0x300059fcd204a7ceu64 & 0x0FFF_FFFF_FFFF_FFFFu64) >> 6u64) & 4u64) >> 2u64 == 1u64,
        (((0x300059fcd204a7ceu64 & 0x0FFF_FFFF_FFFF_FFFFu64) >> 6u64) & 0x20u64) >> 5u64 == 0u64,
        ((0x300059fcd204a7ceu64 & 0x0FFF_FFFF_FFFF_FFFFu64) >> 12u64) & 3u64 == 2u64,
        (((0x300059fcd204a7ceu64 & 0x0FFF_FFFF_FFFF_FFFFu64) >> 12u64) & 4u64) >> 2u64 == 0u64,
        (((0x300059fcd204a7ceu64 & 0x0FFF_FFFF_FFFF_FFFFu64) >> 12u64) & 0x20u64) >> 5u64 == 0u64,
        ((0x300059fcd204a7ceu64 & 0x0FFF_FFFF_FFFF_FFFFu64) >> 18u64) & 3u64 == 1u64,
        (((0x300059fcd204a7ceu64 & 0x0FFF_FFFF_FFFF_FFFFu64) >> 18u64) & 4u64) >> 2u64 == 0u64,
        (((0x300059fcd204a7ceu64 & 0x0FFF_FFFF_FFFF_FFFFu64) >> 18u64) & 0x20u64) >> 5u64 == 0u64,
        ((0x300059fcd204a7ceu64 & 0x0FFF_FFFF_FFFF_FFFFu64) >> 24u64) & 3u64 == 2u64,
        (((0x300059fcd204a7ceu64 & 0x0FFF_FFFF_FFFF_FFFFu64) >> 24u64) & 4u64) >> 2u64 == 0u64,
        (((0x300059fcd204a7ceu64 & 0x0FFF_FFFF_FFFF_FFFFu64) >> 24u64) & 0x20u64) >> 5u64 == 0u64,
        ((0x300059fcd204a7ceu64 & 0x0FFF_FFFF_FFFF_FFFFu64) >> 30u64) & 3u64 == 3u64,
        (((0x300059fcd204a7ceu64 & 0x0FFF_FFFF_FFFF_FFFFu64) >> 30u64) & 4u64) >> 2u64 == 0u64,
        (((0x300059fcd204a7ceu64 & 0x0FFF_FFFF_FFFF_FFFFu64) >> 30u64) & 0x20u64) >> 5u64 == 1u64,
        ((0x300059fcd204a7ceu64 & 0x0FFF_FFFF_FFFF_FFFFu64) >> 36u64) & 3u64 == 3u64,
        (((0x300059fcd204a7ceu64 & 0x0FFF_FFFF_FFFF_FFFFu64) >> 36u64) & 4u64) >> 2u64 == 1u64,
        (((0x300059fcd204a7ceu64 & 0x0FFF_FFFF_FFFF_FFFFu64) >> 36u64) & 0x20u64) >> 5u64 == 0u64,
        ((0x300059fcd204a7ceu64 & 0x0FFF_FFFF_FFFF_FFFFu64) >> 42u64) & 3u64 == 2u64,
        (((0x300059fcd204a7ceu64 & 0x0FFF_FFFF_FFFF_FFFFu64) >> 42u64) & 4u64) >> 2u64 == 1u64,
        (((0x300059fcd204a7ceu64 & 0x0FFF_FFFF_FFFF_FFFFu64) >> 42u64) & 0x20u64) >> 5u64 == 0u64,
        0x20161bf4d204a7ceu64 >> 60u64 == 2u64,
        ((0x20161bf4d204a7ceu64 & 0x0FFF_FFFF_FFFF_FFFFu64) >> 0u64) & 3u64 == 2u64,
        (((0x20161bf4d204a7ceu64 & 0x0FFF_FFFF_FFFF_FFFFu64) >> 0u64) & 4u64) >> 2u64 == 1u64,
        (((0x20161bf4d204a7ceu64 & 0x0FFF_FFFF_FFFF_FFFFu64) >> 0u64) & 0x20u64) >> 5u64 == 0u64,
        ((0x20161bf4d204a7ceu64 & 0x0FFF_FFFF_FFFF_FFFFu64) >> 6u64) & 3u64 == 3u64,
        (((0x20161bf4d204a7ceu64 & 0x0FFF_FFFF_FFFF_FFFFu64) >> 6u64) & 4u64) >> 2u64 == 1u64,
        (((0x20161bf4d204a7ceu64 & 0x0FFF_FFFF_FFFF_FFFFu64) >> 6u64) & 0x20u64) >> 5u64 == 0u64,
        ((0x20161bf4d204a7ceu64 & 0x0FFF_FFFF_FFFF_FFFFu64) >> 12u64) & 3u64 == 2u64,
        (((0x20161bf4d204a7ceu64 & 0x0FFF_FFFF_FFFF_FFFFu64) >> 12u64) & 4u64) >> 2u64 == 0u64,
        (((0x20161bf4d204a7ceu64 & 0x0FFF_FFFF_FFFF_FFFFu64) >> 12u64) & 0x20u64) >> 5u64 == 0u64,
        ((0x20161bf4d204a7ceu64 & 0x0FFF_FFFF_FFFF_FFFFu64) >> 18u64) & 3u64 == 1u64,
        (((0x20161bf4d204a7ceu64 & 0x0FFF_FFFF_FFFF_FFFFu64) >> 18u64) & 4u64) >> 2u64 == 0u64,
        (((0x20161bf4d204a7ceu64 & 0x0FFF_FFFF_FFFF_FFFFu64) >> 18u64) & 0x20u64) >> 5u64 == 0u64,
        ((0x20161bf4d204a7ceu64 & 0x0FFF_FFFF_FFFF_FFFFu64) >> 24u64) & 3u64 == 2u64,
        (((0x20161bf4d204a7ceu64 & 0x0FFF_FFFF_FFFF_FFFFu64) >> 24u64) & 4u64) >> 2u64 == 0u64,
        (((0x20161bf4d204a7ceu64 & 0x0FFF_FFFF_FFFF_FFFFu64) >> 24u64) & 0x20u64) >> 5u64 == 0u64,
        ((0x20161bf4d204a7ceu64 & 0x0FFF_FFFF_FFFF_FFFFu64) >> 30u64) & 3u64 == 3u64,
        (((0x20161bf4d204a7ceu64 & 0x0FFF_FFFF_FFFF_FFFFu64) >> 30u64) & 4u64) >> 2u64 == 0u64,
        (((0x20161bf4d204a7ceu64 & 0x0FFF_FFFF_FFFF_FFFFu64) >> 30u64) & 0x20u64) >> 5u64 == 0u64,
        ((0x20161bf4d204a7ceu64 & 0x0FFF_FFFF_FFFF_FFFFu64) >> 36u64) & 3u64 == 3u64,
        (((0x20161bf4d204a7ceu64 & 0x0FFF_FFFF_FFFF_FFFFu64) >> 36u64) & 4u64) >> 2u64 == 1u64,
        (((0x20161bf4d204a7ceu64 & 0x0FFF_FFFF_FFFF_FFFFu64) >> 36u64) & 0x20u64) >> 5u64 == 1u64,
        ((0x20161bf4d204a7ceu64 & 0x0FFF_FFFF_FFFF_FFFFu64) >> 42u64) & 3u64 == 2u64,
        (((0x20161bf4d204a7ceu64 & 0x0FFF_FFFF_FFFF_FFFFu64) >> 42u64) & 4u64) >> 2u64 == 1u64,
        (((0x20161bf4d204a7ceu64 & 0x0FFF_FFFF_FFFF_FFFFu64) >> 42u64) & 0x20u64) >> 5u64 == 0u64,
        ((0x20161bf4d204a7ceu64 & 0x0FFF_FFFF_FFFF_FFFFu64) >> 48u64) & 3u64 == 2u64,
        (((0x20161bf4d204a7ceu64 & 0x0FFF_FFFF_FFFF_FFFFu64) >> 48u64) & 4u64) >> 2u64 == 1u64,
        (((0x20161bf4d204a7ceu64 & 0x0FFF_FFFF_FFFF_FFFFu64) >> 48u64) & 0x20u64) >> 5u64 == 0u64,
        0x300055ec9100978du64 >> 60u64 == 3u64,
        ((0x300055ec9100978du64 & 0x0FFF_FFFF_FFFF_FFFFu64) >> 0u64) & 3u64 == 1u64,
        (((0x300055ec9100978du64 & 0x0FFF_FFFF_FFFF_FFFFu64) >> 0u64) & 4u64) >> 2u64 == 1u64,
        (((0x300055ec9100978du64 & 0x0FFF_FFFF_FFFF_FFFFu64) >> 0u64) & 0x20u64) >> 5u64 == 0u64,
        ((0x300055ec9100978du64 & 0x0FFF_FFFF_FFFF_FFFFu64) >> 6u64) & 3u64 == 2u64,
        (((0x300055ec9100978du64 & 0x0FFF_FFFF_FFFF_FFFFu64) >> 6u64) & 4u64) >> 2u64 == 1u64,
        (((0x300055ec9100978du64 & 0x0FFF_FFFF_FFFF_FFFFu64) >> 6u64) & 0x20u64) >> 5u64 == 0u64,
        ((0x300055ec9100978du64 & 0x0FFF_FFFF_FFFF_FFFFu64) >> 12u64) & 3u64 == 1u64,
        (((0x300055ec9100978du64 & 0x0FFF_FFFF_FFFF_FFFFu64) >> 12u64) & 4u64) >> 2u64 == 0u64,
        (((0x300055ec9100978du64 & 0x0FFF_FFFF_FFFF_FFFFu64) >> 12u64) & 0x20u64) >> 5u64 == 0u64,
        ((0x300055ec9100978du64 & 0x0FFF_FFFF_FFFF_FFFFu64) >> 18u64) & 3u64 == 0u64,
        (((0x300055ec9100978du64 & 0x0FFF_FFFF_FFFF_FFFFu64) >> 18u64) & 4u64) >> 2u64 == 0u64,
        (((0x300055ec9100978du64 & 0x0FFF_FFFF_FFFF_FFFFu64) >> 18u64) & 0x20u64) >> 5u64 == 0u64,
        ((0x300055ec9100978du64 & 0x0FFF_FFFF_FFFF_FFFFu64) >> 24u64) & 3u64 == 1u64,
        (((0x300055ec9100978du64 & 0x0FFF_FFFF_FFFF_FFFFu64) >> 24u64) & 4u64) >> 2u64 == 0u64,
        (((0x300055ec9100978du64 & 0x0FFF_FFFF_FFFF_FFFFu64) >> 24u64) & 0x20u64) >> 5u64 == 0u64,
        ((0x300055ec9100978du64 & 0x0FFF_FFFF_FFFF_FFFFu64) >> 30u64) & 3u64 == 2u64,
        (((0x300055ec9100978du64 & 0x0FFF_FFFF_FFFF_FFFFu64) >> 30u64) & 4u64) >> 2u64 == 0u64,
        (((0x300055ec9100978du64 & 0x0FFF_FFFF_FFFF_FFFFu64) >> 30u64) & 0x20u64) >> 5u64 == 1u64,
        ((0x300055ec9100978du64 & 0x0FFF_FFFF_FFFF_FFFFu64) >> 36u64) & 3u64 == 2u64,
        (((0x300055ec9100978du64 & 0x0FFF_FFFF_FFFF_FFFFu64) >> 36u64) & 4u64) >> 2u64 == 1u64,
        (((0x300055ec9100978du64 & 0x0FFF_FFFF_FFFF_FFFFu64) >> 36u64) & 0x20u64) >> 5u64 == 0u64,
        ((0x300055ec9100978du64 & 0x0FFF_FFFF_FFFF_FFFFu64) >> 42u64) & 3u64 == 1u64,
        (((0x300055ec9100978du64 & 0x0FFF_FFFF_FFFF_FFFFu64) >> 42u64) & 4u64) >> 2u64 == 1u64,
        (((0x300055ec9100978du64 & 0x0FFF_FFFF_FFFF_FFFFu64) >> 42u64) & 0x20u64) >> 5u64 == 0u64,
        0x20167f348129f18eu64 >> 60u64 == 2u64,
        ((0x20167f348129f18eu64 & 0x0FFF_FFFF_FFFF_FFFFu64) >> 0u64) & 3u64 == 2u64,
        (((0x20167f348129f18eu64 & 0x0FFF_FFFF_FFFF_FFFFu64) >> 0u64) & 4u64) >> 2u64 == 1u64,
        (((0x20167f348129f18eu64 & 0x0FFF_FFFF_FFFF_FFFFu64) >> 0u64) & 0x20u64) >> 5u64 == 0u64,
        ((0x20167f348129f18eu64 & 0x0FFF_FFFF_FFFF_FFFFu64) >> 6u64) & 3u64 == 2u64,
        (((0x20167f348129f18eu64 & 0x0FFF_FFFF_FFFF_FFFFu64) >> 6u64) & 4u64) >> 2u64 == 1u64,
        (((0x20167f348129f18eu64 & 0x0FFF_FFFF_FFFF_FFFFu64) >> 6u64) & 0x20u64) >> 5u64 == 0u64,
        ((0x20167f348129f18eu64 & 0x0FFF_FFFF_FFFF_FFFFu64) >> 12u64) & 3u64 == 3u64,
        (((0x20167f348129f18eu64 & 0x0FFF_FFFF_FFFF_FFFFu64) >> 12u64) & 4u64) >> 2u64 == 1u64,
        (((0x20167f348129f18eu64 & 0x0FFF_FFFF_FFFF_FFFFu64) >> 12u64) & 0x20u64) >> 5u64 == 0u64,
        ((0x20167f348129f18eu64 & 0x0FFF_FFFF_FFFF_FFFFu64) >> 18u64) & 3u64 == 2u64,
        (((0x20167f348129f18eu64 & 0x0FFF_FFFF_FFFF_FFFFu64) >> 18u64) & 4u64) >> 2u64 == 0u64,
        (((0x20167f348129f18eu64 & 0x0FFF_FFFF_FFFF_FFFFu64) >> 18u64) & 0x20u64) >> 5u64 == 0u64,
        ((0x20167f348129f18eu64 & 0x0FFF_FFFF_FFFF_FFFFu64) >> 24u64) & 3u64 == 1u64,
        (((0x20167f348129f18eu64 & 0x0FFF_FFFF_FFFF_FFFFu64) >> 24u64) & 4u64) >> 2u64 == 0u64,
        (((0x20167f348129f18eu64 & 0x0FFF_FFFF_FFFF_FFFFu64) >> 24u64) & 0x20u64) >> 5u64 == 0u64,
        ((0x20167f348129f18eu64 & 0x0FFF_FFFF_FFFF_FFFFu64) >> 30u64) & 3u64 == 2u64,
        (((0x20167f348129f18eu64 & 0x0FFF_FFFF_FFFF_FFFFu64) >> 30u64) & 4u64) >> 2u64 == 0u64,
        (((0x20167f348129f18eu64 & 0x0FFF_FFFF_FFFF_FFFFu64) >> 30u64) & 0x20u64) >> 5u64 == 0u64,
        ((0x20167f348129f18eu64 & 0x0FFF_FFFF_FFFF_FFFFu64) >> 36u64) & 3u64 == 3u64,
        (((0x20167f348129f18eu64 & 0x0FFF_FFFF_FFFF_FFFFu64) >> 36u64) & 4u64) >> 2u64 == 0u64,
        (((0x20167f348129f18eu64 & 0x0FFF_FFFF_FFFF_FFFFu64) >> 36u64) & 0x20u64) >> 5u64 == 1u64,
        ((0x20167f348129f18eu64 & 0x0FFF_FFFF_FFFF_FFFFu64) >> 42u64) & 3u64 == 3u64,
        (((0x20167f348129f18eu64 & 0x0FFF_FFFF_FFFF_FFFFu64) >> 42u64) & 4u64) >> 2u64 == 1u64,
        (((0x20167f348129f18eu64 & 0x0FFF_FFFF_FFFF_FFFFu64) >> 42u64) & 0x20u64) >> 5u64 == 0u64,
        ((0x20167f348129f18eu64 & 0x0FFF_FFFF_FFFF_FFFFu64) >> 48u64) & 3u64 == 2u64,
        (((0x20167f348129f18eu64 & 0x0FFF_FFFF_FFFF_FFFFu64) >> 48u64) & 4u64) >> 2u64 == 1u64,
        (((0x20167f348129f18eu64 & 0x0FFF_FFFF_FFFF_FFFFu64) >> 48u64) & 0x20u64) >> 5u64 == 0u64,
        0x300059fcd204a7ceu64 >> 60u64 == 3u64,
        ((0x300059fcd204a7ceu64 & 0x0FFF_FFFF_FFFF_FFFFu64) >> 0u64) & 3u64 == 2u64,
        (((0x300059fcd204a7ceu64 & 0x0FFF_FFFF_FFFF_FFFFu64) >> 0u64) & 4u64) >> 2u64 == 1u64,
        (((0x300059fcd204a7ceu64 & 0x0FFF_FFFF_FFFF_FFFFu64) >> 0u64) & 0x20u64) >> 5u64 == 0u64,
        ((0x300059fcd204a7ceu64 & 0x0FFF_FFFF_FFFF_FFFFu64) >> 6u64) & 3u64 == 3u64,
        (((0x300059fcd204a7ceu64 & 0x0FFF_FFFF_FFFF_FFFFu64) >> 6u64) & 4u64) >> 2u64 == 1u64,
        (((0x300059fcd204a7ceu64 & 0x0FFF_FFFF_FFFF_FFFFu64) >> 6u64) & 0x20u64) >> 5u64 == 0u64,
        ((0x300059fcd204a7ceu64 & 0x0FFF_FFFF_FFFF_FFFFu64) >> 12u64) & 3u64 == 2u64,
        (((0x300059fcd204a7ceu64 & 0x0FFF_FFFF_FFFF_FFFFu64) >> 12u64) & 4u64) >> 2u64 == 0u64,
        (((0x300059fcd204a7ceu64 & 0x0FFF_FFFF_FFFF_FFFFu64) >> 12u64) & 0x20u64) >> 5u64 == 0u64,
        ((0x300059fcd204a7ceu64 & 0x0FFF_FFFF_FFFF_FFFFu64) >> 18u64) & 3u64 == 1u64,
        (((0x300059fcd204a7ceu64 & 0x0FFF_FFFF_FFFF_FFFFu64) >> 18u64) & 4u64) >> 2u64 == 0u64,
        (((0x300059fcd204a7ceu64 & 0x0FFF_FFFF_FFFF_FFFFu64) >> 18u64) & 0x20u64) >> 5u64 == 0u64,
        ((0x300059fcd204a7ceu64 & 0x0FFF_FFFF_FFFF_FFFFu64) >> 24u64) & 3u64 == 2u64,
        (((0x300059fcd204a7ceu64 & 0x0FFF_FFFF_FFFF_FFFFu64) >> 24u64) & 4u64) >> 2u64 == 0u64,
        (((0x300059fcd204a7ceu64 & 0x0FFF_FFFF_FFFF_FFFFu64) >> 24u64) & 0x20u64) >> 5u64 == 0u64,
        ((0x300059fcd204a7ceu64 & 0x0FFF_FFFF_FFFF_FFFFu64) >> 30u64) & 3u64 == 3u64,
        (((0x300059fcd204a7ceu64 & 0x0FFF_FFFF_FFFF_FFFFu64) >> 30u64) & 4u64) >> 2u64 == 0u64,
        (((0x300059fcd204a7ceu64 & 0x0FFF_FFFF_FFFF_FFFFu64) >> 30u64) & 0x20u64) >> 5u64 == 1u64,
        ((0x300059fcd204a7ceu64 & 0x0FFF_FFFF_FFFF_FFFFu64) >> 36u64) & 3u64 == 3u64,
        (((0x300059fcd204a7ceu64 & 0x0FFF_FFFF_FFFF_FFFFu64) >> 36u64) & 4u64) >> 2u64 == 1u64,
        (((0x300059fcd204a7ceu64 & 0x0FFF_FFFF_FFFF_FFFFu64) >> 36u64) & 0x20u64) >> 5u64 == 0u64,
        ((0x300059fcd204a7ceu64 & 0x0FFF_FFFF_FFFF_FFFFu64) >> 42u64) & 3u64 == 2u64,
        (((0x300059fcd204a7ceu64 & 0x0FFF_FFFF_FFFF_FFFFu64) >> 42u64) & 4u64) >> 2u64 == 1u64,
        (((0x300059fcd204a7ceu64 & 0x0FFF_FFFF_FFFF_FFFFu64) >> 42u64) & 0x20u64) >> 5u64 == 0u64,
        0x20161bf4d204a7ceu64 >> 60u64 == 2u64,
        ((0x20161bf4d204a7ceu64 & 0x0FFF_FFFF_FFFF_FFFFu64) >> 0u64) & 3u64 == 2u64,
        (((0x20161bf4d204a7ceu64 & 0x0FFF_FFFF_FFFF_FFFFu64) >> 0u64) & 4u64) >> 2u64 == 1u64,
        (((0x20161bf4d204a7ceu64 & 0x0FFF_FFFF_FFFF_FFFFu64) >> 0u64) & 0x20u64) >> 5u64 == 0u64,
        ((0x20161bf4d204a7ceu64 & 0x0FFF_FFFF_FFFF_FFFFu64) >> 6u64) & 3u64 == 3u64,
        (((0x20161bf4d204a7ceu64 & 0x0FFF_FFFF_FFFF_FFFFu64) >> 6u64) & 4u64) >> 2u64 == 1u64,
        (((0x20161bf4d204a7ceu64 & 0x0FFF_FFFF_FFFF_FFFFu64) >> 6u64) & 0x20u64) >> 5u64 == 0u64,
        ((0x20161bf4d204a7ceu64 & 0x0FFF_FFFF_FFFF_FFFFu64) >> 12u64) & 3u64 == 2u64,
        (((0x20161bf4d204a7ceu64 & 0x0FFF_FFFF_FFFF_FFFFu64) >> 12u64) & 4u64) >> 2u64 == 0u64,
        (((0x20161bf4d204a7ceu64 & 0x0FFF_FFFF_FFFF_FFFFu64) >> 12u64) & 0x20u64) >> 5u64 == 0u64,
        ((0x20161bf4d204a7ceu64 & 0x0FFF_FFFF_FFFF_FFFFu64) >> 18u64) & 3u64 == 1u64,
        (((0x20161bf4d204a7ceu64 & 0x0FFF_FFFF_FFFF_FFFFu64) >> 18u64) & 4u64) >> 2u64 == 0u64,
        (((0x20161bf4d204a7ceu64 & 0x0FFF_FFFF_FFFF_FFFFu64) >> 18u64) & 0x20u64) >> 5u64 == 0u64,
        ((0x20161bf4d204a7ceu64 & 0x0FFF_FFFF_FFFF_FFFFu64) >> 24u64) & 3u64 == 2u64,
        (((0x20161bf4d204a7ceu64 & 0x0FFF_FFFF_FFFF_FFFFu64) >> 24u64) & 4u64) >> 2u64 == 0u64,
        (((0x20161bf4d204a7ceu64 & 0x0FFF_FFFF_FFFF_FFFFu64) >> 24u64) & 0x20u64) >> 5u64 == 0u64,
        ((0x20161bf4d204a7ceu64 & 0x0FFF_FFFF_FFFF_FFFFu64) >> 30u64) & 3u64 == 3u64,
        (((0x20161bf4d204a7ceu64 & 0x0FFF_FFFF_FFFF_FFFFu64) >> 30u64) & 4u64) >> 2u64 == 0u64,
        (((0x20161bf4d204a7ceu64 & 0x0FFF_FFFF_FFFF_FFFFu64) >> 30u64) & 0x20u64) >> 5u64 == 0u64,
        ((0x20161bf4d204a7ceu64 & 0x0FFF_FFFF_FFFF_FFFFu64) >> 36u64) & 3u64 == 3u64,
        (((0x20161bf4d204a7ceu64 & 0x0FFF_FFFF_FFFF_FFFFu64) >> 36u64) & 4u64) >> 2u64 == 1u64,
        (((0x20161bf4d204a7ceu64 & 0x0FFF_FFFF_FFFF_FFFFu64) >> 36u64) & 0x20u64) >> 5u64 == 1u64,
        ((0x20161bf4d204a7ceu64 & 0x0FFF_FFFF_FFFF_FFFFu64) >> 42u64) & 3u64 == 2u64,
        (((0x20161bf4d204a7ceu64 & 0x0FFF_FFFF_FFFF_FFFFu64) >> 42u64) & 4u64) >> 2u64 == 1u64,
        (((0x20161bf4d204a7ceu64 & 0x0FFF_FFFF_FFFF_FFFFu64) >> 42u64) & 0x20u64) >> 5u64 == 0u64,
        ((0x20161bf4d204a7ceu64 & 0x0FFF_FFFF_FFFF_FFFFu64) >> 48u64) & 3u64 == 2u64,
        (((0x20161bf4d204a7ceu64 & 0x0FFF_FFFF_FFFF_FFFFu64) >> 48u64) & 4u64) >> 2u64 == 1u64,
        (((0x20161bf4d204a7ceu64 & 0x0FFF_FFFF_FFFF_FFFFu64) >> 48u64) & 0x20u64) >> 5u64 == 0u64,
        0x300055ec9100978du64 >> 60u64 == 3u64,
        ((0x300055ec9100978du64 & 0x0FFF_FFFF_FFFF_FFFFu64) >> 0u64) & 3u64 == 1u64,
        (((0x300055ec9100978du64 & 0x0FFF_FFFF_FFFF_FFFFu64) >> 0u64) & 4u64) >> 2u64 == 1u64,
        (((0x300055ec9100978du64 & 0x0FFF_FFFF_FFFF_FFFFu64) >> 0u64) & 0x20u64) >> 5u64 == 0u64,
        ((0x300055ec9100978du64 & 0x0FFF_FFFF_FFFF_FFFFu64) >> 6u64) & 3u64 == 2u64,
        (((0x300055ec9100978du64 & 0x0FFF_FFFF_FFFF_FFFFu64) >> 6u64) & 4u64) >> 2u64 == 1u64,
        (((0x300055ec9100978du64 & 0x0FFF_FFFF_FFFF_FFFFu64) >> 6u64) & 0x20u64) >> 5u64 == 0u64,
        ((0x300055ec9100978du64 & 0x0FFF_FFFF_FFFF_FFFFu64) >> 12u64) & 3u64 == 1u64,
        (((0x300055ec9100978du64 & 0x0FFF_FFFF_FFFF_FFFFu64) >> 12u64) & 4u64) >> 2u64 == 0u64,
        (((0x300055ec9100978du64 & 0x0FFF_FFFF_FFFF_FFFFu64) >> 12u64) & 0x20u64) >> 5u64 == 0u64,
        ((0x300055ec9100978du64 & 0x0FFF_FFFF_FFFF_FFFFu64) >> 18u64) & 3u64 == 0u64,
        (((0x300055ec9100978du64 & 0x0FFF_FFFF_FFFF_FFFFu64) >> 18u64) & 4u64) >> 2u64 == 0u64,
        (((0x300055ec9100978du64 & 0x0FFF_FFFF_FFFF_FFFFu64) >> 18u64) & 0x20u64) >> 5u64 == 0u64,
        ((0x300055ec9100978du64 & 0x0FFF_FFFF_FFFF_FFFFu64) >> 24u64) & 3u64 == 1u64,
        (((0x300055ec9100978du64 & 0x0FFF_FFFF_FFFF_FFFFu64) >> 24u64) & 4u64) >> 2u64 == 0u64,
        (((0x300055ec9100978du64 & 0x0FFF_FFFF_FFFF_FFFFu64) >> 24u64) & 0x20u64) >> 5u64 == 0u64,
        ((0x300055ec9100978du64 & 0x0FFF_FFFF_FFFF_FFFFu64) >> 30u64) & 3u64 == 2u64,
        (((0x300055ec9100978du64 & 0x0FFF_FFFF_FFFF_FFFFu64) >> 30u64) & 4u64) >> 2u64 == 0u64,
        (((0x300055ec9100978du64 & 0x0FFF_FFFF_FFFF_FFFFu64) >> 30u64) & 0x20u64) >> 5u64 == 1u64,
        ((0x300055ec9100978du64 & 0x0FFF_FFFF_FFFF_FFFFu64) >> 36u64) & 3u64 == 2u64,
        (((0x300055ec9100978du64 & 0x0FFF_FFFF_FFFF_FFFFu64) >> 36u64) & 4u64) >> 2u64 == 1u64,
        (((0x300055ec9100978du64 & 0x0FFF_FFFF_FFFF_FFFFu64) >> 36u64) & 0x20u64) >> 5u64 == 0u64,
        ((0x300055ec9100978du64 & 0x0FFF_FFFF_FFFF_FFFFu64) >> 42u64) & 3u64 == 1u64,
        (((0x300055ec9100978du64 & 0x0FFF_FFFF_FFFF_FFFFu64) >> 42u64) & 4u64) >> 2u64 == 1u64,
        (((0x300055ec9100978du64 & 0x0FFF_FFFF_FFFF_FFFFu64) >> 42u64) & 0x20u64) >> 5u64 == 0u64,
        0x20167f348129f18eu64 >> 60u64 == 2u64,
        ((0x20167f348129f18eu64 & 0x0FFF_FFFF_FFFF_FFFFu64) >> 0u64) & 3u64 == 2u64,
        (((0x20167f348129f18eu64 & 0x0FFF_FFFF_FFFF_FFFFu64) >> 0u64) & 4u64) >> 2u64 == 1u64,
        (((0x20167f348129f18eu64 & 0x0FFF_FFFF_FFFF_FFFFu64) >> 0u64) & 0x20u64) >> 5u64 == 0u64,
        ((0x20167f348129f18eu64 & 0x0FFF_FFFF_FFFF_FFFFu64) >> 6u64) & 3u64 == 2u64,
        (((0x20167f348129f18eu64 & 0x0FFF_FFFF_FFFF_FFFFu64) >> 6u64) & 4u64) >> 2u64 == 1u64,
        (((0x20167f348129f18eu64 & 0x0FFF_FFFF_FFFF_FFFFu64) >> 6u64) & 0x20u64) >> 5u64 == 0u64,
        ((0x20167f348129f18eu64 & 0x0FFF_FFFF_FFFF_FFFFu64) >> 12u64) & 3u64 == 3u64,
        (((0x20167f348129f18eu64 & 0x0FFF_FFFF_FFFF_FFFFu64) >> 12u64) & 4u64) >> 2u64 == 1u64,
        (((0x20167f348129f18eu64 & 0x0FFF_FFFF_FFFF_FFFFu64) >> 12u64) & 0x20u64) >> 5u64 == 0u64,
        ((0x20167f348129f18eu64 & 0x0FFF_FFFF_FFFF_FFFFu64) >> 18u64) & 3u64 == 2u64,
        (((0x20167f348129f18eu64 & 0x0FFF_FFFF_FFFF_FFFFu64) >> 18u64) & 4u64) >> 2u64 == 0u64,
        (((0x20167f348129f18eu64 & 0x0FFF_FFFF_FFFF_FFFFu64) >> 18u64) & 0x20u64) >> 5u64 == 0u64,
        ((0x20167f348129f18eu64 & 0x0FFF_FFFF_FFFF_FFFFu64) >> 24u64) & 3u64 == 1u64,
        (((0x20167f348129f18eu64 & 0x0FFF_FFFF_FFFF_FFFFu64) >> 24u64) & 4u64) >> 2u64 == 0u64,
        (((0x20167f348129f18eu64 & 0x0FFF_FFFF_FFFF_FFFFu64) >> 24u64) & 0x20u64) >> 5u64 == 0u64,
        ((0x20167f348129f18eu64 & 0x0FFF_FFFF_FFFF_FFFFu64) >> 30u64) & 3u64 == 2u64,
        (((0x20167f348129f18eu64 & 0x0FFF_FFFF_FFFF_FFFFu64) >> 30u64) & 4u64) >> 2u64 == 0u64,
        (((0x20167f348129f18eu64 & 0x0FFF_FFFF_FFFF_FFFFu64) >> 30u64) & 0x20u64) >> 5u64 == 0u64,
        ((0x20167f348129f18eu64 & 0x0FFF_FFFF_FFFF_FFFFu64) >> 36u64) & 3u64 == 3u64,
        (((0x20167f348129f18eu64 & 0x0FFF_FFFF_FFFF_FFFFu64) >> 36u64) & 4u64) >> 2u64 == 0u64,
        (((0x20167f348129f18eu64 & 0x0FFF_FFFF_FFFF_FFFFu64) >> 36u64) & 0x20u64) >> 5u64 == 1u64,
        ((0x20167f348129f18eu64 & 0x0FFF_FFFF_FFFF_FFFFu64) >> 42u64) & 3u64 == 3u64,
        (((0x20167f348129f18eu64 & 0x0FFF_FFFF_FFFF_FFFFu64) >> 42u64) & 4u64) >> 2u64 == 1u64,
        (((0x20167f348129f18eu64 & 0x0FFF_FFFF_FFFF_FFFFu64) >> 42u64) & 0x20u64) >> 5u64 == 0u64,
        ((0x20167f348129f18eu64 & 0x0FFF_FFFF_FFFF_FFFFu64) >> 48u64) & 3u64 == 2u64,
        (((0x20167f348129f18eu64 & 0x0FFF_FFFF_FFFF_FFFFu64) >> 48u64) & 4u64) >> 2u64 == 1u64,
        (((0x20167f348129f18eu64 & 0x0FFF_FFFF_FFFF_FFFFu64) >> 48u64) & 0x20u64) >> 5u64 == 0u64,
        0x300059fcd204a7ceu64 >> 60u64 == 3u64,
        ((0x300059fcd204a7ceu64 & 0x0FFF_FFFF_FFFF_FFFFu64) >> 0u64) & 3u64 == 2u64,
        (((0x300059fcd204a7ceu64 & 0x0FFF_FFFF_FFFF_FFFFu64) >> 0u64) & 4u64) >> 2u64 == 1u64,
        (((0x300059fcd204a7ceu64 & 0x0FFF_FFFF_FFFF_FFFFu64) >> 0u64) & 0x20u64) >> 5u64 == 0u64,
        ((0x300059fcd204a7ceu64 & 0x0FFF_FFFF_FFFF_FFFFu64) >> 6u64) & 3u64 == 3u64,
        (((0x300059fcd204a7ceu64 & 0x0FFF_FFFF_FFFF_FFFFu64) >> 6u64) & 4u64) >> 2u64 == 1u64,
        (((0x300059fcd204a7ceu64 & 0x0FFF_FFFF_FFFF_FFFFu64) >> 6u64) & 0x20u64) >> 5u64 == 0u64,
        ((0x300059fcd204a7ceu64 & 0x0FFF_FFFF_FFFF_FFFFu64) >> 12u64) & 3u64 == 2u64,
        (((0x300059fcd204a7ceu64 & 0x0FFF_FFFF_FFFF_FFFFu64) >> 12u64) & 4u64) >> 2u64 == 0u64,
        (((0x300059fcd204a7ceu64 & 0x0FFF_FFFF_FFFF_FFFFu64) >> 12u64) & 0x20u64) >> 5u64 == 0u64,
        ((0x300059fcd204a7ceu64 & 0x0FFF_FFFF_FFFF_FFFFu64) >> 18u64) & 3u64 == 1u64,
        (((0x300059fcd204a7ceu64 & 0x0FFF_FFFF_FFFF_FFFFu64) >> 18u64) & 4u64) >> 2u64 == 0u64,
        (((0x300059fcd204a7ceu64 & 0x0FFF_FFFF_FFFF_FFFFu64) >> 18u64) & 0x20u64) >> 5u64 == 0u64,
        ((0x300059fcd204a7ceu64 & 0x0FFF_FFFF_FFFF_FFFFu64) >> 24u64) & 3u64 == 2u64,
        (((0x300059fcd204a7ceu64 & 0x0FFF_FFFF_FFFF_FFFFu64) >> 24u64) & 4u64) >> 2u64 == 0u64,
        (((0x300059fcd204a7ceu64 & 0x0FFF_FFFF_FFFF_FFFFu64) >> 24u64) & 0x20u64) >> 5u64 == 0u64,
        ((0x300059fcd204a7ceu64 & 0x0FFF_FFFF_FFFF_FFFFu64) >> 30u64) & 3u64 == 3u64,
        (((0x300059fcd204a7ceu64 & 0x0FFF_FFFF_FFFF_FFFFu64) >> 30u64) & 4u64) >> 2u64 == 0u64,
        (((0x300059fcd204a7ceu64 & 0x0FFF_FFFF_FFFF_FFFFu64) >> 30u64) & 0x20u64) >> 5u64 == 1u64,
        ((0x300059fcd204a7ceu64 & 0x0FFF_FFFF_FFFF_FFFFu64) >> 36u64) & 3u64 == 3u64,
        (((0x300059fcd204a7ceu64 & 0x0FFF_FFFF_FFFF_FFFFu64) >> 36u64) & 4u64) >> 2u64 == 1u64,
        (((0x300059fcd204a7ceu64 & 0x0FFF_FFFF_FFFF_FFFFu64) >> 36u64) & 0x20u64) >> 5u64 == 0u64,
        ((0x300059fcd204a7ceu64 & 0x0FFF_FFFF_FFFF_FFFFu64) >> 42u64) & 3u64 == 2u64,
        (((0x300059fcd204a7ceu64 & 0x0FFF_FFFF_FFFF_FFFFu64) >> 42u64) & 4u64) >> 2u64 == 1u64,
        (((0x300059fcd204a7ceu64 & 0x0FFF_FFFF_FFFF_FFFFu64) >> 42u64) & 0x20u64) >> 5u64 == 0u64,
        0x20161bf4d204a7ceu64 >> 60u64 == 2u64,
        ((0x20161bf4d204a7ceu64 & 0x0FFF_FFFF_FFFF_FFFFu64) >> 0u64) & 3u64 == 2u64,
        (((0x20161bf4d204a7ceu64 & 0x0FFF_FFFF_FFFF_FFFFu64) >> 0u64) & 4u64) >> 2u64 == 1u64,
        (((0x20161bf4d204a7ceu64 & 0x0FFF_FFFF_FFFF_FFFFu64) >> 0u64) & 0x20u64) >> 5u64 == 0u64,
        ((0x20161bf4d204a7ceu64 & 0x0FFF_FFFF_FFFF_FFFFu64) >> 6u64) & 3u64 == 3u64,
        (((0x20161bf4d204a7ceu64 & 0x0FFF_FFFF_FFFF_FFFFu64) >> 6u64) & 4u64) >> 2u64 == 1u64,
        (((0x20161bf4d204a7ceu64 & 0x0FFF_FFFF_FFFF_FFFFu64) >> 6u64) & 0x20u64) >> 5u64 == 0u64,
        ((0x20161bf4d204a7ceu64 & 0x0FFF_FFFF_FFFF_FFFFu64) >> 12u64) & 3u64 == 2u64,
        (((0x20161bf4d204a7ceu64 & 0x0FFF_FFFF_FFFF_FFFFu64) >> 12u64) & 4u64) >> 2u64 == 0u64,
        (((0x20161bf4d204a7ceu64 & 0x0FFF_FFFF_FFFF_FFFFu64) >> 12u64) & 0x20u64) >> 5u64 == 0u64,
        ((0x20161bf4d204a7ceu64 & 0x0FFF_FFFF_FFFF_FFFFu64) >> 18u64) & 3u64 == 1u64,
        (((0x20161bf4d204a7ceu64 & 0x0FFF_FFFF_FFFF_FFFFu64) >> 18u64) & 4u64) >> 2u64 == 0u64,
        (((0x20161bf4d204a7ceu64 & 0x0FFF_FFFF_FFFF_FFFFu64) >> 18u64) & 0x20u64) >> 5u64 == 0u64,
        ((0x20161bf4d204a7ceu64 & 0x0FFF_FFFF_FFFF_FFFFu64) >> 24u64) & 3u64 == 2u64,
        (((0x20161bf4d204a7ceu64 & 0x0FFF_FFFF_FFFF_FFFFu64) >> 24u64) & 4u64) >> 2u64 == 0u64,
        (((0x20161bf4d204a7ceu64 & 0x0FFF_FFFF_FFFF_FFFFu64) >> 24u64) & 0x20u64) >> 5u64 == 0u64,
        ((0x20161bf4d204a7ceu64 & 0x0FFF_FFFF_FFFF_FFFFu64) >> 30u64) & 3u64 == 3u64,
        (((0x20161bf4d204a7ceu64 & 0x0FFF_FFFF_FFFF_FFFFu64) >> 30u64) & 4u64) >> 2u64 == 0u64,
        (((0x20161bf4d204a7ceu64 & 0x0FFF_FFFF_FFFF_FFFFu64) >> 30u64) & 0x20u64) >> 5u64 == 0u64,
        ((0x20161bf4d204a7ceu64 & 0x0FFF_FFFF_FFFF_FFFFu64) >> 36u64) & 3u64 == 3u64,
        (((0x20161bf4d204a7ceu64 & 0x0FFF_FFFF_FFFF_FFFFu64) >> 36u64) & 4u64) >> 2u64 == 1u64,
        (((0x20161bf4d204a7ceu64 & 0x0FFF_FFFF_FFFF_FFFFu64) >> 36u64) & 0x20u64) >> 5u64 == 1u64,
        ((0x20161bf4d204a7ceu64 & 0x0FFF_FFFF_FFFF_FFFFu64) >> 42u64) & 3u64 == 2u64,
        (((0x20161bf4d204a7ceu64 & 0x0FFF_FFFF_FFFF_FFFFu64) >> 42u64) & 4u64) >> 2u64 == 1u64,
        (((0x20161bf4d204a7ceu64 & 0x0FFF_FFFF_FFFF_FFFFu64) >> 42u64) & 0x20u64) >> 5u64 == 0u64,
        ((0x20161bf4d204a7ceu64 & 0x0FFF_FFFF_FFFF_FFFFu64) >> 48u64) & 3u64 == 2u64,
        (((0x20161bf4d204a7ceu64 & 0x0FFF_FFFF_FFFF_FFFFu64) >> 48u64) & 4u64) >> 2u64 == 1u64,
        (((0x20161bf4d204a7ceu64 & 0x0FFF_FFFF_FFFF_FFFFu64) >> 48u64) & 0x20u64) >> 5u64 == 0u64,
        0x20153b244026a58du64 >> 60u64 == 2u64,
        ((0x20153b244026a58du64 & 0x0FFF_FFFF_FFFF_FFFFu64) >> 0u64) & 3u64 == 1u64,
        (((0x20153b244026a58du64 & 0x0FFF_FFFF_FFFF_FFFFu64) >> 0u64) & 4u64) >> 2u64 == 1u64,
        (((0x20153b244026a58du64 & 0x0FFF_FFFF_FFFF_FFFFu64) >> 0u64) & 0x20u64) >> 5u64 == 0u64,
        ((0x20153b244026a58du64 & 0x0FFF_FFFF_FFFF_FFFFu64) >> 6u64) & 3u64 == 2u64,
        (((0x20153b244026a58du64 & 0x0FFF_FFFF_FFFF_FFFFu64) >> 6u64) & 4u64) >> 2u64 == 1u64,
        (((0x20153b244026a58du64 & 0x0FFF_FFFF_FFFF_FFFFu64) >> 6u64) & 0x20u64) >> 5u64 == 0u64,
        ((0x20153b244026a58du64 & 0x0FFF_FFFF_FFFF_FFFFu64) >> 12u64) & 3u64 == 2u64,
        (((0x20153b244026a58du64 & 0x0FFF_FFFF_FFFF_FFFFu64) >> 12u64) & 4u64) >> 2u64 == 0u64,
        (((0x20153b244026a58du64 & 0x0FFF_FFFF_FFFF_FFFFu64) >> 12u64) & 0x20u64) >> 5u64 == 1u64,
        ((0x20153b244026a58du64 & 0x0FFF_FFFF_FFFF_FFFFu64) >> 18u64) & 3u64 == 1u64,
        (((0x20153b244026a58du64 & 0x0FFF_FFFF_FFFF_FFFFu64) >> 18u64) & 4u64) >> 2u64 == 0u64,
        (((0x20153b244026a58du64 & 0x0FFF_FFFF_FFFF_FFFFu64) >> 18u64) & 0x20u64) >> 5u64 == 0u64,
        ((0x20153b244026a58du64 & 0x0FFF_FFFF_FFFF_FFFFu64) >> 24u64) & 3u64 == 0u64,
        (((0x20153b244026a58du64 & 0x0FFF_FFFF_FFFF_FFFFu64) >> 24u64) & 4u64) >> 2u64 == 0u64,
        (((0x20153b244026a58du64 & 0x0FFF_FFFF_FFFF_FFFFu64) >> 24u64) & 0x20u64) >> 5u64 == 0u64,
        ((0x20153b244026a58du64 & 0x0FFF_FFFF_FFFF_FFFFu64) >> 30u64) & 3u64 == 1u64,
        (((0x20153b244026a58du64 & 0x0FFF_FFFF_FFFF_FFFFu64) >> 30u64) & 4u64) >> 2u64 == 0u64,
        (((0x20153b244026a58du64 & 0x0FFF_FFFF_FFFF_FFFFu64) >> 30u64) & 0x20u64) >> 5u64 == 0u64,
        ((0x20153b244026a58du64 & 0x0FFF_FFFF_FFFF_FFFFu64) >> 36u64) & 3u64 == 2u64,
        (((0x20153b244026a58du64 & 0x0FFF_FFFF_FFFF_FFFFu64) >> 36u64) & 4u64) >> 2u64 == 0u64,
        (((0x20153b244026a58du64 & 0x0FFF_FFFF_FFFF_FFFFu64) >> 36u64) & 0x20u64) >> 5u64 == 1u64,
        ((0x20153b244026a58du64 & 0x0FFF_FFFF_FFFF_FFFFu64) >> 42u64) & 3u64 == 2u64,
        (((0x20153b244026a58du64 & 0x0FFF_FFFF_FFFF_FFFFu64) >> 42u64) & 4u64) >> 2u64 == 1u64,
        (((0x20153b244026a58du64 & 0x0FFF_FFFF_FFFF_FFFFu64) >> 42u64) & 0x20u64) >> 5u64 == 0u64,
        ((0x20153b244026a58du64 & 0x0FFF_FFFF_FFFF_FFFFu64) >> 48u64) & 3u64 == 1u64,
        (((0x20153b244026a58du64 & 0x0FFF_FFFF_FFFF_FFFFu64) >> 48u64) & 4u64) >> 2u64 == 1u64,
        (((0x20153b244026a58du64 & 0x0FFF_FFFF_FFFF_FFFFu64) >> 48u64) & 0x20u64) >> 5u64 == 0u64,
        0x400001579100978du64 >> 60u64 == 4u64,
        ((0x400001579100978du64 & 0x0FFF_FFFF_FFFF_FFFFu64) >> 0u64) & 3u64 == 1u64,
        (((0x400001579100978du64 & 0x0FFF_FFFF_FFFF_FFFFu64) >> 0u64) & 4u64) >> 2u64 == 1u64,
        (((0x400001579100978du64 & 0x0FFF_FFFF_FFFF_FFFFu64) >> 0u64) & 0x20u64) >> 5u64 == 0u64,
        ((0x400001579100978du64 & 0x0FFF_FFFF_FFFF_FFFFu64) >> 6u64) & 3u64 == 2u64,
        (((0x400001579100978du64 & 0x0FFF_FFFF_FFFF_FFFFu64) >> 6u64) & 4u64) >> 2u64 == 1u64,
        (((0x400001579100978du64 & 0x0FFF_FFFF_FFFF_FFFFu64) >> 6u64) & 0x20u64) >> 5u64 == 0u64,
        ((0x400001579100978du64 & 0x0FFF_FFFF_FFFF_FFFFu64) >> 12u64) & 3u64 == 1u64,
        (((0x400001579100978du64 & 0x0FFF_FFFF_FFFF_FFFFu64) >> 12u64) & 4u64) >> 2u64 == 0u64,
        (((0x400001579100978du64 & 0x0FFF_FFFF_FFFF_FFFFu64) >> 12u64) & 0x20u64) >> 5u64 == 0u64,
        ((0x400001579100978du64 & 0x0FFF_FFFF_FFFF_FFFFu64) >> 18u64) & 3u64 == 0u64,
        (((0x400001579100978du64 & 0x0FFF_FFFF_FFFF_FFFFu64) >> 18u64) & 4u64) >> 2u64 == 0u64,
        (((0x400001579100978du64 & 0x0FFF_FFFF_FFFF_FFFFu64) >> 18u64) & 0x20u64) >> 5u64 == 0u64,
        ((0x400001579100978du64 & 0x0FFF_FFFF_FFFF_FFFFu64) >> 24u64) & 3u64 == 1u64,
        (((0x400001579100978du64 & 0x0FFF_FFFF_FFFF_FFFFu64) >> 24u64) & 4u64) >> 2u64 == 0u64,
        (((0x400001579100978du64 & 0x0FFF_FFFF_FFFF_FFFFu64) >> 24u64) & 0x20u64) >> 5u64 == 0u64,
        ((0x400001579100978du64 & 0x0FFF_FFFF_FFFF_FFFFu64) >> 30u64) & 3u64 == 2u64,
        (((0x400001579100978du64 & 0x0FFF_FFFF_FFFF_FFFFu64) >> 30u64) & 4u64) >> 2u64 == 1u64,
        (((0x400001579100978du64 & 0x0FFF_FFFF_FFFF_FFFFu64) >> 30u64) & 0x20u64) >> 5u64 == 0u64,
        ((0x400001579100978du64 & 0x0FFF_FFFF_FFFF_FFFFu64) >> 36u64) & 3u64 == 1u64,
        (((0x400001579100978du64 & 0x0FFF_FFFF_FFFF_FFFFu64) >> 36u64) & 4u64) >> 2u64 == 1u64,
        (((0x400001579100978du64 & 0x0FFF_FFFF_FFFF_FFFFu64) >> 36u64) & 0x20u64) >> 5u64 == 0u64,
        0x15861b2041a8618eu64 >> 60u64 == 1u64,
        ((0x15861b2041a8618eu64 & 0x0FFF_FFFF_FFFF_FFFFu64) >> 0u64) & 3u64 == 2u64,
        (((0x15861b2041a8618eu64 & 0x0FFF_FFFF_FFFF_FFFFu64) >> 0u64) & 4u64) >> 2u64 == 1u64,
        (((0x15861b2041a8618eu64 & 0x0FFF_FFFF_FFFF_FFFFu64) >> 0u64) & 0x20u64) >> 5u64 == 0u64,
        ((0x15861b2041a8618eu64 & 0x0FFF_FFFF_FFFF_FFFFu64) >> 6u64) & 3u64 == 2u64,
        (((0x15861b2041a8618eu64 & 0x0FFF_FFFF_FFFF_FFFFu64) >> 6u64) & 4u64) >> 2u64 == 1u64,
        (((0x15861b2041a8618eu64 & 0x0FFF_FFFF_FFFF_FFFFu64) >> 6u64) & 0x20u64) >> 5u64 == 0u64,
        ((0x15861b2041a8618eu64 & 0x0FFF_FFFF_FFFF_FFFFu64) >> 12u64) & 3u64 == 2u64,
        (((0x15861b2041a8618eu64 & 0x0FFF_FFFF_FFFF_FFFFu64) >> 12u64) & 4u64) >> 2u64 == 1u64,
        (((0x15861b2041a8618eu64 & 0x0FFF_FFFF_FFFF_FFFFu64) >> 12u64) & 0x20u64) >> 5u64 == 0u64,
        ((0x15861b2041a8618eu64 & 0x0FFF_FFFF_FFFF_FFFFu64) >> 18u64) & 3u64 == 2u64,
        (((0x15861b2041a8618eu64 & 0x0FFF_FFFF_FFFF_FFFFu64) >> 18u64) & 4u64) >> 2u64 == 0u64,
        (((0x15861b2041a8618eu64 & 0x0FFF_FFFF_FFFF_FFFFu64) >> 18u64) & 0x20u64) >> 5u64 == 1u64,
        ((0x15861b2041a8618eu64 & 0x0FFF_FFFF_FFFF_FFFFu64) >> 24u64) & 3u64 == 1u64,
        (((0x15861b2041a8618eu64 & 0x0FFF_FFFF_FFFF_FFFFu64) >> 24u64) & 4u64) >> 2u64 == 0u64,
        (((0x15861b2041a8618eu64 & 0x0FFF_FFFF_FFFF_FFFFu64) >> 24u64) & 0x20u64) >> 5u64 == 0u64,
        ((0x15861b2041a8618eu64 & 0x0FFF_FFFF_FFFF_FFFFu64) >> 30u64) & 3u64 == 1u64,
        (((0x15861b2041a8618eu64 & 0x0FFF_FFFF_FFFF_FFFFu64) >> 30u64) & 4u64) >> 2u64 == 0u64,
        (((0x15861b2041a8618eu64 & 0x0FFF_FFFF_FFFF_FFFFu64) >> 30u64) & 0x20u64) >> 5u64 == 0u64,
        ((0x15861b2041a8618eu64 & 0x0FFF_FFFF_FFFF_FFFFu64) >> 36u64) & 3u64 == 2u64,
        (((0x15861b2041a8618eu64 & 0x0FFF_FFFF_FFFF_FFFFu64) >> 36u64) & 4u64) >> 2u64 == 0u64,
        (((0x15861b2041a8618eu64 & 0x0FFF_FFFF_FFFF_FFFFu64) >> 36u64) & 0x20u64) >> 5u64 == 1u64,
        ((0x15861b2041a8618eu64 & 0x0FFF_FFFF_FFFF_FFFFu64) >> 42u64) & 3u64 == 2u64,
        (((0x15861b2041a8618eu64 & 0x0FFF_FFFF_FFFF_FFFFu64) >> 42u64) & 4u64) >> 2u64 == 1u64,
        (((0x15861b2041a8618eu64 & 0x0FFF_FFFF_FFFF_FFFFu64) >> 42u64) & 0x20u64) >> 5u64 == 0u64,
        ((0x15861b2041a8618eu64 & 0x0FFF_FFFF_FFFF_FFFFu64) >> 48u64) & 3u64 == 2u64,
        (((0x15861b2041a8618eu64 & 0x0FFF_FFFF_FFFF_FFFFu64) >> 48u64) & 4u64) >> 2u64 == 1u64,
        (((0x15861b2041a8618eu64 & 0x0FFF_FFFF_FFFF_FFFFu64) >> 48u64) & 0x20u64) >> 5u64 == 0u64,
        ((0x15861b2041a8618eu64 & 0x0FFF_FFFF_FFFF_FFFFu64) >> 54u64) & 3u64 == 2u64,
        (((0x15861b2041a8618eu64 & 0x0FFF_FFFF_FFFF_FFFFu64) >> 54u64) & 4u64) >> 2u64 == 1u64,
        (((0x15861b2041a8618eu64 & 0x0FFF_FFFF_FFFF_FFFFu64) >> 54u64) & 0x20u64) >> 5u64 == 0u64,
{
}

/// What the finesse table holds for orientation `i` and target column `x`.
pub proof fn lemma_finesse_decode(i: int, x: int)
    requires
        0 <= i < 19,
        0 <= x,
        x + shape_width(i) <= 10,
    ensures
        spec_finesse_table(i) >> 60 == shape_width(i),
        finesse_keys(i).len() == 11 - shape_width(i),
        finesse_reuse(i).len() == 11 - shape_width(i),
        finesse_special(i).len() == 11 - shape_width(i),
        ((spec_finesse_table(i) & 0x0FFF_FFFF_FFFF_FFFFu64) >> ((6 * x) as u64)) & 3u64 == finesse_keys(i)[x],
        (((spec_finesse_table(i) & 0x0FFF_FFFF_FFFF_FFFFu64) >> ((6 * x) as u64)) & 4u64) >> 2u64 == finesse_reuse(
            i,
        )[x],
        (((spec_finesse_table(i) & 0x0FFF_FFFF_FFFF_FFFFu64) >> ((6 * x) as u64)) & 0x20u64) >> 5u64
            == finesse_special(i)[x],
        finesse_keys(i)[x] <= 3,
        finesse_reuse(i)[x] <= 1,
        finesse_special(i)[x] <= 1,
        finesse_reuse(i)[x] <= finesse_keys(i)[x],
{
    bv_finesse_tables();
    if i == 0 { } else if i == 1 { } else if i == 2 { } else if i == 3 { } else if i == 4 { } else if i == 5 {
    } else if i == 6 { } else if i == 7 { } else if i == 8 { } else if i == 9 { } else if i == 10 {
    } else if i == 11 { } else if i == 12 { } else if i == 13 { } else if i == 14 { } else if i == 15 {
    } else if i == 16 { } else if i == 17 { } else { }
    assert(x == 0 || x == 1 || x == 2 || x == 3 || x == 4 || x == 5 || x == 6 || x == 7 || x == 8 || x == 9);
}

/// Whether piece orientation `s` has a cell in column `j` (from its left
/// column) and row `r` (from its lowest row).
pub open spec fn piece_cell(s: int, j: int, r: int) -> bool {
    &&& 0 <= j < shape_width(s)
    &&& shape_bottoms(s)[j] <= r < shape_bottoms(s)[j] + shape_columns(s)[j]
}

/// One in the lowest bit of each of the first `w` lanes.
pub open spec fn lane_ones(w: int) -> u32 {
    if w == 1 {
        1
    } else if w == 2 {
        0x41
    } else if w == 3 {
        0x1041
    } else {
        0x41041
    }
}

/// What the packed tables hold for orientation `s`, lane by lane.
pub proof fn lemma_shape_decode(s: int)
    requires
        0 <= s < 19,
    ensures
        1 <= shape_width(s) <= 4,
        1 <= shape_height(s) <= 4,
        shape_bottoms(s).len() == shape_width(s),
        shape_columns(s).len() == shape_width(s),
        forall|j: int| 0 <= j < shape_width(s) ==> 0 <= #[trigger] shape_bottoms(s)[j] <= 2,
        forall|j: int| 0 <= j < shape_width(s) ==> 1 <= #[trigger] shape_columns(s)[j] <= 4,
        forall|j: int|
            0 <= j < shape_width(s) ==> shape_bottoms(s)[j] + shape_columns(s)[j] <= shape_height(s),
        exists|j: int| 0 <= j < shape_width(s) && shape_bottoms(s)[j] == 0,
        (spec_shape_mask_bits(s) & 0o40404040u32) >> 5 == lane_ones(shape_width(s)),
        spec_shape_mask_bits(s) >> 24 == shape_height(s),
        spec_shape_mask_bits(s) & 0o40404040u32 < 0x100_0000,
        spec_shape_mask_bits(s) & 0o07070707u32 < 0x100_0000,
        ((spec_shape_mask_bits(s) & 0o07070707u32) as u64) < (1u64 << ((6 * shape_width(s)) as u64)),
        (spec_shape_mask_bits(s) & 0o30303030u32) >> 3 < 0x100_0000,
        spec_bit_table(s) & 0xFFFFFFu32 < 0x100_0000,
        spec_bit_table(s) >> 24 == shape_height(s),
        ((spec_bit_table(s) as u64) & 0xFFFFFFu64) < (1u64 << ((6 * (shape_width(s) - 1) + shape_height(s)) as u64)),
        ((spec_bit_table(s) as u64) & 0xFFFFFFu64) == ((spec_bit_table(s) & 0xFFFFFFu32) as u64),
        forall|j: int|
            0 <= j < 4 ==> #[trigger] lane32(spec_shape_mask_bits(s) & 0o40404040u32, j) == (if j
                < shape_width(s) {
                32u32
            } else {
                0u32
            }),
        forall|j: int|
            0 <= j < 4 ==> #[trigger] lane32((spec_shape_mask_bits(s) & 0o40404040u32) >> 5, j) == (if j
                < shape_width(s) {
                1u32
            } else {
                0u32
            }),
        forall|j: int|
            0 <= j < 4 ==> #[trigger] lane32(spec_shape_mask_bits(s) & 0o07070707u32, j) == (if j
                < shape_width(s) {
                shape_columns(s)[j] as u32
            } else {
                0u32
            }),
        forall|j: int|
            0 <= j < 4 ==> #[trigger] lane32((spec_shape_mask_bits(s) & 0o30303030u32) >> 3, j) == (
            if j < shape_width(s) {
                shape_bottoms(s)[j] as u32
            } else {
                0u32
            }),
        forall|j: int|
            0 <= j < 4 ==> #[trigger] lane32(spec_bit_table(s) & 0xFFFFFFu32, j) == (if j < shape_width(
                s,
            ) {
                (((1u32 << (shape_columns(s)[j] as u32)) - 1u32) as u32) << (shape_bottoms(s)[j] as u32)
            } else {
                0u32
            }),
{
    bv_shape_tables();
    lemma_lane32_concrete(spec_shape_mask_bits(s) & 0o40404040u32);
    lemma_lane32_concrete(spec_shape_mask_bits(s) & 0o07070707u32);
    lemma_lane32_concrete((spec_shape_mask_bits(s) & 0o40404040u32) >> 5);
    assert forall|j: int| 0 <= j < 4 implies #[trigger] lane32((spec_shape_mask_bits(s) & 0o40404040u32) >> 5, j)
        == (if j < shape_width(s) {
        1u32
    } else {
        0u32
    }) by {
        assert(j == 0 || j == 1 || j == 2 || j == 3);
    }
    lemma_lane32_concrete((spec_shape_mask_bits(s) & 0o30303030u32) >> 3);
    lemma_lane32_concrete(spec_bit_table(s) & 0xFFFFFFu32);
    assert(exists|j: int| 0 <= j < shape_width(s) && shape_bottoms(s)[j] == 0) by {
        if shape_bottoms(s)[0] == 0 {
        } else if shape_bottoms(s)[1] == 0 {
        } else {
            assert(shape_bottoms(s)[2] == 0);
        }
    }
    assert forall|j: int| 0 <= j < 4 implies #[trigger] lane32(spec_bit_table(s) & 0xFFFFFFu32, j) == (if j
        < shape_width(s) {
        (((1u32 << (shape_columns(s)[j] as u32)) - 1u32) as u32) << (shape_bottoms(s)[j] as u32)
    } else {
        0u32
    }) by {
        assert(j == 0 || j == 1 || j == 2 || j == 3);
    }
    assert forall|j: int| 0 <= j < 4 implies #[trigger] lane32(spec_shape_mask_bits(s) & 0o40404040u32, j) == (
    if j < shape_width(s) {
        32u32
    } else {
        0u32
    }) by {
        assert(j == 0 || j == 1 || j == 2 || j == 3);
    }
    assert forall|j: int| 0 <= j < 4 implies #[trigger] lane32(spec_shape_mask_bits(s) & 0o07070707u32, j) == (
    if j < shape_width(s) {
        shape_columns(s)[j] as u32
    } else {
        0u32
    }) by {
        assert(j == 0 || j == 1 || j == 2 || j == 3);
    }
    assert forall|j: int| 0 <= j < 4 implies #[trigger] lane32((spec_shape_mask_bits(s) & 0o30303030u32) >> 3, j)
        == (if j < shape_width(s) {
        shape_bottoms(s)[j] as u32
    } else {
        0u32
    }) by {
        assert(j == 0 || j == 1 || j == 2 || j == 3);
    }
}

} // verus!
