//! Capacity of each version and error correction level.

use vstd::prelude::*;

use super::ErrorCorrection;

verus! {

pub const MIN_VERSION: u8 = 1;
pub const MAX_VERSION: u8 = 40;

/// Error correction codewords per block, by version (index 0 unused), one table per level.
const ECC_CODEWORDS_LOW: [u8; 41] = [
    0, 7, 10, 15, 20, 26, 18, 20, 24, 30, 18, 20, 24, 26, 30, 22, 24, 28, 30, 28, 28, 28, 28, 30,
    30, 26, 28, 30, 30, 30, 30, 30, 30, 30, 30, 30, 30, 30, 30, 30, 30,
];

const ECC_CODEWORDS_MEDIUM: [u8; 41] = [
    0, 10, 16, 26, 18, 24, 16, 18, 22, 22, 26, 30, 22, 22, 24, 24, 28, 28, 26, 26, 26, 26, 28, 28,
    28, 28, 28, 28, 28, 28, 28, 28, 28, 28, 28, 28, 28, 28, 28, 28, 28,
];

const ECC_CODEWORDS_QUARTILE: [u8; 41] = [
    0, 13, 22, 18, 26, 18, 24, 18, 22, 20, 24, 28, 26, 24, 20, 30, 24, 28, 28, 26, 30, 28, 30, 30,
    30, 30, 28, 30, 30, 30, 30, 30, 30, 30, 30, 30, 30, 30, 30, 30, 30,
];

const ECC_CODEWORDS_HIGH: [u8; 41] = [
    0, 17, 28, 22, 16, 22, 28, 26, 26, 24, 28, 24, 28, 22, 24, 24, 30, 28, 28, 26, 28, 30, 24, 30,
    30, 30, 30, 30, 30, 30, 30, 30, 30, 30, 30, 30, 30, 30, 30, 30, 30,
];

/// Error correction blocks, by version (index 0 unused), one table per level.
const ECC_BLOCKS_LOW: [u8; 41] = [
    0, 1, 1, 1, 1, 1, 2, 2, 2, 2, 4, 4, 4, 4, 4, 6, 6, 6, 6, 7, 8, 8, 9, 9, 10, 12, 12, 12, 13,
    14, 15, 16, 17, 18, 19, 19, 20, 21, 22, 24, 25,
];

const ECC_BLOCKS_MEDIUM: [u8; 41] = [
    0, 1, 1, 1, 2, 2, 4, 4, 4, 5, 5, 5, 8, 9, 9, 10, 10, 11, 13, 14, 16, 17, 17, 18, 20, 21, 23,
    25, 26, 28, 29, 31, 33, 35, 37, 38, 40, 43, 45, 47, 49,
];

const ECC_BLOCKS_QUARTILE: [u8; 41] = [
    0, 1, 1, 2, 2, 4, 4, 6, 6, 8, 8, 8, 10, 12, 16, 12, 17, 16, 18, 21, 20, 23, 23, 25, 27, 29,
    34, 34, 35, 38, 40, 43, 45, 48, 51, 53, 56, 59, 62, 65, 68,
];

const ECC_BLOCKS_HIGH: [u8; 41] = [
    0, 1, 1, 2, 4, 4, 4, 5, 6, 8, 8, 11, 11, 16, 16, 18, 16, 19, 21, 25, 25, 25, 34, 30, 32, 35,
    37, 40, 42, 45, 48, 51, 54, 57, 60, 63, 66, 70, 74, 77, 81,
];

/// Error correction codewords per block at `level` in `version` (1 to 40).
pub closed spec fn ecc_codewords_per_block(level: ErrorCorrection, version: int) -> int {
    match level {
        ErrorCorrection::Low => ECC_CODEWORDS_LOW@[version] as int,
        ErrorCorrection::Medium => ECC_CODEWORDS_MEDIUM@[version] as int,
        ErrorCorrection::Quartile => ECC_CODEWORDS_QUARTILE@[version] as int,
        ErrorCorrection::High => ECC_CODEWORDS_HIGH@[version] as int,
    }
}

/// Error correction blocks at `level` in `version` (1 to 40).
pub closed spec fn error_correction_blocks(level: ErrorCorrection, version: int) -> int {
    match level {
        ErrorCorrection::Low => ECC_BLOCKS_LOW@[version] as int,
        ErrorCorrection::Medium => ECC_BLOCKS_MEDIUM@[version] as int,
        ErrorCorrection::Quartile => ECC_BLOCKS_QUARTILE@[version] as int,
        ErrorCorrection::High => ECC_BLOCKS_HIGH@[version] as int,
    }
}

/// Data modules of a version: everything except function patterns and
/// format/version information.
pub open spec fn raw_data_modules_spec(v: int) -> int {
    let all = (16 * v + 128) * v + 64;
    if v >= 2 {
        let alignments = v / 7 + 2;
        all - ((25 * alignments - 10) * alignments - 55) - (if v >= 7 { 36int } else { 0 })
    } else {
        all
    }
}

/// Codewords that carry data (not error correction).
pub open spec fn data_codeword_count_spec(v: int, level: ErrorCorrection) -> int {
    raw_data_modules_spec(v) / 8 - ecc_codewords_per_block(level, v) * error_correction_blocks(
        level,
        v,
    )
}

/// Width of the byte-mode length field.
pub open spec fn count_bits_spec(v: int) -> int {
    if v < 10 {
        8
    } else {
        16
    }
}

/// Longest byte-mode data that fits into `v` at `level`.
pub open spec fn max_bytes_spec(v: int, level: ErrorCorrection) -> int {
    (data_codeword_count_spec(v, level) * 8 - 4 - count_bits_spec(v)) / 8
}

/// Whether `len` bytes fit into version `v` at `level`.
pub open spec fn fits(len: int, v: int, level: ErrorCorrection) -> bool {
    len <= max_bytes_spec(v, level)
}

proof fn lemma_table_entry(level: ErrorCorrection, v: int, ecc: int, blocks: int)
    requires
        ecc_codewords_per_block(level, v) == ecc,
        error_correction_blocks(level, v) == blocks,
    ensures
        ecc_codewords_per_block(level, v) * error_correction_blocks(level, v) == ecc * blocks,
{
}

#[verifier::spinoff_prover]
proof fn lemma_version_facts_low(v: int)
    requires
        1 <= v <= 40,
    ensures
        ({
            let level = ErrorCorrection::Low;
            &&& 1 <= error_correction_blocks(level, v) <= 81
            &&& 7 <= ecc_codewords_per_block(level, v) <= 30
            &&& 208 <= raw_data_modules_spec(v) <= 29648
            &&& data_codeword_count_spec(v, level) >= 9 * error_correction_blocks(level, v)
            &&& 0 <= max_bytes_spec(v, level) < (if v < 10 { 256int } else { 65536 })
            &&& v < 40 ==> max_bytes_spec(v, level) < max_bytes_spec(v + 1, level)
        }),
{
    let level = ErrorCorrection::Low;
    if v == 1 {
        assert(raw_data_modules_spec(1) == 208) by (nonlinear_arith);
        lemma_table_entry(level, 1, 7, 1);
        assert(raw_data_modules_spec(2) == 359) by (nonlinear_arith);
        lemma_table_entry(level, 2, 10, 1);
    } else if v == 2 {
        assert(raw_data_modules_spec(2) == 359) by (nonlinear_arith);
        lemma_table_entry(level, 2, 10, 1);
        assert(raw_data_modules_spec(3) == 567) by (nonlinear_arith);
        lemma_table_entry(level, 3, 15, 1);
    } else if v == 3 {
        assert(raw_data_modules_spec(3) == 567) by (nonlinear_arith);
        lemma_table_entry(level, 3, 15, 1);
        assert(raw_data_modules_spec(4) == 807) by (nonlinear_arith);
        lemma_table_entry(level, 4, 20, 1);
    } else if v == 4 {
        assert(raw_data_modules_spec(4) == 807) by (nonlinear_arith);
        lemma_table_entry(level, 4, 20, 1);
        assert(raw_data_modules_spec(5) == 1079) by (nonlinear_arith);
        lemma_table_entry(level, 5, 26, 1);
    } else if v == 5 {
        assert(raw_data_modules_spec(5) == 1079) by (nonlinear_arith);
        lemma_table_entry(level, 5, 26, 1);
        assert(raw_data_modules_spec(6) == 1383) by (nonlinear_arith);
        lemma_table_entry(level, 6, 18, 2);
    } else if v == 6 {
        assert(raw_data_modules_spec(6) == 1383) by (nonlinear_arith);
        lemma_table_entry(level, 6, 18, 2);
        assert(raw_data_modules_spec(7) == 1568) by (nonlinear_arith);
        lemma_table_entry(level, 7, 20, 2);
    } else if v == 7 {
        assert(raw_data_modules_spec(7) == 1568) by (nonlinear_arith);
        lemma_table_entry(level, 7, 20, 2);
        assert(raw_data_modules_spec(8) == 1936) by (nonlinear_arith);
        lemma_table_entry(level, 8, 24, 2);
    } else if v == 8 {
        assert(raw_data_modules_spec(8) == 1936) by (nonlinear_arith);
        lemma_table_entry(level, 8, 24, 2);
        assert(raw_data_modules_spec(9) == 2336) by (nonlinear_arith);
        lemma_table_entry(level, 9, 30, 2);
    } else if v == 9 {
        assert(raw_data_modules_spec(9) == 2336) by (nonlinear_arith);
        lemma_table_entry(level, 9, 30, 2);
        assert(raw_data_modules_spec(10) == 2768) by (nonlinear_arith);
        lemma_table_entry(level, 10, 18, 4);
    } else if v == 10 {
        assert(raw_data_modules_spec(10) == 2768) by (nonlinear_arith);
        lemma_table_entry(level, 10, 18, 4);
        assert(raw_data_modules_spec(11) == 3232) by (nonlinear_arith);
        lemma_table_entry(level, 11, 20, 4);
    } else if v == 11 {
        assert(raw_data_modules_spec(11) == 3232) by (nonlinear_arith);
        lemma_table_entry(level, 11, 20, 4);
        assert(raw_data_modules_spec(12) == 3728) by (nonlinear_arith);
        lemma_table_entry(level, 12, 24, 4);
    } else if v == 12 {
        assert(raw_data_modules_spec(12) == 3728) by (nonlinear_arith);
        lemma_table_entry(level, 12, 24, 4);
        assert(raw_data_modules_spec(13) == 4256) by (nonlinear_arith);
        lemma_table_entry(level, 13, 26, 4);
    } else if v == 13 {
        assert(raw_data_modules_spec(13) == 4256) by (nonlinear_arith);
        lemma_table_entry(level, 13, 26, 4);
        assert(raw_data_modules_spec(14) == 4651) by (nonlinear_arith);
        lemma_table_entry(level, 14, 30, 4);
    } else if v == 14 {
        assert(raw_data_modules_spec(14) == 4651) by (nonlinear_arith);
        lemma_table_entry(level, 14, 30, 4);
        assert(raw_data_modules_spec(15) == 5243) by (nonlinear_arith);
        lemma_table_entry(level, 15, 22, 6);
    } else if v == 15 {
        assert(raw_data_modules_spec(15) == 5243) by (nonlinear_arith);
        lemma_table_entry(level, 15, 22, 6);
        assert(raw_data_modules_spec(16) == 5867) by (nonlinear_arith);
        lemma_table_entry(level, 16, 24, 6);
    } else if v == 16 {
        assert(raw_data_modules_spec(16) == 5867) by (nonlinear_arith);
        lemma_table_entry(level, 16, 24, 6);
        assert(raw_data_modules_spec(17) == 6523) by (nonlinear_arith);
        lemma_table_entry(level, 17, 28, 6);
    } else if v == 17 {
        assert(raw_data_modules_spec(17) == 6523) by (nonlinear_arith);
        lemma_table_entry(level, 17, 28, 6);
        assert(raw_data_modules_spec(18) == 7211) by (nonlinear_arith);
        lemma_table_entry(level, 18, 30, 6);
    } else if v == 18 {
        assert(raw_data_modules_spec(18) == 7211) by (nonlinear_arith);
        lemma_table_entry(level, 18, 30, 6);
        assert(raw_data_modules_spec(19) == 7931) by (nonlinear_arith);
        lemma_table_entry(level, 19, 28, 7);
    } else if v == 19 {
        assert(raw_data_modules_spec(19) == 7931) by (nonlinear_arith);
        lemma_table_entry(level, 19, 28, 7);
        assert(raw_data_modules_spec(20) == 8683) by (nonlinear_arith);
        lemma_table_entry(level, 20, 28, 8);
    } else if v == 20 {
        assert(raw_data_modules_spec(20) == 8683) by (nonlinear_arith);
        lemma_table_entry(level, 20, 28, 8);
        assert(raw_data_modules_spec(21) == 9252) by (nonlinear_arith);
        lemma_table_entry(level, 21, 28, 8);
    } else if v == 21 {
        assert(raw_data_modules_spec(21) == 9252) by (nonlinear_arith);
        lemma_table_entry(level, 21, 28, 8);
        assert(raw_data_modules_spec(22) == 10068) by (nonlinear_arith);
        lemma_table_entry(level, 22, 28, 9);
    } else if v == 22 {
        assert(raw_data_modules_spec(22) == 10068) by (nonlinear_arith);
        lemma_table_entry(level, 22, 28, 9);
        assert(raw_data_modules_spec(23) == 10916) by (nonlinear_arith);
        lemma_table_entry(level, 23, 30, 9);
    } else if v == 23 {
        assert(raw_data_modules_spec(23) == 10916) by (nonlinear_arith);
        lemma_table_entry(level, 23, 30, 9);
        assert(raw_data_modules_spec(24) == 11796) by (nonlinear_arith);
        lemma_table_entry(level, 24, 30, 10);
    } else if v == 24 {
        assert(raw_data_modules_spec(24) == 11796) by (nonlinear_arith);
        lemma_table_entry(level, 24, 30, 10);
        assert(raw_data_modules_spec(25) == 12708) by (nonlinear_arith);
        lemma_table_entry(level, 25, 26, 12);
    } else if v == 25 {
        assert(raw_data_modules_spec(25) == 12708) by (nonlinear_arith);
        lemma_table_entry(level, 25, 26, 12);
        assert(raw_data_modules_spec(26) == 13652) by (nonlinear_arith);
        lemma_table_entry(level, 26, 28, 12);
    } else if v == 26 {
        assert(raw_data_modules_spec(26) == 13652) by (nonlinear_arith);
        lemma_table_entry(level, 26, 28, 12);
        assert(raw_data_modules_spec(27) == 14628) by (nonlinear_arith);
        lemma_table_entry(level, 27, 30, 12);
    } else if v == 27 {
        assert(raw_data_modules_spec(27) == 14628) by (nonlinear_arith);
        lemma_table_entry(level, 27, 30, 12);
        assert(raw_data_modules_spec(28) == 15371) by (nonlinear_arith);
        lemma_table_entry(level, 28, 30, 13);
    } else if v == 28 {
        assert(raw_data_modules_spec(28) == 15371) by (nonlinear_arith);
        lemma_table_entry(level, 28, 30, 13);
        assert(raw_data_modules_spec(29) == 16411) by (nonlinear_arith);
        lemma_table_entry(level, 29, 30, 14);
    } else if v == 29 {
        assert(raw_data_modules_spec(29) == 16411) by (nonlinear_arith);
        lemma_table_entry(level, 29, 30, 14);
        assert(raw_data_modules_spec(30) == 17483) by (nonlinear_arith);
        lemma_table_entry(level, 30, 30, 15);
    } else if v == 30 {
        assert(raw_data_modules_spec(30) == 17483) by (nonlinear_arith);
        lemma_table_entry(level, 30, 30, 15);
        assert(raw_data_modules_spec(31) == 18587) by (nonlinear_arith);
        lemma_table_entry(level, 31, 30, 16);
    } else if v == 31 {
        assert(raw_data_modules_spec(31) == 18587) by (nonlinear_arith);
        lemma_table_entry(level, 31, 30, 16);
        assert(raw_data_modules_spec(32) == 19723) by (nonlinear_arith);
        lemma_table_entry(level, 32, 30, 17);
    } else if v == 32 {
        assert(raw_data_modules_spec(32) == 19723) by (nonlinear_arith);
        lemma_table_entry(level, 32, 30, 17);
        assert(raw_data_modules_spec(33) == 20891) by (nonlinear_arith);
        lemma_table_entry(level, 33, 30, 18);
    } else if v == 33 {
        assert(raw_data_modules_spec(33) == 20891) by (nonlinear_arith);
        lemma_table_entry(level, 33, 30, 18);
        assert(raw_data_modules_spec(34) == 22091) by (nonlinear_arith);
        lemma_table_entry(level, 34, 30, 19);
    } else if v == 34 {
        assert(raw_data_modules_spec(34) == 22091) by (nonlinear_arith);
        lemma_table_entry(level, 34, 30, 19);
        assert(raw_data_modules_spec(35) == 23008) by (nonlinear_arith);
        lemma_table_entry(level, 35, 30, 19);
    } else if v == 35 {
        assert(raw_data_modules_spec(35) == 23008) by (nonlinear_arith);
        lemma_table_entry(level, 35, 30, 19);
        assert(raw_data_modules_spec(36) == 24272) by (nonlinear_arith);
        lemma_table_entry(level, 36, 30, 20);
    } else if v == 36 {
        assert(raw_data_modules_spec(36) == 24272) by (nonlinear_arith);
        lemma_table_entry(level, 36, 30, 20);
        assert(raw_data_modules_spec(37) == 25568) by (nonlinear_arith);
        lemma_table_entry(level, 37, 30, 21);
    } else if v == 37 {
        assert(raw_data_modules_spec(37) == 25568) by (nonlinear_arith);
        lemma_table_entry(level, 37, 30, 21);
        assert(raw_data_modules_spec(38) == 26896) by (nonlinear_arith);
        lemma_table_entry(level, 38, 30, 22);
    } else if v == 38 {
        assert(raw_data_modules_spec(38) == 26896) by (nonlinear_arith);
        lemma_table_entry(level, 38, 30, 22);
        assert(raw_data_modules_spec(39) == 28256) by (nonlinear_arith);
        lemma_table_entry(level, 39, 30, 24);
    } else if v == 39 {
        assert(raw_data_modules_spec(39) == 28256) by (nonlinear_arith);
        lemma_table_entry(level, 39, 30, 24);
        assert(raw_data_modules_spec(40) == 29648) by (nonlinear_arith);
        lemma_table_entry(level, 40, 30, 25);
    } else if v == 40 {
        assert(raw_data_modules_spec(40) == 29648) by (nonlinear_arith);
        lemma_table_entry(level, 40, 30, 25);
    }
}

#[verifier::spinoff_prover]
proof fn lemma_version_facts_medium(v: int)
    requires
        1 <= v <= 40,
    ensures
        ({
            let level = ErrorCorrection::Medium;
            &&& 1 <= error_correction_blocks(level, v) <= 81
            &&& 7 <= ecc_codewords_per_block(level, v) <= 30
            &&& 208 <= raw_data_modules_spec(v) <= 29648
            &&& data_codeword_count_spec(v, level) >= 9 * error_correction_blocks(level, v)
            &&& 0 <= max_bytes_spec(v, level) < (if v < 10 { 256int } else { 65536 })
            &&& v < 40 ==> max_bytes_spec(v, level) < max_bytes_spec(v + 1, level)
        }),
{
    let level = ErrorCorrection::Medium;
    if v == 1 {
        assert(raw_data_modules_spec(1) == 208) by (nonlinear_arith);
        lemma_table_entry(level, 1, 10, 1);
        assert(raw_data_modules_spec(2) == 359) by (nonlinear_arith);
        lemma_table_entry(level, 2, 16, 1);
    } else if v == 2 {
        assert(raw_data_modules_spec(2) == 359) by (nonlinear_arith);
        lemma_table_entry(level, 2, 16, 1);
        assert(raw_data_modules_spec(3) == 567) by (nonlinear_arith);
        lemma_table_entry(level, 3, 26, 1);
    } else if v == 3 {
        assert(raw_data_modules_spec(3) == 567) by (nonlinear_arith);
        lemma_table_entry(level, 3, 26, 1);
        assert(raw_data_modules_spec(4) == 807) by (nonlinear_arith);
        lemma_table_entry(level, 4, 18, 2);
    } else if v == 4 {
        assert(raw_data_modules_spec(4) == 807) by (nonlinear_arith);
        lemma_table_entry(level, 4, 18, 2);
        assert(raw_data_modules_spec(5) == 1079) by (nonlinear_arith);
        lemma_table_entry(level, 5, 24, 2);
    } else if v == 5 {
        assert(raw_data_modules_spec(5) == 1079) by (nonlinear_arith);
        lemma_table_entry(level, 5, 24, 2);
        assert(raw_data_modules_spec(6) == 1383) by (nonlinear_arith);
        lemma_table_entry(level, 6, 16, 4);
    } else if v == 6 {
        assert(raw_data_modules_spec(6) == 1383) by (nonlinear_arith);
        lemma_table_entry(level, 6, 16, 4);
        assert(raw_data_modules_spec(7) == 1568) by (nonlinear_arith);
        lemma_table_entry(level, 7, 18, 4);
    } else if v == 7 {
        assert(raw_data_modules_spec(7) == 1568) by (nonlinear_arith);
        lemma_table_entry(level, 7, 18, 4);
        assert(raw_data_modules_spec(8) == 1936) by (nonlinear_arith);
        lemma_table_entry(level, 8, 22, 4);
    } else if v == 8 {
        assert(raw_data_modules_spec(8) == 1936) by (nonlinear_arith);
        lemma_table_entry(level, 8, 22, 4);
        assert(raw_data_modules_spec(9) == 2336) by (nonlinear_arith);
        lemma_table_entry(level, 9, 22, 5);
    } else if v == 9 {
        assert(raw_data_modules_spec(9) == 2336) by (nonlinear_arith);
        lemma_table_entry(level, 9, 22, 5);
        assert(raw_data_modules_spec(10) == 2768) by (nonlinear_arith);
        lemma_table_entry(level, 10, 26, 5);
    } else if v == 10 {
        assert(raw_data_modules_spec(10) == 2768) by (nonlinear_arith);
        lemma_table_entry(level, 10, 26, 5);
        assert(raw_data_modules_spec(11) == 3232) by (nonlinear_arith);
        lemma_table_entry(level, 11, 30, 5);
    } else if v == 11 {
        assert(raw_data_modules_spec(11) == 3232) by (nonlinear_arith);
        lemma_table_entry(level, 11, 30, 5);
        assert(raw_data_modules_spec(12) == 3728) by (nonlinear_arith);
        lemma_table_entry(level, 12, 22, 8);
    } else if v == 12 {
        assert(raw_data_modules_spec(12) == 3728) by (nonlinear_arith);
        lemma_table_entry(level, 12, 22, 8);
        assert(raw_data_modules_spec(13) == 4256) by (nonlinear_arith);
        lemma_table_entry(level, 13, 22, 9);
    } else if v == 13 {
        assert(raw_data_modules_spec(13) == 4256) by (nonlinear_arith);
        lemma_table_entry(level, 13, 22, 9);
        assert(raw_data_modules_spec(14) == 4651) by (nonlinear_arith);
        lemma_table_entry(level, 14, 24, 9);
    } else if v == 14 {
        assert(raw_data_modules_spec(14) == 4651) by (nonlinear_arith);
        lemma_table_entry(level, 14, 24, 9);
        assert(raw_data_modules_spec(15) == 5243) by (nonlinear_arith);
        lemma_table_entry(level, 15, 24, 10);
    } else if v == 15 {
        assert(raw_data_modules_spec(15) == 5243) by (nonlinear_arith);
        lemma_table_entry(level, 15, 24, 10);
        assert(raw_data_modules_spec(16) == 5867) by (nonlinear_arith);
        lemma_table_entry(level, 16, 28, 10);
    } else if v == 16 {
        assert(raw_data_modules_spec(16) == 5867) by (nonlinear_arith);
        lemma_table_entry(level, 16, 28, 10);
        assert(raw_data_modules_spec(17) == 6523) by (nonlinear_arith);
        lemma_table_entry(level, 17, 28, 11);
    } else if v == 17 {
        assert(raw_data_modules_spec(17) == 6523) by (nonlinear_arith);
        lemma_table_entry(level, 17, 28, 11);
        assert(raw_data_modules_spec(18) == 7211) by (nonlinear_arith);
        lemma_table_entry(level, 18, 26, 13);
    } else if v == 18 {
        assert(raw_data_modules_spec(18) == 7211) by (nonlinear_arith);
        lemma_table_entry(level, 18, 26, 13);
        assert(raw_data_modules_spec(19) == 7931) by (nonlinear_arith);
        lemma_table_entry(level, 19, 26, 14);
    } else if v == 19 {
        assert(raw_data_modules_spec(19) == 7931) by (nonlinear_arith);
        lemma_table_entry(level, 19, 26, 14);
        assert(raw_data_modules_spec(20) == 8683) by (nonlinear_arith);
        lemma_table_entry(level, 20, 26, 16);
    } else if v == 20 {
        assert(raw_data_modules_spec(20) == 8683) by (nonlinear_arith);
        lemma_table_entry(level, 20, 26, 16);
        assert(raw_data_modules_spec(21) == 9252) by (nonlinear_arith);
        lemma_table_entry(level, 21, 26, 17);
    } else if v == 21 {
        assert(raw_data_modules_spec(21) == 9252) by (nonlinear_arith);
        lemma_table_entry(level, 21, 26, 17);
        assert(raw_data_modules_spec(22) == 10068) by (nonlinear_arith);
        lemma_table_entry(level, 22, 28, 17);
    } else if v == 22 {
        assert(raw_data_modules_spec(22) == 10068) by (nonlinear_arith);
        lemma_table_entry(level, 22, 28, 17);
        assert(raw_data_modules_spec(23) == 10916) by (nonlinear_arith);
        lemma_table_entry(level, 23, 28, 18);
    } else if v == 23 {
        assert(raw_data_modules_spec(23) == 10916) by (nonlinear_arith);
        lemma_table_entry(level, 23, 28, 18);
        assert(raw_data_modules_spec(24) == 11796) by (nonlinear_arith);
        lemma_table_entry(level, 24, 28, 20);
    } else if v == 24 {
        assert(raw_data_modules_spec(24) == 11796) by (nonlinear_arith);
        lemma_table_entry(level, 24, 28, 20);
        assert(raw_data_modules_spec(25) == 12708) by (nonlinear_arith);
        lemma_table_entry(level, 25, 28, 21);
    } else if v == 25 {
        assert(raw_data_modules_spec(25) == 12708) by (nonlinear_arith);
        lemma_table_entry(level, 25, 28, 21);
        assert(raw_data_modules_spec(26) == 13652) by (nonlinear_arith);
        lemma_table_entry(level, 26, 28, 23);
    } else if v == 26 {
        assert(raw_data_modules_spec(26) == 13652) by (nonlinear_arith);
        lemma_table_entry(level, 26, 28, 23);
        assert(raw_data_modules_spec(27) == 14628) by (nonlinear_arith);
        lemma_table_entry(level, 27, 28, 25);
    } else if v == 27 {
        assert(raw_data_modules_spec(27) == 14628) by (nonlinear_arith);
        lemma_table_entry(level, 27, 28, 25);
        assert(raw_data_modules_spec(28) == 15371) by (nonlinear_arith);
        lemma_table_entry(level, 28, 28, 26);
    } else if v == 28 {
        assert(raw_data_modules_spec(28) == 15371) by (nonlinear_arith);
        lemma_table_entry(level, 28, 28, 26);
        assert(raw_data_modules_spec(29) == 16411) by (nonlinear_arith);
        lemma_table_entry(level, 29, 28, 28);
    } else if v == 29 {
        assert(raw_data_modules_spec(29) == 16411) by (nonlinear_arith);
        lemma_table_entry(level, 29, 28, 28);
        assert(raw_data_modules_spec(30) == 17483) by (nonlinear_arith);
        lemma_table_entry(level, 30, 28, 29);
    } else if v == 30 {
        assert(raw_data_modules_spec(30) == 17483) by (nonlinear_arith);
        lemma_table_entry(level, 30, 28, 29);
        assert(raw_data_modules_spec(31) == 18587) by (nonlinear_arith);
        lemma_table_entry(level, 31, 28, 31);
    } else if v == 31 {
        assert(raw_data_modules_spec(31) == 18587) by (nonlinear_arith);
        lemma_table_entry(level, 31, 28, 31);
        assert(raw_data_modules_spec(32) == 19723) by (nonlinear_arith);
        lemma_table_entry(level, 32, 28, 33);
    } else if v == 32 {
        assert(raw_data_modules_spec(32) == 19723) by (nonlinear_arith);
        lemma_table_entry(level, 32, 28, 33);
        assert(raw_data_modules_spec(33) == 20891) by (nonlinear_arith);
        lemma_table_entry(level, 33, 28, 35);
    } else if v == 33 {
        assert(raw_data_modules_spec(33) == 20891) by (nonlinear_arith);
        lemma_table_entry(level, 33, 28, 35);
        assert(raw_data_modules_spec(34) == 22091) by (nonlinear_arith);
        lemma_table_entry(level, 34, 28, 37);
    } else if v == 34 {
        assert(raw_data_modules_spec(34) == 22091) by (nonlinear_arith);
        lemma_table_entry(level, 34, 28, 37);
        assert(raw_data_modules_spec(35) == 23008) by (nonlinear_arith);
        lemma_table_entry(level, 35, 28, 38);
    } else if v == 35 {
        assert(raw_data_modules_spec(35) == 23008) by (nonlinear_arith);
        lemma_table_entry(level, 35, 28, 38);
        assert(raw_data_modules_spec(36) == 24272) by (nonlinear_arith);
        lemma_table_entry(level, 36, 28, 40);
    } else if v == 36 {
        assert(raw_data_modules_spec(36) == 24272) by (nonlinear_arith);
        lemma_table_entry(level, 36, 28, 40);
        assert(raw_data_modules_spec(37) == 25568) by (nonlinear_arith);
        lemma_table_entry(level, 37, 28, 43);
    } else if v == 37 {
        assert(raw_data_modules_spec(37) == 25568) by (nonlinear_arith);
        lemma_table_entry(level, 37, 28, 43);
        assert(raw_data_modules_spec(38) == 26896) by (nonlinear_arith);
        lemma_table_entry(level, 38, 28, 45);
    } else if v == 38 {
        assert(raw_data_modules_spec(38) == 26896) by (nonlinear_arith);
        lemma_table_entry(level, 38, 28, 45);
        assert(raw_data_modules_spec(39) == 28256) by (nonlinear_arith);
        lemma_table_entry(level, 39, 28, 47);
    } else if v == 39 {
        assert(raw_data_modules_spec(39) == 28256) by (nonlinear_arith);
        lemma_table_entry(level, 39, 28, 47);
        assert(raw_data_modules_spec(40) == 29648) by (nonlinear_arith);
        lemma_table_entry(level, 40, 28, 49);
    } else if v == 40 {
        assert(raw_data_modules_spec(40) == 29648) by (nonlinear_arith);
        lemma_table_entry(level, 40, 28, 49);
    }
}

#[verifier::spinoff_prover]
proof fn lemma_version_facts_quartile(v: int)
    requires
        1 <= v <= 40,
    ensures
        ({
            let level = ErrorCorrection::Quartile;
            &&& 1 <= error_correction_blocks(level, v) <= 81
            &&& 7 <= ecc_codewords_per_block(level, v) <= 30
            &&& 208 <= raw_data_modules_spec(v) <= 29648
            &&& data_codeword_count_spec(v, level) >= 9 * error_correction_blocks(level, v)
            &&& 0 <= max_bytes_spec(v, level) < (if v < 10 { 256int } else { 65536 })
            &&& v < 40 ==> max_bytes_spec(v, level) < max_bytes_spec(v + 1, level)
        }),
{
    let level = ErrorCorrection::Quartile;
    if v == 1 {
        assert(raw_data_modules_spec(1) == 208) by (nonlinear_arith);
        lemma_table_entry(level, 1, 13, 1);
        assert(raw_data_modules_spec(2) == 359) by (nonlinear_arith);
        lemma_table_entry(level, 2, 22, 1);
    } else if v == 2 {
        assert(raw_data_modules_spec(2) == 359) by (nonlinear_arith);
        lemma_table_entry(level, 2, 22, 1);
        assert(raw_data_modules_spec(3) == 567) by (nonlinear_arith);
        lemma_table_entry(level, 3, 18, 2);
    } else if v == 3 {
        assert(raw_data_modules_spec(3) == 567) by (nonlinear_arith);
        lemma_table_entry(level, 3, 18, 2);
        assert(raw_data_modules_spec(4) == 807) by (nonlinear_arith);
        lemma_table_entry(level, 4, 26, 2);
    } else if v == 4 {
        assert(raw_data_modules_spec(4) == 807) by (nonlinear_arith);
        lemma_table_entry(level, 4, 26, 2);
        assert(raw_data_modules_spec(5) == 1079) by (nonlinear_arith);
        lemma_table_entry(level, 5, 18, 4);
    } else if v == 5 {
        assert(raw_data_modules_spec(5) == 1079) by (nonlinear_arith);
        lemma_table_entry(level, 5, 18, 4);
        assert(raw_data_modules_spec(6) == 1383) by (nonlinear_arith);
        lemma_table_entry(level, 6, 24, 4);
    } else if v == 6 {
        assert(raw_data_modules_spec(6) == 1383) by (nonlinear_arith);
        lemma_table_entry(level, 6, 24, 4);
        assert(raw_data_modules_spec(7) == 1568) by (nonlinear_arith);
        lemma_table_entry(level, 7, 18, 6);
    } else if v == 7 {
        assert(raw_data_modules_spec(7) == 1568) by (nonlinear_arith);
        lemma_table_entry(level, 7, 18, 6);
        assert(raw_data_modules_spec(8) == 1936) by (nonlinear_arith);
        lemma_table_entry(level, 8, 22, 6);
    } else if v == 8 {
        assert(raw_data_modules_spec(8) == 1936) by (nonlinear_arith);
        lemma_table_entry(level, 8, 22, 6);
        assert(raw_data_modules_spec(9) == 2336) by (nonlinear_arith);
        lemma_table_entry(level, 9, 20, 8);
    } else if v == 9 {
        assert(raw_data_modules_spec(9) == 2336) by (nonlinear_arith);
        lemma_table_entry(level, 9, 20, 8);
        assert(raw_data_modules_spec(10) == 2768) by (nonlinear_arith);
        lemma_table_entry(level, 10, 24, 8);
    } else if v == 10 {
        assert(raw_data_modules_spec(10) == 2768) by (nonlinear_arith);
        lemma_table_entry(level, 10, 24, 8);
        assert(raw_data_modules_spec(11) == 3232) by (nonlinear_arith);
        lemma_table_entry(level, 11, 28, 8);
    } else if v == 11 {
        assert(raw_data_modules_spec(11) == 3232) by (nonlinear_arith);
        lemma_table_entry(level, 11, 28, 8);
        assert(raw_data_modules_spec(12) == 3728) by (nonlinear_arith);
        lemma_table_entry(level, 12, 26, 10);
    } else if v == 12 {
        assert(raw_data_modules_spec(12) == 3728) by (nonlinear_arith);
        lemma_table_entry(level, 12, 26, 10);
        assert(raw_data_modules_spec(13) == 4256) by (nonlinear_arith);
        lemma_table_entry(level, 13, 24, 12);
    } else if v == 13 {
        assert(raw_data_modules_spec(13) == 4256) by (nonlinear_arith);
        lemma_table_entry(level, 13, 24, 12);
        assert(raw_data_modules_spec(14) == 4651) by (nonlinear_arith);
        lemma_table_entry(level, 14, 20, 16);
    } else if v == 14 {
        assert(raw_data_modules_spec(14) == 4651) by (nonlinear_arith);
        lemma_table_entry(level, 14, 20, 16);
        assert(raw_data_modules_spec(15) == 5243) by (nonlinear_arith);
        lemma_table_entry(level, 15, 30, 12);
    } else if v == 15 {
        assert(raw_data_modules_spec(15) == 5243) by (nonlinear_arith);
        lemma_table_entry(level, 15, 30, 12);
        assert(raw_data_modules_spec(16) == 5867) by (nonlinear_arith);
        lemma_table_entry(level, 16, 24, 17);
    } else if v == 16 {
        assert(raw_data_modules_spec(16) == 5867) by (nonlinear_arith);
        lemma_table_entry(level, 16, 24, 17);
        assert(raw_data_modules_spec(17) == 6523) by (nonlinear_arith);
        lemma_table_entry(level, 17, 28, 16);
    } else if v == 17 {
        assert(raw_data_modules_spec(17) == 6523) by (nonlinear_arith);
        lemma_table_entry(level, 17, 28, 16);
        assert(raw_data_modules_spec(18) == 7211) by (nonlinear_arith);
        lemma_table_entry(level, 18, 28, 18);
    } else if v == 18 {
        assert(raw_data_modules_spec(18) == 7211) by (nonlinear_arith);
        lemma_table_entry(level, 18, 28, 18);
        assert(raw_data_modules_spec(19) == 7931) by (nonlinear_arith);
        lemma_table_entry(level, 19, 26, 21);
    } else if v == 19 {
        assert(raw_data_modules_spec(19) == 7931) by (nonlinear_arith);
        lemma_table_entry(level, 19, 26, 21);
        assert(raw_data_modules_spec(20) == 8683) by (nonlinear_arith);
        lemma_table_entry(level, 20, 30, 20);
    } else if v == 20 {
        assert(raw_data_modules_spec(20) == 8683) by (nonlinear_arith);
        lemma_table_entry(level, 20, 30, 20);
        assert(raw_data_modules_spec(21) == 9252) by (nonlinear_arith);
        lemma_table_entry(level, 21, 28, 23);
    } else if v == 21 {
        assert(raw_data_modules_spec(21) == 9252) by (nonlinear_arith);
        lemma_table_entry(level, 21, 28, 23);
        assert(raw_data_modules_spec(22) == 10068) by (nonlinear_arith);
        lemma_table_entry(level, 22, 30, 23);
    } else if v == 22 {
        assert(raw_data_modules_spec(22) == 10068) by (nonlinear_arith);
        lemma_table_entry(level, 22, 30, 23);
        assert(raw_data_modules_spec(23) == 10916) by (nonlinear_arith);
        lemma_table_entry(level, 23, 30, 25);
    } else if v == 23 {
        assert(raw_data_modules_spec(23) == 10916) by (nonlinear_arith);
        lemma_table_entry(level, 23, 30, 25);
        assert(raw_data_modules_spec(24) == 11796) by (nonlinear_arith);
        lemma_table_entry(level, 24, 30, 27);
    } else if v == 24 {
        assert(raw_data_modules_spec(24) == 11796) by (nonlinear_arith);
        lemma_table_entry(level, 24, 30, 27);
        assert(raw_data_modules_spec(25) == 12708) by (nonlinear_arith);
        lemma_table_entry(level, 25, 30, 29);
    } else if v == 25 {
        assert(raw_data_modules_spec(25) == 12708) by (nonlinear_arith);
        lemma_table_entry(level, 25, 30, 29);
        assert(raw_data_modules_spec(26) == 13652) by (nonlinear_arith);
        lemma_table_entry(level, 26, 28, 34);
    } else if v == 26 {
        assert(raw_data_modules_spec(26) == 13652) by (nonlinear_arith);
        lemma_table_entry(level, 26, 28, 34);
        assert(raw_data_modules_spec(27) == 14628) by (nonlinear_arith);
        lemma_table_entry(level, 27, 30, 34);
    } else if v == 27 {
        assert(raw_data_modules_spec(27) == 14628) by (nonlinear_arith);
        lemma_table_entry(level, 27, 30, 34);
        assert(raw_data_modules_spec(28) == 15371) by (nonlinear_arith);
        lemma_table_entry(level, 28, 30, 35);
    } else if v == 28 {
        assert(raw_data_modules_spec(28) == 15371) by (nonlinear_arith);
        lemma_table_entry(level, 28, 30, 35);
        assert(raw_data_modules_spec(29) == 16411) by (nonlinear_arith);
        lemma_table_entry(level, 29, 30, 38);
    } else if v == 29 {
        assert(raw_data_modules_spec(29) == 16411) by (nonlinear_arith);
        lemma_table_entry(level, 29, 30, 38);
        assert(raw_data_modules_spec(30) == 17483) by (nonlinear_arith);
        lemma_table_entry(level, 30, 30, 40);
    } else if v == 30 {
        assert(raw_data_modules_spec(30) == 17483) by (nonlinear_arith);
        lemma_table_entry(level, 30, 30, 40);
        assert(raw_data_modules_spec(31) == 18587) by (nonlinear_arith);
        lemma_table_entry(level, 31, 30, 43);
    } else if v == 31 {
        assert(raw_data_modules_spec(31) == 18587) by (nonlinear_arith);
        lemma_table_entry(level, 31, 30, 43);
        assert(raw_data_modules_spec(32) == 19723) by (nonlinear_arith);
        lemma_table_entry(level, 32, 30, 45);
    } else if v == 32 {
        assert(raw_data_modules_spec(32) == 19723) by (nonlinear_arith);
        lemma_table_entry(level, 32, 30, 45);
        assert(raw_data_modules_spec(33) == 20891) by (nonlinear_arith);
        lemma_table_entry(level, 33, 30, 48);
    } else if v == 33 {
        assert(raw_data_modules_spec(33) == 20891) by (nonlinear_arith);
        lemma_table_entry(level, 33, 30, 48);
        assert(raw_data_modules_spec(34) == 22091) by (nonlinear_arith);
        lemma_table_entry(level, 34, 30, 51);
    } else if v == 34 {
        assert(raw_data_modules_spec(34) == 22091) by (nonlinear_arith);
        lemma_table_entry(level, 34, 30, 51);
        assert(raw_data_modules_spec(35) == 23008) by (nonlinear_arith);
        lemma_table_entry(level, 35, 30, 53);
    } else if v == 35 {
        assert(raw_data_modules_spec(35) == 23008) by (nonlinear_arith);
        lemma_table_entry(level, 35, 30, 53);
        assert(raw_data_modules_spec(36) == 24272) by (nonlinear_arith);
        lemma_table_entry(level, 36, 30, 56);
    } else if v == 36 {
        assert(raw_data_modules_spec(36) == 24272) by (nonlinear_arith);
        lemma_table_entry(level, 36, 30, 56);
        assert(raw_data_modules_spec(37) == 25568) by (nonlinear_arith);
        lemma_table_entry(level, 37, 30, 59);
    } else if v == 37 {
        assert(raw_data_modules_spec(37) == 25568) by (nonlinear_arith);
        lemma_table_entry(level, 37, 30, 59);
        assert(raw_data_modules_spec(38) == 26896) by (nonlinear_arith);
        lemma_table_entry(level, 38, 30, 62);
    } else if v == 38 {
        assert(raw_data_modules_spec(38) == 26896) by (nonlinear_arith);
        lemma_table_entry(level, 38, 30, 62);
        assert(raw_data_modules_spec(39) == 28256) by (nonlinear_arith);
        lemma_table_entry(level, 39, 30, 65);
    } else if v == 39 {
        assert(raw_data_modules_spec(39) == 28256) by (nonlinear_arith);
        lemma_table_entry(level, 39, 30, 65);
        assert(raw_data_modules_spec(40) == 29648) by (nonlinear_arith);
        lemma_table_entry(level, 40, 30, 68);
    } else if v == 40 {
        assert(raw_data_modules_spec(40) == 29648) by (nonlinear_arith);
        lemma_table_entry(level, 40, 30, 68);
    }
}

#[verifier::spinoff_prover]
proof fn lemma_version_facts_high(v: int)
    requires
        1 <= v <= 40,
    ensures
        ({
            let level = ErrorCorrection::High;
            &&& 1 <= error_correction_blocks(level, v) <= 81
            &&& 7 <= ecc_codewords_per_block(level, v) <= 30
            &&& 208 <= raw_data_modules_spec(v) <= 29648
            &&& data_codeword_count_spec(v, level) >= 9 * error_correction_blocks(level, v)
            &&& 0 <= max_bytes_spec(v, level) < (if v < 10 { 256int } else { 65536 })
            &&& v < 40 ==> max_bytes_spec(v, level) < max_bytes_spec(v + 1, level)
        }),
{
    let level = ErrorCorrection::High;
    if v == 1 {
        assert(raw_data_modules_spec(1) == 208) by (nonlinear_arith);
        lemma_table_entry(level, 1, 17, 1);
        assert(raw_data_modules_spec(2) == 359) by (nonlinear_arith);
        lemma_table_entry(level, 2, 28, 1);
    } else if v == 2 {
        assert(raw_data_modules_spec(2) == 359) by (nonlinear_arith);
        lemma_table_entry(level, 2, 28, 1);
        assert(raw_data_modules_spec(3) == 567) by (nonlinear_arith);
        lemma_table_entry(level, 3, 22, 2);
    } else if v == 3 {
        assert(raw_data_modules_spec(3) == 567) by (nonlinear_arith);
        lemma_table_entry(level, 3, 22, 2);
        assert(raw_data_modules_spec(4) == 807) by (nonlinear_arith);
        lemma_table_entry(level, 4, 16, 4);
    } else if v == 4 {
        assert(raw_data_modules_spec(4) == 807) by (nonlinear_arith);
        lemma_table_entry(level, 4, 16, 4);
        assert(raw_data_modules_spec(5) == 1079) by (nonlinear_arith);
        lemma_table_entry(level, 5, 22, 4);
    } else if v == 5 {
        assert(raw_data_modules_spec(5) == 1079) by (nonlinear_arith);
        lemma_table_entry(level, 5, 22, 4);
        assert(raw_data_modules_spec(6) == 1383) by (nonlinear_arith);
        lemma_table_entry(level, 6, 28, 4);
    } else if v == 6 {
        assert(raw_data_modules_spec(6) == 1383) by (nonlinear_arith);
        lemma_table_entry(level, 6, 28, 4);
        assert(raw_data_modules_spec(7) == 1568) by (nonlinear_arith);
        lemma_table_entry(level, 7, 26, 5);
    } else if v == 7 {
        assert(raw_data_modules_spec(7) == 1568) by (nonlinear_arith);
        lemma_table_entry(level, 7, 26, 5);
        assert(raw_data_modules_spec(8) == 1936) by (nonlinear_arith);
        lemma_table_entry(level, 8, 26, 6);
    } else if v == 8 {
        assert(raw_data_modules_spec(8) == 1936) by (nonlinear_arith);
        lemma_table_entry(level, 8, 26, 6);
        assert(raw_data_modules_spec(9) == 2336) by (nonlinear_arith);
        lemma_table_entry(level, 9, 24, 8);
    } else if v == 9 {
        assert(raw_data_modules_spec(9) == 2336) by (nonlinear_arith);
        lemma_table_entry(level, 9, 24, 8);
        assert(raw_data_modules_spec(10) == 2768) by (nonlinear_arith);
        lemma_table_entry(level, 10, 28, 8);
    } else if v == 10 {
        assert(raw_data_modules_spec(10) == 2768) by (nonlinear_arith);
        lemma_table_entry(level, 10, 28, 8);
        assert(raw_data_modules_spec(11) == 3232) by (nonlinear_arith);
        lemma_table_entry(level, 11, 24, 11);
    } else if v == 11 {
        assert(raw_data_modules_spec(11) == 3232) by (nonlinear_arith);
        lemma_table_entry(level, 11, 24, 11);
        assert(raw_data_modules_spec(12) == 3728) by (nonlinear_arith);
        lemma_table_entry(level, 12, 28, 11);
    } else if v == 12 {
        assert(raw_data_modules_spec(12) == 3728) by (nonlinear_arith);
        lemma_table_entry(level, 12, 28, 11);
        assert(raw_data_modules_spec(13) == 4256) by (nonlinear_arith);
        lemma_table_entry(level, 13, 22, 16);
    } else if v == 13 {
        assert(raw_data_modules_spec(13) == 4256) by (nonlinear_arith);
        lemma_table_entry(level, 13, 22, 16);
        assert(raw_data_modules_spec(14) == 4651) by (nonlinear_arith);
        lemma_table_entry(level, 14, 24, 16);
    } else if v == 14 {
        assert(raw_data_modules_spec(14) == 4651) by (nonlinear_arith);
        lemma_table_entry(level, 14, 24, 16);
        assert(raw_data_modules_spec(15) == 5243) by (nonlinear_arith);
        lemma_table_entry(level, 15, 24, 18);
    } else if v == 15 {
        assert(raw_data_modules_spec(15) == 5243) by (nonlinear_arith);
        lemma_table_entry(level, 15, 24, 18);
        assert(raw_data_modules_spec(16) == 5867) by (nonlinear_arith);
        lemma_table_entry(level, 16, 30, 16);
    } else if v == 16 {
        assert(raw_data_modules_spec(16) == 5867) by (nonlinear_arith);
        lemma_table_entry(level, 16, 30, 16);
        assert(raw_data_modules_spec(17) == 6523) by (nonlinear_arith);
        lemma_table_entry(level, 17, 28, 19);
    } else if v == 17 {
        assert(raw_data_modules_spec(17) == 6523) by (nonlinear_arith);
        lemma_table_entry(level, 17, 28, 19);
        assert(raw_data_modules_spec(18) == 7211) by (nonlinear_arith);
        lemma_table_entry(level, 18, 28, 21);
    } else if v == 18 {
        assert(raw_data_modules_spec(18) == 7211) by (nonlinear_arith);
        lemma_table_entry(level, 18, 28, 21);
        assert(raw_data_modules_spec(19) == 7931) by (nonlinear_arith);
        lemma_table_entry(level, 19, 26, 25);
    } else if v == 19 {
        assert(raw_data_modules_spec(19) == 7931) by (nonlinear_arith);
        lemma_table_entry(level, 19, 26, 25);
        assert(raw_data_modules_spec(20) == 8683) by (nonlinear_arith);
        lemma_table_entry(level, 20, 28, 25);
    } else if v == 20 {
        assert(raw_data_modules_spec(20) == 8683) by (nonlinear_arith);
        lemma_table_entry(level, 20, 28, 25);
        assert(raw_data_modules_spec(21) == 9252) by (nonlinear_arith);
        lemma_table_entry(level, 21, 30, 25);
    } else if v == 21 {
        assert(raw_data_modules_spec(21) == 9252) by (nonlinear_arith);
        lemma_table_entry(level, 21, 30, 25);
        assert(raw_data_modules_spec(22) == 10068) by (nonlinear_arith);
        lemma_table_entry(level, 22, 24, 34);
    } else if v == 22 {
        assert(raw_data_modules_spec(22) == 10068) by (nonlinear_arith);
        lemma_table_entry(level, 22, 24, 34);
        assert(raw_data_modules_spec(23) == 10916) by (nonlinear_arith);
        lemma_table_entry(level, 23, 30, 30);
    } else if v == 23 {
        assert(raw_data_modules_spec(23) == 10916) by (nonlinear_arith);
        lemma_table_entry(level, 23, 30, 30);
        assert(raw_data_modules_spec(24) == 11796) by (nonlinear_arith);
        lemma_table_entry(level, 24, 30, 32);
    } else if v == 24 {
        assert(raw_data_modules_spec(24) == 11796) by (nonlinear_arith);
        lemma_table_entry(level, 24, 30, 32);
        assert(raw_data_modules_spec(25) == 12708) by (nonlinear_arith);
        lemma_table_entry(level, 25, 30, 35);
    } else if v == 25 {
        assert(raw_data_modules_spec(25) == 12708) by (nonlinear_arith);
        lemma_table_entry(level, 25, 30, 35);
        assert(raw_data_modules_spec(26) == 13652) by (nonlinear_arith);
        lemma_table_entry(level, 26, 30, 37);
    } else if v == 26 {
        assert(raw_data_modules_spec(26) == 13652) by (nonlinear_arith);
        lemma_table_entry(level, 26, 30, 37);
        assert(raw_data_modules_spec(27) == 14628) by (nonlinear_arith);
        lemma_table_entry(level, 27, 30, 40);
    } else if v == 27 {
        assert(raw_data_modules_spec(27) == 14628) by (nonlinear_arith);
        lemma_table_entry(level, 27, 30, 40);
        assert(raw_data_modules_spec(28) == 15371) by (nonlinear_arith);
        lemma_table_entry(level, 28, 30, 42);
    } else if v == 28 {
        assert(raw_data_modules_spec(28) == 15371) by (nonlinear_arith);
        lemma_table_entry(level, 28, 30, 42);
        assert(raw_data_modules_spec(29) == 16411) by (nonlinear_arith);
        lemma_table_entry(level, 29, 30, 45);
    } else if v == 29 {
        assert(raw_data_modules_spec(29) == 16411) by (nonlinear_arith);
        lemma_table_entry(level, 29, 30, 45);
        assert(raw_data_modules_spec(30) == 17483) by (nonlinear_arith);
        lemma_table_entry(level, 30, 30, 48);
    } else if v == 30 {
        assert(raw_data_modules_spec(30) == 17483) by (nonlinear_arith);
        lemma_table_entry(level, 30, 30, 48);
        assert(raw_data_modules_spec(31) == 18587) by (nonlinear_arith);
        lemma_table_entry(level, 31, 30, 51);
    } else if v == 31 {
        assert(raw_data_modules_spec(31) == 18587) by (nonlinear_arith);
        lemma_table_entry(level, 31, 30, 51);
        assert(raw_data_modules_spec(32) == 19723) by (nonlinear_arith);
        lemma_table_entry(level, 32, 30, 54);
    } else if v == 32 {
        assert(raw_data_modules_spec(32) == 19723) by (nonlinear_arith);
        lemma_table_entry(level, 32, 30, 54);
        assert(raw_data_modules_spec(33) == 20891) by (nonlinear_arith);
        lemma_table_entry(level, 33, 30, 57);
    } else if v == 33 {
        assert(raw_data_modules_spec(33) == 20891) by (nonlinear_arith);
        lemma_table_entry(level, 33, 30, 57);
        assert(raw_data_modules_spec(34) == 22091) by (nonlinear_arith);
        lemma_table_entry(level, 34, 30, 60);
    } else if v == 34 {
        assert(raw_data_modules_spec(34) == 22091) by (nonlinear_arith);
        lemma_table_entry(level, 34, 30, 60);
        assert(raw_data_modules_spec(35) == 23008) by (nonlinear_arith);
        lemma_table_entry(level, 35, 30, 63);
    } else if v == 35 {
        assert(raw_data_modules_spec(35) == 23008) by (nonlinear_arith);
        lemma_table_entry(level, 35, 30, 63);
        assert(raw_data_modules_spec(36) == 24272) by (nonlinear_arith);
        lemma_table_entry(level, 36, 30, 66);
    } else if v == 36 {
        assert(raw_data_modules_spec(36) == 24272) by (nonlinear_arith);
        lemma_table_entry(level, 36, 30, 66);
        assert(raw_data_modules_spec(37) == 25568) by (nonlinear_arith);
        lemma_table_entry(level, 37, 30, 70);
    } else if v == 37 {
        assert(raw_data_modules_spec(37) == 25568) by (nonlinear_arith);
        lemma_table_entry(level, 37, 30, 70);
        assert(raw_data_modules_spec(38) == 26896) by (nonlinear_arith);
        lemma_table_entry(level, 38, 30, 74);
    } else if v == 38 {
        assert(raw_data_modules_spec(38) == 26896) by (nonlinear_arith);
        lemma_table_entry(level, 38, 30, 74);
        assert(raw_data_modules_spec(39) == 28256) by (nonlinear_arith);
        lemma_table_entry(level, 39, 30, 77);
    } else if v == 39 {
        assert(raw_data_modules_spec(39) == 28256) by (nonlinear_arith);
        lemma_table_entry(level, 39, 30, 77);
        assert(raw_data_modules_spec(40) == 29648) by (nonlinear_arith);
        lemma_table_entry(level, 40, 30, 81);
    } else if v == 40 {
        assert(raw_data_modules_spec(40) == 29648) by (nonlinear_arith);
        lemma_table_entry(level, 40, 30, 81);
    }
}

/// Facts about the capacity tables, checked version by version.
pub proof fn lemma_version_facts(v: int, level: ErrorCorrection)
    requires
        1 <= v <= 40,
    ensures
        1 <= error_correction_blocks(level, v) <= 81,
        7 <= ecc_codewords_per_block(level, v) <= 30,
        208 <= raw_data_modules_spec(v) <= 29648,
        data_codeword_count_spec(v, level) >= 9 * error_correction_blocks(level, v),
        0 <= max_bytes_spec(v, level) < (if v < 10 { 256int } else { 65536 }),
        v < 40 ==> max_bytes_spec(v, level) < max_bytes_spec(v + 1, level),
{
    match level {
        ErrorCorrection::Low => lemma_version_facts_low(v),
        ErrorCorrection::Medium => lemma_version_facts_medium(v),
        ErrorCorrection::Quartile => lemma_version_facts_quartile(v),
        ErrorCorrection::High => lemma_version_facts_high(v),
    }
}

/// Facts about the capacity, for every version at once.
pub proof fn lemma_capacity_monotonic(level: ErrorCorrection, v: int, w: int)
    requires
        1 <= v <= w <= 40,
    ensures
        max_bytes_spec(v, level) <= max_bytes_spec(w, level),
    decreases w - v,
{
    if v < w {
        lemma_version_facts(v, level);
        lemma_capacity_monotonic(level, v + 1, w);
    }
}

pub(crate) fn ecc_codewords(level: ErrorCorrection, version: u8) -> (r: u8)
    requires
        1 <= version <= 40,
    ensures
        r == ecc_codewords_per_block(level, version as int),
{
    match level {
        ErrorCorrection::Low => ECC_CODEWORDS_LOW[version as usize],
        ErrorCorrection::Medium => ECC_CODEWORDS_MEDIUM[version as usize],
        ErrorCorrection::Quartile => ECC_CODEWORDS_QUARTILE[version as usize],
        ErrorCorrection::High => ECC_CODEWORDS_HIGH[version as usize],
    }
}

pub(crate) fn ecc_blocks(level: ErrorCorrection, version: u8) -> (r: u8)
    requires
        1 <= version <= 40,
    ensures
        r == error_correction_blocks(level, version as int),
{
    match level {
        ErrorCorrection::Low => ECC_BLOCKS_LOW[version as usize],
        ErrorCorrection::Medium => ECC_BLOCKS_MEDIUM[version as usize],
        ErrorCorrection::Quartile => ECC_BLOCKS_QUARTILE[version as usize],
        ErrorCorrection::High => ECC_BLOCKS_HIGH[version as usize],
    }
}

/// Data modules of a version: everything except function patterns and
/// format/version information.
pub(crate) fn raw_data_modules(version: u8) -> (r: usize)
    requires
        1 <= version <= 40,
    ensures
        r == raw_data_modules_spec(version as int),
{
    proof {
        lemma_version_facts(version as int, ErrorCorrection::Low);
    }
    let v = version as usize;
    assert((16 * v + 128) * v + 64 <= 30784) by (nonlinear_arith)
        requires
            v <= 40,
    ;
    let mut result = (16 * v + 128) * v + 64;
    if v >= 2 {
        let alignments = v / 7 + 2;
        let factor = 25 * alignments - 10;
        assert(80 <= factor * alignments <= 1155) by (nonlinear_arith)
            requires
                40 <= factor <= 165,
                2 <= alignments <= 7,
        ;
        let correction = factor * alignments - 55;
        assert(raw_data_modules_spec(v as int) == result - correction - (if v >= 7 {
            36int
        } else {
            0
        }));
        result -= correction;
        if v >= 7 {
            result -= 36;
        }
    }
    result
}

pub(crate) fn data_codeword_count(version: u8, level: ErrorCorrection) -> (r: usize)
    requires
        1 <= version <= 40,
    ensures
        r == data_codeword_count_spec(version as int, level),
{
    proof {
        lemma_version_facts(version as int, level);
    }
    let ecc = ecc_codewords(level, version) as usize;
    let blocks = ecc_blocks(level, version) as usize;
    raw_data_modules(version) / 8 - ecc * blocks
}

pub(crate) fn count_bits(version: u8) -> (r: usize)
    ensures
        r == count_bits_spec(version as int),
{
    if version < 10 {
        8
    } else {
        16
    }
}

/// Longest byte-mode data that fits.
pub(crate) fn max_bytes(version: u8, level: ErrorCorrection) -> (r: usize)
    requires
        1 <= version <= 40,
    ensures
        r == max_bytes_spec(version as int, level),
{
    proof {
        lemma_version_facts(version as int, level);
    }
    (data_codeword_count(version, level) * 8 - 4 - count_bits(version)) / 8
}

/// The order of the levels: Low, Medium, Quartile, High.
pub open spec fn level_rank(level: ErrorCorrection) -> int {
    match level {
        ErrorCorrection::Low => 0,
        ErrorCorrection::Medium => 1,
        ErrorCorrection::Quartile => 2,
        ErrorCorrection::High => 3,
    }
}

#[verifier::spinoff_prover]
proof fn lemma_levels_ordered(v: int)
    requires
        1 <= v <= 40,
    ensures
        data_codeword_count_spec(v, ErrorCorrection::Low) >= data_codeword_count_spec(v, ErrorCorrection::Medium),
        data_codeword_count_spec(v, ErrorCorrection::Medium) >= data_codeword_count_spec(v, ErrorCorrection::Quartile),
        data_codeword_count_spec(v, ErrorCorrection::Quartile) >= data_codeword_count_spec(v, ErrorCorrection::High),
{
    if v == 1 {
        lemma_table_entry(ErrorCorrection::Low, 1, 7, 1);
        lemma_table_entry(ErrorCorrection::Medium, 1, 10, 1);
        lemma_table_entry(ErrorCorrection::Quartile, 1, 13, 1);
        lemma_table_entry(ErrorCorrection::High, 1, 17, 1);
    } else if v == 2 {
        lemma_table_entry(ErrorCorrection::Low, 2, 10, 1);
        lemma_table_entry(ErrorCorrection::Medium, 2, 16, 1);
        lemma_table_entry(ErrorCorrection::Quartile, 2, 22, 1);
        lemma_table_entry(ErrorCorrection::High, 2, 28, 1);
    } else if v == 3 {
        lemma_table_entry(ErrorCorrection::Low, 3, 15, 1);
        lemma_table_entry(ErrorCorrection::Medium, 3, 26, 1);
        lemma_table_entry(ErrorCorrection::Quartile, 3, 18, 2);
        lemma_table_entry(ErrorCorrection::High, 3, 22, 2);
    } else if v == 4 {
        lemma_table_entry(ErrorCorrection::Low, 4, 20, 1);
        lemma_table_entry(ErrorCorrection::Medium, 4, 18, 2);
        lemma_table_entry(ErrorCorrection::Quartile, 4, 26, 2);
        lemma_table_entry(ErrorCorrection::High, 4, 16, 4);
    } else if v == 5 {
        lemma_table_entry(ErrorCorrection::Low, 5, 26, 1);
        lemma_table_entry(ErrorCorrection::Medium, 5, 24, 2);
        lemma_table_entry(ErrorCorrection::Quartile, 5, 18, 4);
        lemma_table_entry(ErrorCorrection::High, 5, 22, 4);
    } else if v == 6 {
        lemma_table_entry(ErrorCorrection::Low, 6, 18, 2);
        lemma_table_entry(ErrorCorrection::Medium, 6, 16, 4);
        lemma_table_entry(ErrorCorrection::Quartile, 6, 24, 4);
        lemma_table_entry(ErrorCorrection::High, 6, 28, 4);
    } else if v == 7 {
        lemma_table_entry(ErrorCorrection::Low, 7, 20, 2);
        lemma_table_entry(ErrorCorrection::Medium, 7, 18, 4);
        lemma_table_entry(ErrorCorrection::Quartile, 7, 18, 6);
        lemma_table_entry(ErrorCorrection::High, 7, 26, 5);
    } else if v == 8 {
        lemma_table_entry(ErrorCorrection::Low, 8, 24, 2);
        lemma_table_entry(ErrorCorrection::Medium, 8, 22, 4);
        lemma_table_entry(ErrorCorrection::Quartile, 8, 22, 6);
        lemma_table_entry(ErrorCorrection::High, 8, 26, 6);
    } else if v == 9 {
        lemma_table_entry(ErrorCorrection::Low, 9, 30, 2);
        lemma_table_entry(ErrorCorrection::Medium, 9, 22, 5);
        lemma_table_entry(ErrorCorrection::Quartile, 9, 20, 8);
        lemma_table_entry(ErrorCorrection::High, 9, 24, 8);
    } else if v == 10 {
        lemma_table_entry(ErrorCorrection::Low, 10, 18, 4);
        lemma_table_entry(ErrorCorrection::Medium, 10, 26, 5);
        lemma_table_entry(ErrorCorrection::Quartile, 10, 24, 8);
        lemma_table_entry(ErrorCorrection::High, 10, 28, 8);
    } else if v == 11 {
        lemma_table_entry(ErrorCorrection::Low, 11, 20, 4);
        lemma_table_entry(ErrorCorrection::Medium, 11, 30, 5);
        lemma_table_entry(ErrorCorrection::Quartile, 11, 28, 8);
        lemma_table_entry(ErrorCorrection::High, 11, 24, 11);
    } else if v == 12 {
        lemma_table_entry(ErrorCorrection::Low, 12, 24, 4);
        lemma_table_entry(ErrorCorrection::Medium, 12, 22, 8);
        lemma_table_entry(ErrorCorrection::Quartile, 12, 26, 10);
        lemma_table_entry(ErrorCorrection::High, 12, 28, 11);
    } else if v == 13 {
        lemma_table_entry(ErrorCorrection::Low, 13, 26, 4);
        lemma_table_entry(ErrorCorrection::Medium, 13, 22, 9);
        lemma_table_entry(ErrorCorrection::Quartile, 13, 24, 12);
        lemma_table_entry(ErrorCorrection::High, 13, 22, 16);
    } else if v == 14 {
        lemma_table_entry(ErrorCorrection::Low, 14, 30, 4);
        lemma_table_entry(ErrorCorrection::Medium, 14, 24, 9);
        lemma_table_entry(ErrorCorrection::Quartile, 14, 20, 16);
        lemma_table_entry(ErrorCorrection::High, 14, 24, 16);
    } else if v == 15 {
        lemma_table_entry(ErrorCorrection::Low, 15, 22, 6);
        lemma_table_entry(ErrorCorrection::Medium, 15, 24, 10);
        lemma_table_entry(ErrorCorrection::Quartile, 15, 30, 12);
        lemma_table_entry(ErrorCorrection::High, 15, 24, 18);
    } else if v == 16 {
        lemma_table_entry(ErrorCorrection::Low, 16, 24, 6);
        lemma_table_entry(ErrorCorrection::Medium, 16, 28, 10);
        lemma_table_entry(ErrorCorrection::Quartile, 16, 24, 17);
        lemma_table_entry(ErrorCorrection::High, 16, 30, 16);
    } else if v == 17 {
        lemma_table_entry(ErrorCorrection::Low, 17, 28, 6);
        lemma_table_entry(ErrorCorrection::Medium, 17, 28, 11);
        lemma_table_entry(ErrorCorrection::Quartile, 17, 28, 16);
        lemma_table_entry(ErrorCorrection::High, 17, 28, 19);
    } else if v == 18 {
        lemma_table_entry(ErrorCorrection::Low, 18, 30, 6);
        lemma_table_entry(ErrorCorrection::Medium, 18, 26, 13);
        lemma_table_entry(ErrorCorrection::Quartile, 18, 28, 18);
        lemma_table_entry(ErrorCorrection::High, 18, 28, 21);
    } else if v == 19 {
        lemma_table_entry(ErrorCorrection::Low, 19, 28, 7);
        lemma_table_entry(ErrorCorrection::Medium, 19, 26, 14);
        lemma_table_entry(ErrorCorrection::Quartile, 19, 26, 21);
        lemma_table_entry(ErrorCorrection::High, 19, 26, 25);
    } else if v == 20 {
        lemma_table_entry(ErrorCorrection::Low, 20, 28, 8);
        lemma_table_entry(ErrorCorrection::Medium, 20, 26, 16);
        lemma_table_entry(ErrorCorrection::Quartile, 20, 30, 20);
        lemma_table_entry(ErrorCorrection::High, 20, 28, 25);
    } else if v == 21 {
        lemma_table_entry(ErrorCorrection::Low, 21, 28, 8);
        lemma_table_entry(ErrorCorrection::Medium, 21, 26, 17);
        lemma_table_entry(ErrorCorrection::Quartile, 21, 28, 23);
        lemma_table_entry(ErrorCorrection::High, 21, 30, 25);
    } else if v == 22 {
        lemma_table_entry(ErrorCorrection::Low, 22, 28, 9);
        lemma_table_entry(ErrorCorrection::Medium, 22, 28, 17);
        lemma_table_entry(ErrorCorrection::Quartile, 22, 30, 23);
        lemma_table_entry(ErrorCorrection::High, 22, 24, 34);
    } else if v == 23 {
        lemma_table_entry(ErrorCorrection::Low, 23, 30, 9);
        lemma_table_entry(ErrorCorrection::Medium, 23, 28, 18);
        lemma_table_entry(ErrorCorrection::Quartile, 23, 30, 25);
        lemma_table_entry(ErrorCorrection::High, 23, 30, 30);
    } else if v == 24 {
        lemma_table_entry(ErrorCorrection::Low, 24, 30, 10);
        lemma_table_entry(ErrorCorrection::Medium, 24, 28, 20);
        lemma_table_entry(ErrorCorrection::Quartile, 24, 30, 27);
        lemma_table_entry(ErrorCorrection::High, 24, 30, 32);
    } else if v == 25 {
        lemma_table_entry(ErrorCorrection::Low, 25, 26, 12);
        lemma_table_entry(ErrorCorrection::Medium, 25, 28, 21);
        lemma_table_entry(ErrorCorrection::Quartile, 25, 30, 29);
        lemma_table_entry(ErrorCorrection::High, 25, 30, 35);
    } else if v == 26 {
        lemma_table_entry(ErrorCorrection::Low, 26, 28, 12);
        lemma_table_entry(ErrorCorrection::Medium, 26, 28, 23);
        lemma_table_entry(ErrorCorrection::Quartile, 26, 28, 34);
        lemma_table_entry(ErrorCorrection::High, 26, 30, 37);
    } else if v == 27 {
        lemma_table_entry(ErrorCorrection::Low, 27, 30, 12);
        lemma_table_entry(ErrorCorrection::Medium, 27, 28, 25);
        lemma_table_entry(ErrorCorrection::Quartile, 27, 30, 34);
        lemma_table_entry(ErrorCorrection::High, 27, 30, 40);
    } else if v == 28 {
        lemma_table_entry(ErrorCorrection::Low, 28, 30, 13);
        lemma_table_entry(ErrorCorrection::Medium, 28, 28, 26);
        lemma_table_entry(ErrorCorrection::Quartile, 28, 30, 35);
        lemma_table_entry(ErrorCorrection::High, 28, 30, 42);
    } else if v == 29 {
        lemma_table_entry(ErrorCorrection::Low, 29, 30, 14);
        lemma_table_entry(ErrorCorrection::Medium, 29, 28, 28);
        lemma_table_entry(ErrorCorrection::Quartile, 29, 30, 38);
        lemma_table_entry(ErrorCorrection::High, 29, 30, 45);
    } else if v == 30 {
        lemma_table_entry(ErrorCorrection::Low, 30, 30, 15);
        lemma_table_entry(ErrorCorrection::Medium, 30, 28, 29);
        lemma_table_entry(ErrorCorrection::Quartile, 30, 30, 40);
        lemma_table_entry(ErrorCorrection::High, 30, 30, 48);
    } else if v == 31 {
        lemma_table_entry(ErrorCorrection::Low, 31, 30, 16);
        lemma_table_entry(ErrorCorrection::Medium, 31, 28, 31);
        lemma_table_entry(ErrorCorrection::Quartile, 31, 30, 43);
        lemma_table_entry(ErrorCorrection::High, 31, 30, 51);
    } else if v == 32 {
        lemma_table_entry(ErrorCorrection::Low, 32, 30, 17);
        lemma_table_entry(ErrorCorrection::Medium, 32, 28, 33);
        lemma_table_entry(ErrorCorrection::Quartile, 32, 30, 45);
        lemma_table_entry(ErrorCorrection::High, 32, 30, 54);
    } else if v == 33 {
        lemma_table_entry(ErrorCorrection::Low, 33, 30, 18);
        lemma_table_entry(ErrorCorrection::Medium, 33, 28, 35);
        lemma_table_entry(ErrorCorrection::Quartile, 33, 30, 48);
        lemma_table_entry(ErrorCorrection::High, 33, 30, 57);
    } else if v == 34 {
        lemma_table_entry(ErrorCorrection::Low, 34, 30, 19);
        lemma_table_entry(ErrorCorrection::Medium, 34, 28, 37);
        lemma_table_entry(ErrorCorrection::Quartile, 34, 30, 51);
        lemma_table_entry(ErrorCorrection::High, 34, 30, 60);
    } else if v == 35 {
        lemma_table_entry(ErrorCorrection::Low, 35, 30, 19);
        lemma_table_entry(ErrorCorrection::Medium, 35, 28, 38);
        lemma_table_entry(ErrorCorrection::Quartile, 35, 30, 53);
        lemma_table_entry(ErrorCorrection::High, 35, 30, 63);
    } else if v == 36 {
        lemma_table_entry(ErrorCorrection::Low, 36, 30, 20);
        lemma_table_entry(ErrorCorrection::Medium, 36, 28, 40);
        lemma_table_entry(ErrorCorrection::Quartile, 36, 30, 56);
        lemma_table_entry(ErrorCorrection::High, 36, 30, 66);
    } else if v == 37 {
        lemma_table_entry(ErrorCorrection::Low, 37, 30, 21);
        lemma_table_entry(ErrorCorrection::Medium, 37, 28, 43);
        lemma_table_entry(ErrorCorrection::Quartile, 37, 30, 59);
        lemma_table_entry(ErrorCorrection::High, 37, 30, 70);
    } else if v == 38 {
        lemma_table_entry(ErrorCorrection::Low, 38, 30, 22);
        lemma_table_entry(ErrorCorrection::Medium, 38, 28, 45);
        lemma_table_entry(ErrorCorrection::Quartile, 38, 30, 62);
        lemma_table_entry(ErrorCorrection::High, 38, 30, 74);
    } else if v == 39 {
        lemma_table_entry(ErrorCorrection::Low, 39, 30, 24);
        lemma_table_entry(ErrorCorrection::Medium, 39, 28, 47);
        lemma_table_entry(ErrorCorrection::Quartile, 39, 30, 65);
        lemma_table_entry(ErrorCorrection::High, 39, 30, 77);
    } else if v == 40 {
        lemma_table_entry(ErrorCorrection::Low, 40, 30, 25);
        lemma_table_entry(ErrorCorrection::Medium, 40, 28, 49);
        lemma_table_entry(ErrorCorrection::Quartile, 40, 30, 68);
        lemma_table_entry(ErrorCorrection::High, 40, 30, 81);
    }
}

/// A higher level holds no more data in the same version.
pub proof fn lemma_capacity_by_level(v: int, lower: ErrorCorrection, higher: ErrorCorrection)
    requires
        1 <= v <= 40,
        level_rank(lower) <= level_rank(higher),
    ensures
        max_bytes_spec(v, higher) <= max_bytes_spec(v, lower),
{
    lemma_levels_ordered(v);
}

/// The capacities that the documentation names: 17 bytes at Low and 7 at
/// High in version 1, 2953 at Low and 1273 at High in version 40.
pub proof fn lemma_known_capacities()
    ensures
        max_bytes_spec(1, ErrorCorrection::Low) == 17,
        max_bytes_spec(1, ErrorCorrection::High) == 7,
        max_bytes_spec(40, ErrorCorrection::Low) == 2953,
        max_bytes_spec(40, ErrorCorrection::High) == 1273,
{
    assert(raw_data_modules_spec(1) == 208) by (nonlinear_arith);
    assert(raw_data_modules_spec(40) == 29648) by (nonlinear_arith);
    lemma_table_entry(ErrorCorrection::Low, 1, 7, 1);
    lemma_table_entry(ErrorCorrection::High, 1, 17, 1);
    lemma_table_entry(ErrorCorrection::Low, 40, 30, 25);
    lemma_table_entry(ErrorCorrection::High, 40, 30, 81);
}

} // verus!
