//! Data codewords and Reed–Solomon error correction.

use vstd::arithmetic::div_mod::{lemma_fundamental_div_mod, lemma_mod_bound};
use vstd::arithmetic::power2::{lemma2_to64, lemma_pow2_pos, lemma_pow2_unfold, pow2};
use vstd::bits::lemma_u32_shr_is_div;
use vstd::prelude::*;

use super::ErrorCorrection;
use super::capacity::{
    count_bits, count_bits_spec, data_codeword_count, data_codeword_count_spec,
    ecc_blocks, ecc_codewords, ecc_codewords_per_block, error_correction_blocks, fits,
    lemma_version_facts, raw_data_modules, raw_data_modules_spec,
};

verus! {

/// Bit `i` of `value`, counting from the least significant bit.
pub open spec fn bit_of(value: int, i: int) -> bool {
    (value / pow2(i as nat) as int) % 2 == 1
}

/// The `count` low bits of `value`, most significant first.
pub open spec fn bits_msb_first(value: int, count: int) -> Seq<bool> {
    Seq::new(count as nat, |j: int| bit_of(value, count - 1 - j))
}

/// `n` zero bits.
pub open spec fn zero_bits(n: int) -> Seq<bool> {
    Seq::new(n as nat, |j: int| false)
}

/// The bits of `data`, byte after byte, each most significant bit first.
pub open spec fn byte_bits(data: Seq<u8>) -> Seq<bool>
    decreases data.len(),
{
    if data.len() == 0 {
        seq![]
    } else {
        byte_bits(data.drop_last()) + bits_msb_first(data.last() as int, 8)
    }
}

/// The byte-mode segment: mode indicator `0100`, the length, then the data.
pub open spec fn segment_bits(data: Seq<u8>, v: int) -> Seq<bool> {
    bits_msb_first(4, 4) + bits_msb_first(data.len() as int, count_bits_spec(v)) + byte_bits(data)
}

/// The segment followed by up to four terminator bits and the zero bits
/// that complete the last byte.
pub open spec fn aligned_bits(data: Seq<u8>, v: int, level: ErrorCorrection) -> Seq<bool> {
    let segment = segment_bits(data, v);
    let capacity = data_codeword_count_spec(v, level) * 8;
    let terminator = if capacity - segment.len() < 4 {
        capacity - segment.len()
    } else {
        4
    };
    let terminated = segment + zero_bits(terminator);
    terminated + zero_bits((8 - terminated.len() % 8) % 8)
}

/// The value of a bit string read most significant bit first.
pub open spec fn bits_value(bits: Seq<bool>) -> int
    decreases bits.len(),
{
    if bits.len() == 0 {
        0
    } else {
        2 * bits_value(bits.drop_last()) + (if bits.last() {
            1int
        } else {
            0
        })
    }
}

/// Groups of eight bits as bytes; a shorter rest is dropped.
pub open spec fn pack_bits(bits: Seq<bool>) -> Seq<u8> {
    Seq::new(bits.len() / 8, |k: int| bits_value(bits.subrange(8 * k, 8 * k + 8)) as u8)
}

/// The pad codewords `0xEC`, `0x11`, `0xEC`, … that fill the data capacity.
pub open spec fn pad_codewords(n: int) -> Seq<u8> {
    Seq::new(n as nat, |i: int| if i % 2 == 0 { 0xECu8 } else { 0x11u8 })
}

/// Mode, length, data, terminator and padding as codewords.
pub open spec fn data_codewords_spec(data: Seq<u8>, v: int, level: ErrorCorrection) -> Seq<u8> {
    let bits = aligned_bits(data, v, level);
    pack_bits(bits) + pad_codewords(data_codeword_count_spec(v, level) - bits.len() / 8)
}

proof fn lemma_byte_bits_len(data: Seq<u8>)
    ensures
        byte_bits(data).len() == 8 * data.len(),
    decreases data.len(),
{
    if data.len() > 0 {
        lemma_byte_bits_len(data.drop_last());
    }
}

proof fn lemma_bits_value_bound(bits: Seq<bool>)
    ensures
        0 <= bits_value(bits) < pow2(bits.len()),
    decreases bits.len(),
{
    if bits.len() > 0 {
        lemma_bits_value_bound(bits.drop_last());
        lemma_pow2_unfold(bits.len());
    } else {
        lemma2_to64();
    }
}

fn push_bits(bits: &mut Vec<bool>, value: u32, count: u32)
    requires
        count <= 32,
    ensures
        final(bits)@ == old(bits)@ + bits_msb_first(value as int, count as int),
{
    let ghost start = old(bits)@;
    let mut i = count;
    while i > 0
        invariant
            i <= count <= 32,
            bits@ == start + bits_msb_first(value as int, count as int).take(count - i),
        decreases i,
    {
        i -= 1;
        let shifted = value >> i;
        let bit = shifted & 1 == 1;
        proof {
            lemma_u32_shr_is_div(value, i);
            assert(bit == (shifted % 2 == 1)) by (bit_vector)
                requires
                    bit == (shifted & 1 == 1),
            ;
            assert(bits_msb_first(value as int, count as int).take(count - i) =~= bits_msb_first(
                value as int,
                count as int,
            ).take(count - i - 1).push(bit));
        }
        bits.push(bit);
    }
    assert(bits_msb_first(value as int, count as int).take(count as int) =~= bits_msb_first(
        value as int,
        count as int,
    ));
}

/// Packs a bit string whose length is a multiple of eight into bytes.
fn pack(bits: &Vec<bool>) -> (bytes: Vec<u8>)
    requires
        bits.len() % 8 == 0,
    ensures
        bytes@ == pack_bits(bits@),
{
    let mut bytes: Vec<u8> = Vec::new();
    let count = bits.len() / 8;
    let mut k: usize = 0;
    while k < count
        invariant
            count == bits.len() / 8,
            k <= count,
            bytes@ =~= pack_bits(bits@).take(k as int),
        decreases count - k,
    {
        let mut value: u32 = 0;
        let mut j: usize = 0;
        while j < 8
            invariant
                k < count,
                count == bits.len() / 8,
                j <= 8,
                value == bits_value(bits@.subrange(8 * k, 8 * k + j)),
            decreases 8 - j,
        {
            proof {
                lemma_bits_value_bound(bits@.subrange(8 * k, 8 * k + j));
                lemma2_to64();
                assert(pow2(j as nat) <= 128) by {
                    if j == 0 {} else if j == 1 {} else if j == 2 {} else if j == 3 {} else if j
                        == 4 {} else if j == 5 {} else if j == 6 {} else {}
                }
                assert(bits@.subrange(8 * k, 8 * k + j + 1).drop_last() =~= bits@.subrange(
                    8 * k,
                    8 * k + j,
                ));
            }
            value = 2 * value + if bits[8 * k + j] {
                1
            } else {
                0
            };
            j += 1;
        }
        proof {
            lemma_bits_value_bound(bits@.subrange(8 * k, 8 * k + 8));
            lemma2_to64();
        }
        bytes.push(value as u8);
        k += 1;
    }
    bytes
}

/// Mode, length, data, terminator and padding as codewords.
pub(crate) fn data_codewords(data: &[u8], version: u8, level: ErrorCorrection) -> (codewords: Vec<u8>)
    requires
        1 <= version <= 40,
        fits(data@.len() as int, version as int, level),
    ensures
        codewords@ == data_codewords_spec(data@, version as int, level),
        codewords@.len() == data_codeword_count_spec(version as int, level),
{
    proof {
        lemma_version_facts(version as int, level);
    }
    let count = data_codeword_count(version, level);
    let capacity = count * 8;
    let mut bits: Vec<bool> = Vec::new();
    push_bits(&mut bits, 0b0100, 4);
    push_bits(&mut bits, data.len() as u32, count_bits(version) as u32);
    let ghost header = bits@;
    let mut i: usize = 0;
    while i < data.len()
        invariant
            i <= data.len(),
            bits@ == header + byte_bits(data@.take(i as int)),
        decreases data.len() - i,
    {
        proof {
            assert(data@.take(i + 1).drop_last() =~= data@.take(i as int));
        }
        push_bits(&mut bits, data[i] as u32, 8);
        i += 1;
    }
    proof {
        assert(data@.take(data.len() as int) =~= data@);
        assert(bits@ =~= segment_bits(data@, version as int));
        lemma_byte_bits_len(data@);
    }
    let terminator = if capacity - bits.len() < 4 {
        capacity - bits.len()
    } else {
        4
    };
    push_bits(&mut bits, 0, terminator as u32);
    let to_byte = (8 - bits.len() % 8) % 8;
    push_bits(&mut bits, 0, to_byte as u32);
    proof {
        assert forall|j: int| 0 <= j < terminator implies !#[trigger] bit_of(0, j) by {
            lemma_pow2_pos(j as nat);
        }
        assert forall|j: int| 0 <= j < to_byte implies !#[trigger] bit_of(0, j) by {
            lemma_pow2_pos(j as nat);
        }
        assert(bits_msb_first(0, terminator as int) =~= zero_bits(terminator as int));
        assert(bits_msb_first(0, to_byte as int) =~= zero_bits(to_byte as int));
        assert(bits@ =~= aligned_bits(data@, version as int, level));
    }
    let mut codewords = pack(&bits);
    let ghost packed = codewords@;
    let mut pad: u8 = 0xEC;
    while codewords.len() < count
        invariant
            packed.len() <= codewords.len() <= count,
            codewords@ =~= packed + pad_codewords(codewords.len() - packed.len()),
            pad == (if (codewords.len() - packed.len()) % 2 == 0 {
                0xECu8
            } else {
                0x11u8
            }),
        decreases count - codewords.len(),
    {
        codewords.push(pad);
        pad = if pad == 0xEC {
            0x11
        } else {
            0xEC
        };
    }
    codewords
}

/// Multiplication by `x` in GF(2^8) modulo x^8 + x^4 + x^3 + x^2 + 1.
pub open spec fn xtime(a: u8) -> u8 {
    if a & 0x80 == 0 {
        a << 1u8
    } else {
        (a << 1u8) ^ 0x1Du8
    }
}

/// Horner's rule over the `k` highest bits of `y`: the product of `x`
/// and the polynomial those bits stand for, in GF(2^8).
pub open spec fn gf_multiply_high_bits(x: u8, y: u8, k: nat) -> u8
    decreases k,
{
    if k == 0 {
        0
    } else {
        let shifted = xtime(gf_multiply_high_bits(x, y, (k - 1) as nat));
        if (y >> (8 - k) as u8) & 1u8 == 1u8 {
            shifted ^ x
        } else {
            shifted
        }
    }
}

/// Multiplication in GF(2^8) modulo x^8 + x^4 + x^3 + x^2 + 1.
pub open spec fn gf_multiply_spec(x: u8, y: u8) -> u8 {
    gf_multiply_high_bits(x, y, 8)
}

/// Multiplication in GF(2^8) modulo x^8 + x^4 + x^3 + x^2 + 1.
fn gf_multiply(x: u8, y: u8) -> (z: u8)
    ensures
        z == gf_multiply_spec(x, y),
{
    let mut z: u8 = 0;
    let mut i: u8 = 8;
    while i > 0
        invariant
            i <= 8,
            z == gf_multiply_high_bits(x, y, (8 - i) as nat),
        decreases i,
    {
        i -= 1;
        let carry = z & 0x80 != 0;
        z = z << 1u8;
        if carry {
            z ^= 0x1D;
        }
        if (y >> i) & 1 == 1 {
            z ^= x;
        }
    }
    z
}

/// `alpha^i`, where `alpha` = 2 generates the multiplicative group.
pub open spec fn alpha_power(i: nat) -> u8
    decreases i,
{
    if i == 0 {
        1
    } else {
        gf_multiply_spec(alpha_power((i - 1) as nat), 2)
    }
}

/// Multiplies the monic polynomial whose other coefficients are `c`
/// (highest power first) by `(x - root)`, keeping the degree of `c`.
pub open spec fn divisor_step(c: Seq<u8>, root: u8) -> Seq<u8> {
    Seq::new(
        c.len(),
        |j: int|
            if j + 1 < c.len() {
                gf_multiply_spec(c[j], root) ^ c[j + 1]
            } else {
                gf_multiply_spec(c[j], root)
            },
    )
}

/// The generator after multiplying in the first `k` roots `alpha^0 … alpha^(k-1)`.
pub open spec fn divisor_after(degree: nat, k: nat) -> Seq<u8>
    decreases k,
{
    if k == 0 {
        Seq::new(degree, |j: int| if j == degree - 1 { 1u8 } else { 0u8 })
    } else {
        divisor_step(divisor_after(degree, (k - 1) as nat), alpha_power((k - 1) as nat))
    }
}

/// Coefficients of the Reed–Solomon generator polynomial of `degree`,
/// highest power first, without the leading 1.
pub open spec fn rs_divisor_spec(degree: nat) -> Seq<u8> {
    divisor_after(degree, degree)
}

proof fn lemma_divisor_len(degree: nat, k: nat)
    ensures
        divisor_after(degree, k).len() == degree,
    decreases k,
{
    if k > 0 {
        lemma_divisor_len(degree, (k - 1) as nat);
    }
}

/// Coefficients of the Reed–Solomon generator polynomial of `degree`,
/// highest power first, without the leading 1.
fn rs_divisor(degree: usize) -> (result: Vec<u8>)
    requires
        1 <= degree <= 255,
    ensures
        result@ == rs_divisor_spec(degree as nat),
{
    let mut result: Vec<u8> = Vec::new();
    while result.len() < degree
        invariant
            result.len() <= degree,
            forall|j: int| 0 <= j < result.len() ==> result@[j] == 0,
        decreases degree - result.len(),
    {
        result.push(0);
    }
    result.set(degree - 1, 1);
    assert(result@ =~= divisor_after(degree as nat, 0));
    let mut root: u8 = 1;
    let mut k: usize = 0;
    while k < degree
        invariant
            k <= degree,
            result.len() == degree,
            result@ == divisor_after(degree as nat, k as nat),
            root == alpha_power(k as nat),
        decreases degree - k,
    {
        let ghost before = result@;
        let mut j: usize = 0;
        while j < degree
            invariant
                j <= degree,
                result.len() == degree,
                before.len() == degree,
                forall|i: int| 0 <= i < j ==> result@[i] == divisor_step(before, root)[i],
                forall|i: int| j <= i < degree ==> result@[i] == before[i],
            decreases degree - j,
        {
            let mut value = gf_multiply(result[j], root);
            if j + 1 < degree {
                value ^= result[j + 1];
            }
            result.set(j, value);
            j += 1;
        }
        assert(result@ =~= divisor_step(before, root));
        root = gf_multiply(root, 0x02);
        k += 1;
    }
    result
}

/// One step of polynomial division: bring in `byte`, then subtract the
/// divisor scaled by the leading coefficient.
pub open spec fn remainder_step(r: Seq<u8>, byte: u8, divisor: Seq<u8>) -> Seq<u8> {
    let factor = byte ^ r[0];
    Seq::new(
        r.len(),
        |i: int|
            (if i + 1 < r.len() {
                r[i + 1]
            } else {
                0u8
            }) ^ gf_multiply_spec(divisor[i], factor),
    )
}

/// Remainder of `data` times x^n divided by the generator whose other
/// coefficients are `divisor` (n = its length), highest power first.
pub open spec fn rs_remainder_spec(data: Seq<u8>, divisor: Seq<u8>) -> Seq<u8>
    decreases data.len(),
{
    if data.len() == 0 {
        Seq::new(divisor.len(), |i: int| 0u8)
    } else {
        remainder_step(rs_remainder_spec(data.drop_last(), divisor), data.last(), divisor)
    }
}

proof fn lemma_rs_remainder_len(data: Seq<u8>, divisor: Seq<u8>)
    ensures
        rs_remainder_spec(data, divisor).len() == divisor.len(),
    decreases data.len(),
{
    if data.len() > 0 {
        lemma_rs_remainder_len(data.drop_last(), divisor);
    }
}

fn rs_remainder(data: &[u8], divisor: &Vec<u8>) -> (result: Vec<u8>)
    requires
        divisor.len() >= 1,
    ensures
        result@ == rs_remainder_spec(data@, divisor@),
{
    let n = divisor.len();
    let mut result: Vec<u8> = Vec::new();
    while result.len() < n
        invariant
            result.len() <= n == divisor.len(),
            forall|j: int| 0 <= j < result.len() ==> result@[j] == 0,
        decreases n - result.len(),
    {
        result.push(0);
    }
    assert(result@ =~= rs_remainder_spec(data@.take(0), divisor@));
    let mut k: usize = 0;
    while k < data.len()
        invariant
            k <= data.len(),
            n == divisor.len() >= 1,
            result@ == rs_remainder_spec(data@.take(k as int), divisor@),
        decreases data.len() - k,
    {
        proof {
            lemma_rs_remainder_len(data@.take(k as int), divisor@);
            assert(data@.take(k + 1).drop_last() =~= data@.take(k as int));
        }
        let factor = data[k] ^ result[0];
        let mut next: Vec<u8> = Vec::new();
        let mut i: usize = 0;
        while i < n
            invariant
                i <= n == divisor.len() == result.len(),
                k < data.len(),
                factor == data@[k as int] ^ result@[0],
                next.len() == i,
                forall|j: int|
                    0 <= j < i ==> next@[j] == remainder_step(result@, data@[k as int], divisor@)[j],
            decreases n - i,
        {
            let shifted = if i + 1 < n {
                result[i + 1]
            } else {
                0
            };
            next.push(shifted ^ gf_multiply(divisor[i], factor));
            i += 1;
        }
        assert(next@ =~= remainder_step(result@, data@[k as int], divisor@));
        result = next;
        k += 1;
    }
    assert(data@.take(data.len() as int) =~= data@);
    result
}

/// Codewords of a version in all: data and error correction.
pub open spec fn total_codewords(v: int) -> int {
    raw_data_modules_spec(v) / 8
}

/// Blocks that are one data codeword shorter than the others; they come first.
pub open spec fn short_block_count(v: int, level: ErrorCorrection) -> int {
    error_correction_blocks(level, v) - total_codewords(v) % error_correction_blocks(level, v)
}

/// Codewords in a short block, error correction included.
pub open spec fn short_block_len(v: int, level: ErrorCorrection) -> int {
    total_codewords(v) / error_correction_blocks(level, v)
}

/// Data codewords in block `i`.
pub open spec fn block_data_len(v: int, level: ErrorCorrection, i: int) -> int {
    short_block_len(v, level) - ecc_codewords_per_block(level, v) + (if i >= short_block_count(
        v,
        level,
    ) {
        1int
    } else {
        0
    })
}

/// Position of the first data codeword of block `i`.
pub open spec fn block_offset(v: int, level: ErrorCorrection, i: int) -> int {
    i * (short_block_len(v, level) - ecc_codewords_per_block(level, v)) + (if i > short_block_count(
        v,
        level,
    ) {
        i - short_block_count(v, level)
    } else {
        0
    })
}

/// The data codewords of block `i`.
pub open spec fn block_data(data: Seq<u8>, v: int, level: ErrorCorrection, i: int) -> Seq<u8> {
    data.subrange(block_offset(v, level, i), block_offset(v, level, i) + block_data_len(v, level, i))
}

/// Block `i` with its error correction appended; a short block gets a
/// placeholder after its data so that all blocks have the same length.
pub open spec fn block_with_ecc(data: Seq<u8>, v: int, level: ErrorCorrection, i: int) -> Seq<u8> {
    let d = block_data(data, v, level, i);
    d + (if i < short_block_count(v, level) {
        seq![0u8]
    } else {
        seq![]
    }) + rs_remainder_spec(d, rs_divisor_spec(ecc_codewords_per_block(level, v) as nat))
}

/// Column `c` of the first `j` blocks, without the placeholders.
pub open spec fn column_entries(data: Seq<u8>, v: int, level: ErrorCorrection, c: int, j: int) -> Seq<
    u8,
>
    decreases j,
{
    if j <= 0 {
        seq![]
    } else {
        column_entries(data, v, level, c, j - 1) + (if c != short_block_len(v, level)
            - ecc_codewords_per_block(level, v) || j - 1 >= short_block_count(v, level) {
            seq![block_with_ecc(data, v, level, j - 1)[c]]
        } else {
            seq![]
        })
    }
}

/// The first `c` columns of all blocks, read column by column.
pub open spec fn interleaved_columns(data: Seq<u8>, v: int, level: ErrorCorrection, c: int) -> Seq<
    u8,
>
    decreases c,
{
    if c <= 0 {
        seq![]
    } else {
        interleaved_columns(data, v, level, c - 1) + column_entries(
            data,
            v,
            level,
            c - 1,
            error_correction_blocks(level, v),
        )
    }
}

/// The data split into blocks, each followed by its error correction, and
/// interleaved.
pub open spec fn codewords_with_ecc(data: Seq<u8>, v: int, level: ErrorCorrection) -> Seq<u8> {
    interleaved_columns(data, v, level, short_block_len(v, level) + 1)
}

proof fn lemma_block_offsets(v: int, level: ErrorCorrection, i: int)
    requires
        1 <= v <= 40,
        0 <= i < error_correction_blocks(level, v),
    ensures
        block_offset(v, level, i) >= 0,
        block_data_len(v, level, i) >= 9,
        block_offset(v, level, i + 1) == block_offset(v, level, i) + block_data_len(v, level, i),
        block_offset(v, level, i + 1) <= data_codeword_count_spec(v, level),
        block_offset(v, level, 0) == 0,
        1 <= short_block_count(v, level) <= error_correction_blocks(level, v),
        0 <= short_block_len(v, level) - ecc_codewords_per_block(level, v),
        error_correction_blocks(level, v) * (short_block_len(v, level) - ecc_codewords_per_block(
            level,
            v,
        )) + (error_correction_blocks(level, v) - short_block_count(v, level))
            == data_codeword_count_spec(v, level),
{
    lemma_version_facts(v, level);
    let b = error_correction_blocks(level, v);
    let r = total_codewords(v);
    let e = ecc_codewords_per_block(level, v);
    let l = short_block_len(v, level);
    let s = short_block_count(v, level);
    lemma_fundamental_div_mod(r, b);
    lemma_mod_bound(r, b);
    assert(l >= e + 9) by (nonlinear_arith)
        requires
            r - e * b >= 9 * b,
            l == r / b,
            r == b * l + r % b,
            0 <= r % b < b,
            b >= 1,
    ;
    assert((i + 1) * (l - e) == i * (l - e) + (l - e)) by (nonlinear_arith);
    assert((i + 1) * (l - e) <= b * (l - e)) by (nonlinear_arith)
        requires
            i + 1 <= b,
            l - e >= 0,
    ;
    assert(i * (l - e) >= 0) by (nonlinear_arith)
        requires
            i >= 0,
            l - e >= 0,
    ;
    assert(b * (l - e) + (b - s) == data_codeword_count_spec(v, level)) by (nonlinear_arith)
        requires
            r == b * l + r % b,
            s == b - r % b,
            data_codeword_count_spec(v, level) == r - e * b,
    ;
}

/// Copies `data[start..end]`.
fn copy_range(data: &[u8], start: usize, end: usize) -> (out: Vec<u8>)
    requires
        start <= end <= data.len(),
    ensures
        out@ == data@.subrange(start as int, end as int),
{
    let mut out: Vec<u8> = Vec::new();
    let mut k = start;
    while k < end
        invariant
            start <= k <= end <= data.len(),
            out@ == data@.subrange(start as int, k as int),
        decreases end - k,
    {
        out.push(data[k]);
        k += 1;
        assert(out@ =~= data@.subrange(start as int, k as int));
    }
    out
}

/// Splits the data into blocks, appends each block's error correction and
/// interleaves the result.
pub(crate) fn add_error_correction(data: &[u8], version: u8, level: ErrorCorrection) -> (result: Vec<u8>)
    requires
        1 <= version <= 40,
        data.len() == data_codeword_count_spec(version as int, level),
    ensures
        result@ == codewords_with_ecc(data@, version as int, level),
        result@.len() <= 4096,
{
    let ghost v = version as int;
    proof {
        lemma_version_facts(v, level);
        lemma_block_offsets(v, level, 0);
    }
    let block_count = ecc_blocks(level, version) as usize;
    let ecc_length = ecc_codewords(level, version) as usize;
    let raw_codewords = raw_data_modules(version) / 8;
    let short_blocks = block_count - raw_codewords % block_count;
    let short_length = raw_codewords / block_count;
    let divisor = rs_divisor(ecc_length);
    proof {
        lemma_divisor_len(ecc_length as nat, ecc_length as nat);
    }

    let mut blocks: Vec<Vec<u8>> = Vec::new();
    let mut offset: usize = 0;
    let mut i: usize = 0;
    while i < block_count
        invariant
            1 <= v <= 40,
            block_count == error_correction_blocks(level, v),
            ecc_length == ecc_codewords_per_block(level, v),
            short_blocks == short_block_count(v, level),
            short_length == short_block_len(v, level),
            divisor@ == rs_divisor_spec(ecc_length as nat),
            divisor.len() == ecc_length >= 7,
            data.len() == data_codeword_count_spec(v, level),
            i <= block_count,
            offset == block_offset(v, level, i as int),
            blocks.len() == i,
            forall|k: int| 0 <= k < i ==> #[trigger] blocks@[k]@ == block_with_ecc(data@, v, level, k),
            forall|k: int| 0 <= k < i ==> #[trigger] blocks@[k]@.len() == short_length + 1,
            short_length >= ecc_length,
        decreases block_count - i,
    {
        proof {
            lemma_block_offsets(v, level, i as int);
        }
        let length = short_length - ecc_length + if i >= short_blocks {
            1
        } else {
            0
        };
        let mut block = copy_range(data, offset, offset + length);
        offset += length;
        let ecc = rs_remainder(&block, &divisor);
        proof {
            lemma_rs_remainder_len(block@, divisor@);
        }
        if i < short_blocks {
            block.push(0);
        }
        let mut k: usize = 0;
        let ghost head = block@;
        while k < ecc.len()
            invariant
                k <= ecc.len(),
                block@ == head + ecc@.take(k as int),
            decreases ecc.len() - k,
        {
            block.push(ecc[k]);
            k += 1;
            assert(block@ =~= head + ecc@.take(k as int));
        }
        assert(ecc@.take(ecc.len() as int) =~= ecc@);
        assert(block@ =~= block_with_ecc(data@, v, level, i as int));
        blocks.push(block);
        i += 1;
    }

    let mut result: Vec<u8> = Vec::new();
    let columns = short_length + 1;
    proof {
        lemma_fundamental_div_mod(raw_codewords as int, block_count as int);
        assert(columns * block_count <= 4096) by (nonlinear_arith)
            requires
                raw_codewords == block_count * short_length + raw_codewords % block_count,
                raw_codewords % block_count >= 0,
                raw_codewords <= 3706,
                block_count <= 81,
                columns == short_length + 1,
        ;
    }
    let mut c: usize = 0;
    while c < columns
        invariant
            1 <= v <= 40,
            block_count == error_correction_blocks(level, v) == blocks.len(),
            ecc_length == ecc_codewords_per_block(level, v),
            short_blocks == short_block_count(v, level),
            short_length == short_block_len(v, level),
            columns == short_length + 1,
            short_length >= ecc_length,
            c <= columns,
            forall|k: int| 0 <= k < block_count ==> #[trigger] blocks@[k]@ == block_with_ecc(data@, v, level, k),
            forall|k: int| 0 <= k < block_count ==> #[trigger] blocks@[k]@.len() == columns,
            result@ == interleaved_columns(data@, v, level, c as int),
            result@.len() <= c * block_count,
            columns * block_count <= 4096,
        decreases columns - c,
    {
        let mut j: usize = 0;
        while j < block_count
            invariant
                1 <= v <= 40,
                block_count == error_correction_blocks(level, v) == blocks.len(),
                ecc_length == ecc_codewords_per_block(level, v),
                short_blocks == short_block_count(v, level),
                short_length == short_block_len(v, level),
                columns == short_length + 1,
                short_length >= ecc_length,
                c < columns,
                j <= block_count,
                forall|k: int| 0 <= k < block_count ==> #[trigger] blocks@[k]@ == block_with_ecc(data@, v, level, k),
                forall|k: int| 0 <= k < block_count ==> #[trigger] blocks@[k]@.len() == columns,
                result@ == interleaved_columns(data@, v, level, c as int) + column_entries(
                    data@,
                    v,
                    level,
                    c as int,
                    j as int,
                ),
                result@.len() <= c * block_count + j,
                columns * block_count <= 4096,
            decreases block_count - j,
        {
            if c != short_length - ecc_length || j >= short_blocks {
                result.push(blocks[j][c]);
            }
            j += 1;
        }
        assert((c + 1) * block_count == c * block_count + block_count) by (nonlinear_arith);
        c += 1;
    }
    result
}


/// Where column `c` of the interleaved blocks starts, for `n` blocks of
/// `sd` data codewords of which the first `sc` lack the extra one.
spec fn column_start(n: int, sd: int, sc: int, c: int) -> int {
    if c <= sd {
        c * n
    } else {
        sd * n + (n - sc) + (c - sd - 1) * n
    }
}

/// Codewords in column `c` of the interleaved blocks.
spec fn column_len(n: int, sd: int, sc: int, c: int) -> int {
    if c == sd {
        n - sc
    } else {
        n
    }
}

proof fn lemma_column_start_step(n: int, sd: int, sc: int, c: int)
    requires
        0 <= c,
        0 <= sd,
        1 <= sc <= n,
    ensures
        column_start(n, sd, sc, c + 1) == column_start(n, sd, sc, c) + column_len(n, sd, sc, c),
{
    if c < sd {
        assert((c + 1) * n == c * n + n) by (nonlinear_arith);
    } else if c == sd {
        assert((c + 1 - sd - 1) * n == 0) by (nonlinear_arith)
            requires
                c == sd,
        ;
    } else {
        assert((c + 1 - sd - 1) * n == (c - sd - 1) * n + n) by (nonlinear_arith);
    }
}

proof fn lemma_column_entries(data: Seq<u8>, v: int, level: ErrorCorrection, c: int, j: int)
    requires
        0 <= j,
        0 <= short_block_count(v, level),
    ensures
        ({
            let sd = short_block_len(v, level) - ecc_codewords_per_block(level, v);
            let sc = short_block_count(v, level);
            let col = column_entries(data, v, level, c, j);
            &&& c != sd ==> col.len() == j
            &&& c != sd ==> forall|k: int|
                0 <= k < j ==> #[trigger] col[k] == block_with_ecc(data, v, level, k)[c]
            &&& c == sd ==> col.len() == (if j > sc {
                j - sc
            } else {
                0
            })
            &&& c == sd ==> forall|k: int|
                0 <= k < j - sc ==> #[trigger] col[k] == block_with_ecc(data, v, level, sc + k)[c]
        }),
    decreases j,
{
    if j > 0 {
        let sd = short_block_len(v, level) - ecc_codewords_per_block(level, v);
        let sc = short_block_count(v, level);
        lemma_column_entries(data, v, level, c, j - 1);
        let prev = column_entries(data, v, level, c, j - 1);
        let col = column_entries(data, v, level, c, j);
        if c != sd || j - 1 >= sc {
            assert(col == prev.push(block_with_ecc(data, v, level, j - 1)[c]));
        } else {
            assert(col == prev);
        }
        if c != sd {
            assert forall|k: int| 0 <= k < j implies #[trigger] col[k] == block_with_ecc(
                data,
                v,
                level,
                k,
            )[c] by {
                if k < j - 1 {
                    assert(col[k] == prev[k]);
                }
            }
        } else {
            assert forall|k: int| 0 <= k < j - sc implies #[trigger] col[k] == block_with_ecc(
                data,
                v,
                level,
                sc + k,
            )[c] by {
                if k < j - 1 - sc {
                    assert(col[k] == prev[k]);
                }
            }
        }
    }
}

proof fn lemma_interleaved_columns(data: Seq<u8>, v: int, level: ErrorCorrection, cc: int)
    requires
        1 <= v <= 40,
        0 <= cc,
    ensures
        ({
            let n = error_correction_blocks(level, v);
            let sd = short_block_len(v, level) - ecc_codewords_per_block(level, v);
            let sc = short_block_count(v, level);
            let out = interleaved_columns(data, v, level, cc);
            &&& out.len() == column_start(n, sd, sc, cc)
            &&& forall|c: int|
                0 <= c < cc ==> #[trigger] column_start(n, sd, sc, c) + column_len(n, sd, sc, c)
                    <= column_start(n, sd, sc, cc)
            &&& forall|c: int, k: int|
                0 <= c < cc && 0 <= k < column_len(n, sd, sc, c) ==> out[column_start(n, sd, sc, c)
                    + k] == #[trigger] column_entries(data, v, level, c, n)[k]
        }),
    decreases cc,
{
    let n = error_correction_blocks(level, v);
    let sd = short_block_len(v, level) - ecc_codewords_per_block(level, v);
    let sc = short_block_count(v, level);
    lemma_version_facts(v, level);
    lemma_block_offsets(v, level, 0);
    if cc == 0 {
        assert(column_start(n, sd, sc, 0) == 0) by (nonlinear_arith)
            requires
                sd >= 0,
        ;
    } else {
        lemma_interleaved_columns(data, v, level, cc - 1);
        lemma_column_entries(data, v, level, cc - 1, n);
        lemma_column_start_step(n, sd, sc, cc - 1);
        let prev = interleaved_columns(data, v, level, cc - 1);
        let col = column_entries(data, v, level, cc - 1, n);
        let out = interleaved_columns(data, v, level, cc);
        assert(out == prev + col);
        assert(col.len() == column_len(n, sd, sc, cc - 1));
        assert forall|c: int, k: int|
            0 <= c < cc && 0 <= k < column_len(n, sd, sc, c) implies out[column_start(n, sd, sc, c)
            + k] == #[trigger] column_entries(data, v, level, c, n)[k] by {
            if c < cc - 1 {
                assert(column_start(n, sd, sc, c) + column_len(n, sd, sc, c) <= column_start(
                    n,
                    sd,
                    sc,
                    cc - 1,
                ));
            }
        }
    }
}

/// Facts shared by the parts of the interleaving law.
proof fn lemma_interleaving_setup(data: Seq<u8>, v: int, level: ErrorCorrection)
    requires
        1 <= v <= 40,
        data.len() == data_codeword_count_spec(v, level),
    ensures
        ({
            let n = error_correction_blocks(level, v);
            let e = ecc_codewords_per_block(level, v);
            let sd = short_block_len(v, level) - e;
            let sc = short_block_count(v, level);
            let out = codewords_with_ecc(data, v, level);
            &&& 1 <= sc <= n
            &&& 0 <= sd
            &&& 7 <= e
            &&& out.len() == data.len() + n * e
            &&& data.len() == n * sd + (n - sc)
            &&& forall|c: int, k: int|
                0 <= c < sd + e + 1 && 0 <= k < column_len(n, sd, sc, c) ==> out[column_start(
                    n,
                    sd,
                    sc,
                    c,
                ) + k] == #[trigger] column_entries(data, v, level, c, n)[k]
        }),
{
    let n = error_correction_blocks(level, v);
    let e = ecc_codewords_per_block(level, v);
    let sd = short_block_len(v, level) - e;
    let sc = short_block_count(v, level);
    let out = codewords_with_ecc(data, v, level);
    lemma_version_facts(v, level);
    lemma_block_offsets(v, level, 0);
    lemma_interleaved_columns(data, v, level, sd + e + 1);
    lemma_column_start_step(n, sd, sc, sd);
    assert((sd + e + 1 - sd - 1) * n == e * n) by (nonlinear_arith);
    assert(n * sd == sd * n) by (nonlinear_arith);
    assert(out.len() == data.len() + n * e) by (nonlinear_arith)
        requires
            out.len() == sd * n + (n - sc) + e * n,
            data.len() == n * sd + (n - sc),
    ;
}

proof fn lemma_interleaving_data(data: Seq<u8>, v: int, level: ErrorCorrection)
    requires
        1 <= v <= 40,
        data.len() == data_codeword_count_spec(v, level),
    ensures
        ({
            let n = error_correction_blocks(level, v);
            let sd = short_block_len(v, level) - ecc_codewords_per_block(level, v);
            let sc = short_block_count(v, level);
            let out = codewords_with_ecc(data, v, level);
            &&& forall|c: int, j: int|
                0 <= c < sd && 0 <= j < n ==> #[trigger] out[c * n + j] == data[j * sd + (if j
                    > sc {
                    j - sc
                } else {
                    0
                }) + c]
            &&& forall|j: int|
                sc <= j < n ==> #[trigger] out[sd * n + (j - sc)] == data[j * sd + (j - sc) + sd]
        }),
{
    let n = error_correction_blocks(level, v);
    let sd = short_block_len(v, level) - ecc_codewords_per_block(level, v);
    let sc = short_block_count(v, level);
    let out = codewords_with_ecc(data, v, level);
    lemma_interleaving_setup(data, v, level);
    assert forall|c: int, j: int| 0 <= c < sd && 0 <= j < n implies #[trigger] out[c * n + j]
        == data[j * sd + (if j > sc {
        j - sc
    } else {
        0
    }) + c] by {
        lemma_block_offsets(v, level, j);
        lemma_column_entries(data, v, level, c, n);
        assert(column_entries(data, v, level, c, n)[j] == block_with_ecc(data, v, level, j)[c]);
        assert(out[column_start(n, sd, sc, c) + j] == column_entries(data, v, level, c, n)[j]);
    }
    assert forall|j: int| sc <= j < n implies #[trigger] out[sd * n + (j - sc)] == data[j * sd + (j
        - sc) + sd] by {
        lemma_block_offsets(v, level, j);
        lemma_column_entries(data, v, level, sd, n);
        assert(column_entries(data, v, level, sd, n)[j - sc] == block_with_ecc(
            data,
            v,
            level,
            sc + (j - sc),
        )[sd]);
        assert(out[column_start(n, sd, sc, sd) + (j - sc)] == column_entries(data, v, level, sd, n)[j
            - sc]);
    }
}

/// The data codewords of block `j` of `n`, when the first `sc` blocks hold
/// `sd` data codewords and the others one more, written out by position.
pub open spec fn data_of_block(data: Seq<u8>, n: int, sd: int, sc: int, j: int) -> Seq<u8> {
    let start = j * sd + (if j > sc {
        j - sc
    } else {
        0
    });
    data.subrange(
        start,
        start + sd + (if j >= sc {
            1int
        } else {
            0
        }),
    )
}

proof fn lemma_interleaving_ecc(data: Seq<u8>, v: int, level: ErrorCorrection)
    requires
        1 <= v <= 40,
        data.len() == data_codeword_count_spec(v, level),
    ensures
        ({
            let n = error_correction_blocks(level, v);
            let e = ecc_codewords_per_block(level, v);
            let sd = short_block_len(v, level) - e;
            let sc = short_block_count(v, level);
            let out = codewords_with_ecc(data, v, level);
            forall|t: int, j: int|
                0 <= t < e && 0 <= j < n ==> #[trigger] out[sd * n + (n - sc) + t * n + j]
                    == rs_remainder_spec(data_of_block(data, n, sd, sc, j), rs_divisor_spec(
                    e as nat,
                ))[t]
        }),
{
    let n = error_correction_blocks(level, v);
    let e = ecc_codewords_per_block(level, v);
    let sd = short_block_len(v, level) - e;
    let sc = short_block_count(v, level);
    let out = codewords_with_ecc(data, v, level);
    lemma_interleaving_setup(data, v, level);
    lemma_divisor_len(e as nat, e as nat);
    assert forall|t: int, j: int| 0 <= t < e && 0 <= j < n implies #[trigger] out[sd * n + (n - sc)
        + t * n + j] == rs_remainder_spec(data_of_block(data, n, sd, sc, j), rs_divisor_spec(
        e as nat,
    ))[t] by {
        let c = sd + 1 + t;
        lemma_block_offsets(v, level, j);
        lemma_column_entries(data, v, level, c, n);
        lemma_rs_remainder_len(block_data(data, v, level, j), rs_divisor_spec(e as nat));
        assert(block_data(data, v, level, j) == data_of_block(data, n, sd, sc, j));
        assert(column_entries(data, v, level, c, n)[j] == block_with_ecc(data, v, level, j)[c]);
        assert((c - sd - 1) * n == t * n);
        assert(column_start(n, sd, sc, c) == sd * n + (n - sc) + t * n);
        assert(out[column_start(n, sd, sc, c) + j] == column_entries(data, v, level, c, n)[j]);
    }
}

/// Interleaving, read back: the codewords handed to the symbol are, column
/// by column, the blocks in increasing order. With `n` blocks, `sd` data
/// codewords in the short blocks, of which there are `sc`, and `e` error
/// correction codewords per block:
/// data codeword `c` of block `j` (which starts at `j * sd`, plus one for
/// each long block before it) stands at `c * n + j`; the extra data codeword
/// of long block `j` stands at `sd * n + (j - sc)`; and error correction
/// codeword `t` of block `j`, the remainder of that block's data, stands at
/// `sd * n + (n - sc) + t * n + j`. Nothing else is in the result.
pub proof fn lemma_interleaving(data: Seq<u8>, v: int, level: ErrorCorrection)
    requires
        1 <= v <= 40,
        data.len() == data_codeword_count_spec(v, level),
    ensures
        ({
            let n = error_correction_blocks(level, v);
            let e = ecc_codewords_per_block(level, v);
            let sd = short_block_len(v, level) - e;
            let sc = short_block_count(v, level);
            let out = codewords_with_ecc(data, v, level);
            &&& out.len() == data.len() + n * e
            &&& forall|c: int, j: int|
                0 <= c < sd && 0 <= j < n ==> #[trigger] out[c * n + j] == data[j * sd + (if j
                    > sc {
                    j - sc
                } else {
                    0
                }) + c]
            &&& forall|j: int|
                sc <= j < n ==> #[trigger] out[sd * n + (j - sc)] == data[j * sd + (j - sc) + sd]
            &&& forall|t: int, j: int|
                0 <= t < e && 0 <= j < n ==> #[trigger] out[sd * n + (n - sc) + t * n + j]
                    == rs_remainder_spec(data_of_block(data, n, sd, sc, j), rs_divisor_spec(
                    e as nat,
                ))[t]
        }),
{
    lemma_interleaving_setup(data, v, level);
    lemma_interleaving_data(data, v, level);
    lemma_interleaving_ecc(data, v, level);
}

} // verus!
