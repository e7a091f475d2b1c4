//! The module matrix: function patterns, codeword placement, masks and
//! the penalty score that picks a mask.

use vstd::arithmetic::div_mod::{lemma_fundamental_div_mod, lemma_fundamental_div_mod_converse};
use vstd::prelude::*;

verus! {

/// Grid coordinates of index `i` in a `size` × `size` matrix stored row by row.
pub open spec fn column_of(i: int, size: int) -> int {
    i % size
}

/// Row of index `i` in a `size` × `size` matrix stored row by row.
pub open spec fn row_of(i: int, size: int) -> int {
    i / size
}

/// `grid` with every module of `region` set to `value`.
pub open spec fn paint(
    grid: Seq<bool>,
    size: int,
    region: spec_fn(int, int) -> bool,
    value: spec_fn(int, int) -> bool,
) -> Seq<bool> {
    Seq::new(
        grid.len(),
        |i: int|
            if region(column_of(i, size), row_of(i, size)) {
                value(column_of(i, size), row_of(i, size))
            } else {
                grid[i]
            },
    )
}

/// The single module (`x`, `y`).
pub open spec fn point(x: int, y: int) -> spec_fn(int, int) -> bool {
    |a: int, b: int| a == x && b == y
}

/// The same value everywhere.
pub open spec fn constant(value: bool) -> spec_fn(int, int) -> bool {
    |a: int, b: int| value
}

pub proof fn lemma_coordinates(i: int, size: int)
    requires
        size > 0,
        0 <= i,
    ensures
        i == row_of(i, size) * size + column_of(i, size),
        0 <= column_of(i, size) < size,
        0 <= row_of(i, size),
        i < size * size ==> row_of(i, size) < size,
{
    lemma_fundamental_div_mod(i, size);
    assert(size * (i / size) == (i / size) * size) by (nonlinear_arith);
    if i < size * size {
        let r = i / size;
        let c = i % size;
        assert(r < size) by (nonlinear_arith)
            requires
                i == r * size + c,
                0 <= c,
                i < size * size,
                size > 0,
        ;
    }
}

pub proof fn lemma_index(x: int, y: int, size: int)
    requires
        0 <= x < size,
        0 <= y < size,
    ensures
        0 <= y * size + x < size * size,
        column_of(y * size + x, size) == x,
        row_of(y * size + x, size) == y,
{
    assert(0 <= y * size + x < size * size) by (nonlinear_arith)
        requires
            0 <= x < size,
            0 <= y < size,
    ;
    lemma_fundamental_div_mod_converse(y * size + x, size, y, x);
}

/// Painting two regions with the same value paints their union.
pub proof fn lemma_paint_union(
    grid: Seq<bool>,
    size: int,
    first: spec_fn(int, int) -> bool,
    second: spec_fn(int, int) -> bool,
    value: spec_fn(int, int) -> bool,
)
    ensures
        paint(paint(grid, size, first, value), size, second, value) == paint(
            grid,
            size,
            |a: int, b: int| first(a, b) || second(a, b),
            value,
        ),
{
    assert(paint(paint(grid, size, first, value), size, second, value) =~= paint(
        grid,
        size,
        |a: int, b: int| first(a, b) || second(a, b),
        value,
    ));
}

/// Only the modules inside the grid matter to a painting.
pub proof fn lemma_paint_same_on_grid(
    grid: Seq<bool>,
    size: int,
    first: spec_fn(int, int) -> bool,
    second: spec_fn(int, int) -> bool,
    value1: spec_fn(int, int) -> bool,
    value2: spec_fn(int, int) -> bool,
)
    requires
        size > 0,
        grid.len() == size * size,
        forall|a: int, b: int|
            0 <= a < size && 0 <= b < size ==> #[trigger] first(a, b) == #[trigger] second(a, b),
        forall|a: int, b: int|
            0 <= a < size && 0 <= b < size && first(a, b) ==> #[trigger] value1(a, b)
                == #[trigger] value2(a, b),
    ensures
        paint(grid, size, first, value1) == paint(grid, size, second, value2),
{
    assert forall|i: int| 0 <= i < grid.len() implies paint(grid, size, first, value1)[i] == paint(
        grid,
        size,
        second,
        value2,
    )[i] by {
        lemma_coordinates(i, size);
    }
    assert(paint(grid, size, first, value1) =~= paint(grid, size, second, value2));
}

/// Maximum of the horizontal and vertical distance.
pub open spec fn chebyshev(dx: int, dy: int) -> int {
    let ax = if dx < 0 {
        -dx
    } else {
        dx
    };
    let ay = if dy < 0 {
        -dy
    } else {
        dy
    };
    if ax < ay {
        ay
    } else {
        ax
    }
}

/// A finder pattern with its light separator, centered on (`cx`, `cy`).
pub open spec fn finder_region(cx: int, cy: int) -> spec_fn(int, int) -> bool {
    |a: int, b: int| cx - 4 <= a <= cx + 4 && cy - 4 <= b <= cy + 4
}

/// Dark rings at distance 0, 1 and 3 from the center.
pub open spec fn finder_value(cx: int, cy: int) -> spec_fn(int, int) -> bool {
    |a: int, b: int| chebyshev(a - cx, b - cy) != 2 && chebyshev(a - cx, b - cy) != 4
}

/// An alignment pattern centered on (`cx`, `cy`).
pub open spec fn alignment_region(cx: int, cy: int) -> spec_fn(int, int) -> bool {
    |a: int, b: int| cx - 2 <= a <= cx + 2 && cy - 2 <= b <= cy + 2
}

/// Dark center and dark outer ring.
pub open spec fn alignment_value(cx: int, cy: int) -> spec_fn(int, int) -> bool {
    |a: int, b: int| chebyshev(a - cx, b - cy) != 1
}

/// The timing patterns: row 6 and column 6.
pub open spec fn timing_region() -> spec_fn(int, int) -> bool {
    |a: int, b: int| a == 6 || b == 6
}

/// Alternating modules, dark at even positions.
pub open spec fn timing_value() -> spec_fn(int, int) -> bool {
    |a: int, b: int|
        if a == 6 {
            b % 2 == 0
        } else {
            a % 2 == 0
        }
}

/// Whether bit `index` of `value` is set.
pub open spec fn spec_bit(value: u32, index: u32) -> bool {
    (value >> index) & 1u32 == 1u32
}

fn bit(value: u32, index: u32) -> (b: bool)
    requires
        index < 32,
    ensures
        b == spec_bit(value, index),
{
    (value >> index) & 1 == 1
}

/// Number of alignment patterns along one axis (version 2 and up).
pub open spec fn alignment_count(v: int) -> int {
    v / 7 + 2
}

/// Distance between alignment patterns after the first (version 2 and up).
pub open spec fn alignment_step(v: int) -> int {
    let count = alignment_count(v);
    if v == 32 {
        26
    } else {
        (v * 4 + count * 2 + 1) / (count * 2 - 2) * 2
    }
}

/// Centers of the alignment patterns along one axis.
pub open spec fn alignment_positions_spec(v: int) -> Seq<int> {
    if v == 1 {
        seq![]
    } else {
        let count = alignment_count(v);
        Seq::new(
            count as nat,
            |k: int|
                if k == 0 {
                    6
                } else {
                    v * 4 + 17 - 7 - (count - 1 - k) * alignment_step(v)
                },
        )
    }
}

proof fn lemma_alignment_step(v: int)
    requires
        2 <= v <= 40,
    ensures
        (alignment_count(v) - 2) * alignment_step(v) <= 4 * v + 4,
        alignment_step(v) >= 12,
{
    if v == 2 {
        assert(alignment_step(2) == 12 && (2 - 2) * 12 <= 4 * 2 + 4) by (nonlinear_arith);
    } else if v == 3 {
        assert(alignment_step(3) == 16 && (2 - 2) * 16 <= 4 * 3 + 4) by (nonlinear_arith);
    } else if v == 4 {
        assert(alignment_step(4) == 20 && (2 - 2) * 20 <= 4 * 4 + 4) by (nonlinear_arith);
    } else if v == 5 {
        assert(alignment_step(5) == 24 && (2 - 2) * 24 <= 4 * 5 + 4) by (nonlinear_arith);
    } else if v == 6 {
        assert(alignment_step(6) == 28 && (2 - 2) * 28 <= 4 * 6 + 4) by (nonlinear_arith);
    } else if v == 7 {
        assert(alignment_step(7) == 16 && (3 - 2) * 16 <= 4 * 7 + 4) by (nonlinear_arith);
    } else if v == 8 {
        assert(alignment_step(8) == 18 && (3 - 2) * 18 <= 4 * 8 + 4) by (nonlinear_arith);
    } else if v == 9 {
        assert(alignment_step(9) == 20 && (3 - 2) * 20 <= 4 * 9 + 4) by (nonlinear_arith);
    } else if v == 10 {
        assert(alignment_step(10) == 22 && (3 - 2) * 22 <= 4 * 10 + 4) by (nonlinear_arith);
    } else if v == 11 {
        assert(alignment_step(11) == 24 && (3 - 2) * 24 <= 4 * 11 + 4) by (nonlinear_arith);
    } else if v == 12 {
        assert(alignment_step(12) == 26 && (3 - 2) * 26 <= 4 * 12 + 4) by (nonlinear_arith);
    } else if v == 13 {
        assert(alignment_step(13) == 28 && (3 - 2) * 28 <= 4 * 13 + 4) by (nonlinear_arith);
    } else if v == 14 {
        assert(alignment_step(14) == 20 && (4 - 2) * 20 <= 4 * 14 + 4) by (nonlinear_arith);
    } else if v == 15 {
        assert(alignment_step(15) == 22 && (4 - 2) * 22 <= 4 * 15 + 4) by (nonlinear_arith);
    } else if v == 16 {
        assert(alignment_step(16) == 24 && (4 - 2) * 24 <= 4 * 16 + 4) by (nonlinear_arith);
    } else if v == 17 {
        assert(alignment_step(17) == 24 && (4 - 2) * 24 <= 4 * 17 + 4) by (nonlinear_arith);
    } else if v == 18 {
        assert(alignment_step(18) == 26 && (4 - 2) * 26 <= 4 * 18 + 4) by (nonlinear_arith);
    } else if v == 19 {
        assert(alignment_step(19) == 28 && (4 - 2) * 28 <= 4 * 19 + 4) by (nonlinear_arith);
    } else if v == 20 {
        assert(alignment_step(20) == 28 && (4 - 2) * 28 <= 4 * 20 + 4) by (nonlinear_arith);
    } else if v == 21 {
        assert(alignment_step(21) == 22 && (5 - 2) * 22 <= 4 * 21 + 4) by (nonlinear_arith);
    } else if v == 22 {
        assert(alignment_step(22) == 24 && (5 - 2) * 24 <= 4 * 22 + 4) by (nonlinear_arith);
    } else if v == 23 {
        assert(alignment_step(23) == 24 && (5 - 2) * 24 <= 4 * 23 + 4) by (nonlinear_arith);
    } else if v == 24 {
        assert(alignment_step(24) == 26 && (5 - 2) * 26 <= 4 * 24 + 4) by (nonlinear_arith);
    } else if v == 25 {
        assert(alignment_step(25) == 26 && (5 - 2) * 26 <= 4 * 25 + 4) by (nonlinear_arith);
    } else if v == 26 {
        assert(alignment_step(26) == 28 && (5 - 2) * 28 <= 4 * 26 + 4) by (nonlinear_arith);
    } else if v == 27 {
        assert(alignment_step(27) == 28 && (5 - 2) * 28 <= 4 * 27 + 4) by (nonlinear_arith);
    } else if v == 28 {
        assert(alignment_step(28) == 24 && (6 - 2) * 24 <= 4 * 28 + 4) by (nonlinear_arith);
    } else if v == 29 {
        assert(alignment_step(29) == 24 && (6 - 2) * 24 <= 4 * 29 + 4) by (nonlinear_arith);
    } else if v == 30 {
        assert(alignment_step(30) == 26 && (6 - 2) * 26 <= 4 * 30 + 4) by (nonlinear_arith);
    } else if v == 31 {
        assert(alignment_step(31) == 26 && (6 - 2) * 26 <= 4 * 31 + 4) by (nonlinear_arith);
    } else if v == 32 {
        assert(alignment_step(32) == 26 && (6 - 2) * 26 <= 4 * 32 + 4) by (nonlinear_arith);
    } else if v == 33 {
        assert(alignment_step(33) == 28 && (6 - 2) * 28 <= 4 * 33 + 4) by (nonlinear_arith);
    } else if v == 34 {
        assert(alignment_step(34) == 28 && (6 - 2) * 28 <= 4 * 34 + 4) by (nonlinear_arith);
    } else if v == 35 {
        assert(alignment_step(35) == 24 && (7 - 2) * 24 <= 4 * 35 + 4) by (nonlinear_arith);
    } else if v == 36 {
        assert(alignment_step(36) == 26 && (7 - 2) * 26 <= 4 * 36 + 4) by (nonlinear_arith);
    } else if v == 37 {
        assert(alignment_step(37) == 26 && (7 - 2) * 26 <= 4 * 37 + 4) by (nonlinear_arith);
    } else if v == 38 {
        assert(alignment_step(38) == 26 && (7 - 2) * 26 <= 4 * 38 + 4) by (nonlinear_arith);
    } else if v == 39 {
        assert(alignment_step(39) == 28 && (7 - 2) * 28 <= 4 * 39 + 4) by (nonlinear_arith);
    } else if v == 40 {
        assert(alignment_step(40) == 28 && (7 - 2) * 28 <= 4 * 40 + 4) by (nonlinear_arith);
    }
}

pub proof fn lemma_alignment_positions(v: int)
    requires
        1 <= v <= 40,
    ensures
        forall|k: int|
            0 <= k < alignment_positions_spec(v).len() ==> 6 <= #[trigger] alignment_positions_spec(
                v,
            )[k] <= 4 * v + 10,
        v == 1 ==> alignment_positions_spec(v).len() == 0,
        v >= 2 ==> alignment_positions_spec(v).len() == alignment_count(v),
        alignment_positions_spec(v).len() <= 7,
{
    if v >= 2 {
        lemma_alignment_step(v);
        let count = alignment_count(v);
        let step = alignment_step(v);
        assert forall|k: int| 0 <= k < count implies 6 <= #[trigger] alignment_positions_spec(
            v,
        )[k] <= 4 * v + 10 by {
            if k >= 1 {
                assert((count - 1 - k) * step <= (count - 2) * step) by (nonlinear_arith)
                    requires
                        1 <= k,
                        step >= 0,
                ;
                assert((count - 1 - k) * step >= 0) by (nonlinear_arith)
                    requires
                        k < count,
                        step >= 0,
                ;
            }
        }
    }
}

/// Centers of the alignment patterns along one axis.
fn alignment_positions(version: u8) -> (result: Vec<usize>)
    requires
        1 <= version <= 40,
    ensures
        result@.len() == alignment_positions_spec(version as int).len(),
        forall|k: int|
            0 <= k < result@.len() ==> result@[k] as int == alignment_positions_spec(
                version as int,
            )[k],
{
    if version == 1 {
        return Vec::new();
    }
    let ghost v = version as int;
    proof {
        lemma_alignment_step(v);
        lemma_alignment_positions(v);
    }
    let v = version as usize;
    let count = v / 7 + 2;
    let step = if v == 32 {
        26
    } else {
        (v * 4 + count * 2 + 1) / (count * 2 - 2) * 2
    };
    let size = v * 4 + 17;
    let mut result: Vec<usize> = Vec::new();
    result.push(6);
    let mut position = size - 7;
    let mut t: usize = 0;
    while t < count - 1
        invariant
            2 <= v <= 40,
            count == alignment_count(v as int),
            step == alignment_step(v as int),
            size == v * 4 + 17,
            t <= count - 1,
            t < count - 1 ==> position == size - 7 - t * step,
            result@.len() == t + 1,
            result@[0] == 6,
            forall|k: int|
                1 <= k <= t ==> result@[k] as int == size - 7 - (t - k) * step,
            forall|k: int|
                0 <= k < alignment_positions_spec(v as int).len() ==> 6
                    <= #[trigger] alignment_positions_spec(v as int)[k] <= 4 * v + 10,
        decreases count - 1 - t,
    {
        let ghost before = result@;
        result.insert(1, position);
        assert forall|k: int| 1 <= k <= t + 1 implies result@[k] as int == size - 7 - (t + 1 - k)
            * step by {
            if k >= 2 {
                assert(result@[k] == before[k - 1]);
                assert((t + 1 - k) * step == (t - (k - 1)) * step);
            } else {
                assert((t + 1 - 1) * step == t * step);
            }
        }
        if t + 1 < count - 1 {
            assert(alignment_positions_spec(v as int)[count - 2 - t] == size - 7 - (t + 1) * step);
            assert((t + 1) * step == t * step + step) by (nonlinear_arith);
            position -= step;
        }
        t += 1;
    }
    assert(result@.len() == alignment_positions_spec(v as int).len());
    assert forall|k: int| 0 <= k < result@.len() implies result@[k] as int
        == alignment_positions_spec(v as int)[k] by {
        if k >= 1 {
            assert((count - 1 - k) * step == (t - k) * step);
        }
    }
    result
}


/// Either the pattern's own values, or `true` everywhere for the
/// function-module flags.
pub open spec fn layer_value(flags: bool, value: spec_fn(int, int) -> bool) -> spec_fn(
    int,
    int,
) -> bool {
    if flags {
        constant(true)
    } else {
        value
    }
}

/// Painting `region` with `value` in one more module than `before` covered.
pub proof fn lemma_paint_extend(
    start: Seq<bool>,
    size: int,
    before: spec_fn(int, int) -> bool,
    after: spec_fn(int, int) -> bool,
    value: spec_fn(int, int) -> bool,
    x: int,
    y: int,
    dark: bool,
)
    requires
        size > 0,
        start.len() == size * size,
        value(x, y) == dark,
        forall|a: int, b: int|
            0 <= a < size && 0 <= b < size ==> #[trigger] after(a, b) == (before(a, b) || (a == x
                && b == y)),
    ensures
        paint(paint(start, size, before, value), size, point(x, y), constant(dark)) == paint(
            start,
            size,
            after,
            value,
        ),
{
    lemma_paint_same_on_grid(
        paint(start, size, before, value),
        size,
        point(x, y),
        point(x, y),
        constant(dark),
        value,
    );
    lemma_paint_union(start, size, before, point(x, y), value);
    lemma_paint_same_on_grid(
        start,
        size,
        |a: int, b: int| before(a, b) || point(x, y)(a, b),
        after,
        value,
        value,
    );
}

/// A step that paints nothing inside the grid.
pub proof fn lemma_paint_skip(
    start: Seq<bool>,
    size: int,
    before: spec_fn(int, int) -> bool,
    after: spec_fn(int, int) -> bool,
    value: spec_fn(int, int) -> bool,
)
    requires
        size > 0,
        start.len() == size * size,
        forall|a: int, b: int|
            0 <= a < size && 0 <= b < size ==> #[trigger] after(a, b) == before(a, b),
    ensures
        paint(start, size, before, value) == paint(start, size, after, value),
{
    lemma_paint_same_on_grid(start, size, before, after, value, value);
}

/// The part of a finder pattern drawn after `n` of its 81 modules.
pub open spec fn finder_progress(cx: int, cy: int, n: int) -> spec_fn(int, int) -> bool {
    |a: int, b: int| finder_region(cx, cy)(a, b) && (b - cy + 4) * 9 + (a - cx + 4) < n
}

/// The part of an alignment pattern drawn after `n` of its 25 modules.
pub open spec fn alignment_progress(cx: int, cy: int, n: int) -> spec_fn(int, int) -> bool {
    |a: int, b: int| alignment_region(cx, cy)(a, b) && (b - cy + 2) * 5 + (a - cx + 2) < n
}

/// The part of the timing patterns drawn after `n` steps.
pub open spec fn timing_progress(n: int) -> spec_fn(int, int) -> bool {
    |a: int, b: int| (a == 6 && b < n) || (b == 6 && a < n)
}

/// Remainder of the version number times x^12 modulo the version BCH
/// generator, after `k` steps.
pub open spec fn version_remainder(v: u32, k: nat) -> u32
    decreases k,
{
    if k == 0 {
        v
    } else {
        let r = version_remainder(v, (k - 1) as nat);
        (r << 1u32) ^ (((r >> 11u32) * 0x1F25u32) as u32)
    }
}

/// The 18 bits of version information: the version and its BCH code.
pub open spec fn version_word(v: u32) -> u32 {
    (v << 12u32) | version_remainder(v, 12)
}

/// The two 3 × 6 version information blocks.
pub open spec fn version_region(size: int) -> spec_fn(int, int) -> bool {
    |a: int, b: int|
        (size - 11 <= a <= size - 9 && 0 <= b <= 5) || (size - 11 <= b <= size - 9 && 0 <= a
            <= 5)
}

/// The version information bits, in the same order in both blocks.
pub open spec fn version_value(size: int, word: u32) -> spec_fn(int, int) -> bool {
    |a: int, b: int|
        if b <= 5 && a >= size - 11 {
            spec_bit(word, (3 * b + a - (size - 11)) as u32)
        } else {
            spec_bit(word, (3 * a + b - (size - 11)) as u32)
        }
}

/// The version information after `n` of its 18 bits.
pub open spec fn version_progress(size: int, n: int) -> spec_fn(int, int) -> bool {
    |a: int, b: int|
        (size - 11 <= a <= size - 9 && 0 <= b <= 5 && 3 * b + a - (size - 11) < n) || (size - 11
            <= b <= size - 9 && 0 <= a <= 5 && 3 * a + b - (size - 11) < n)
}

/// Whether the pair (`i`, `j`) of alignment positions is taken by a finder pattern.
pub open spec fn alignment_corner(i: int, j: int, count: int) -> bool {
    (i == 0 && (j == 0 || j == count - 1)) || (i == count - 1 && j == 0)
}

/// Alignment patterns of row `i` of the position pairs, the first `j` of them.
pub open spec fn alignment_cols(
    grid: Seq<bool>,
    size: int,
    positions: Seq<int>,
    i: int,
    j: int,
    flags: bool,
) -> Seq<bool>
    decreases j,
{
    if j <= 0 {
        grid
    } else {
        let before = alignment_cols(grid, size, positions, i, j - 1, flags);
        if alignment_corner(i, j - 1, positions.len() as int) {
            before
        } else {
            paint(
                before,
                size,
                alignment_region(positions[i], positions[j - 1]),
                layer_value(flags, alignment_value(positions[i], positions[j - 1])),
            )
        }
    }
}

/// Alignment patterns of the first `i` rows of position pairs.
pub open spec fn alignment_rows(
    grid: Seq<bool>,
    size: int,
    positions: Seq<int>,
    i: int,
    flags: bool,
) -> Seq<bool>
    decreases i,
{
    if i <= 0 {
        grid
    } else {
        alignment_cols(
            alignment_rows(grid, size, positions, i - 1, flags),
            size,
            positions,
            i - 1,
            positions.len() as int,
            flags,
        )
    }
}

/// Timing patterns, the three finder patterns, the alignment patterns and
/// the version information, drawn over `grid` in that order; with `flags`,
/// every drawn module is `true`.
pub open spec fn function_patterns(grid: Seq<bool>, size: int, v: int, flags: bool) -> Seq<bool> {
    let timing = paint(grid, size, timing_region(), layer_value(flags, timing_value()));
    let finder1 = paint(timing, size, finder_region(3, 3), layer_value(flags, finder_value(3, 3)));
    let finder2 = paint(
        finder1,
        size,
        finder_region(size - 4, 3),
        layer_value(flags, finder_value(size - 4, 3)),
    );
    let finder3 = paint(
        finder2,
        size,
        finder_region(3, size - 4),
        layer_value(flags, finder_value(3, size - 4)),
    );
    let positions = alignment_positions_spec(v);
    let alignments = alignment_rows(finder3, size, positions, positions.len() as int, flags);
    if v >= 7 {
        paint(
            alignments,
            size,
            version_region(size),
            layer_value(flags, version_value(size, version_word(v as u32))),
        )
    } else {
        alignments
    }
}


/// Remainder of the format data times x^10 modulo the format BCH generator,
/// after `k` steps.
pub open spec fn format_remainder(data: u32, k: nat) -> u32
    decreases k,
{
    if k == 0 {
        data
    } else {
        let r = format_remainder(data, (k - 1) as nat);
        (r << 1u32) ^ (((r >> 9u32) * 0x537u32) as u32)
    }
}

/// The 15 bits of format information: level and mask, their BCH code, and
/// the fixed XOR pattern.
pub open spec fn format_word(level_bits: u32, mask: u32) -> u32 {
    let data = (level_bits << 3u32) | mask;
    ((data << 10u32) | format_remainder(data, 10)) ^ 0x5412u32
}

/// Bit of the first format copy (around the top-left finder) at (`a`, `b`), or -1.
pub open spec fn format_index_first(a: int, b: int) -> int {
    if a == 8 && 0 <= b <= 5 {
        b
    } else if a == 8 && b == 7 {
        6
    } else if a == 8 && b == 8 {
        7
    } else if a == 7 && b == 8 {
        8
    } else if b == 8 && 0 <= a <= 5 {
        14 - a
    } else {
        -1
    }
}

/// Bit of the second format copy (beside the other two finders) at (`a`, `b`), or -1.
pub open spec fn format_index_second(size: int, a: int, b: int) -> int {
    if b == 8 && size - 8 <= a <= size - 1 {
        size - 1 - a
    } else if a == 8 && size - 7 <= b <= size - 1 {
        b - size + 15
    } else {
        -1
    }
}

/// Both copies of the format information and the dark module.
pub open spec fn format_region(size: int) -> spec_fn(int, int) -> bool {
    |a: int, b: int|
        format_index_first(a, b) >= 0 || format_index_second(size, a, b) >= 0 || (a == 8 && b
            == size - 8)
}

/// The format bits in both copies; the dark module is always dark.
pub open spec fn format_value(size: int, word: u32) -> spec_fn(int, int) -> bool {
    |a: int, b: int|
        if format_index_first(a, b) >= 0 {
            spec_bit(word, format_index_first(a, b) as u32)
        } else if format_index_second(size, a, b) >= 0 {
            spec_bit(word, format_index_second(size, a, b) as u32)
        } else {
            true
        }
}

/// The first `n` bits of the first copy.
pub open spec fn format_progress_first(n: int) -> spec_fn(int, int) -> bool {
    |a: int, b: int| 0 <= format_index_first(a, b) < n
}

/// The whole first copy and the first `n` bits of the second.
pub open spec fn format_progress_second(size: int, n: int) -> spec_fn(int, int) -> bool {
    |a: int, b: int| format_index_first(a, b) >= 0 || 0 <= format_index_second(size, a, b) < n
}


/// Right column of the `p`-th pair of columns in the zigzag, skipping
/// the vertical timing pattern in column 6.
pub open spec fn zigzag_right(size: int, p: int) -> int {
    if size - 1 - 2 * p > 6 {
        size - 1 - 2 * p
    } else {
        size - 2 - 2 * p
    }
}

/// Number of column pairs in the zigzag.
pub open spec fn zigzag_pairs(size: int) -> int {
    (size - 1) / 2
}

/// Column of the `k`-th module in the zigzag: two-module columns from the
/// right, the right module of each row first.
pub open spec fn zigzag_x(size: int, k: int) -> int {
    zigzag_right(size, k / (2 * size)) - (k % (2 * size)) % 2
}

/// Row of the `k`-th module in the zigzag: alternately upwards and downwards.
pub open spec fn zigzag_y(size: int, k: int) -> int {
    let right = zigzag_right(size, k / (2 * size));
    let vertical = (k % (2 * size)) / 2;
    if ((right + 1) / 2) % 2 == 0 {
        size - 1 - vertical
    } else {
        vertical
    }
}

/// Bit `index` of the codeword stream, most significant bit of each codeword first.
pub open spec fn codeword_bit(codewords: Seq<u8>, index: int) -> bool {
    (codewords[index / 8] >> (7 - index % 8) as u8) & 1u8 == 1u8
}

/// The grid after the first `k` zigzag positions have been offered a
/// codeword bit, and the number of bits used: function modules are
/// skipped, and so is every position after the last bit.
pub open spec fn place_bits(
    grid: Seq<bool>,
    function: Seq<bool>,
    size: int,
    codewords: Seq<u8>,
    k: int,
) -> (Seq<bool>, int)
    decreases k,
{
    if k <= 0 {
        (grid, 0)
    } else {
        let (g, used) = place_bits(grid, function, size, codewords, k - 1);
        let i = zigzag_y(size, k - 1) * size + zigzag_x(size, k - 1);
        if !function[i] && used < codewords.len() * 8 {
            (g.update(i, codeword_bit(codewords, used)), used + 1)
        } else {
            (g, used)
        }
    }
}

/// Whether mask pattern `mask` inverts the module in column `x`, row `y`.
pub open spec fn mask_inverts(mask: u32, x: int, y: int) -> bool {
    if mask == 0 {
        (x + y) % 2 == 0
    } else if mask == 1 {
        y % 2 == 0
    } else if mask == 2 {
        x % 3 == 0
    } else if mask == 3 {
        (x + y) % 3 == 0
    } else if mask == 4 {
        (x / 3 + y / 2) % 2 == 0
    } else if mask == 5 {
        x * y % 2 + x * y % 3 == 0
    } else if mask == 6 {
        (x * y % 2 + x * y % 3) % 2 == 0
    } else {
        ((x + y) % 2 + x * y % 3) % 2 == 0
    }
}

/// The grid with the data modules that `mask` selects inverted.
pub open spec fn masked(grid: Seq<bool>, function: Seq<bool>, size: int, mask: u32) -> Seq<bool> {
    Seq::new(
        grid.len(),
        |i: int|
            if mask_inverts(mask, column_of(i, size), row_of(i, size)) && !function[i] {
                !grid[i]
            } else {
                grid[i]
            },
    )
}

/// Applying a mask twice gives back the grid.
pub proof fn lemma_mask_involution(grid: Seq<bool>, function: Seq<bool>, size: int, mask: u32)
    requires
        function.len() == grid.len(),
    ensures
        masked(masked(grid, function, size, mask), function, size, mask) == grid,
{
    assert(masked(masked(grid, function, size, mask), function, size, mask) =~= grid);
}

/// A mask leaves the modules of a region of function modules alone.
pub proof fn lemma_mask_skips_function(
    grid: Seq<bool>,
    function: Seq<bool>,
    size: int,
    mask: u32,
    region: spec_fn(int, int) -> bool,
    value: spec_fn(int, int) -> bool,
)
    requires
        function.len() == grid.len(),
        forall|i: int|
            0 <= i < grid.len() && region(column_of(i, size), row_of(i, size)) ==> function[i],
    ensures
        masked(paint(grid, size, region, value), function, size, mask) == paint(
            masked(grid, function, size, mask),
            size,
            region,
            value,
        ),
{
    assert(masked(paint(grid, size, region, value), function, size, mask) =~= paint(
        masked(grid, function, size, mask),
        size,
        region,
        value,
    ));
}

/// Painting a region twice keeps the second painting.
pub proof fn lemma_paint_repaint(
    grid: Seq<bool>,
    size: int,
    region: spec_fn(int, int) -> bool,
    first: spec_fn(int, int) -> bool,
    second: spec_fn(int, int) -> bool,
)
    ensures
        paint(paint(grid, size, region, first), size, region, second) == paint(
            grid,
            size,
            region,
            second,
        ),
{
    assert(paint(paint(grid, size, region, first), size, region, second) =~= paint(
        grid,
        size,
        region,
        second,
    ));
}


/// Module `b` of line `a`: row `a` when not `transposed`, column `a` when `transposed`.
pub open spec fn line_module(grid: Seq<bool>, size: int, transposed: bool, a: int, b: int) -> bool {
    if transposed {
        grid[b * size + a]
    } else {
        grid[a * size + b]
    }
}

/// Pushes a run length onto the last seven runs; the first run of a line
/// also counts the light border around the code.
pub open spec fn push_run(length: int, history: Seq<int>, size: int) -> Seq<int> {
    let counted = if history[0] == 0 {
        length + size
    } else {
        length
    };
    seq![counted] + history.take(6)
}

/// Finder-like 1:1:3:1:1 patterns with four light modules on one side.
pub open spec fn finder_like(history: Seq<int>) -> int {
    let n = history[1];
    let core = n > 0 && history[2] == n && history[3] == n * 3 && history[4] == n && history[5]
        == n;
    (if core && history[0] >= n * 4 && history[6] >= n {
        1int
    } else {
        0
    }) + (if core && history[6] >= n * 4 && history[0] >= n {
        1int
    } else {
        0
    })
}

/// Run penalty weights for mask selection.
pub open spec fn run_penalty(length: int) -> int {
    if length == 5 {
        3
    } else if length > 5 {
        1
    } else {
        0
    }
}

/// The scan of the first `b` modules of a line: the color and length of
/// the current run, the earlier run lengths (latest first) and the score
/// so far.
pub open spec fn run_scan(grid: Seq<bool>, size: int, transposed: bool, a: int, b: int) -> (
    bool,
    int,
    Seq<int>,
    int,
)
    decreases b,
{
    if b <= 0 {
        (false, 0, seq![0int, 0, 0, 0, 0, 0, 0], 0)
    } else {
        let (color, length, history, score) = run_scan(grid, size, transposed, a, b - 1);
        let module = line_module(grid, size, transposed, a, b - 1);
        if module == color {
            (color, length + 1, history, score + run_penalty(length + 1))
        } else {
            let pushed = push_run(length, history, size);
            (
                module,
                1,
                pushed,
                score + (if !color {
                    finder_like(pushed) * 40
                } else {
                    0
                }),
            )
        }
    }
}

/// Penalty of one line: runs of five or more modules of one color and
/// finder-like patterns, with the light border counted at both ends.
pub open spec fn line_penalty_spec(grid: Seq<bool>, size: int, transposed: bool, a: int) -> int {
    let (color, length, history, score) = run_scan(grid, size, transposed, a, size);
    let closed = if color {
        push_run(length, history, size)
    } else {
        history
    };
    let rest = if color {
        0
    } else {
        length
    };
    score + finder_like(push_run(rest + size, closed, size)) * 40
}

/// Penalty of the first `n` lines.
pub open spec fn lines_penalty(grid: Seq<bool>, size: int, transposed: bool, n: int) -> int
    decreases n,
{
    if n <= 0 {
        0
    } else {
        lines_penalty(grid, size, transposed, n - 1) + line_penalty_spec(
            grid,
            size,
            transposed,
            n - 1,
        )
    }
}

/// Whether the 2 × 2 block with top-left module (`x`, `y`) has one color.
pub open spec fn same_color_block(grid: Seq<bool>, size: int, x: int, y: int) -> bool {
    let color = grid[y * size + x];
    color == grid[y * size + x + 1] && color == grid[(y + 1) * size + x] && color == grid[(y + 1)
        * size + x + 1]
}

/// One-color 2 × 2 blocks with their top-left module in row `y`, columns below `n`.
pub open spec fn blocks_in_row(grid: Seq<bool>, size: int, y: int, n: int) -> int
    decreases n,
{
    if n <= 0 {
        0
    } else {
        blocks_in_row(grid, size, y, n - 1) + (if same_color_block(grid, size, n - 1, y) {
            1int
        } else {
            0
        })
    }
}

/// One-color 2 × 2 blocks with their top-left module in the first `n` rows.
pub open spec fn blocks_in_rows(grid: Seq<bool>, size: int, n: int) -> int
    decreases n,
{
    if n <= 0 {
        0
    } else {
        blocks_in_rows(grid, size, n - 1) + blocks_in_row(grid, size, n - 1, size - 1)
    }
}

/// Number of dark modules.
pub open spec fn dark_count(grid: Seq<bool>) -> int
    decreases grid.len(),
{
    if grid.len() == 0 {
        0
    } else {
        dark_count(grid.drop_last()) + (if grid.last() {
            1int
        } else {
            0
        })
    }
}

/// Ten points for each full 5 % by which the dark share deviates from 50 %.
pub open spec fn balance_penalty(dark: int, total: int) -> int {
    let deviation = if dark * 20 >= total * 10 {
        dark * 20 - total * 10
    } else {
        total * 10 - dark * 20
    };
    ((deviation + total - 1) / total - 1) * 10
}

/// Penalty score used to pick the mask: long runs, 2 × 2 blocks,
/// finder-like patterns and the dark/light balance.
pub open spec fn penalty_spec(grid: Seq<bool>, size: int) -> int {
    lines_penalty(grid, size, false, size) + lines_penalty(grid, size, true, size) + 3
        * blocks_in_rows(grid, size, size - 1) + balance_penalty(dark_count(grid), size * size)
}

/// The seven run lengths of the exec history, as integers.
pub open spec fn history_view(history: [usize; 7]) -> Seq<int> {
    history@.map_values(|x: usize| x as int)
}

/// Pushes a run length; the first run of a line also counts the light
/// border around the code.
fn add_history(length: usize, history: [usize; 7], size: usize) -> (pushed: [usize; 7])
    requires
        length <= 2 * size,
        size <= 177,
    ensures
        history_view(pushed) == push_run(length as int, history_view(history), size as int),
        pushed@[0] <= length + size,
        forall|k: int| 1 <= k < 7 ==> pushed@[k] == history@[k - 1],
{
    let counted = if history[0] == 0 {
        length + size
    } else {
        length
    };
    let pushed = [
        counted,
        history[0],
        history[1],
        history[2],
        history[3],
        history[4],
        history[5],
    ];
    assert(history_view(pushed) =~= push_run(length as int, history_view(history), size as int));
    pushed
}

/// Finder-like 1:1:3:1:1 patterns with four light modules on one side.
fn finder_patterns(history: &[usize; 7]) -> (count: usize)
    requires
        forall|k: int| 0 <= k < 7 ==> history@[k] <= 1000,
    ensures
        count == finder_like(history_view(*history)),
        count <= 2,
{
    let n = history[1];
    let core = n > 0 && history[2] == n && history[3] == n * 3 && history[4] == n && history[5]
        == n;
    let first: usize = if core && history[0] >= n * 4 && history[6] >= n {
        1
    } else {
        0
    };
    let second: usize = if core && history[6] >= n * 4 && history[0] >= n {
        1
    } else {
        0
    };
    first + second
}


/// A `size` × `size` grid of light modules.
pub open spec fn light_grid(size: int) -> Seq<bool> {
    Seq::new((size * size) as nat, |i: int| false)
}

/// The function patterns and the format information for mask 0, over a light grid.
pub open spec fn pattern_modules(size: int, v: int, level_bits: u32) -> Seq<bool> {
    paint(
        function_patterns(light_grid(size), size, v, false),
        size,
        format_region(size),
        format_value(size, format_word(level_bits, 0)),
    )
}

/// Which modules belong to function patterns or format information.
pub open spec fn pattern_flags(size: int, v: int) -> Seq<bool> {
    paint(function_patterns(light_grid(size), size, v, true), size, format_region(size), constant(true))
}

/// The unmasked matrix: function patterns, format information for mask 0
/// and the codeword bits.
pub open spec fn data_grid(size: int, v: int, level_bits: u32, codewords: Seq<u8>) -> Seq<bool> {
    place_bits(
        pattern_modules(size, v, level_bits),
        pattern_flags(size, v),
        size,
        codewords,
        zigzag_pairs(size) * 2 * size,
    ).0
}

/// The matrix with mask `mask` and its format information.
pub open spec fn candidate(
    size: int,
    v: int,
    level_bits: u32,
    codewords: Seq<u8>,
    mask: u32,
) -> Seq<bool> {
    paint(
        masked(data_grid(size, v, level_bits, codewords), pattern_flags(size, v), size, mask),
        size,
        format_region(size),
        format_value(size, format_word(level_bits, mask)),
    )
}

/// Among masks below `n`, the first one with the lowest penalty.
pub open spec fn best_mask_below(
    size: int,
    v: int,
    level_bits: u32,
    codewords: Seq<u8>,
    n: int,
) -> u32
    decreases n,
{
    if n <= 1 {
        0
    } else {
        let best = best_mask_below(size, v, level_bits, codewords, n - 1);
        if penalty_spec(candidate(size, v, level_bits, codewords, (n - 1) as u32), size)
            < penalty_spec(candidate(size, v, level_bits, codewords, best), size) {
            (n - 1) as u32
        } else {
            best
        }
    }
}

/// The finished matrix: the candidate of the first mask with the lowest penalty.
pub open spec fn symbol(size: int, v: int, level_bits: u32, codewords: Seq<u8>) -> Seq<bool> {
    candidate(size, v, level_bits, codewords, best_mask_below(size, v, level_bits, codewords, 8))
}

proof fn lemma_zigzag_in_grid(size: int, k: int)
    requires
        21 <= size,
        size % 2 == 1,
        0 <= k < zigzag_pairs(size) * 2 * size,
    ensures
        0 <= zigzag_x(size, k) < size,
        0 <= zigzag_y(size, k) < size,
        0 <= zigzag_y(size, k) * size + zigzag_x(size, k) < size * size,
{
    let p = k / (2 * size);
    assert(p < zigzag_pairs(size)) by (nonlinear_arith)
        requires
            0 <= k < zigzag_pairs(size) * 2 * size,
            p == k / (2 * size),
            size > 0,
    ;
    assert(0 <= k % (2 * size) < 2 * size) by (nonlinear_arith)
        requires
            size > 0,
    ;
    lemma_index(zigzag_x(size, k), zigzag_y(size, k), size);
}

proof fn lemma_place_bits_keeps_function(
    grid: Seq<bool>,
    function: Seq<bool>,
    size: int,
    codewords: Seq<u8>,
    k: int,
)
    requires
        function.len() == grid.len() == size * size,
        21 <= size,
        size % 2 == 1,
        0 <= k <= zigzag_pairs(size) * 2 * size,
    ensures
        place_bits(grid, function, size, codewords, k).0.len() == grid.len(),
        forall|i: int|
            0 <= i < grid.len() && function[i] ==> #[trigger] place_bits(
                grid,
                function,
                size,
                codewords,
                k,
            ).0[i] == grid[i],
    decreases k,
{
    if k > 0 {
        lemma_place_bits_keeps_function(grid, function, size, codewords, k - 1);
        lemma_zigzag_in_grid(size, k - 1);
    }
}

proof fn lemma_data_grid_format(size: int, v: int, level_bits: u32, codewords: Seq<u8>)
    requires
        21 <= size,
        size % 2 == 1,
    ensures
        data_grid(size, v, level_bits, codewords).len() == size * size,
        paint(
            data_grid(size, v, level_bits, codewords),
            size,
            format_region(size),
            format_value(size, format_word(level_bits, 0)),
        ) == data_grid(size, v, level_bits, codewords),
        forall|i: int|
            0 <= i < size * size && format_region(size)(column_of(i, size), row_of(i, size))
                ==> pattern_flags(size, v)[i],
{
    let flags = pattern_flags(size, v);
    let modules = pattern_modules(size, v, level_bits);
    lemma_function_patterns_len(light_grid(size), size, v, false);
    lemma_function_patterns_len(light_grid(size), size, v, true);
    assert(zigzag_pairs(size) * 2 * size >= 0) by (nonlinear_arith)
        requires
            size >= 21,
            zigzag_pairs(size) == (size - 1) / 2,
    ;
    lemma_place_bits_keeps_function(modules, flags, size, codewords, zigzag_pairs(size) * 2 * size);
    let d = data_grid(size, v, level_bits, codewords);
    assert(paint(d, size, format_region(size), format_value(size, format_word(level_bits, 0)))
        =~= d);
}

proof fn lemma_alignment_len(grid: Seq<bool>, size: int, positions: Seq<int>, i: int, flags: bool)
    ensures
        alignment_rows(grid, size, positions, i, flags).len() == grid.len(),
    decreases i,
{
    if i > 0 {
        lemma_alignment_len(grid, size, positions, i - 1, flags);
        lemma_alignment_cols_len(alignment_rows(grid, size, positions, i - 1, flags), size, positions, i - 1, positions.len() as int, flags);
    }
}

proof fn lemma_alignment_cols_len(grid: Seq<bool>, size: int, positions: Seq<int>, i: int, j: int, flags: bool)
    ensures
        alignment_cols(grid, size, positions, i, j, flags).len() == grid.len(),
    decreases j,
{
    if j > 0 {
        lemma_alignment_cols_len(grid, size, positions, i, j - 1, flags);
    }
}

proof fn lemma_function_patterns_len(grid: Seq<bool>, size: int, v: int, flags: bool)
    ensures
        function_patterns(grid, size, v, flags).len() == grid.len(),
{
    let positions = alignment_positions_spec(v);
    let timing = paint(grid, size, timing_region(), layer_value(flags, timing_value()));
    let finder1 = paint(timing, size, finder_region(3, 3), layer_value(flags, finder_value(3, 3)));
    let finder2 = paint(
        finder1,
        size,
        finder_region(size - 4, 3),
        layer_value(flags, finder_value(size - 4, 3)),
    );
    let finder3 = paint(
        finder2,
        size,
        finder_region(3, size - 4),
        layer_value(flags, finder_value(3, size - 4)),
    );
    lemma_alignment_len(finder3, size, positions, positions.len() as int, flags);
}

pub struct Canvas {
    pub size: usize,
    pub modules: Vec<bool>,
    /// Modules of function patterns, which the data and the mask skip.
    pub function: Vec<bool>,
}

impl Canvas {
    pub open spec fn wf(&self) -> bool {
        &&& 21 <= self.size <= 177
        &&& self.modules.len() == self.size * self.size
        &&& self.function.len() == self.size * self.size
    }

    pub fn get(&self, x: usize, y: usize) -> (dark: bool)
        requires
            self.wf(),
            x < self.size,
            y < self.size,
        ensures
            dark == self.modules@[y * self.size + x],
    {
        proof {
            lemma_index(x as int, y as int, self.size as int);
        }
        self.modules[y * self.size + x]
    }

    pub fn set_function(&mut self, x: usize, y: usize, dark: bool)
        requires
            old(self).wf(),
            x < old(self).size,
            y < old(self).size,
        ensures
            final(self).wf(),
            final(self).size == old(self).size,
            final(self).modules@ == paint(
                old(self).modules@,
                old(self).size as int,
                point(x as int, y as int),
                constant(dark),
            ),
            final(self).function@ == paint(
                old(self).function@,
                old(self).size as int,
                point(x as int, y as int),
                constant(true),
            ),
    {
        let size = self.size;
        proof {
            lemma_index(x as int, y as int, size as int);
        }
        let i = y * size + x;
        self.modules.set(i, dark);
        self.function.set(i, true);
        proof {
            assert forall|j: int| 0 <= j < size * size implies (column_of(j, size as int) == x
                && row_of(j, size as int) == y) == (j == i) by {
                lemma_coordinates(j, size as int);
            }
            assert(self.modules@ =~= paint(
                old(self).modules@,
                size as int,
                point(x as int, y as int),
                constant(dark),
            ));
            assert(self.function@ =~= paint(
                old(self).function@,
                size as int,
                point(x as int, y as int),
                constant(true),
            ));
        }
    }

    /// Finder pattern with its light separator, centered on (`x`, `y`).
    pub fn draw_finder(&mut self, x: usize, y: usize)
        requires
            old(self).wf(),
            x < old(self).size,
            y < old(self).size,
        ensures
            final(self).wf(),
            final(self).size == old(self).size,
            final(self).modules@ == paint(
                old(self).modules@,
                old(self).size as int,
                finder_region(x as int, y as int),
                finder_value(x as int, y as int),
            ),
            final(self).function@ == paint(
                old(self).function@,
                old(self).size as int,
                finder_region(x as int, y as int),
                constant(true),
            ),
    {
        let ghost size = self.size as int;
        let ghost start_m = self.modules@;
        let ghost start_f = self.function@;
        let ghost cx = x as int;
        let ghost cy = y as int;
        proof {
            lemma_paint_skip(start_m, size, finder_progress(cx, cy, 0), |a: int, b: int| false, finder_value(cx, cy));
            lemma_paint_skip(start_f, size, finder_progress(cx, cy, 0), |a: int, b: int| false, constant(true));
            assert(paint(start_m, size, |a: int, b: int| false, finder_value(cx, cy)) =~= start_m);
            assert(paint(start_f, size, |a: int, b: int| false, constant(true)) =~= start_f);
        }
        let mut dy: usize = 0;
        while dy < 9
            invariant
                self.wf(),
                self.size == size,
                cx == x,
                cy == y,
                x < size,
                y < size,
                dy <= 9,
                self.modules@ == paint(start_m, size, finder_progress(cx, cy, dy * 9), finder_value(cx, cy)),
                self.function@ == paint(start_f, size, finder_progress(cx, cy, dy * 9), constant(true)),
            decreases 9 - dy,
        {
            let mut dx: usize = 0;
            while dx < 9
                invariant
                    self.wf(),
                    self.size == size,
                    cx == x,
                    cy == y,
                    x < size,
                    y < size,
                    dy < 9,
                    dx <= 9,
                    self.modules@ == paint(start_m, size, finder_progress(cx, cy, dy * 9 + dx), finder_value(cx, cy)),
                    self.function@ == paint(start_f, size, finder_progress(cx, cy, dy * 9 + dx), constant(true)),
                decreases 9 - dx,
            {
                let ghost n = dy * 9 + dx;
                if x + dx >= 4 && y + dy >= 4 && x + dx - 4 < self.size && y + dy - 4 < self.size {
                    let xx = x + dx - 4;
                    let yy = y + dy - 4;
                    let ddx = if dx > 4 {
                        dx - 4
                    } else {
                        4 - dx
                    };
                    let ddy = if dy > 4 {
                        dy - 4
                    } else {
                        4 - dy
                    };
                    let distance = if ddx < ddy {
                        ddy
                    } else {
                        ddx
                    };
                    let dark = distance != 2 && distance != 4;
                    proof {
                        assert(chebyshev(xx - cx, yy - cy) == distance);
                        assert(finder_value(cx, cy)(xx as int, yy as int) == dark);

                        lemma_paint_extend(start_m, size, finder_progress(cx, cy, n), finder_progress(cx, cy, n + 1), finder_value(cx, cy), xx as int, yy as int, dark);
                        lemma_paint_extend(start_f, size, finder_progress(cx, cy, n), finder_progress(cx, cy, n + 1), constant(true), xx as int, yy as int, true);
                    }
                    self.set_function(xx, yy, dark);
                } else {
                    proof {
                        lemma_paint_skip(start_m, size, finder_progress(cx, cy, n), finder_progress(cx, cy, n + 1), finder_value(cx, cy));
                        lemma_paint_skip(start_f, size, finder_progress(cx, cy, n), finder_progress(cx, cy, n + 1), constant(true));
                    }
                }
                dx += 1;
            }
            dy += 1;
        }
        proof {
            lemma_paint_skip(start_m, size, finder_progress(cx, cy, 81), finder_region(cx, cy), finder_value(cx, cy));
            lemma_paint_skip(start_f, size, finder_progress(cx, cy, 81), finder_region(cx, cy), constant(true));
        }
    }

    /// Alignment pattern centered on (`x`, `y`).
    pub fn draw_alignment(&mut self, x: usize, y: usize)
        requires
            old(self).wf(),
            2 <= x,
            x + 2 < old(self).size,
            2 <= y,
            y + 2 < old(self).size,
        ensures
            final(self).wf(),
            final(self).size == old(self).size,
            final(self).modules@ == paint(
                old(self).modules@,
                old(self).size as int,
                alignment_region(x as int, y as int),
                alignment_value(x as int, y as int),
            ),
            final(self).function@ == paint(
                old(self).function@,
                old(self).size as int,
                alignment_region(x as int, y as int),
                constant(true),
            ),
    {
        let ghost size = self.size as int;
        let ghost start_m = self.modules@;
        let ghost start_f = self.function@;
        let ghost cx = x as int;
        let ghost cy = y as int;
        proof {
            lemma_paint_skip(start_m, size, alignment_progress(cx, cy, 0), |a: int, b: int| false, alignment_value(cx, cy));
            lemma_paint_skip(start_f, size, alignment_progress(cx, cy, 0), |a: int, b: int| false, constant(true));
            assert(paint(start_m, size, |a: int, b: int| false, alignment_value(cx, cy)) =~= start_m);
            assert(paint(start_f, size, |a: int, b: int| false, constant(true)) =~= start_f);
        }
        let mut dy: usize = 0;
        while dy < 5
            invariant
                self.wf(),
                self.size == size,
                cx == x,
                cy == y,
                2 <= x,
                x + 2 < size,
                2 <= y,
                y + 2 < size,
                dy <= 5,
                self.modules@ == paint(start_m, size, alignment_progress(cx, cy, dy * 5), alignment_value(cx, cy)),
                self.function@ == paint(start_f, size, alignment_progress(cx, cy, dy * 5), constant(true)),
            decreases 5 - dy,
        {
            let mut dx: usize = 0;
            while dx < 5
                invariant
                    self.wf(),
                    self.size == size,
                    cx == x,
                    cy == y,
                    2 <= x,
                    x + 2 < size,
                    2 <= y,
                    y + 2 < size,
                    dy < 5,
                    dx <= 5,
                    self.modules@ == paint(start_m, size, alignment_progress(cx, cy, dy * 5 + dx), alignment_value(cx, cy)),
                    self.function@ == paint(start_f, size, alignment_progress(cx, cy, dy * 5 + dx), constant(true)),
                decreases 5 - dx,
            {
                let ghost n = dy * 5 + dx;
                let ddx = if dx > 2 {
                    dx - 2
                } else {
                    2 - dx
                };
                let ddy = if dy > 2 {
                    dy - 2
                } else {
                    2 - dy
                };
                let distance = if ddx < ddy {
                    ddy
                } else {
                    ddx
                };
                let dark = distance != 1;
                proof {
                    lemma_paint_extend(start_m, size, alignment_progress(cx, cy, n), alignment_progress(cx, cy, n + 1), alignment_value(cx, cy), (x + dx - 2) as int, (y + dy - 2) as int, dark);
                    lemma_paint_extend(start_f, size, alignment_progress(cx, cy, n), alignment_progress(cx, cy, n + 1), constant(true), (x + dx - 2) as int, (y + dy - 2) as int, true);
                }
                self.set_function(x + dx - 2, y + dy - 2, dark);
                dx += 1;
            }
            dy += 1;
        }
        proof {
            lemma_paint_skip(start_m, size, alignment_progress(cx, cy, 25), alignment_region(cx, cy), alignment_value(cx, cy));
            lemma_paint_skip(start_f, size, alignment_progress(cx, cy, 25), alignment_region(cx, cy), constant(true));
        }
    }

    /// The timing patterns in row 6 and column 6.
    pub fn draw_timing(&mut self)
        requires
            old(self).wf(),
        ensures
            final(self).wf(),
            final(self).size == old(self).size,
            final(self).modules@ == paint(
                old(self).modules@,
                old(self).size as int,
                timing_region(),
                timing_value(),
            ),
            final(self).function@ == paint(
                old(self).function@,
                old(self).size as int,
                timing_region(),
                constant(true),
            ),
    {
        let ghost size = self.size as int;
        let ghost start_m = self.modules@;
        let ghost start_f = self.function@;
        proof {
            lemma_paint_skip(start_m, size, timing_progress(0), |a: int, b: int| false, timing_value());
            lemma_paint_skip(start_f, size, timing_progress(0), |a: int, b: int| false, constant(true));
            assert(paint(start_m, size, |a: int, b: int| false, timing_value()) =~= start_m);
            assert(paint(start_f, size, |a: int, b: int| false, constant(true)) =~= start_f);
        }
        let mut i: usize = 0;
        while i < self.size
            invariant
                self.wf(),
                self.size == size,
                i <= size,
                self.modules@ == paint(start_m, size, timing_progress(i as int), timing_value()),
                self.function@ == paint(start_f, size, timing_progress(i as int), constant(true)),
            decreases size - i,
        {
            let dark = i % 2 == 0;
            let ghost half = |a: int, b: int| timing_progress(i as int)(a, b) || (a == 6 && b == i);
            proof {
                lemma_paint_extend(start_m, size, timing_progress(i as int), half, timing_value(), 6, i as int, dark);
                lemma_paint_extend(start_f, size, timing_progress(i as int), half, constant(true), 6, i as int, true);
            }
            self.set_function(6, i, dark);
            proof {
                lemma_paint_extend(start_m, size, half, timing_progress(i + 1), timing_value(), i as int, 6, dark);
                lemma_paint_extend(start_f, size, half, timing_progress(i + 1), constant(true), i as int, 6, true);
            }
            self.set_function(i, 6, dark);
            i += 1;
        }
        proof {
            lemma_paint_skip(start_m, size, timing_progress(size), timing_region(), timing_value());
            lemma_paint_skip(start_f, size, timing_progress(size), timing_region(), constant(true));
        }
    }


    /// Version information (BCH-protected) for versions 7 and up.
    pub fn draw_version(&mut self, version: u8)
        requires
            old(self).wf(),
            1 <= version <= 40,
            old(self).size == version as int * 4 + 17,
        ensures
            final(self).wf(),
            final(self).size == old(self).size,
            version >= 7 ==> final(self).modules@ == paint(
                old(self).modules@,
                old(self).size as int,
                version_region(old(self).size as int),
                version_value(old(self).size as int, version_word(version as u32)),
            ),
            version >= 7 ==> final(self).function@ == paint(
                old(self).function@,
                old(self).size as int,
                version_region(old(self).size as int),
                constant(true),
            ),
            version < 7 ==> final(self).modules@ == old(self).modules@,
            version < 7 ==> final(self).function@ == old(self).function@,
    {
        if version < 7 {
            return;
        }
        let data = version as u32;
        let mut remainder = data;
        let mut k: usize = 0;
        while k < 12
            invariant
                data == version as u32,
                k <= 12,
                remainder == version_remainder(data, k as nat),
                remainder < 4096,
            decreases 12 - k,
        {
            assert((remainder >> 11u32) <= 1u32) by (bit_vector)
                requires
                    remainder < 4096u32,
            ;
            let next = (remainder << 1) ^ ((remainder >> 11) * 0x1F25);
            assert(((remainder << 1u32) ^ (((remainder >> 11u32) * 0x1F25u32) as u32)) < 4096u32)
                by (bit_vector)
                requires
                    remainder < 4096u32,
            ;
            remainder = next;
            k += 1;
        }
        let bits = (data << 12) | remainder;
        let ghost word = version_word(data);
        assert(bits == word);
        let ghost size = self.size as int;
        let ghost start_m = self.modules@;
        let ghost start_f = self.function@;
        let ghost value = version_value(size, word);
        proof {
            lemma_paint_skip(start_m, size, version_progress(size, 0), |a: int, b: int| false, value);
            lemma_paint_skip(start_f, size, version_progress(size, 0), |a: int, b: int| false, constant(true));
            assert(paint(start_m, size, |a: int, b: int| false, value) =~= start_m);
            assert(paint(start_f, size, |a: int, b: int| false, constant(true)) =~= start_f);
        }
        let mut i: usize = 0;
        while i < 18
            invariant
                self.wf(),
                self.size == size,
                size >= 45,
                i <= 18,
                bits == word,
                value == version_value(size, word),
                self.modules@ == paint(start_m, size, version_progress(size, i as int), value),
                self.function@ == paint(start_f, size, version_progress(size, i as int), constant(true)),
            decreases 18 - i,
        {
            let dark = bit(bits, i as u32);
            let a = self.size - 11 + i % 3;
            let b = i / 3;
            let ghost mid = |p: int, q: int| version_progress(size, i as int)(p, q) || (p == a && q == b);
            proof {
                lemma_paint_extend(start_m, size, version_progress(size, i as int), mid, value, a as int, b as int, dark);
                lemma_paint_extend(start_f, size, version_progress(size, i as int), mid, constant(true), a as int, b as int, true);
            }
            self.set_function(a, b, dark);
            proof {
                lemma_paint_extend(start_m, size, mid, version_progress(size, i + 1), value, b as int, a as int, dark);
                lemma_paint_extend(start_f, size, mid, version_progress(size, i + 1), constant(true), b as int, a as int, true);
            }
            self.set_function(b, a, dark);
            i += 1;
        }
        proof {
            lemma_paint_skip(start_m, size, version_progress(size, 18), version_region(size), value);
            lemma_paint_skip(start_f, size, version_progress(size, 18), version_region(size), constant(true));
        }
    }

    /// Timing, finder and alignment patterns and the version information.
    pub fn draw_function_patterns(&mut self, version: u8)
        requires
            old(self).wf(),
            1 <= version <= 40,
            old(self).size == version as int * 4 + 17,
        ensures
            final(self).wf(),
            final(self).size == old(self).size,
            final(self).modules@ == function_patterns(
                old(self).modules@,
                old(self).size as int,
                version as int,
                false,
            ),
            final(self).function@ == function_patterns(
                old(self).function@,
                old(self).size as int,
                version as int,
                true,
            ),
    {
        let ghost v = version as int;
        let ghost m0 = self.modules@;
        let ghost f0 = self.function@;
        self.draw_timing();
        let size = self.size;
        self.draw_finder(3, 3);
        self.draw_finder(size - 4, 3);
        self.draw_finder(3, size - 4);
        let ghost m3 = self.modules@;
        let ghost f3 = self.function@;
        let positions = alignment_positions(version);
        let ghost p = alignment_positions_spec(v);
        proof {
            lemma_alignment_positions(v);
        }
        let count = positions.len();
        let mut i: usize = 0;
        while i < count
            invariant
                self.wf(),
                self.size == size,
                size == v * 4 + 17,
                1 <= v <= 40,
                count == positions.len() == p.len(),
                forall|k: int| 0 <= k < count ==> positions@[k] as int == p[k],
                forall|k: int| 0 <= k < count ==> 6 <= #[trigger] p[k] <= 4 * v + 10,
                i <= count,
                self.modules@ == alignment_rows(m3, size as int, p, i as int, false),
                self.function@ == alignment_rows(f3, size as int, p, i as int, true),
            decreases count - i,
        {
            let mut j: usize = 0;
            while j < count
                invariant
                    self.wf(),
                    self.size == size,
                    size == v * 4 + 17,
                    1 <= v <= 40,
                    count == positions.len() == p.len(),
                    forall|k: int| 0 <= k < count ==> positions@[k] as int == p[k],
                    forall|k: int| 0 <= k < count ==> 6 <= #[trigger] p[k] <= 4 * v + 10,
                    i < count,
                    j <= count,
                    self.modules@ == alignment_cols(
                        alignment_rows(m3, size as int, p, i as int, false),
                        size as int,
                        p,
                        i as int,
                        j as int,
                        false,
                    ),
                    self.function@ == alignment_cols(
                        alignment_rows(f3, size as int, p, i as int, true),
                        size as int,
                        p,
                        i as int,
                        j as int,
                        true,
                    ),
                decreases count - j,
            {
                let corner = (i == 0 && (j == 0 || j == count - 1)) || (i == count - 1 && j == 0);
                if !corner {
                    assert(6 <= p[i as int] <= 4 * v + 10);
                    assert(6 <= p[j as int] <= 4 * v + 10);
                    self.draw_alignment(positions[i], positions[j]);
                }
                j += 1;
            }
            i += 1;
        }
        self.draw_version(version);
    }


    /// Format information (level and mask, BCH-protected) in both copies,
    /// plus the dark module.
    pub fn draw_format_bits(&mut self, level_bits: u32, mask: u32)
        requires
            old(self).wf(),
            level_bits < 4,
            mask < 8,
        ensures
            final(self).wf(),
            final(self).size == old(self).size,
            final(self).modules@ == paint(
                old(self).modules@,
                old(self).size as int,
                format_region(old(self).size as int),
                format_value(old(self).size as int, format_word(level_bits, mask)),
            ),
            final(self).function@ == paint(
                old(self).function@,
                old(self).size as int,
                format_region(old(self).size as int),
                constant(true),
            ),
    {
        let data = (level_bits << 3) | mask;
        assert(data < 32u32) by (bit_vector)
            requires
                level_bits < 4u32,
                mask < 8u32,
                data == (level_bits << 3u32) | mask,
        ;
        let mut remainder = data;
        let mut k: usize = 0;
        while k < 10
            invariant
                data < 32,
                k <= 10,
                remainder == format_remainder(data, k as nat),
                remainder < 1024,
            decreases 10 - k,
        {
            assert((remainder >> 9u32) <= 1u32) by (bit_vector)
                requires
                    remainder < 1024u32,
            ;
            let next = (remainder << 1) ^ ((remainder >> 9) * 0x537);
            assert(((remainder << 1u32) ^ (((remainder >> 9u32) * 0x537u32) as u32)) < 1024u32)
                by (bit_vector)
                requires
                    remainder < 1024u32,
            ;
            remainder = next;
            k += 1;
        }
        let bits = ((data << 10) | remainder) ^ 0x5412;
        let ghost word = format_word(level_bits, mask);
        assert(bits == word);
        let size = self.size;
        let ghost s = size as int;
        let ghost start_m = self.modules@;
        let ghost start_f = self.function@;
        let ghost value = format_value(s, word);
        proof {
            lemma_paint_skip(start_m, s, format_progress_first(0), |a: int, b: int| false, value);
            lemma_paint_skip(start_f, s, format_progress_first(0), |a: int, b: int| false, constant(true));
            assert(paint(start_m, s, |a: int, b: int| false, value) =~= start_m);
            assert(paint(start_f, s, |a: int, b: int| false, constant(true)) =~= start_f);
        }
        let mut i: u32 = 0;
        while i < 15
            invariant
                self.wf(),
                self.size == size == s,
                i <= 15,
                bits == word,
                value == format_value(s, word),
                self.modules@ == paint(start_m, s, format_progress_first(i as int), value),
                self.function@ == paint(start_f, s, format_progress_first(i as int), constant(true)),
            decreases 15 - i,
        {
            let (x, y): (usize, usize) = if i < 6 {
                (8, i as usize)
            } else if i == 6 {
                (8, 7)
            } else if i == 7 {
                (8, 8)
            } else if i == 8 {
                (7, 8)
            } else {
                (14 - i as usize, 8)
            };
            let dark = bit(bits, i);
            proof {
                lemma_paint_extend(start_m, s, format_progress_first(i as int), format_progress_first(i + 1), value, x as int, y as int, dark);
                lemma_paint_extend(start_f, s, format_progress_first(i as int), format_progress_first(i + 1), constant(true), x as int, y as int, true);
            }
            self.set_function(x, y, dark);
            i += 1;
        }
        proof {
            lemma_paint_skip(start_m, s, format_progress_first(15), format_progress_second(s, 0), value);
            lemma_paint_skip(start_f, s, format_progress_first(15), format_progress_second(s, 0), constant(true));
        }
        let mut i: u32 = 0;
        while i < 15
            invariant
                self.wf(),
                self.size == size == s,
                i <= 15,
                bits == word,
                value == format_value(s, word),
                self.modules@ == paint(start_m, s, format_progress_second(s, i as int), value),
                self.function@ == paint(start_f, s, format_progress_second(s, i as int), constant(true)),
            decreases 15 - i,
        {
            let (x, y): (usize, usize) = if i < 8 {
                (size - 1 - i as usize, 8)
            } else {
                (8, size - 15 + i as usize)
            };
            let dark = bit(bits, i);
            proof {
                lemma_paint_extend(start_m, s, format_progress_second(s, i as int), format_progress_second(s, i + 1), value, x as int, y as int, dark);
                lemma_paint_extend(start_f, s, format_progress_second(s, i as int), format_progress_second(s, i + 1), constant(true), x as int, y as int, true);
            }
            self.set_function(x, y, dark);
            i += 1;
        }
        proof {
            lemma_paint_extend(start_m, s, format_progress_second(s, 15), format_region(s), value, 8, s - 8, true);
            lemma_paint_extend(start_f, s, format_progress_second(s, 15), format_region(s), constant(true), 8, s - 8, true);
        }
        self.set_function(8, size - 8, true);
    }


    /// Places the codeword bits in the zigzag order: two-module columns
    /// from the right, alternately upwards and downwards, skipping the
    /// vertical timing pattern.
    pub fn draw_codewords(&mut self, codewords: &[u8])
        requires
            old(self).wf(),
            old(self).size % 2 == 1,
            codewords.len() <= 4096,
        ensures
            final(self).wf(),
            final(self).size == old(self).size,
            final(self).function@ == old(self).function@,
            final(self).modules@ == place_bits(
                old(self).modules@,
                old(self).function@,
                old(self).size as int,
                codewords@,
                zigzag_pairs(old(self).size as int) * 2 * old(self).size,
            ).0,
    {
        let size = self.size;
        let ghost s = size as int;
        let ghost start = self.modules@;
        let ghost function = self.function@;
        let total_bits = codewords.len() * 8;
        let mut index: usize = 0;
        let pairs = (size - 1) / 2;
        let mut p: usize = 0;
        let ghost mut k: int = 0;
        while p < pairs
            invariant
                self.wf(),
                self.size == size == s,
                size % 2 == 1,
                self.function@ == function,
                pairs == zigzag_pairs(s),
                total_bits == codewords.len() * 8,
                p <= pairs,
                k == p * (2 * s),
                (self.modules@, index as int) == place_bits(start, function, s, codewords@, k),
                index <= total_bits,
            decreases pairs - p,
        {
            let right = if size - 1 - 2 * p > 6 {
                size - 1 - 2 * p
            } else {
                size - 2 - 2 * p
            };
            assert(right >= 1);
            let next = right + 1;
            let upwards = next & 2 == 0;
            assert(upwards == ((next / 2) % 2 == 0)) by (bit_vector)
                requires
                    upwards == (next & 2 == 0),
            ;
            let mut vertical: usize = 0;
            while vertical < size
                invariant
                    self.wf(),
                    self.size == size == s,
                    size % 2 == 1,
                    self.function@ == function,
                    pairs == zigzag_pairs(s),
                    total_bits == codewords.len() * 8,
                    p < pairs,
                    right == zigzag_right(s, p as int),
                    1 <= right < size,
                    upwards == (((right + 1) / 2) % 2 == 0),
                    vertical <= size,
                    k == p * (2 * s) + 2 * vertical,
                    (self.modules@, index as int) == place_bits(start, function, s, codewords@, k),
                    index <= total_bits,
                decreases size - vertical,
            {
                let mut j: usize = 0;
                while j < 2
                    invariant
                        self.wf(),
                        self.size == size == s,
                        self.function@ == function,
                        total_bits == codewords.len() * 8,
                        p < pairs,
                        right == zigzag_right(s, p as int),
                        1 <= right < size,
                        upwards == (((right + 1) / 2) % 2 == 0),
                        vertical < size,
                        j <= 2,
                        k == p * (2 * s) + 2 * vertical + j,
                        (self.modules@, index as int) == place_bits(start, function, s, codewords@, k),
                        index <= total_bits,
                    decreases 2 - j,
                {
                    let x = right - j;
                    let y = if upwards {
                        size - 1 - vertical
                    } else {
                        vertical
                    };
                    proof {
                        lemma_fundamental_div_mod_converse(k, 2 * s, p as int, 2 * vertical + j);
                        lemma_index(x as int, y as int, s);
                        assert(zigzag_x(s, k) == x);
                        assert(zigzag_y(s, k) == y);
                    }
                    let i = y * size + x;
                    if !self.function[i] && index < total_bits {
                        let bit = (codewords[index / 8] >> (7 - index % 8) as u8) & 1 == 1;
                        self.modules.set(i, bit);
                        index += 1;
                    }
                    proof {
                        k = k + 1;
                    }
                    j += 1;
                }
                vertical += 1;
            }
            assert((p + 1) * (2 * s) == p * (2 * s) + 2 * s) by (nonlinear_arith);
            p += 1;
        }
        assert(k == zigzag_pairs(s) * 2 * s) by (nonlinear_arith)
            requires
                k == pairs * (2 * s),
                pairs == zigzag_pairs(s),
        ;
    }

    /// XORs the data modules with mask pattern `mask`; applying it twice undoes it.
    pub fn apply_mask(&mut self, mask: u32)
        requires
            old(self).wf(),
        ensures
            final(self).wf(),
            final(self).size == old(self).size,
            final(self).function@ == old(self).function@,
            final(self).modules@ == masked(
                old(self).modules@,
                old(self).function@,
                old(self).size as int,
                mask,
            ),
    {
        let size = self.size;
        let ghost start = self.modules@;
        let total = size * size;
        let mut i: usize = 0;
        while i < total
            invariant
                self.wf(),
                self.size == size,
                total == size * size,
                self.function@ == old(self).function@,
                i <= total,
                start == old(self).modules@,
                start.len() == total,
                forall|t: int|
                    0 <= t < total ==> #[trigger] self.modules@[t] == if t < i {
                        masked(start, self.function@, size as int, mask)[t]
                    } else {
                        start[t]
                    },
            decreases total - i,
        {
            let x = i % size;
            let y = i / size;
            proof {
                lemma_coordinates(i as int, size as int);
                assert(x * y <= 177 * 177) by (nonlinear_arith)
                    requires
                        x < 177,
                        y < 177,
                ;
            }
            let invert = match mask {
                0 => (x + y) % 2 == 0,
                1 => y % 2 == 0,
                2 => x % 3 == 0,
                3 => (x + y) % 3 == 0,
                4 => (x / 3 + y / 2) % 2 == 0,
                5 => x * y % 2 + x * y % 3 == 0,
                6 => (x * y % 2 + x * y % 3) % 2 == 0,
                _ => ((x + y) % 2 + x * y % 3) % 2 == 0,
            };
            assert(invert == mask_inverts(mask, x as int, y as int));
            assert(column_of(i as int, size as int) == x as int);
            assert(row_of(i as int, size as int) == y as int);
            if invert && !self.function[i] {
                let flipped = !self.modules[i];
                self.modules.set(i, flipped);
            }
            i += 1;
        }
        assert(self.modules@ =~= masked(start, self.function@, size as int, mask));
    }


    /// Penalty of row `a` (or of column `a`, `transposed`).
    fn line_penalty(&self, transposed: bool, a: usize) -> (score: usize)
        requires
            self.wf(),
            a < self.size,
        ensures
            score == line_penalty_spec(self.modules@, self.size as int, transposed, a as int),
            score <= 83 * self.size + 80,
    {
        let size = self.size;
        let mut color = false;
        let mut length: usize = 0;
        let mut history: [usize; 7] = [0, 0, 0, 0, 0, 0, 0];
        let mut score: usize = 0;
        assert(history_view(history) =~= seq![0int, 0, 0, 0, 0, 0, 0]);
        let mut b: usize = 0;
        while b < size
            invariant
                self.wf(),
                size == self.size,
                a < size,
                b <= size,
                (color, length as int, history_view(history), score as int) == run_scan(
                    self.modules@,
                    size as int,
                    transposed,
                    a as int,
                    b as int,
                ),
                length <= b,
                forall|k: int| 0 <= k < 7 ==> history@[k] <= 3 * size,
                score <= 83 * b,
            decreases size - b,
        {
            let module = if transposed {
                self.get(a, b)
            } else {
                self.get(b, a)
            };
            if module == color {
                length += 1;
                score += if length == 5 {
                    3
                } else if length > 5 {
                    1
                } else {
                    0
                };
            } else {
                history = add_history(length, history, size);
                if !color {
                    score += finder_patterns(&history) * 40;
                }
                color = module;
                length = 1;
            }
            b += 1;
        }
        if color {
            history = add_history(length, history, size);
            length = 0;
        }
        history = add_history(length + size, history, size);
        score + finder_patterns(&history) * 40
    }

    /// Penalty score used to pick the mask: long runs, 2 × 2 blocks,
    /// finder-like patterns and the dark/light balance.
    pub fn penalty(&self) -> (score: usize)
        requires
            self.wf(),
            self.size % 2 == 1,
        ensures
            score == penalty_spec(self.modules@, self.size as int),
            score <= 6_000_000,
    {
        let size = self.size;
        let ghost grid = self.modules@;
        let ghost s = size as int;
        let mut result: usize = 0;
        let mut a: usize = 0;
        while a < size
            invariant
                self.wf(),
                size == self.size == s,
                grid == self.modules@,
                a <= size,
                result == lines_penalty(grid, s, false, a as int),
                result <= a * 15000,
            decreases size - a,
        {
            let line = self.line_penalty(false, a);
            assert((a + 1) * 15000 == a * 15000 + 15000) by (nonlinear_arith);
            result += line;
            a += 1;
        }
        let rows = result;
        result = 0;
        a = 0;
        while a < size
            invariant
                self.wf(),
                size == self.size == s,
                grid == self.modules@,
                a <= size,
                rows <= 177 * 15000,
                result == lines_penalty(grid, s, true, a as int),
                result <= a * 15000,
            decreases size - a,
        {
            let line = self.line_penalty(true, a);
            assert((a + 1) * 15000 == a * 15000 + 15000) by (nonlinear_arith);
            result += line;
            a += 1;
        }
        let columns = result;
        let mut blocks: usize = 0;
        let mut y: usize = 0;
        while y < size - 1
            invariant
                self.wf(),
                size == self.size == s,
                grid == self.modules@,
                y <= size - 1,
                blocks == blocks_in_rows(grid, s, y as int),
                blocks <= y * 177,
            decreases size - 1 - y,
        {
            let mut x: usize = 0;
            let mut in_row: usize = 0;
            while x < size - 1
                invariant
                    self.wf(),
                    size == self.size == s,
                    grid == self.modules@,
                    y < size - 1,
                    x <= size - 1,
                    in_row == blocks_in_row(grid, s, y as int, x as int),
                    in_row <= x,
                decreases size - 1 - x,
            {
                let color = self.get(x, y);
                if color == self.get(x + 1, y) && color == self.get(x, y + 1) && color == self.get(
                    x + 1,
                    y + 1,
                ) {
                    in_row += 1;
                }
                x += 1;
            }
            assert((y + 1) * 177 == y * 177 + 177) by (nonlinear_arith);
            blocks += in_row;
            y += 1;
        }
        let total = size * size;
        let mut dark: usize = 0;
        let mut i: usize = 0;
        while i < total
            invariant
                self.wf(),
                total == size * size == self.modules.len(),
                grid == self.modules@,
                i <= total,
                dark == dark_count(grid.take(i as int)),
                dark <= i,
            decreases total - i,
        {
            assert(grid.take(i + 1).drop_last() =~= grid.take(i as int));
            if self.modules[i] {
                dark += 1;
            }
            i += 1;
        }
        assert(grid.take(total as int) =~= grid);
        let ghost q = size / 2;
        assert(total == 2 * (2 * q * q + 2 * q) + 1) by (nonlinear_arith)
            requires
                size == 2 * q + 1,
                total == size * size,
        ;
        assert(total <= 177 * 177) by (nonlinear_arith)
            requires
                size <= 177,
                total == size * size,
        ;
        let deviation = if dark * 20 >= total * 10 {
            dark * 20 - total * 10
        } else {
            total * 10 - dark * 20
        };
        assert(deviation >= 1);
        assert(1 <= (deviation + total - 1) / (total as int) <= 20) by (nonlinear_arith)
            requires
                1 <= deviation <= total * 20,
                total > 0,
        ;
        let k = (deviation + total - 1) / total - 1;
        rows + columns + 3 * blocks + k * 10
    }

}


/// Places the function patterns and the codewords, then applies the
/// mask with the lowest penalty.
pub fn draw_symbol(version: u8, level_bits: u32, codewords: &[u8]) -> (modules: Vec<bool>)
    requires
        1 <= version <= 40,
        level_bits < 4,
        codewords.len() <= 4096,
    ensures
        modules@ == symbol(version as int * 4 + 17, version as int, level_bits, codewords@),
        modules@.len() == (version as int * 4 + 17) * (version as int * 4 + 17),
{
    let size = version as usize * 4 + 17;
    let ghost s = size as int;
    let ghost v = version as int;
    assert(size * size <= 177 * 177) by (nonlinear_arith)
        requires
            size <= 177,
    ;
    let total = size * size;
    let mut modules: Vec<bool> = Vec::new();
    let mut function: Vec<bool> = Vec::new();
    while modules.len() < total
        invariant
            total == size * size,
            modules.len() == function.len() <= total,
            forall|i: int| 0 <= i < modules.len() ==> !modules@[i] && !function@[i],
        decreases total - modules.len(),
    {
        modules.push(false);
        function.push(false);
    }
    let mut canvas = Canvas { size, modules, function };
    assert(canvas.modules@ =~= light_grid(s));
    assert(canvas.function@ =~= light_grid(s));
    canvas.draw_function_patterns(version);
    canvas.draw_format_bits(level_bits, 0);
    let ghost flags = canvas.function@;
    assert(flags == pattern_flags(s, v));
    assert(canvas.modules@ == pattern_modules(s, v, level_bits));
    canvas.draw_codewords(codewords);
    let ghost data = canvas.modules@;
    let ghost region = format_region(s);
    proof {
        lemma_data_grid_format(s, v, level_bits, codewords@);
        assert(data == data_grid(s, v, level_bits, codewords@));
        lemma_paint_repaint(
            function_patterns(light_grid(s), s, v, true),
            s,
            region,
            constant(true),
            constant(true),
        );
    }
    let mut best_penalty: usize = usize::MAX;
    let mut best_mask: u32 = 0;
    let ghost mut previous: u32 = 0;
    let mut mask: u32 = 0;
    while mask < 8
        invariant
            canvas.wf(),
            canvas.size == size == s,
            s == v * 4 + 17,
            1 <= v <= 40,
            level_bits < 4,
            canvas.function@ == flags,
            flags == pattern_flags(s, v),
            data == data_grid(s, v, level_bits, codewords@),
            region == format_region(s),
            data.len() == s * s,
            paint(flags, s, region, constant(true)) == flags,
            forall|i: int|
                0 <= i < s * s && region(column_of(i, s), row_of(i, s)) ==> flags[i],
            mask <= 8,
            canvas.modules@ == paint(data, s, region, format_value(s, format_word(level_bits, previous))),
            best_mask < 8,
            mask == 0 ==> best_penalty == usize::MAX && best_mask == 0,
            mask > 0 ==> best_mask == best_mask_below(s, v, level_bits, codewords@, mask as int),
            mask > 0 ==> best_penalty == penalty_spec(candidate(s, v, level_bits, codewords@, best_mask), s),
        decreases 8 - mask,
    {
        proof {
            lemma_mask_skips_function(data, flags, s, mask, region, format_value(s, format_word(level_bits, previous)));
        }
        canvas.apply_mask(mask);
        canvas.draw_format_bits(level_bits, mask);
        proof {
            lemma_paint_repaint(masked(data, flags, s, mask), s, region, format_value(s, format_word(level_bits, previous)), format_value(s, format_word(level_bits, mask)));
        }
        assert(canvas.modules@ == candidate(s, v, level_bits, codewords@, mask));
        let penalty = canvas.penalty();
        if penalty < best_penalty {
            best_penalty = penalty;
            best_mask = mask;
        }
        proof {
            lemma_mask_skips_function(masked(data, flags, s, mask), flags, s, mask, region, format_value(s, format_word(level_bits, mask)));
            lemma_mask_involution(data, flags, s, mask);
            previous = mask;
        }
        canvas.apply_mask(mask);
        mask += 1;
    }
    proof {
        lemma_mask_skips_function(data, flags, s, best_mask, region, format_value(s, format_word(level_bits, previous)));
    }
    canvas.apply_mask(best_mask);
    canvas.draw_format_bits(level_bits, best_mask);
    proof {
        lemma_paint_repaint(masked(data, flags, s, best_mask), s, region, format_value(s, format_word(level_bits, previous)), format_value(s, format_word(level_bits, best_mask)));
    }
    canvas.modules
}

/// The version information words of versions 7 to 40 as the QR code
/// standard lists them.
pub open spec fn listed_version_information(v: int) -> u32 {
    if v == 7 {
        0x07C94
    } else if v == 8 {
        0x085BC
    } else if v == 9 {
        0x09A99
    } else if v == 10 {
        0x0A4D3
    } else if v == 11 {
        0x0BBF6
    } else if v == 12 {
        0x0C762
    } else if v == 13 {
        0x0D847
    } else if v == 14 {
        0x0E60D
    } else if v == 15 {
        0x0F928
    } else if v == 16 {
        0x10B78
    } else if v == 17 {
        0x1145D
    } else if v == 18 {
        0x12A17
    } else if v == 19 {
        0x13532
    } else if v == 20 {
        0x149A6
    } else if v == 21 {
        0x15683
    } else if v == 22 {
        0x168C9
    } else if v == 23 {
        0x177EC
    } else if v == 24 {
        0x18EC4
    } else if v == 25 {
        0x191E1
    } else if v == 26 {
        0x1AFAB
    } else if v == 27 {
        0x1B08E
    } else if v == 28 {
        0x1CC1A
    } else if v == 29 {
        0x1D33F
    } else if v == 30 {
        0x1ED75
    } else if v == 31 {
        0x1F250
    } else if v == 32 {
        0x209D5
    } else if v == 33 {
        0x216F0
    } else if v == 34 {
        0x228BA
    } else if v == 35 {
        0x2379F
    } else if v == 36 {
        0x24B0B
    } else if v == 37 {
        0x2542E
    } else if v == 38 {
        0x26A64
    } else if v == 39 {
        0x27541
    } else {
        0x28C69
    }
}

proof fn lemma_version_words_computed()
    by (bit_vector)
    ensures
        version_word(7u32) == 0x07C94u32,
        version_word(8u32) == 0x085BCu32,
        version_word(9u32) == 0x09A99u32,
        version_word(10u32) == 0x0A4D3u32,
        version_word(11u32) == 0x0BBF6u32,
        version_word(12u32) == 0x0C762u32,
        version_word(13u32) == 0x0D847u32,
        version_word(14u32) == 0x0E60Du32,
        version_word(15u32) == 0x0F928u32,
        version_word(16u32) == 0x10B78u32,
        version_word(17u32) == 0x1145Du32,
        version_word(18u32) == 0x12A17u32,
        version_word(19u32) == 0x13532u32,
        version_word(20u32) == 0x149A6u32,
        version_word(21u32) == 0x15683u32,
        version_word(22u32) == 0x168C9u32,
        version_word(23u32) == 0x177ECu32,
        version_word(24u32) == 0x18EC4u32,
        version_word(25u32) == 0x191E1u32,
        version_word(26u32) == 0x1AFABu32,
        version_word(27u32) == 0x1B08Eu32,
        version_word(28u32) == 0x1CC1Au32,
        version_word(29u32) == 0x1D33Fu32,
        version_word(30u32) == 0x1ED75u32,
        version_word(31u32) == 0x1F250u32,
        version_word(32u32) == 0x209D5u32,
        version_word(33u32) == 0x216F0u32,
        version_word(34u32) == 0x228BAu32,
        version_word(35u32) == 0x2379Fu32,
        version_word(36u32) == 0x24B0Bu32,
        version_word(37u32) == 0x2542Eu32,
        version_word(38u32) == 0x26A64u32,
        version_word(39u32) == 0x27541u32,
        version_word(40u32) == 0x28C69u32,
{
}

/// The version information of versions 7 to 40 is the word that the QR
/// code standard lists: the version followed by its BCH(18, 6) code with
/// generator x^12+x^11+x^10+x^9+x^8+x^5+x^2+1.
pub proof fn lemma_version_information_is_standard(v: int)
    requires
        7 <= v <= 40,
    ensures
        version_word(v as u32) == listed_version_information(v),
{
    lemma_version_words_computed();
}

} // verus!
