//! Phase-aligned source ranges for min/max envelope columns.
//!
//! In envelope mode each output column summarizes a half-open range of
//! source samples. The ranges split the samples evenly over the columns,
//! with the remainder distributed by a phase taken from the transport
//! position, so that column boundaries advance steadily as the window
//! scrolls.

use vstd::prelude::*;

verus! {

/// The transport phase, in columns, that offsets every column boundary.
pub open spec fn column_phase(columns: int, start_sample: int) -> int {
    start_sample % columns
}

/// The first source sample of column `column`.
pub open spec fn column_start(sample_count: int, columns: int, start_sample: int, column: int) -> int {
    (column * sample_count + column_phase(columns, start_sample)) / columns
}

/// The half-open source range of column `column`; empty when there are no
/// samples or no columns.
pub open spec fn phase_bounds_spec(
    sample_count: usize,
    columns: usize,
    start_sample: u64,
    column: usize,
) -> (usize, usize) {
    if sample_count == 0 || columns == 0 {
        (0, 0)
    } else {
        (
            column_start(sample_count as int, columns as int, start_sample as int, column as int)
                as usize,
            column_start(
                sample_count as int,
                columns as int,
                start_sample as int,
                column + 1,
            ) as usize,
        )
    }
}

/// Compute one phase-aligned source range for an envelope column.
pub fn phase_aligned_column_bounds(
    sample_count: usize,
    columns: usize,
    start_sample: u64,
    column: usize,
) -> (bounds: (usize, usize))
    ensures
        bounds == phase_bounds_spec(sample_count, columns, start_sample, column),
{
    if sample_count == 0 || columns == 0 {
        return (0, 0);
    }
    let n = sample_count as u128;
    let c = columns as u128;
    let phase = (start_sample % (columns as u64)) as u128;
    proof {
        assert(column * sample_count <= 0xffff_ffff_ffff_ffff * 0xffff_ffff_ffff_ffff)
            by (nonlinear_arith)
            requires
                column <= 0xffff_ffff_ffff_ffff,
                sample_count <= 0xffff_ffff_ffff_ffff,
        ;
        assert((column + 1) * sample_count <= 0x1_0000_0000_0000_0000 * 0xffff_ffff_ffff_ffff)
            by (nonlinear_arith)
            requires
                column + 1 <= 0x1_0000_0000_0000_0000,
                sample_count <= 0xffff_ffff_ffff_ffff,
        ;
        assert(phase < 0x1_0000_0000_0000_0000);
    }
    let start = ((column as u128) * n + phase) / c;
    let end = ((column as u128 + 1) * n + phase) / c;
    (start as usize, end as usize)
}

/// Column ranges tile the source samples: the first column starts at the
/// first sample, each column ends where the next one starts, no column
/// runs backwards, and the last column ends at the last sample.
pub proof fn law_column_bounds_tile_the_samples(
    sample_count: usize,
    columns: usize,
    start_sample: u64,
    column: usize,
)
    requires
        sample_count > 0,
        column < columns,
    ensures
        phase_bounds_spec(sample_count, columns, start_sample, 0).0 == 0,
        phase_bounds_spec(sample_count, columns, start_sample, column).0 <= phase_bounds_spec(
            sample_count,
            columns,
            start_sample,
            column,
        ).1,
        column + 1 < columns ==> phase_bounds_spec(sample_count, columns, start_sample, column).1
            == phase_bounds_spec(sample_count, columns, start_sample, (column + 1) as usize).0,
        phase_bounds_spec(sample_count, columns, start_sample, (columns - 1) as usize).1
            == sample_count,
{
    let n = sample_count as int;
    let c = columns as int;
    let phase = column_phase(c, start_sample as int);
    vstd::arithmetic::div_mod::lemma_mod_bound(start_sample as int, c);
    assert(phase / c == 0) by (nonlinear_arith)
        requires
            0 <= phase < c,
    ;
    assert(0 * n == 0);
    assert((c * n + phase) / c == n) by (nonlinear_arith)
        requires
            0 <= phase < c,
            c >= 1,
    ;
    assert(column * n <= (column + 1) * n <= c * n) by (nonlinear_arith)
        requires
            0 <= column < c,
            n >= 1,
    ;
    assert(((columns - 1) as int + 1) == c);
    vstd::arithmetic::div_mod::lemma_div_is_ordered(column * n + phase, (column + 1) * n + phase, c);
    vstd::arithmetic::div_mod::lemma_div_is_ordered((column + 1) * n + phase, c * n + phase, c);
    vstd::arithmetic::div_mod::lemma_div_pos_is_pos(column * n + phase, c);
}

/// The range of one column after clamping: it starts on an existing sample
/// and holds at least one sample.
pub open spec fn clamped_column_bounds(
    sample_count: usize,
    columns: usize,
    start_sample: u64,
    column: usize,
) -> (usize, usize) {
    let (start, end) = phase_bounds_spec(sample_count, columns, start_sample, column);
    let start = if start >= sample_count {
        (sample_count - 1) as usize
    } else {
        start
    };
    let end = if end <= start {
        if start + 1 < sample_count {
            (start + 1) as usize
        } else {
            sample_count
        }
    } else {
        end
    };
    (start, end)
}

/// The clamped ranges of all columns, none when there are no samples or
/// no columns.
pub open spec fn column_bounds_seq(sample_count: usize, columns: usize, start_sample: u64) -> Seq<
    (usize, usize),
> {
    if sample_count == 0 || columns == 0 {
        Seq::empty()
    } else {
        Seq::new(
            columns as nat,
            |column: int| clamped_column_bounds(sample_count, columns, start_sample, column as usize),
        )
    }
}

/// Fill one reusable vector with clamped phase-aligned source ranges.
pub fn fill_phase_aligned_column_bounds_into(
    sample_count: usize,
    columns: usize,
    start_sample: u64,
    out: &mut Vec<(usize, usize)>,
)
    ensures
        final(out)@ == column_bounds_seq(sample_count, columns, start_sample),
{
    out.clear();
    if sample_count == 0 || columns == 0 {
        return;
    }
    let mut column: usize = 0;
    while column < columns
        invariant
            sample_count > 0,
            column <= columns,
            out@ == column_bounds_seq(sample_count, columns, start_sample).take(column as int),
        decreases columns - column,
    {
        let (mut start, mut end) = phase_aligned_column_bounds(
            sample_count,
            columns,
            start_sample,
            column,
        );
        if start >= sample_count {
            start = sample_count - 1;
        }
        if end <= start {
            end = if start + 1 < sample_count {
                start + 1
            } else {
                sample_count
            };
        }
        out.push((start, end));
        proof {
            assert(column_bounds_seq(sample_count, columns, start_sample).take(column + 1)
                == column_bounds_seq(sample_count, columns, start_sample).take(column as int).push(
                (start, end),
            ));
        }
        column = column + 1;
    }
    proof {
        assert(column_bounds_seq(sample_count, columns, start_sample).take(columns as int)
            == column_bounds_seq(sample_count, columns, start_sample));
    }
}

/// Every clamped column range holds at least one sample and lies inside
/// the source.
pub proof fn law_clamped_columns_are_nonempty_and_in_range(
    sample_count: usize,
    columns: usize,
    start_sample: u64,
    column: usize,
)
    requires
        sample_count > 0,
        column < columns,
    ensures
        clamped_column_bounds(sample_count, columns, start_sample, column).0
            < clamped_column_bounds(sample_count, columns, start_sample, column).1
            <= sample_count,
{
    law_column_bounds_tile_the_samples(sample_count, columns, start_sample, column);
    law_column_bounds_tile_the_samples(sample_count, columns, start_sample, (columns - 1) as usize);
    let n = sample_count as int;
    let c = columns as int;
    let phase = column_phase(c, start_sample as int);
    vstd::arithmetic::div_mod::lemma_mod_bound(start_sample as int, c);
    assert((column + 1) * n <= c * n) by (nonlinear_arith)
        requires
            0 <= column < c,
            n >= 1,
    ;
    vstd::arithmetic::div_mod::lemma_div_is_ordered((column + 1) * n + phase, c * n + phase, c);
    assert((c * n + phase) / c == n) by (nonlinear_arith)
        requires
            0 <= phase < c,
            c >= 1,
    ;
}

/// Moving the window start by a whole number of columns' worth of samples
/// leaves every column range unchanged: the phase repeats with the column
/// cadence.
pub proof fn law_column_phase_repeats_every_columns_samples(
    sample_count: usize,
    columns: usize,
    start_sample: u64,
    column: usize,
    shift: u64,
)
    requires
        columns > 0,
        start_sample + shift * columns <= u64::MAX,
    ensures
        phase_bounds_spec(sample_count, columns, (start_sample + shift * columns) as u64, column)
            == phase_bounds_spec(sample_count, columns, start_sample, column),
{
    vstd::arithmetic::div_mod::lemma_mod_multiples_vanish(
        shift as int,
        start_sample as int,
        columns as int,
    );
    assert(shift * columns == columns * shift) by (nonlinear_arith);
}

} // verus!
