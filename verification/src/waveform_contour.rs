//! Contour columns, polylines and glow emission for waveform channels.
//!
//! A channel's contour is a sequence of pixel points, one per column. It is
//! drawn either as individual line segments or as one batched polyline
//! whose consecutive duplicate points are removed, and it can be surrounded
//! by glow layers: copies shifted up or down, clamped to the channel's lane,
//! sampled at coarser strides and drawn with fading alpha.

use vstd::prelude::*;

use crate::arith::{ceil_div_spec, lemma_ceil_div_is_smallest, lemma_div_is_largest};
use crate::size_contract::clamp_int;
use crate::waveform::{commands_view, Color, CommandView, LaneBounds, Point, SurfaceCommand};
use crate::waveform_glow::{
    outline_layer_alpha, outline_layer_alpha_spec, sat_mul, saturating_mul_usize, with_alpha,
    with_alpha_spec, GlowPlan,
};

verus! {

/// The pixel column of point `point_index` out of `points` spread evenly
/// over `0..=x_max`, rounded to nearest; one point per pixel maps exactly.
pub open spec fn point_x_spec(point_index: int, points: int, x_max: int) -> int {
    if points <= 1 || x_max <= 0 {
        0
    } else if points == x_max + 1 {
        point_index
    } else {
        (point_index * x_max + (points - 1) / 2) / (points - 1)
    }
}

proof fn lemma_point_x_range(point_index: int, points: int, x_max: int)
    requires
        0 <= point_index < points,
        x_max <= i32::MAX,
    ensures
        0 <= point_x_spec(point_index, points, x_max),
        x_max >= 0 ==> point_x_spec(point_index, points, x_max) <= x_max,
{
    if points > 1 && x_max > 0 && points != x_max + 1 {
        let d = points - 1;
        let numerator = point_index * x_max + d / 2;
        assert(0 <= d / 2 < d) by (nonlinear_arith)
            requires
                d >= 1,
        ;
        assert(0 <= point_index * x_max <= d * x_max) by (nonlinear_arith)
            requires
                0 <= point_index <= d,
                x_max >= 0,
        ;
        assert(numerator < (x_max + 1) * d) by (nonlinear_arith)
            requires
                numerator == point_index * x_max + d / 2,
                point_index * x_max <= d * x_max,
                d / 2 < d,
        ;
        lemma_div_is_largest(numerator, d, x_max + 1);
        vstd::arithmetic::div_mod::lemma_div_pos_is_pos(numerator, d);
    }
}

/// Map one point index to a rounded pixel-space x coordinate.
pub fn point_x(point_index: usize, points: usize, x_max: i32) -> (x: i32)
    requires
        point_index < points,
    ensures
        x == point_x_spec(point_index as int, points as int, x_max as int),
{
    if points <= 1 || x_max <= 0 {
        return 0;
    }
    if points as u64 == x_max as u64 + 1 {
        return point_index as i32;
    }
    proof {
        lemma_point_x_range(point_index as int, points as int, x_max as int);
        assert(point_index * x_max <= 0x1_0000_0000_0000_0000 * 0x8000_0000) by (nonlinear_arith)
            requires
                0 <= point_index < 0x1_0000_0000_0000_0000,
                0 <= x_max < 0x8000_0000,
        ;
    }
    let denominator = (points - 1) as u128;
    let numerator = (point_index as u128) * (x_max as u128) + denominator / 2;
    (numerator / denominator) as i32
}

/// Evenly spread points cover the pixel columns from the left edge to the
/// right edge, in order.
pub proof fn law_point_x_spans_columns_in_order(points: usize, x_max: i32, i: usize, j: usize)
    requires
        points >= 2,
        x_max >= 1,
        i <= j < points,
    ensures
        point_x_spec(0, points as int, x_max as int) == 0,
        point_x_spec(points - 1, points as int, x_max as int) == x_max,
        point_x_spec(i as int, points as int, x_max as int) <= point_x_spec(
            j as int,
            points as int,
            x_max as int,
        ),
{
    let d = points - 1;
    if points != x_max + 1 {
        assert(0 <= d / 2 < d) by (nonlinear_arith)
            requires
                d >= 1,
        ;
        assert((d / 2) / (d as int) == 0) by (nonlinear_arith)
            requires
                d >= 1,
                0 <= d / 2 < d,
        ;
        assert(0 * x_max == 0);
        assert((d * x_max + d / 2) / (d as int) == x_max) by (nonlinear_arith)
            requires
                d >= 1,
                0 <= d / 2 < d,
                x_max >= 1,
        ;
        assert(i * x_max <= j * x_max) by (nonlinear_arith)
            requires
                i <= j,
                x_max >= 1,
        ;
        vstd::arithmetic::div_mod::lemma_div_is_ordered(
            i * x_max + d / 2,
            j * x_max + d / 2,
            d as int,
        );
    }
}

/// The points with every run of equal consecutive points collapsed to one.
pub open spec fn compact_points(points: Seq<Point>) -> Seq<Point>
    decreases points.len(),
{
    if points.len() == 0 {
        points
    } else {
        let prefix = compact_points(points.drop_last());
        if prefix.len() > 0 && prefix.last() == points.last() {
            prefix
        } else {
            prefix.push(points.last())
        }
    }
}

/// Remove consecutive duplicate points while preserving deterministic order.
pub fn compact_polyline_points(points: &[Point]) -> (compact: Vec<Point>)
    ensures
        compact@ == compact_points(points@),
{
    let mut compact: Vec<Point> = Vec::new();
    let mut i: usize = 0;
    while i < points.len()
        invariant
            i <= points.len(),
            compact@ == compact_points(points@.take(i as int)),
        decreases points.len() - i,
    {
        let point = points[i];
        proof {
            assert(points@.take(i + 1).drop_last() == points@.take(i as int));
            assert(points@.take(i + 1).last() == point);
        }
        let n = compact.len();
        if n == 0 || compact[n - 1] != point {
            compact.push(point);
        }
        i = i + 1;
    }
    proof {
        assert(points@.take(points.len() as int) == points@);
    }
    compact
}

/// Whether no two consecutive points are equal.
pub open spec fn no_consecutive_repeats(points: Seq<Point>) -> bool {
    forall|i: int, j: int| 0 <= i && j == i + 1 && j < points.len() ==> points[i] != points[j]
}

/// A compacted polyline never repeats a point twice in a row, keeps the
/// first and last points, and is no longer than the original.
pub proof fn law_compact_points_has_no_repeats(points: Seq<Point>)
    ensures
        no_consecutive_repeats(compact_points(points)),
        compact_points(points).len() <= points.len(),
        points.len() > 0 ==> compact_points(points).len() > 0 && compact_points(points)[0]
            == points[0] && compact_points(points).last() == points.last(),
    decreases points.len(),
{
    if points.len() > 0 {
        let prefix = points.drop_last();
        law_compact_points_has_no_repeats(prefix);
        if prefix.len() > 0 {
            assert(prefix[0] == points[0]);
        }
    }
}

proof fn lemma_compact_keeps_repeat_free(points: Seq<Point>)
    requires
        no_consecutive_repeats(points),
    ensures
        compact_points(points) == points,
    decreases points.len(),
{
    if points.len() > 0 {
        let prefix = points.drop_last();
        assert(no_consecutive_repeats(prefix)) by {
            assert forall|i: int, j: int|
                0 <= i && j == i + 1 && j < prefix.len() implies prefix[i] != prefix[j] by {
                assert(prefix[i] == points[i] && prefix[j] == points[j]);
            }
        }
        lemma_compact_keeps_repeat_free(prefix);
        if prefix.len() > 0 {
            assert(points[points.len() - 2] != points[points.len() - 1]);
        }
        assert(prefix.push(points.last()) == points);
    }
}

/// Compacting a compacted polyline changes nothing.
pub proof fn law_compact_points_is_idempotent(points: Seq<Point>)
    ensures
        compact_points(compact_points(points)) == compact_points(points),
{
    law_compact_points_has_no_repeats(points);
    lemma_compact_keeps_repeat_free(compact_points(points));
}

proof fn lemma_view_push(commands: Seq<SurfaceCommand>, command: SurfaceCommand)
    ensures
        commands_view(commands.push(command)) == commands_view(commands).push(command@),
{
    assert(commands_view(commands.push(command)) =~= commands_view(commands).push(command@));
}

/// The line segments between the first `k` points, skipping zero-length
/// segments.
pub open spec fn polyline_segments(points: Seq<Point>, color: Color, k: nat) -> Seq<CommandView>
    decreases k,
{
    if k < 2 {
        Seq::empty()
    } else {
        let prev = polyline_segments(points, color, (k - 1) as nat);
        let start = points[k - 2];
        let end = points[k - 1];
        if start == end {
            prev
        } else {
            prev.push(CommandView::Line { start, end, color })
        }
    }
}

/// The line segments a polyline is drawn as: none for fewer than two
/// points or a transparent color.
pub open spec fn polyline_lines(points: Seq<Point>, color: Color) -> Seq<CommandView> {
    if points.len() < 2 || color.a == 0 {
        Seq::empty()
    } else {
        polyline_segments(points, color, points.len())
    }
}

/// Emit a polyline as a deterministic sequence of line commands.
pub fn emit_polyline(commands: &mut Vec<SurfaceCommand>, points: &[Point], color: Color)
    ensures
        commands_view(final(commands)@) == commands_view(old(commands)@) + polyline_lines(
            points@,
            color,
        ),
{
    let ghost start = commands_view(commands@);
    if points.len() < 2 || color.a == 0 {
        proof {
            assert(start + Seq::<CommandView>::empty() == start);
        }
        return;
    }
    let mut i: usize = 1;
    proof {
        assert(start + polyline_segments(points@, color, 1) == start);
    }
    while i < points.len()
        invariant
            1 <= i <= points.len(),
            commands_view(commands@) == start + polyline_segments(points@, color, i as nat),
        decreases points.len() - i,
    {
        let a = points[i - 1];
        let b = points[i];
        if a.x == b.x && a.y == b.y {
        } else {
            proof {
                lemma_view_push(commands@, SurfaceCommand::Line { start: a, end: b, color });
            }
            commands.push(SurfaceCommand::Line { start: a, end: b, color });
            proof {
                assert(start + polyline_segments(points@, color, (i + 1) as nat) == (start
                    + polyline_segments(points@, color, i as nat)).push(
                    CommandView::Line { start: a, end: b, color },
                ));
            }
        }
        i = i + 1;
    }
}

/// The single polyline command a batched polyline is drawn as: its
/// compacted points, unless fewer than two remain or the color is
/// transparent.
pub open spec fn batched_polyline(points: Seq<Point>, color: Color) -> Seq<CommandView> {
    if points.len() < 2 || color.a == 0 {
        Seq::empty()
    } else {
        let compact = compact_points(points);
        if compact.len() < 2 {
            Seq::empty()
        } else {
            seq![CommandView::Polyline { points: compact, color }]
        }
    }
}

/// Emit one batched polyline command.
pub fn emit_polyline_batched(commands: &mut Vec<SurfaceCommand>, points: &[Point], color: Color)
    ensures
        commands_view(final(commands)@) == commands_view(old(commands)@) + batched_polyline(
            points@,
            color,
        ),
{
    let ghost start = commands_view(commands@);
    if points.len() < 2 || color.a == 0 {
        proof {
            assert(start + Seq::<CommandView>::empty() == start);
        }
        return;
    }
    let compact = compact_polyline_points(points);
    if compact.len() < 2 {
        proof {
            assert(start + Seq::<CommandView>::empty() == start);
        }
        return;
    }
    let ghost drawn = CommandView::Polyline { points: compact@, color };
    proof {
        lemma_view_push(commands@, SurfaceCommand::Polyline { points: compact, color });
        assert(start.push(drawn) == start + seq![drawn]);
    }
    commands.push(SurfaceCommand::Polyline { points: compact, color });
}

/// How many contour points a shifted copy samples: every `stride`-th point
/// from the first, plus the last.
pub open spec fn shifted_sample_count(points: int, stride: int) -> int {
    ceil_div_spec(points - 1, stride) + 1
}

/// The contour index of the `k`-th sampled point.
pub open spec fn shifted_sample_index(k: int, stride: int, points: int) -> int {
    if k * stride < points - 1 {
        k * stride
    } else {
        points - 1
    }
}

/// A contour point moved `offset` pixels down, kept inside the lane.
pub open spec fn shifted_point(point: Point, lane: LaneBounds, offset: int) -> Point {
    Point {
        x: point.x,
        y: clamp_int(point.y + offset, lane.top as int, lane.bottom as int) as i32,
    }
}

/// The sampled and shifted contour points, before compaction.
pub open spec fn shifted_samples(
    points: Seq<Point>,
    lane: LaneBounds,
    offset: int,
    stride: int,
) -> Seq<Point> {
    let step = if stride > 1 {
        stride
    } else {
        1
    };
    Seq::new(
        shifted_sample_count(points.len() as int, step) as nat,
        |k: int| shifted_point(points[shifted_sample_index(k, step, points.len() as int)], lane, offset),
    )
}

proof fn lemma_shifted_sample_at(
    points: Seq<Point>,
    lane: LaneBounds,
    offset: int,
    stride: int,
    k: int,
)
    requires
        0 <= k < shifted_samples(points, lane, offset, stride).len(),
    ensures
        shifted_samples(points, lane, offset, stride)[k] == shifted_point(
            points[shifted_sample_index(
                k,
                if stride > 1 {
                    stride
                } else {
                    1
                },
                points.len() as int,
            )],
            lane,
            offset,
        ),
{
}

/// A shifted copy samples the contour from its first point to its last,
/// every `stride` points in order, and moves each sampled point straight
/// down by `offset` pixels (up for a negative offset), stopping at the lane's
/// edge: it keeps the point's column, stays inside the lane, and moves away
/// from the contour in the offset's direction only.
pub proof fn law_shifted_copy_moves_points_by_offset(
    points: Seq<Point>,
    lane: LaneBounds,
    offset: int,
    stride: int,
    k: int,
)
    requires
        points.len() >= 2,
        lane.top <= lane.bottom,
        0 <= k < shifted_samples(points, lane, offset, stride).len(),
    ensures
        ({
            let step = if stride > 1 {
                stride
            } else {
                1
            };
            let n = shifted_samples(points, lane, offset, stride).len() as int;
            let i = shifted_sample_index(k, step, points.len() as int);
            let p = points[i];
            let q = shifted_samples(points, lane, offset, stride)[k];
            &&& 0 <= i < points.len()
            &&& (k == 0 ==> i == 0)
            &&& (k == n - 1 ==> i == points.len() - 1)
            &&& (k + 1 < n ==> i == k * step)
            &&& q.x == p.x
            &&& lane.top <= q.y <= lane.bottom
            &&& (lane.top <= p.y + offset <= lane.bottom ==> q.y == p.y + offset)
            &&& (offset >= 0 && lane.top <= p.y <= lane.bottom ==> p.y <= q.y)
            &&& (offset <= 0 && lane.top <= p.y <= lane.bottom ==> q.y <= p.y)
        }),
{
    let step = if stride > 1 {
        stride
    } else {
        1
    };
    let len = points.len() as int;
    lemma_shifted_sample_at(points, lane, offset, stride, k);
    let n = shifted_samples(points, lane, offset, stride).len() as int;
    assert(n == ceil_div_spec(len - 1, step) + 1);
    lemma_ceil_div_is_smallest(len - 1, step, k);
    assert(k * step >= 0) by (nonlinear_arith)
        requires
            k >= 0,
            step >= 1,
    ;
    lemma_ceil_div_is_smallest(len - 1, step, n - 1);
    assert(k * step < len - 1 <== k + 1 < n);
    assert(0 * step == 0);
    let i = shifted_sample_index(k, step, len);
    assert(0 <= i < len);
    assert(k == n - 1 ==> i == len - 1);
    let p = points[i];
    let q = shifted_samples(points, lane, offset, stride)[k];
    assert(q == shifted_point(p, lane, offset));
}

/// What one shifted copy of a contour draws: the batched polyline through
/// its sampled, shifted and compacted points.
pub open spec fn shifted_polyline(
    points: Seq<Point>,
    lane: LaneBounds,
    color: Color,
    offset: int,
    stride: int,
) -> Seq<CommandView> {
    if points.len() < 2 || color.a == 0 {
        Seq::empty()
    } else {
        batched_polyline(compact_points(shifted_samples(points, lane, offset, stride)), color)
    }
}

/// Emit one polyline shifted in Y by `offset` pixels, clamped to the lane
/// and sampled every `segment_stride` points.
pub fn emit_shifted_polyline(
    commands: &mut Vec<SurfaceCommand>,
    points: &[Point],
    lane: LaneBounds,
    color: Color,
    offset: i32,
    segment_stride: usize,
    shifted_scratch: &mut Vec<Point>,
)
    requires
        lane.top <= lane.bottom,
    ensures
        commands_view(final(commands)@) == commands_view(old(commands)@) + shifted_polyline(
            points@,
            lane,
            color,
            offset as int,
            segment_stride as int,
        ),
{
    if points.len() < 2 || color.a == 0 {
        proof {
            assert(commands_view(commands@) + Seq::<CommandView>::empty() == commands_view(
                commands@,
            ));
        }
        return;
    }
    let n = points.len();
    let stride = if segment_stride > 1 {
        segment_stride
    } else {
        1
    };
    let ghost raw = shifted_samples(points@, lane, offset as int, segment_stride as int);
    let ghost total = shifted_sample_count(n as int, stride as int);
    proof {
        lemma_ceil_div_is_smallest(n - 1, stride as int, 0);
    }
    shifted_scratch.clear();
    let mut index: usize = 0;
    let ghost mut k: int = 0;
    loop
        invariant_except_break
            shifted_scratch@ == compact_points(raw.take(k)),
        invariant
            n == points.len(),
            n >= 2,
            stride >= 1,
            stride == (if segment_stride > 1 {
                segment_stride
            } else {
                1
            }),
            lane.top <= lane.bottom,
            raw == shifted_samples(points@, lane, offset as int, segment_stride as int),
            total == raw.len(),
            total == shifted_sample_count(n as int, stride as int),
            0 <= k < total,
            index == shifted_sample_index(k, stride as int, n as int),
        ensures
            shifted_scratch@ == compact_points(raw),
        decreases n - 1 - index,
    {
        let source = points[index];
        let moved = source.y as i64 + offset as i64;
        let y = if moved < lane.top as i64 {
            lane.top
        } else if moved > lane.bottom as i64 {
            lane.bottom
        } else {
            moved as i32
        };
        let transformed = Point { x: source.x, y };
        proof {
            assert(source == points@[index as int]);
            assert(transformed == shifted_point(source, lane, offset as int));
            lemma_shifted_sample_at(points@, lane, offset as int, segment_stride as int, k);
            assert((if segment_stride as int > 1 {
                segment_stride as int
            } else {
                1int
            }) == stride as int);
            assert(points@.len() == n as int);
            assert(shifted_sample_index(k, stride as int, n as int) == index as int);
            assert(raw[k] == shifted_point(points@[index as int], lane, offset as int));
            assert(raw[k] == transformed);
            assert(raw.take(k + 1).drop_last() == raw.take(k));
            assert(raw.take(k + 1).last() == transformed);
        }
        let len = shifted_scratch.len();
        if len == 0 || shifted_scratch[len - 1] != transformed {
            shifted_scratch.push(transformed);
        }
        proof {
            lemma_ceil_div_is_smallest(n - 1, stride as int, k);
            lemma_ceil_div_is_smallest(n - 1, stride as int, k + 1);
        }
        if index == n - 1 {
            proof {
                assert(raw.take(k + 1) == raw);
            }
            break;
        }
        proof {
            assert((k + 1) * stride == k * stride + stride) by (nonlinear_arith);
        }
        let next = index.saturating_add(stride);
        index = if next < n - 1 {
            next
        } else {
            n - 1
        };
        proof {
            k = k + 1;
        }
    }
    emit_polyline_batched(commands, shifted_scratch, color);
}

/// The glow of the first `k` layers of a symmetric glow: each visible layer
/// `l` draws the contour shifted `l + 1` pixels up, then down.
pub open spec fn glow_symmetric_layers(
    contour: Seq<Point>,
    lane: LaneBounds,
    color: Color,
    style: crate::waveform::WaveformViewStyle,
    plan: GlowPlan,
    k: nat,
) -> Seq<CommandView>
    decreases k,
{
    if k == 0 {
        Seq::empty()
    } else {
        let prev = glow_symmetric_layers(contour, lane, color, style, plan, (k - 1) as nat);
        let alpha = outline_layer_alpha_spec(style, (k - 1) as u8, plan.layers);
        if alpha == 0 {
            prev
        } else {
            let layer_color = with_alpha_spec(color, alpha);
            let stride = sat_mul(k as int, plan.stride_scale as int);
            prev + shifted_polyline(contour, lane, layer_color, -k, stride) + shifted_polyline(
                contour,
                lane,
                layer_color,
                k as int,
                stride,
            )
        }
    }
}

/// Emit a symmetric glow around one contour by layering upward and downward
/// offsets.
pub fn emit_glow_symmetric(
    commands: &mut Vec<SurfaceCommand>,
    contour: &[Point],
    lane: LaneBounds,
    color: Color,
    style: crate::waveform::WaveformViewStyle,
    glow_plan: GlowPlan,
    shifted_scratch: &mut Vec<Point>,
)
    requires
        lane.top <= lane.bottom,
    ensures
        commands_view(final(commands)@) == commands_view(old(commands)@) + glow_symmetric_layers(
            contour@,
            lane,
            color,
            style,
            glow_plan,
            glow_plan.layers as nat,
        ),
{
    let ghost start = commands_view(commands@);
    let layers = glow_plan.layers;
    let mut layer: u8 = 0;
    proof {
        assert(start + Seq::<CommandView>::empty() == start);
    }
    while layer < layers
        invariant
            layer <= layers,
            layers == glow_plan.layers,
            lane.top <= lane.bottom,
            commands_view(commands@) == start + glow_symmetric_layers(
                contour@,
                lane,
                color,
                style,
                glow_plan,
                layer as nat,
            ),
        decreases layers - layer,
    {
        let alpha = outline_layer_alpha(style, layer, layers);
        if alpha != 0 {
            let layer_color = with_alpha(color, alpha);
            let offset = (layer as i32) + 1;
            let segment_stride = saturating_mul_usize(
                layer as usize + 1,
                glow_plan.stride_scale,
            );
            let ghost before = commands_view(commands@);
            emit_shifted_polyline(
                commands,
                contour,
                lane,
                layer_color,
                -offset,
                segment_stride,
                shifted_scratch,
            );
            emit_shifted_polyline(
                commands,
                contour,
                lane,
                layer_color,
                offset,
                segment_stride,
                shifted_scratch,
            );
            proof {
                let up = shifted_polyline(
                    contour@,
                    lane,
                    layer_color,
                    -offset as int,
                    segment_stride as int,
                );
                let down = shifted_polyline(
                    contour@,
                    lane,
                    layer_color,
                    offset as int,
                    segment_stride as int,
                );
                assert(before + up + down == before + (up + down));
            }
        }
        layer = layer + 1;
    }
}

/// The glow of the first `k` layers of an outward glow: each visible layer
/// `l` draws the contour shifted `(l + 1) * direction` pixels.
pub open spec fn glow_outward_layers(
    contour: Seq<Point>,
    lane: LaneBounds,
    color: Color,
    style: crate::waveform::WaveformViewStyle,
    direction: int,
    plan: GlowPlan,
    k: nat,
) -> Seq<CommandView>
    decreases k,
{
    if k == 0 {
        Seq::empty()
    } else {
        let prev = glow_outward_layers(contour, lane, color, style, direction, plan, (k - 1) as nat);
        let alpha = outline_layer_alpha_spec(style, (k - 1) as u8, plan.layers);
        if alpha == 0 {
            prev
        } else {
            prev + shifted_polyline(
                contour,
                lane,
                with_alpha_spec(color, alpha),
                k * direction,
                sat_mul(k as int, plan.stride_scale as int),
            )
        }
    }
}

/// Emit a directional glow for one contour by layering offsets away from
/// the waveform body.
pub fn emit_glow_outward(
    commands: &mut Vec<SurfaceCommand>,
    contour: &[Point],
    lane: LaneBounds,
    color: Color,
    style: crate::waveform::WaveformViewStyle,
    direction: i32,
    glow_plan: GlowPlan,
    shifted_scratch: &mut Vec<Point>,
)
    requires
        lane.top <= lane.bottom,
        i32::MIN <= 256 * direction <= i32::MAX,
    ensures
        commands_view(final(commands)@) == commands_view(old(commands)@) + glow_outward_layers(
            contour@,
            lane,
            color,
            style,
            direction as int,
            glow_plan,
            glow_plan.layers as nat,
        ),
{
    let ghost start = commands_view(commands@);
    let layers = glow_plan.layers;
    let mut layer: u8 = 0;
    proof {
        assert(start + Seq::<CommandView>::empty() == start);
    }
    while layer < layers
        invariant
            layer <= layers,
            layers == glow_plan.layers,
            lane.top <= lane.bottom,
            i32::MIN <= 256 * direction <= i32::MAX,
            commands_view(commands@) == start + glow_outward_layers(
                contour@,
                lane,
                color,
                style,
                direction as int,
                glow_plan,
                layer as nat,
            ),
        decreases layers - layer,
    {
        let alpha = outline_layer_alpha(style, layer, layers);
        if alpha != 0 {
            let layer_color = with_alpha(color, alpha);
            proof {
                assert(i32::MIN <= (layer + 1) * direction <= i32::MAX) by (nonlinear_arith)
                    requires
                        0 <= layer < 256,
                        i32::MIN <= 256 * direction <= i32::MAX,
                ;
            }
            let signed_offset = ((layer as i32) + 1) * direction;
            let segment_stride = saturating_mul_usize(
                layer as usize + 1,
                glow_plan.stride_scale,
            );
            emit_shifted_polyline(
                commands,
                contour,
                lane,
                layer_color,
                signed_offset,
                segment_stride,
                shifted_scratch,
            );
        }
        layer = layer + 1;
    }
}

/// The mark one envelope column draws from its top point to its bottom
/// point: a line, or a single pixel when both are on the same row.
pub open spec fn envelope_mark_view(top: Point, bottom: Point, color: Color) -> CommandView {
    if top.y == bottom.y {
        CommandView::FillRect {
            rect: crate::waveform::Rect {
                origin: top,
                size: crate::waveform::Size { width: 1, height: 1 },
            },
            color,
        }
    } else {
        CommandView::Line { start: top, end: bottom, color }
    }
}

/// The draw command of one envelope column.
pub fn envelope_column_mark(top: Point, bottom: Point, color: Color) -> (mark: SurfaceCommand)
    ensures
        mark@ == envelope_mark_view(top, bottom, color),
{
    if top.y == bottom.y {
        SurfaceCommand::FillRect {
            rect: crate::waveform::Rect {
                origin: top,
                size: crate::waveform::Size { width: 1, height: 1 },
            },
            color,
        }
    } else {
        SurfaceCommand::Line { start: top, end: bottom, color }
    }
}

/// Whether a command paints pixel `(x, y)`: a fill rectangle paints the
/// pixels it covers, a vertical line every pixel between its end points
/// (both included); other commands are not counted here.
pub open spec fn paints_pixel(command: CommandView, x: int, y: int) -> bool {
    match command {
        CommandView::FillRect { rect, .. } => rect.origin.x <= x < rect.origin.x + rect.size.width
            && rect.origin.y <= y < rect.origin.y + rect.size.height,
        CommandView::Line { start, end, .. } => start.x == end.x && x == start.x && (
        (start.y <= y <= end.y) || (end.y <= y <= start.y)),
        CommandView::Polyline { .. } => false,
    }
}

/// The mark of an envelope column whose top and bottom points share a
/// column paints exactly the pixels of that column from the top point to
/// the bottom point, in the column's color. When the two points lie on
/// different rows it is the line from the top point to the bottom point;
/// only when they share a row is it the single pixel at the top point.
pub proof fn law_envelope_mark_spans_column(top: Point, bottom: Point, color: Color, x: int, y: int)
    requires
        top.x == bottom.x,
    ensures
        paints_pixel(envelope_mark_view(top, bottom, color), x, y) <==> (x == top.x && (
        (top.y <= y <= bottom.y) || (bottom.y <= y <= top.y))),
        top.y != bottom.y ==> envelope_mark_view(top, bottom, color) == (CommandView::Line {
            start: top,
            end: bottom,
            color,
        }),
        top.y == bottom.y ==> envelope_mark_view(top, bottom, color) == (CommandView::FillRect {
            rect: crate::waveform::Rect {
                origin: top,
                size: crate::waveform::Size { width: 1, height: 1 },
            },
            color,
        }),
{
}

} // verus!
