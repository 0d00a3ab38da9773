//! Outline glow planning for waveform contours.
//!
//! Each contour can be surrounded by several glow layers, each a polyline
//! shifted one more pixel away and drawn with a fading alpha. Outer layers
//! sample the contour at coarser strides. The plan chooses how many layers
//! and which stride to use so that a channel stays inside its command and
//! point budgets: layers are dropped first, then the stride is coarsened.

use vstd::prelude::*;

use crate::arith::{lemma_trunc_div_between, trunc_div_spec};
use crate::size_contract::clamp_int;
use crate::waveform::{Color, WaveformViewStyle};

verus! {

/// `a * b`, or `usize::MAX` when the product does not fit.
pub open spec fn sat_mul(a: int, b: int) -> int {
    if a * b > usize::MAX {
        usize::MAX as int
    } else {
        a * b
    }
}

/// `a + b`, or `usize::MAX` when the sum does not fit.
pub open spec fn sat_add(a: int, b: int) -> int {
    if a + b > usize::MAX {
        usize::MAX as int
    } else {
        a + b
    }
}

/// `usize::saturating_mul`.
pub fn saturating_mul_usize(a: usize, b: usize) -> (r: usize)
    ensures
        r == sat_mul(a as int, b as int),
{
    match a.checked_mul(b) {
        Some(product) => product,
        None => usize::MAX,
    }
}

/// `color` with its alpha scaled by `alpha / 255`, rounded to nearest.
pub open spec fn with_alpha_spec(color: Color, alpha: u8) -> Color {
    Color { a: ((color.a * alpha + 127) / 255) as u8, ..color }
}

/// Return `color` with alpha multiplied by `alpha` in `0..=255`.
pub fn with_alpha(color: Color, alpha: u8) -> (c: Color)
    ensures
        c == with_alpha_spec(color, alpha),
{
    proof {
        assert(color.a * alpha <= 255 * 255) by (nonlinear_arith)
            requires
                color.a <= 255,
                alpha <= 255,
        ;
    }
    let scaled: u16 = ((color.a as u16) * (alpha as u16) + 127) / 255;
    Color::rgba(color.r, color.g, color.b, scaled as u8)
}

/// The alpha of glow layer `layer` out of `layers`: the inner alpha for a
/// single layer, else interpolated from the inner alpha (layer 0) toward the
/// outer alpha (last layer), rounding toward the inner alpha.
pub open spec fn outline_layer_alpha_spec(style: WaveformViewStyle, layer: u8, layers: u8) -> u8 {
    if layers <= 1 {
        style.waveform_outline_alpha_inner
    } else {
        let inner = style.waveform_outline_alpha_inner as int;
        let outer = style.waveform_outline_alpha_outer as int;
        clamp_int(
            inner + trunc_div_spec((outer - inner) * layer, layers - 1),
            0,
            255,
        ) as u8
    }
}

/// Resolve one alpha value for a glow layer index.
pub fn outline_layer_alpha(style: WaveformViewStyle, layer: u8, layers: u8) -> (alpha: u8)
    ensures
        alpha == outline_layer_alpha_spec(style, layer, layers),
{
    if layers <= 1 {
        return style.waveform_outline_alpha_inner;
    }
    let inner = style.waveform_outline_alpha_inner as i32;
    let outer = style.waveform_outline_alpha_outer as i32;
    proof {
        assert(-255 * 255 <= (outer - inner) * layer <= 255 * 255) by (nonlinear_arith)
            requires
                -255 <= outer - inner <= 255,
                0 <= layer <= 255,
        ;
        lemma_trunc_div_between((outer - inner) * layer, layers - 1);
    }
    let numerator = (outer - inner) * (layer as i32);
    let denominator = (layers - 1) as i32;
    let step = if numerator >= 0 {
        numerator / denominator
    } else {
        -((-numerator) / denominator)
    };
    let value = inner + step;
    if value < 0 {
        0
    } else if value > 255 {
        255
    } else {
        value as u8
    }
}

/// Glow layer `layer` samples every `layer + 1`-th contour point: outer
/// layers are coarser.
pub fn outline_layer_segment_stride(layer: u8) -> (stride: usize)
    ensures
        stride == layer + 1,
{
    layer as usize + 1
}

/// The number of points kept when a polyline of `points` points is sampled
/// every `stride` points, always keeping the first and the last.
pub open spec fn sampled_point_count(points: int, stride: int) -> int {
    if points <= 1 {
        points
    } else {
        (points - 1) / (if stride > 1 { stride } else { 1 }) + 1
    }
}

/// Return sampled point count for one stride over a polyline.
pub fn sampled_polyline_point_count(points: usize, stride: usize) -> (r: usize)
    ensures
        r == sampled_point_count(points as int, stride as int),
{
    if points <= 1 {
        return points;
    }
    let stride = if stride > 1 {
        stride
    } else {
        1
    };
    proof {
        let m = points - 1;
        let d = stride as int;
        assert(m / d <= m) by (nonlinear_arith)
            requires
                m >= 0,
                d >= 1,
        ;
    }
    (points - 1) / stride + 1
}

/// The glow points of the first `layers` layers, each sampled at its
/// layer stride scaled by `stride_scale` and drawn `commands_per_layer`
/// times, with saturating sums.
pub open spec fn glow_points_upto(
    contour_points: int,
    layers: nat,
    stride_scale: int,
    commands_per_layer: int,
) -> int
    decreases layers,
{
    if layers == 0 {
        0
    } else {
        sat_add(
            glow_points_upto(contour_points, (layers - 1) as nat, stride_scale, commands_per_layer),
            sat_mul(
                sampled_point_count(contour_points, sat_mul(layers as int, stride_scale)),
                commands_per_layer,
            ),
        )
    }
}

/// The estimated glow points for a contour and a layer count and stride.
pub open spec fn estimate_glow_points_spec(
    contour_points: int,
    layers: int,
    stride_scale: int,
    commands_per_layer: int,
) -> int {
    if contour_points < 2 || layers <= 0 {
        0
    } else {
        glow_points_upto(
            contour_points,
            layers as nat,
            if stride_scale > 1 {
                stride_scale
            } else {
                1
            },
            commands_per_layer,
        )
    }
}

/// Estimate emitted glow-polyline points for one contour size and plan.
pub fn estimate_glow_points(
    contour_points: usize,
    layers: usize,
    stride_scale: usize,
    commands_per_layer: usize,
) -> (total: usize)
    requires
        layers <= 255,
    ensures
        total == estimate_glow_points_spec(
            contour_points as int,
            layers as int,
            stride_scale as int,
            commands_per_layer as int,
        ),
{
    if contour_points < 2 || layers == 0 {
        return 0;
    }
    let stride_scale = if stride_scale > 1 {
        stride_scale
    } else {
        1
    };
    let mut total: usize = 0;
    let mut layer: usize = 0;
    while layer < layers
        invariant
            layer <= layers <= 255,
            stride_scale >= 1,
            total == glow_points_upto(
                contour_points as int,
                layer as nat,
                stride_scale as int,
                commands_per_layer as int,
            ),
        decreases layers - layer,
    {
        let layer_stride = saturating_mul_usize(
            outline_layer_segment_stride(layer as u8),
            stride_scale,
        );
        let sampled_points = sampled_polyline_point_count(contour_points, layer_stride);
        total = total.saturating_add(saturating_mul_usize(sampled_points, commands_per_layer));
        layer = layer + 1;
    }
    total
}

/// Deterministic adaptive glow quality settings for one channel.
#[derive(Clone, Copy, Debug, PartialEq, Eq, Structural)]
pub struct GlowPlan {
    /// Number of glow layers to emit.
    pub layers: u8,
    /// Global stride multiplier applied to all glow layers.
    pub stride_scale: usize,
}

/// The most layers, from `layers` down to two, whose point estimate at the
/// finest stride fits `max_points`; one when none does.
pub open spec fn glow_layer_search(
    contour_points: int,
    layers: nat,
    max_points: int,
    commands_per_layer: int,
) -> nat
    decreases layers,
{
    if layers <= 1 {
        1
    } else if estimate_glow_points_spec(contour_points, layers as int, 1, commands_per_layer)
        <= max_points {
        layers
    } else {
        glow_layer_search(contour_points, (layers - 1) as nat, max_points, commands_per_layer)
    }
}

/// The finest stride from `stride` upward at which a single glow layer fits
/// `max_points`, stopping at one stride per contour point.
pub open spec fn glow_stride_search(
    contour_points: int,
    stride: int,
    max_points: int,
    commands_per_layer: int,
) -> int
    decreases contour_points - stride,
{
    if estimate_glow_points_spec(contour_points, 1, stride, commands_per_layer) <= max_points
        || stride >= contour_points {
        stride
    } else {
        glow_stride_search(contour_points, stride + 1, max_points, commands_per_layer)
    }
}

/// The layer count the command budget allows before points are considered.
pub open spec fn glow_layers_allowed(
    style: WaveformViewStyle,
    max_glow_commands: int,
    commands_per_layer: int,
) -> int {
    let configured = style.waveform_outline_layers as int;
    let by_commands = max_glow_commands / (if commands_per_layer > 1 {
        commands_per_layer
    } else {
        1
    });
    if configured < by_commands {
        configured
    } else {
        by_commands
    }
}

/// The glow plan of a contour: no glow without configured layers, a
/// two-point contour or any budget; otherwise the most layers that fit both
/// budgets at the finest stride, and for a single layer the finest stride
/// that fits the point budget.
pub open spec fn glow_plan_spec(
    contour_points: int,
    style: WaveformViewStyle,
    max_glow_commands: int,
    max_glow_points: int,
    commands_per_layer: int,
) -> GlowPlan {
    let per_layer = if commands_per_layer > 1 {
        commands_per_layer
    } else {
        1
    };
    let allowed = glow_layers_allowed(style, max_glow_commands, commands_per_layer);
    if style.waveform_outline_layers == 0 || contour_points < 2 || max_glow_commands == 0
        || max_glow_points == 0 || allowed == 0 {
        GlowPlan { layers: 0, stride_scale: 1 }
    } else {
        let layers = glow_layer_search(contour_points, allowed as nat, max_glow_points, per_layer);
        if layers > 1 {
            GlowPlan { layers: layers as u8, stride_scale: 1 }
        } else {
            GlowPlan {
                layers: 1,
                stride_scale: glow_stride_search(contour_points, 1, max_glow_points, per_layer)
                    as usize,
            }
        }
    }
}

proof fn lemma_glow_layer_search_bounds(
    contour_points: int,
    layers: nat,
    max_points: int,
    commands_per_layer: int,
)
    ensures
        1 <= glow_layer_search(contour_points, layers, max_points, commands_per_layer),
        layers >= 1 ==> glow_layer_search(contour_points, layers, max_points, commands_per_layer)
            <= layers,
        glow_layer_search(contour_points, layers, max_points, commands_per_layer) > 1
            ==> estimate_glow_points_spec(
            contour_points,
            glow_layer_search(contour_points, layers, max_points, commands_per_layer) as int,
            1,
            commands_per_layer,
        ) <= max_points,
    decreases layers,
{
    if layers > 1 {
        lemma_glow_layer_search_bounds(
            contour_points,
            (layers - 1) as nat,
            max_points,
            commands_per_layer,
        );
    }
}

proof fn lemma_glow_stride_search_bounds(
    contour_points: int,
    stride: int,
    max_points: int,
    commands_per_layer: int,
)
    requires
        stride <= contour_points,
    ensures
        stride <= glow_stride_search(contour_points, stride, max_points, commands_per_layer)
            <= contour_points,
        estimate_glow_points_spec(
            contour_points,
            1,
            glow_stride_search(contour_points, stride, max_points, commands_per_layer),
            commands_per_layer,
        ) <= max_points || glow_stride_search(
            contour_points,
            stride,
            max_points,
            commands_per_layer,
        ) == contour_points,
    decreases contour_points - stride,
{
    if !(estimate_glow_points_spec(contour_points, 1, stride, commands_per_layer) <= max_points
        || stride >= contour_points) {
        lemma_glow_stride_search_bounds(contour_points, stride + 1, max_points, commands_per_layer);
    }
}

/// Resolve adaptive glow layers and point stride from command/point budgets.
pub fn resolve_glow_plan(
    contour_points: usize,
    style: WaveformViewStyle,
    max_glow_commands: usize,
    max_glow_points: usize,
    commands_per_layer: usize,
) -> (plan: GlowPlan)
    ensures
        plan == glow_plan_spec(
            contour_points as int,
            style,
            max_glow_commands as int,
            max_glow_points as int,
            commands_per_layer as int,
        ),
{
    let configured_layers = style.waveform_outline_layers as usize;
    if configured_layers == 0 || contour_points < 2 || max_glow_commands == 0 || max_glow_points
        == 0 {
        return GlowPlan { layers: 0, stride_scale: 1 };
    }
    let per_layer = if commands_per_layer > 1 {
        commands_per_layer
    } else {
        1
    };
    let by_commands = max_glow_commands / per_layer;
    let allowed = if configured_layers < by_commands {
        configured_layers
    } else {
        by_commands
    };
    if allowed == 0 {
        return GlowPlan { layers: 0, stride_scale: 1 };
    }
    let ghost goal = glow_layer_search(
        contour_points as int,
        allowed as nat,
        max_glow_points as int,
        per_layer as int,
    );
    let mut layers = allowed;
    let mut stride_scale: usize = 1;
    loop
        invariant
            1 <= layers <= allowed <= 255,
            per_layer >= 1,
            contour_points >= 2,
            1 <= stride_scale <= contour_points,
            layers > 1 ==> stride_scale == 1 && glow_layer_search(
                contour_points as int,
                layers as nat,
                max_glow_points as int,
                per_layer as int,
            ) == goal,
            layers == 1 ==> goal == 1 && glow_stride_search(
                contour_points as int,
                stride_scale as int,
                max_glow_points as int,
                per_layer as int,
            ) == glow_stride_search(
                contour_points as int,
                1,
                max_glow_points as int,
                per_layer as int,
            ),
        ensures
            1 <= layers <= 255,
            layers > 1 ==> stride_scale == 1 && layers == goal,
            layers == 1 ==> goal == 1 && stride_scale == glow_stride_search(
                contour_points as int,
                1,
                max_glow_points as int,
                per_layer as int,
            ),
        decreases layers, contour_points - stride_scale,
    {
        let estimated_points = estimate_glow_points(contour_points, layers, stride_scale, per_layer);
        if estimated_points <= max_glow_points {
            break;
        }
        if layers > 1 {
            proof {
                assert(glow_layer_search(
                    contour_points as int,
                    (layers - 1) as nat,
                    max_glow_points as int,
                    per_layer as int,
                ) == goal);
                assert(glow_layer_search(
                    contour_points as int,
                    1,
                    max_glow_points as int,
                    per_layer as int,
                ) == 1);
            }
            layers = layers - 1;
            stride_scale = 1;
            continue;
        }
        if stride_scale >= contour_points {
            break;
        }
        stride_scale = stride_scale + 1;
    }
    GlowPlan { layers: layers as u8, stride_scale }
}

/// The glow plan respects every budget it was given: it never has more
/// layers than configured or than the command budget pays for, and either
/// its points fit the point budget or it is down to a single layer sampled
/// at the coarsest stride.
pub proof fn law_glow_plan_fits_budgets(
    contour_points: usize,
    style: WaveformViewStyle,
    max_glow_commands: usize,
    max_glow_points: usize,
    commands_per_layer: usize,
)
    ensures
        ({
            let plan = glow_plan_spec(
                contour_points as int,
                style,
                max_glow_commands as int,
                max_glow_points as int,
                commands_per_layer as int,
            );
            let per_layer = if commands_per_layer > 1 {
                commands_per_layer as int
            } else {
                1
            };
            &&& plan.layers <= style.waveform_outline_layers
            &&& plan.layers * per_layer <= max_glow_commands
            &&& plan.stride_scale >= 1
            &&& estimate_glow_points_spec(
                contour_points as int,
                plan.layers as int,
                plan.stride_scale as int,
                per_layer,
            ) <= max_glow_points || (plan.layers == 1 && plan.stride_scale == contour_points)
        }),
{
    let per_layer = if commands_per_layer > 1 {
        commands_per_layer as int
    } else {
        1
    };
    let allowed = glow_layers_allowed(style, max_glow_commands as int, commands_per_layer as int);
    let by_commands = max_glow_commands as int / per_layer;
    assert(by_commands * per_layer <= max_glow_commands) by (nonlinear_arith)
        requires
            by_commands == max_glow_commands as int / per_layer,
            per_layer >= 1,
            max_glow_commands >= 0,
    ;
    if style.waveform_outline_layers > 0 && contour_points >= 2 && max_glow_commands > 0
        && max_glow_points > 0 && allowed > 0 {
        lemma_glow_layer_search_bounds(
            contour_points as int,
            allowed as nat,
            max_glow_points as int,
            per_layer,
        );
        lemma_glow_stride_search_bounds(
            contour_points as int,
            1,
            max_glow_points as int,
            per_layer,
        );
        let layers = glow_layer_search(
            contour_points as int,
            allowed as nat,
            max_glow_points as int,
            per_layer,
        );
        assert(layers * per_layer <= allowed * per_layer) by (nonlinear_arith)
            requires
                layers <= allowed,
                per_layer >= 1,
        ;
        assert(allowed * per_layer <= by_commands * per_layer) by (nonlinear_arith)
            requires
                allowed <= by_commands,
                per_layer >= 1,
        ;
    }
}

} // verus!
