//! Pixel geometry, styles and surface layout of the waveform view.
//!
//! A waveform surface is described by declarative draw commands in pixel
//! space. This module holds the value types those commands are made of, the
//! view's style tokens, and the integer layout rules that do not depend on
//! sample values: surface geometry, split lanes, which channels are drawn,
//! how the command budget is shared between them, the background and the
//! horizontal grid.

use vstd::prelude::*;

use crate::arith::{lemma_trunc_div_between, trunc_div_spec};

verus! {

/// An RGBA color with 8-bit channels.
#[derive(Clone, Copy, Debug, PartialEq, Eq, Structural)]
pub struct Color {
    /// Red channel.
    pub r: u8,
    /// Green channel.
    pub g: u8,
    /// Blue channel.
    pub b: u8,
    /// Alpha channel; 255 is opaque.
    pub a: u8,
}

impl Color {
    /// An opaque color.
    pub fn rgb(r: u8, g: u8, b: u8) -> (c: Color)
        ensures
            c == (Color { r, g, b, a: 255 }),
    {
        Color { r, g, b, a: 255 }
    }

    /// A color with an explicit alpha.
    pub fn rgba(r: u8, g: u8, b: u8, a: u8) -> (c: Color)
        ensures
            c == (Color { r, g, b, a }),
    {
        Color { r, g, b, a }
    }
}

/// A pixel position; `y` grows downward.
#[derive(Clone, Copy, Debug, PartialEq, Eq, Structural)]
pub struct Point {
    /// Horizontal pixel coordinate.
    pub x: i32,
    /// Vertical pixel coordinate.
    pub y: i32,
}

/// A pixel extent.
#[derive(Clone, Copy, Debug, PartialEq, Eq, Structural)]
pub struct Size {
    /// Width in pixels.
    pub width: u32,
    /// Height in pixels.
    pub height: u32,
}

/// An axis-aligned pixel rectangle.
#[derive(Clone, Copy, Debug, PartialEq, Eq, Structural)]
pub struct Rect {
    /// Top-left corner.
    pub origin: Point,
    /// Extent.
    pub size: Size,
}

/// One declarative draw command of a waveform surface.
#[derive(Clone, Debug, PartialEq)]
pub enum SurfaceCommand {
    /// Fill a rectangle.
    FillRect {
        /// Filled area.
        rect: Rect,
        /// Fill color.
        color: Color,
    },
    /// Draw a one-pixel line segment.
    Line {
        /// First endpoint.
        start: Point,
        /// Second endpoint.
        end: Point,
        /// Stroke color.
        color: Color,
    },
    /// Draw a one-pixel-wide polyline through consecutive points.
    Polyline {
        /// Vertices in drawing order.
        points: Vec<Point>,
        /// Stroke color.
        color: Color,
    },
}

/// What a draw command draws, as a mathematical value.
pub enum CommandView {
    /// A filled rectangle.
    FillRect { rect: Rect, color: Color },
    /// A one-pixel line segment.
    Line { start: Point, end: Point, color: Color },
    /// A one-pixel-wide polyline through `points`.
    Polyline { points: Seq<Point>, color: Color },
}

impl View for SurfaceCommand {
    type V = CommandView;

    open spec fn view(&self) -> CommandView {
        match self {
            SurfaceCommand::FillRect { rect, color } => CommandView::FillRect {
                rect: *rect,
                color: *color,
            },
            SurfaceCommand::Line { start, end, color } => CommandView::Line {
                start: *start,
                end: *end,
                color: *color,
            },
            SurfaceCommand::Polyline { points, color } => CommandView::Polyline {
                points: points@,
                color: *color,
            },
        }
    }
}

/// The values drawn by a sequence of commands.
pub open spec fn commands_view(commands: Seq<SurfaceCommand>) -> Seq<CommandView> {
    commands.map_values(|c: SurfaceCommand| c@)
}

/// Channel arrangement mode for waveform rendering.
#[derive(Clone, Copy, Debug, PartialEq, Eq, Structural)]
pub enum WaveformDisplayMode {
    /// Draw all visible channels in a single shared lane.
    Overlay,
    /// Draw each visible channel in its own vertical lane.
    Split,
}

/// Sampling strategy used to map audio samples onto horizontal pixels.
///
/// `Linear` draws a polyline through interpolated sample points;
/// `EnvelopeMinMax` draws one min/max envelope segment per x-column.
#[derive(Clone, Copy, Debug, PartialEq, Eq, Structural)]
pub enum WaveformSamplingMode {
    /// Draw a polyline through linearly interpolated samples.
    Linear,
    /// Draw one vertical min/max envelope segment per x-column.
    EnvelopeMinMax,
}

/// Rendering quality policy for waveform command generation.
#[derive(Clone, Copy, Debug, PartialEq, Eq, Structural)]
pub enum WaveformRenderQuality {
    /// Emit enhanced outline/glow commands intended for vector-backed rendering.
    AutoVectorPreferred,
    /// Emit legacy line-only commands for strict CPU compatibility.
    LegacyCpuOnly,
}

/// Visual style for one waveform channel.
#[derive(Clone, Copy, Debug, PartialEq, Eq, Structural)]
pub struct WaveformChannelStyle {
    /// Whether the channel is visible.
    pub visible: bool,
    /// Stroke color used for waveform channel rendering.
    pub color: Color,
}

/// Visual style tokens for the waveform surface.
#[derive(Clone, Copy, Debug, PartialEq, Eq, Structural)]
pub struct WaveformViewStyle {
    /// Surface background color.
    pub background: Color,
    /// Bar-aligned vertical grid line color.
    pub grid_bar: Color,
    /// Beat-aligned vertical grid line color.
    pub grid_beat: Color,
    /// Subdivision vertical grid line color.
    pub grid_subdivision: Color,
    /// Non-center horizontal grid line color.
    pub grid_horizontal: Color,
    /// Center horizontal line color.
    pub grid_horizontal_center: Color,
    /// Split-lane divider color.
    pub lane_divider: Color,
    /// Alpha used for the waveform body fill.
    pub waveform_body_alpha: u8,
    /// Alpha used at the inner edge of the waveform outline glow.
    pub waveform_outline_alpha_inner: u8,
    /// Alpha used at the outer edge of the waveform outline glow.
    pub waveform_outline_alpha_outer: u8,
    /// Number of glow layers emitted around each contour.
    pub waveform_outline_layers: u8,
}

/// The default waveform palette: dark background, subtle gray grid.
pub open spec fn default_view_style() -> WaveformViewStyle {
    WaveformViewStyle {
        background: Color { r: 14, g: 17, b: 20, a: 255 },
        grid_bar: Color { r: 44, g: 50, b: 57, a: 255 },
        grid_beat: Color { r: 36, g: 41, b: 47, a: 255 },
        grid_subdivision: Color { r: 30, g: 35, b: 41, a: 255 },
        grid_horizontal: Color { r: 27, g: 31, b: 37, a: 255 },
        grid_horizontal_center: Color { r: 36, g: 40, b: 45, a: 255 },
        lane_divider: Color { r: 42, g: 48, b: 54, a: 255 },
        waveform_body_alpha: 72,
        waveform_outline_alpha_inner: 210,
        waveform_outline_alpha_outer: 0,
        waveform_outline_layers: 4,
    }
}

impl Default for WaveformViewStyle {
    fn default() -> (s: Self)
        ensures
            s == default_view_style(),
    {
        WaveformViewStyle {
            background: Color::rgb(14, 17, 20),
            grid_bar: Color::rgb(44, 50, 57),
            grid_beat: Color::rgb(36, 41, 47),
            grid_subdivision: Color::rgb(30, 35, 41),
            grid_horizontal: Color::rgb(27, 31, 37),
            grid_horizontal_center: Color::rgb(36, 40, 45),
            lane_divider: Color::rgb(42, 48, 54),
            waveform_body_alpha: 72,
            waveform_outline_alpha_inner: 210,
            waveform_outline_alpha_outer: 0,
            waveform_outline_layers: 4,
        }
    }
}

/// Pixel-space geometry for one waveform surface.
#[derive(Clone, Copy, Debug)]
pub struct WaveformGeometry {
    /// Surface width in pixels.
    pub width_i32: i32,
    /// Surface height in pixels.
    pub height_i32: i32,
}

/// A surface dimension: at least one pixel.
pub open spec fn surface_dimension(value: u32) -> u32 {
    if value > 1 {
        value
    } else {
        1
    }
}

impl WaveformGeometry {
    /// Build geometry from unsigned surface dimensions, at least one pixel
    /// each way.
    pub fn new(width: u32, height: u32) -> (g: Self)
        ensures
            g.width_i32 == surface_dimension(width) as i32,
            g.height_i32 == surface_dimension(height) as i32,
    {
        let width = if width > 1 {
            width
        } else {
            1
        };
        let height = if height > 1 {
            height
        } else {
            1
        };
        WaveformGeometry { width_i32: width as i32, height_i32: height as i32 }
    }
}

/// Vertical lane bounds for one rendered channel.
#[derive(Clone, Copy, Debug, PartialEq, Eq, Structural)]
pub struct LaneBounds {
    /// Inclusive lane top pixel.
    pub top: i32,
    /// Inclusive lane bottom pixel.
    pub bottom: i32,
}

/// The top pixel of split lane `lane_index` out of `lane_count`.
pub open spec fn split_lane_top(lane_index: int, lane_count: int, height: int) -> int {
    trunc_div_spec(lane_index * height, if lane_count > 1 { lane_count } else { 1 })
}

/// The bottom pixel of split lane `lane_index`: the next lane's top, kept at
/// least one pixel below this lane's top and inside the surface.
pub open spec fn split_lane_bottom(lane_index: int, lane_count: int, height: int) -> int {
    let top = split_lane_top(lane_index, lane_count, height);
    let next = split_lane_top(lane_index + 1, lane_count, height);
    if next < top + 1 {
        top + 1
    } else if next > height {
        height
    } else {
        next
    }
}

/// Rust's `/` on `i64`, which rounds toward zero, for a positive divisor.
fn trunc_div_i64(value: i64, divisor: i64) -> (q: i64)
    requires
        divisor > 0,
        value > i64::MIN,
    ensures
        q == trunc_div_spec(value as int, divisor as int),
{
    if value >= 0 {
        value / divisor
    } else {
        -((-value) / divisor)
    }
}

impl LaneBounds {
    /// Bounds spanning the full surface.
    pub fn full(geometry: &WaveformGeometry) -> (lane: Self)
        ensures
            lane == (LaneBounds { top: 0, bottom: geometry.height_i32 }),
    {
        LaneBounds { top: 0, bottom: geometry.height_i32 }
    }

    /// Bounds for one of `lane_count` equal split lanes.
    pub fn for_split_lane(geometry: &WaveformGeometry, lane_index: i32, lane_count: i32) -> (lane:
        Self)
        requires
            lane_index < i32::MAX,
            i32::MIN <= lane_index * geometry.height_i32 <= i32::MAX,
            i32::MIN <= (lane_index + 1) * geometry.height_i32 <= i32::MAX,
            split_lane_top(lane_index as int, lane_count as int, geometry.height_i32 as int) + 1
                <= geometry.height_i32,
        ensures
            lane.top == split_lane_top(
                lane_index as int,
                lane_count as int,
                geometry.height_i32 as int,
            ),
            lane.bottom == split_lane_bottom(
                lane_index as int,
                lane_count as int,
                geometry.height_i32 as int,
            ),
    {
        let count: i64 = if lane_count > 1 {
            lane_count as i64
        } else {
            1
        };
        let height = geometry.height_i32 as i64;
        let top = trunc_div_i64(lane_index as i64 * height, count) as i32;
        let next = trunc_div_i64((lane_index as i64 + 1) * height, count);
        proof {
            let h = geometry.height_i32 as int;
            lemma_trunc_div_between(lane_index * h, count as int);
            lemma_trunc_div_between((lane_index + 1) * h, count as int);
        }
        let bottom = if next < top as i64 + 1 {
            top + 1
        } else if next > height {
            geometry.height_i32
        } else {
            next as i32
        };
        LaneBounds { top, bottom }
    }
}

/// The number of visible styles among the first `k` channel styles.
pub open spec fn visible_count(channels: Seq<WaveformChannelStyle>, k: int) -> nat
    decreases k,
{
    if k <= 0 {
        0
    } else {
        visible_count(channels, k - 1) + if channels[k - 1].visible {
            1nat
        } else {
            0nat
        }
    }
}

/// How many channels are drawn: visible styles below both counts.
pub open spec fn drawn_channel_count(channel_count: usize, channels: Seq<WaveformChannelStyle>) -> nat {
    visible_count(
        channels,
        if (channel_count as int) < channels.len() {
            channel_count as int
        } else {
            channels.len() as int
        },
    )
}

/// The channel indices drawn for `channel_count` channels under `channels`:
/// those below both counts whose style is visible.
pub fn visible_channel_indices(channel_count: usize, channels: &[WaveformChannelStyle]) -> (r: Vec<
    usize,
>)
    ensures
        forall|i: int|
            0 <= i < r.len() ==> r@[i] < channel_count && r@[i] < channels@.len()
                && channels@[r@[i] as int].visible,
        forall|i: int, j: int| 0 <= i < j < r.len() ==> r@[i] < r@[j],
        forall|k: int|
            0 <= k < channel_count && k < channels@.len() && channels@[k].visible ==> r@.contains(
                k as usize,
            ),
        r.len() == drawn_channel_count(channel_count, channels@),
{
    let limit = if channel_count < channels.len() {
        channel_count
    } else {
        channels.len()
    };
    let mut r: Vec<usize> = Vec::new();
    let mut index: usize = 0;
    while index < limit
        invariant
            index <= limit,
            limit <= channel_count,
            limit <= channels@.len(),
            forall|i: int|
                0 <= i < r.len() ==> r@[i] < index && channels@[r@[i] as int].visible,
            forall|i: int, j: int| 0 <= i < j < r.len() ==> r@[i] < r@[j],
            forall|k: int|
                0 <= k < index && channels@[k].visible ==> r@.contains(k as usize),
            r.len() == visible_count(channels@, index as int),
        decreases limit - index,
    {
        if channels[index].visible {
            let ghost prev = r@;
            r.push(index);
            proof {
                assert(r@ == prev.push(index));
                assert(r@[r.len() - 1] == index);
                assert forall|k: int|
                    0 <= k < index + 1 && channels@[k].visible implies r@.contains(k as usize) by {
                    if k < index {
                        assert(prev.contains(k as usize));
                        let w = choose|w: int| 0 <= w < prev.len() && prev[w] == k as usize;
                        assert(r@[w] == k as usize);
                    } else {
                        assert(r@[r.len() - 1] == k as usize);
                    }
                }
            }
        }
        index = index + 1;
    }
    r
}

/// The command budget of channel `channel_index` out of `visible_channels`:
/// an equal share of `max_waveform_commands`, the remainder going one each
/// to the first channels, and at least one command.
pub open spec fn channel_budget_spec(
    max_waveform_commands: int,
    visible_channels: int,
    channel_index: int,
) -> int {
    if visible_channels == 0 {
        0
    } else {
        let share = max_waveform_commands / visible_channels + if channel_index
            < max_waveform_commands % visible_channels {
            1int
        } else {
            0int
        };
        if share > 1 {
            share
        } else {
            1
        }
    }
}

/// A deterministic per-channel waveform command budget that depends only on
/// the channel's index, never on what earlier channels emitted.
pub fn channel_waveform_budget(
    max_waveform_commands: usize,
    visible_channels: usize,
    channel_index: usize,
) -> (r: usize)
    ensures
        r == channel_budget_spec(
            max_waveform_commands as int,
            visible_channels as int,
            channel_index as int,
        ),
{
    if visible_channels == 0 {
        return 0;
    }
    let base = max_waveform_commands / visible_channels;
    let remainder = max_waveform_commands % visible_channels;
    proof {
        if visible_channels > 1 {
            assert(base < usize::MAX) by (nonlinear_arith)
                requires
                    base == max_waveform_commands / visible_channels,
                    visible_channels > 1,
                    max_waveform_commands <= usize::MAX,
            ;
        }
    }
    let share = if channel_index < remainder {
        base + 1
    } else {
        base
    };
    if share > 1 {
        share
    } else {
        1
    }
}

/// The sum of the first `count` channel budgets.
pub open spec fn channel_budget_total(
    max_waveform_commands: int,
    visible_channels: int,
    count: nat,
) -> int
    decreases count,
{
    if count == 0 {
        0
    } else {
        channel_budget_total(max_waveform_commands, visible_channels, (count - 1) as nat)
            + channel_budget_spec(max_waveform_commands, visible_channels, count - 1)
    }
}

proof fn lemma_channel_budget_prefix(max: int, visible: int, count: nat)
    requires
        visible >= 1,
        max >= visible,
        count <= visible,
    ensures
        channel_budget_total(max, visible, count) == count * (max / visible) + (if count < max
            % visible {
            count as int
        } else {
            max % visible
        }),
    decreases count,
{
    assert(max / visible >= 1) by (nonlinear_arith)
        requires
            max >= visible,
            visible >= 1,
    ;
    if count > 0 {
        let b = max / visible;
        let rm = max % visible;
        lemma_channel_budget_prefix(max, visible, (count - 1) as nat);
        assert(channel_budget_spec(max, visible, count - 1) == b + if count - 1 < rm {
            1int
        } else {
            0int
        });
        assert(count * b == (count - 1) * b + b) by (nonlinear_arith);
        assert(channel_budget_total(max, visible, count) == channel_budget_total(
            max,
            visible,
            (count - 1) as nat,
        ) + channel_budget_spec(max, visible, count - 1));
    } else {
        assert(count * (max / visible) == 0) by (nonlinear_arith)
            requires
                count == 0,
        ;
    }
}

/// When the budget covers at least one command per channel, the channel
/// budgets share it out exactly: they sum to `max_waveform_commands`.
pub proof fn law_channel_budgets_sum_to_total(max_waveform_commands: usize, visible_channels: usize)
    requires
        visible_channels >= 1,
        max_waveform_commands >= visible_channels,
    ensures
        channel_budget_total(
            max_waveform_commands as int,
            visible_channels as int,
            visible_channels as nat,
        ) == max_waveform_commands,
{
    let max = max_waveform_commands as int;
    let v = visible_channels as int;
    lemma_channel_budget_prefix(max, v, visible_channels as nat);
    vstd::arithmetic::div_mod::lemma_fundamental_div_mod(max, v);
    vstd::arithmetic::div_mod::lemma_mod_bound(max, v);
    assert(v * (max / v) == (max / v) * v) by (nonlinear_arith);
}

/// The background command that fills the whole surface.
pub open spec fn background_command(geometry: WaveformGeometry, style: WaveformViewStyle) -> SurfaceCommand {
    SurfaceCommand::FillRect {
        rect: Rect {
            origin: Point { x: 0, y: 0 },
            size: Size {
                width: geometry.width_i32 as u32,
                height: geometry.height_i32 as u32,
            },
        },
        color: style.background,
    }
}

/// Push the background fill command for the full waveform surface.
pub fn push_background(
    commands: &mut Vec<SurfaceCommand>,
    geometry: &WaveformGeometry,
    style: WaveformViewStyle,
)
    ensures
        final(commands)@ == old(commands)@.push(background_command(*geometry, style)),
{
    commands.push(
        SurfaceCommand::FillRect {
            rect: Rect {
                origin: Point { x: 0, y: 0 },
                size: Size {
                    width: geometry.width_i32 as u32,
                    height: geometry.height_i32 as u32,
                },
            },
            color: style.background,
        },
    );
}

/// The number of horizontal grid divisions: at least one.
pub open spec fn grid_division_count(lines: u32) -> int {
    if lines > 1 {
        lines as int
    } else {
        1
    }
}

/// The pixel row of horizontal grid step `step` out of `count` divisions of
/// `height`, rounded to the nearest row.
pub open spec fn grid_row_y(step: int, count: int, height: int) -> int {
    trunc_div_spec(step * height + count / 2, count)
}

/// The horizontal grid rows of the first `k` steps: one entry per distinct
/// pixel row, in step order, flagged when it carries the center step.
/// Consecutive steps that land on the same row collapse into one entry.
pub open spec fn grid_rows_upto(count: int, height: int, k: nat) -> Seq<(i32, bool)>
    decreases k,
{
    if k == 0 {
        Seq::empty()
    } else {
        let prev = grid_rows_upto(count, height, (k - 1) as nat);
        let y = grid_row_y(k - 1, count, height) as i32;
        let center = k - 1 == count / 2;
        if prev.len() > 0 && prev.last().0 == y {
            prev.update(prev.len() - 1, (y, prev.last().1 || center))
        } else {
            prev.push((y, center))
        }
    }
}

/// The horizontal grid rows of a surface `height` pixels tall with `lines`
/// divisions, top and bottom included.
pub open spec fn horizontal_grid_rows_spec(height: i32, lines: u32) -> Seq<(i32, bool)> {
    let count = grid_division_count(lines);
    grid_rows_upto(count, height as int, (count + 1) as nat)
}

fn trunc_div_i128(value: i128, divisor: i128) -> (q: i128)
    requires
        divisor > 0,
        value > i128::MIN,
    ensures
        q == trunc_div_spec(value as int, divisor as int),
{
    if value >= 0 {
        value / divisor
    } else {
        -((-value) / divisor)
    }
}

/// Evenly distributed horizontal grid rows, deduplicated so that no pixel
/// row is drawn twice, each flagged when it is the center line.
pub fn horizontal_grid_rows(height: i32, lines: u32) -> (rows: Vec<(i32, bool)>)
    ensures
        rows@ == horizontal_grid_rows_spec(height, lines),
{
    let count: u32 = if lines > 1 {
        lines
    } else {
        1
    };
    let mut rows: Vec<(i32, bool)> = Vec::new();
    let mut step: u64 = 0;
    while step <= count as u64
        invariant
            count >= 1,
            count as int == grid_division_count(lines),
            step <= count as u64 + 1,
            rows@ == grid_rows_upto(count as int, height as int, step as nat),
        decreases count as u64 + 1 - step,
    {
        proof {
            assert(step * height <= 0x1_0000_0000 * 0x8000_0000) by (nonlinear_arith)
                requires
                    step <= 0x1_0000_0000,
                    height <= 0x8000_0000,
                    0 <= step,
                    step * height >= 0 || height < 0,
            ;
            assert(step * height >= -0x1_0000_0000 * 0x8000_0000) by (nonlinear_arith)
                requires
                    step <= 0x1_0000_0000,
                    height >= -0x8000_0000,
                    0 <= step,
            ;
        }
        let numerator: i128 = (step as i128) * (height as i128) + (count / 2) as i128;
        let y = trunc_div_i128(numerator, count as i128) as i32;
        let center = step == (count / 2) as u64;
        let n = rows.len();
        if n > 0 && rows[n - 1].0 == y {
            let merged = (y, rows[n - 1].1 || center);
            rows.set(n - 1, merged);
        } else {
            rows.push((y, center));
        }
        step = step + 1;
    }
    rows
}

/// The line command drawn for one horizontal grid row.
pub open spec fn horizontal_line_command(
    width: i32,
    row: (i32, bool),
    style: WaveformViewStyle,
) -> SurfaceCommand {
    SurfaceCommand::Line {
        start: Point { x: 0, y: row.0 },
        end: Point { x: width, y: row.0 },
        color: if row.1 {
            style.grid_horizontal_center
        } else {
            style.grid_horizontal
        },
    }
}

/// The line commands of the horizontal grid, one per row.
pub open spec fn horizontal_grid_commands(
    geometry: WaveformGeometry,
    lines: u32,
    style: WaveformViewStyle,
) -> Seq<SurfaceCommand> {
    horizontal_grid_rows_spec(geometry.height_i32, lines).map_values(
        |row: (i32, bool)| horizontal_line_command(geometry.width_i32, row, style),
    )
}

/// Push evenly distributed horizontal grid lines across the surface; the
/// center line takes the center color.
pub fn push_horizontal_grid(
    commands: &mut Vec<SurfaceCommand>,
    geometry: &WaveformGeometry,
    lines: u32,
    style: WaveformViewStyle,
)
    ensures
        final(commands)@ == old(commands)@ + horizontal_grid_commands(*geometry, lines, style),
{
    let rows = horizontal_grid_rows(geometry.height_i32, lines);
    let ghost start = commands@;
    let ghost expected = horizontal_grid_commands(*geometry, lines, style);
    let mut index: usize = 0;
    while index < rows.len()
        invariant
            index <= rows.len(),
            rows@ == horizontal_grid_rows_spec(geometry.height_i32, lines),
            expected == rows@.map_values(
                |row: (i32, bool)| horizontal_line_command(geometry.width_i32, row, style),
            ),
            commands@ == start + expected.take(index as int),
        decreases rows.len() - index,
    {
        let (y, is_center) = rows[index];
        let color = if is_center {
            style.grid_horizontal_center
        } else {
            style.grid_horizontal
        };
        commands.push(
            SurfaceCommand::Line {
                start: Point { x: 0, y },
                end: Point { x: geometry.width_i32, y },
                color,
            },
        );
        proof {
            assert(expected.take(index + 1) == expected.take(index as int).push(expected[index as int]));
        }
        index = index + 1;
    }
    proof {
        assert(expected.take(index as int) == expected);
    }
}

proof fn lemma_grid_row_y_range(step: int, count: int, height: int)
    requires
        count >= 1,
        0 <= step <= count,
        0 <= height,
    ensures
        0 <= grid_row_y(step, count, height) <= height,
        step == 0 ==> grid_row_y(step, count, height) == 0,
        step == count ==> grid_row_y(step, count, height) == height,
        step < count ==> grid_row_y(step, count, height) <= grid_row_y(step + 1, count, height),
{
    let half = count / 2;
    assert(0 <= step * height <= count * height) by (nonlinear_arith)
        requires
            0 <= step <= count,
            0 <= height,
    ;
    assert((count * height + half) / count == height) by (nonlinear_arith)
        requires
            count >= 1,
            0 <= half < count,
    ;
    assert(half / count == 0) by (nonlinear_arith)
        requires
            count >= 1,
            0 <= half < count,
    ;
    vstd::arithmetic::div_mod::lemma_div_is_ordered(step * height + half, count * height + half, count);
    if step < count {
        assert(step * height <= (step + 1) * height) by (nonlinear_arith)
            requires
                0 <= height,
        ;
        vstd::arithmetic::div_mod::lemma_div_is_ordered(
            step * height + half,
            (step + 1) * height + half,
            count,
        );
    }
    vstd::arithmetic::div_mod::lemma_div_pos_is_pos(step * height + half, count);
}

proof fn lemma_grid_rows_increase(count: int, height: int, k: nat)
    requires
        count >= 1,
        0 <= height <= i32::MAX,
        k <= count + 1,
    ensures
        k >= 1 ==> {
            let rows = grid_rows_upto(count, height, k);
            &&& rows.len() >= 1
            &&& rows[0].0 == 0
            &&& rows.last().0 == grid_row_y(k - 1, count, height)
        },
        k == 0 ==> grid_rows_upto(count, height, k).len() == 0,
        forall|i: int, j: int|
            0 <= i < j < grid_rows_upto(count, height, k).len() ==> grid_rows_upto(
                count,
                height,
                k,
            )[i].0 < grid_rows_upto(count, height, k)[j].0,
    decreases k,
{
    if k >= 1 {
        lemma_grid_rows_increase(count, height, (k - 1) as nat);
        lemma_grid_row_y_range(k - 1, count, height);
        if k >= 2 {
            lemma_grid_row_y_range(k - 2, count, height);
        }
    }
}

/// Horizontal grid rows run strictly downward from the top row to the
/// bottom row: no pixel row is drawn twice, and the grid spans the surface.
pub proof fn law_horizontal_grid_rows_are_distinct_and_span(height: i32, lines: u32)
    requires
        height >= 0,
    ensures
        horizontal_grid_rows_spec(height, lines).len() >= 1,
        horizontal_grid_rows_spec(height, lines)[0].0 == 0,
        horizontal_grid_rows_spec(height, lines).last().0 == height,
        forall|i: int, j: int|
            0 <= i < j < horizontal_grid_rows_spec(height, lines).len() ==> horizontal_grid_rows_spec(
                height,
                lines,
            )[i].0 < horizontal_grid_rows_spec(height, lines)[j].0,
{
    let count = grid_division_count(lines);
    lemma_grid_rows_increase(count, height as int, (count + 1) as nat);
    lemma_grid_row_y_range(count, count, height as int);
}

/// Whether exactly the row at `index` carries the center flag.
pub open spec fn only_center_at(rows: Seq<(i32, bool)>, index: int) -> bool {
    &&& 0 <= index < rows.len()
    &&& rows[index].1
    &&& forall|j: int| 0 <= j < rows.len() && j != index ==> !rows[j].1
}

proof fn lemma_grid_rows_center(count: int, height: int, k: nat)
    requires
        count >= 1,
    ensures
        k <= count / 2 ==> forall|j: int|
            0 <= j < grid_rows_upto(count, height, k).len() ==> !grid_rows_upto(
                count,
                height,
                k,
            )[j].1,
        k > count / 2 ==> exists|i: int| only_center_at(grid_rows_upto(count, height, k), i),
    decreases k,
{
    if k >= 1 {
        lemma_grid_rows_center(count, height, (k - 1) as nat);
        let prev = grid_rows_upto(count, height, (k - 1) as nat);
        let rows = grid_rows_upto(count, height, k);
        if k - 1 == count / 2 {
            assert(only_center_at(rows, rows.len() - 1));
        } else if k - 1 > count / 2 {
            let i = choose|i: int| only_center_at(prev, i);
            assert(only_center_at(rows, i));
        }
    }
}

/// The horizontal grid has exactly one center line, however many grid
/// steps collapse onto the same pixel row.
pub proof fn law_horizontal_grid_has_one_center_row(height: i32, lines: u32)
    ensures
        exists|i: int| only_center_at(horizontal_grid_rows_spec(height, lines), i),
{
    let count = grid_division_count(lines);
    let k = (count + 1) as nat;
    assert(k > count / 2);
    lemma_grid_rows_center(count, height as int, k);
    let i = choose|i: int| only_center_at(grid_rows_upto(count, height as int, k), i);
    assert(only_center_at(horizontal_grid_rows_spec(height, lines), i));
}

/// One drawn channel of a waveform frame: which channel, in which lane,
/// with which command budget, and whether a lane divider follows it.
#[derive(Clone, Copy, Debug, PartialEq, Eq, Structural)]
pub struct ChannelPlan {
    /// Index of the channel's samples and style.
    pub channel: usize,
    /// Vertical bounds the channel is drawn in.
    pub lane: LaneBounds,
    /// Waveform command budget of the channel.
    pub budget: usize,
    /// Whether a divider line is drawn along the lane's top after the channel.
    pub divider_above: bool,
}

/// The lane of the `index`-th drawn channel out of `count`: the whole
/// surface in overlay mode, else its split lane.
#[verifier::opaque]
pub open spec fn planned_lane(
    display_mode: WaveformDisplayMode,
    index: int,
    count: int,
    height: int,
) -> LaneBounds {
    match display_mode {
        WaveformDisplayMode::Overlay => LaneBounds { top: 0, bottom: height as i32 },
        WaveformDisplayMode::Split => LaneBounds {
            top: split_lane_top(index, count, height) as i32,
            bottom: split_lane_bottom(index, count, height) as i32,
        },
    }
}

/// Plan the channels of one waveform frame: nothing with fewer than two
/// samples; otherwise one entry per drawn channel in index order, each with
/// its lane, its index-stable share of `max_waveform_commands`, and a
/// divider above every split lane but the first.
pub fn waveform_frame_plan(
    width: u32,
    height: u32,
    sample_count: usize,
    channel_count: usize,
    channels: &[WaveformChannelStyle],
    display_mode: WaveformDisplayMode,
    max_waveform_commands: usize,
) -> (plan: Vec<ChannelPlan>)
    requires
        display_mode == WaveformDisplayMode::Split && sample_count >= 2 && drawn_channel_count(
            channel_count,
            channels@,
        ) >= 1 ==> surface_dimension(height) <= i32::MAX && drawn_channel_count(
            channel_count,
            channels@,
        ) * surface_dimension(height) <= i32::MAX,
    ensures
        sample_count < 2 ==> plan.len() == 0,
        sample_count >= 2 ==> plan.len() == drawn_channel_count(channel_count, channels@),
        forall|i: int|
            0 <= i < plan.len() ==> plan@[i].channel < channel_count && plan@[i].channel
                < channels@.len() && channels@[plan@[i].channel as int].visible,
        forall|i: int, j: int| 0 <= i < j < plan.len() ==> plan@[i].channel < plan@[j].channel,
        sample_count >= 2 ==> forall|k: int|
            0 <= k < channel_count && k < channels@.len() && channels@[k].visible ==> exists|i: int|
                0 <= i < plan.len() && plan@[i].channel == k,
        forall|i: int|
            0 <= i < plan.len() ==> #[trigger] plan@[i].budget == channel_budget_spec(
                max_waveform_commands as int,
                plan.len() as int,
                i,
            ),
        forall|i: int|
            0 <= i < plan.len() ==> #[trigger] plan@[i].lane == planned_lane(
                display_mode,
                i,
                plan.len() as int,
                surface_dimension(height) as i32 as int,
            ),
        forall|i: int|
            0 <= i < plan.len() ==> #[trigger] plan@[i].divider_above == (display_mode
                == WaveformDisplayMode::Split && i > 0),
{
    let geometry = WaveformGeometry::new(width, height);
    let mut plan: Vec<ChannelPlan> = Vec::new();
    if sample_count < 2 {
        return plan;
    }
    let visible = visible_channel_indices(channel_count, channels);
    let count = visible.len();
    let split = match display_mode {
        WaveformDisplayMode::Overlay => false,
        WaveformDisplayMode::Split => true,
    };
    let mut index: usize = 0;
    while index < count
        invariant
            index <= count,
            count == visible.len(),
            count == drawn_channel_count(channel_count, channels@),
            split == (display_mode == WaveformDisplayMode::Split),
            geometry.height_i32 == surface_dimension(height) as i32,
            split && count >= 1 ==> surface_dimension(height) <= i32::MAX && count
                * surface_dimension(height) <= i32::MAX,
            plan.len() == index,
            forall|i: int| 0 <= i < index ==> plan@[i].channel == visible@[i],
            forall|i: int|
                0 <= i < visible.len() ==> visible@[i] < channel_count && visible@[i]
                    < channels@.len() && channels@[visible@[i] as int].visible,
            forall|i: int, j: int| 0 <= i < j < visible.len() ==> visible@[i] < visible@[j],
            forall|k: int|
                0 <= k < channel_count && k < channels@.len() && channels@[k].visible
                    ==> visible@.contains(k as usize),
            forall|i: int|
                0 <= i < index ==> #[trigger] plan@[i].budget == channel_budget_spec(
                    max_waveform_commands as int,
                    count as int,
                    i,
                ),
            forall|i: int|
                0 <= i < index ==> #[trigger] plan@[i].lane == planned_lane(
                    display_mode,
                    i,
                    count as int,
                    surface_dimension(height) as i32 as int,
                ),
            forall|i: int| 0 <= i < index ==> #[trigger] plan@[i].divider_above == (split && i > 0),
        decreases count - index,
    {
        let budget = channel_waveform_budget(max_waveform_commands, count, index);
        let lane = if split {
            proof {
                let h = geometry.height_i32 as int;
                let n = count as int;
                let i = index as int;
                assert(h == surface_dimension(height));
                assert(0 <= i * h <= (i + 1) * h <= n * h) by (nonlinear_arith)
                    requires
                        0 <= i < n,
                        h >= 1,
                ;
                assert(i * h < n * h) by (nonlinear_arith)
                    requires
                        0 <= i < n,
                        h >= 1,
                ;
                assert(h * n == n * h) by (nonlinear_arith);
                crate::arith::lemma_div_is_largest(i * h, n, h);
                assert(n <= i32::MAX) by (nonlinear_arith)
                    requires
                        1 <= n,
                        h >= 1,
                        n * h <= i32::MAX,
                ;
                assert((index as i32) as int == i);
                assert((count as i32) as int == n);
                assert(split_lane_top(i, n, h) == (i * h) / n);
                assert(split_lane_top(i, n, h) + 1 <= h);
            }
            let lane = LaneBounds::for_split_lane(&geometry, index as i32, count as i32);
            proof {
                let h = geometry.height_i32 as int;
                assert(lane.top == split_lane_top(index as int, count as int, h));
                assert(lane.bottom == split_lane_bottom(index as int, count as int, h));
                reveal(planned_lane);
                assert(lane == planned_lane(display_mode, index as int, count as int, h));
            }
            lane
        } else {
            let lane = LaneBounds::full(&geometry);
            proof {
                reveal(planned_lane);
                assert(lane == planned_lane(
                    display_mode,
                    index as int,
                    count as int,
                    geometry.height_i32 as int,
                ));
            }
            lane
        };
        let ghost prev = plan@;
        plan.push(
            ChannelPlan {
                channel: visible[index],
                lane,
                budget,
                divider_above: split && index > 0,
            },
        );
        proof {
            let k = index as int;
            assert(plan@[k].lane == lane);
            assert(plan@[k].budget == budget);
            assert(plan@[k].lane == planned_lane(
                display_mode,
                k,
                count as int,
                surface_dimension(height) as i32 as int,
            ));
            assert(plan@[k].budget == channel_budget_spec(max_waveform_commands as int, count as int, k));
            assert forall|i: int| 0 <= i < k implies plan@[i] == prev[i] by {}
        }
        index = index + 1;
    }
    proof {
        assert forall|i: int| 0 <= i < plan.len() implies plan@[i].channel < channel_count
            && plan@[i].channel < channels@.len() && channels@[plan@[i].channel as int].visible by {
            assert(plan@[i].channel == visible@[i]);
        }
        assert forall|i: int, j: int| 0 <= i < j < plan.len() implies plan@[i].channel
            < plan@[j].channel by {
            assert(plan@[i].channel == visible@[i]);
            assert(plan@[j].channel == visible@[j]);
        }
        assert forall|k: int|
            0 <= k < channel_count && k < channels@.len() && channels@[k].visible implies exists|
                i: int,
            |
                0 <= i < plan.len() && plan@[i].channel == k by {
            assert(visible@.contains(k as usize));
            let w = choose|w: int| 0 <= w < visible@.len() && visible@[w] == k as usize;
            assert(plan@[w].channel == k);
        }
    }
    plan
}

/// The divider line drawn after a planned channel, if it has one.
pub open spec fn divider_view(plan: ChannelPlan, divider: Color, width: i32) -> Seq<CommandView> {
    if plan.divider_above {
        seq![
            CommandView::Line {
                start: Point { x: 0, y: plan.lane.top },
                end: Point { x: width, y: plan.lane.top },
                color: divider,
            },
        ]
    } else {
        Seq::empty()
    }
}

/// The commands of the first `k` planned channels: each channel's own
/// commands, then its divider line.
pub open spec fn assembled_channels(
    plan: Seq<ChannelPlan>,
    per_channel: Seq<Seq<CommandView>>,
    divider: Color,
    width: i32,
    k: nat,
) -> Seq<CommandView>
    decreases k,
{
    if k == 0 {
        Seq::empty()
    } else {
        assembled_channels(plan, per_channel, divider, width, (k - 1) as nat) + per_channel[k - 1]
            + divider_view(plan[k - 1], divider, width)
    }
}

proof fn lemma_view_concat(a: Seq<SurfaceCommand>, b: Seq<SurfaceCommand>)
    ensures
        commands_view(a + b) == commands_view(a) + commands_view(b),
{
    assert(commands_view(a + b) =~= commands_view(a) + commands_view(b));
}

/// Assemble one waveform frame: the frame commands (background and grid),
/// then for each planned channel its commands followed by its divider line.
pub fn assemble_waveform_commands(
    frame: Vec<SurfaceCommand>,
    plan: &Vec<ChannelPlan>,
    per_channel: Vec<Vec<SurfaceCommand>>,
    divider: Color,
    width: i32,
) -> (out: Vec<SurfaceCommand>)
    requires
        per_channel.len() == plan.len(),
    ensures
        commands_view(out@) == commands_view(frame@) + assembled_channels(
            plan@,
            per_channel@.map_values(|v: Vec<SurfaceCommand>| commands_view(v@)),
            divider,
            width,
            plan.len() as nat,
        ),
{
    let ghost views = per_channel@.map_values(|v: Vec<SurfaceCommand>| commands_view(v@));
    let ghost start = commands_view(frame@);
    let ghost original = per_channel@;
    let mut out = frame;
    let mut rest = per_channel;
    let mut index: usize = 0;
    while index < plan.len()
        invariant
            index <= plan.len(),
            original.len() == plan.len(),
            views == original.map_values(|v: Vec<SurfaceCommand>| commands_view(v@)),
            rest@ == original.skip(index as int),
            commands_view(out@) == start + assembled_channels(
                plan@,
                views,
                divider,
                width,
                index as nat,
            ),
        decreases plan.len() - index,
    {
        let ghost before = out@;
        let mut commands = rest.remove(0);
        proof {
            assert(commands == original[index as int]);
            assert(rest@ =~= original.skip(index + 1));
            assert(views[index as int] == commands_view(commands@));
        }
        out.append(&mut commands);
        proof {
            lemma_view_concat(before, original[index as int]@);
        }
        let entry = plan[index];
        if entry.divider_above {
            let line = SurfaceCommand::Line {
                start: Point { x: 0, y: entry.lane.top },
                end: Point { x: width, y: entry.lane.top },
                color: divider,
            };
            let ghost mid = out@;
            out.push(line);
            proof {
                lemma_view_concat(mid, seq![line]);
                assert(mid.push(line) == mid + seq![line]);
                assert(commands_view(seq![line]) =~= divider_view(entry, divider, width));
            }
        } else {
            proof {
                assert(divider_view(entry, divider, width) == Seq::<CommandView>::empty());
            }
        }
        proof {
            let prev = assembled_channels(plan@, views, divider, width, index as nat);
            assert(start + assembled_channels(plan@, views, divider, width, (index + 1) as nat)
                == start + prev + views[index as int] + divider_view(entry, divider, width));
        }
        index = index + 1;
    }
    out
}

} // verus!
