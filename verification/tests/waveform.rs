use lib::waveform::{
    assemble_waveform_commands, waveform_frame_plan, ChannelPlan, WaveformDisplayMode,
    channel_waveform_budget, horizontal_grid_rows, push_background, push_horizontal_grid,
    visible_channel_indices, Color, LaneBounds, Point, Rect, Size, SurfaceCommand,
    WaveformChannelStyle, WaveformGeometry, WaveformViewStyle,
};
use lib::waveform_columns::{fill_phase_aligned_column_bounds_into, phase_aligned_column_bounds};
use lib::waveform_contour::{
    compact_polyline_points, emit_glow_outward, emit_glow_symmetric, emit_polyline,
    emit_polyline_batched, emit_shifted_polyline, point_x,
};
use lib::waveform_glow::{
    estimate_glow_points, outline_layer_alpha, outline_layer_segment_stride, resolve_glow_plan,
    sampled_polyline_point_count, with_alpha, GlowPlan,
};

fn collect_lines_by_color(commands: &[SurfaceCommand], color: Color) -> Vec<(Point, Point)> {
    commands
        .iter()
        .filter_map(|command| match command {
            SurfaceCommand::Line {
                start,
                end,
                color: line_color,
            } if *line_color == color => Some((*start, *end)),
            _ => None,
        })
        .collect()
}

#[test]
fn default_center_line_color_is_subtle_gray() {
    assert_eq!(
        WaveformViewStyle::default().grid_horizontal_center,
        Color::rgb(36, 40, 45)
    );
}

#[test]
fn channel_budget_distribution_is_index_stable() {
    let budgets: Vec<usize> = (0..3)
        .map(|index| channel_waveform_budget(100, 3, index))
        .collect();
    assert_eq!(budgets, vec![34, 33, 33]);

    let zero_channel_budget = channel_waveform_budget(100, 0, 0);
    assert_eq!(zero_channel_budget, 0);
}

#[test]
fn channel_budgets_never_drop_below_one_command() {
    assert_eq!(channel_waveform_budget(2, 5, 4), 1);
    assert_eq!(channel_waveform_budget(usize::MAX, 1, 0), usize::MAX);
}

#[test]
fn horizontal_grid_deduplicates_center_line_to_single_pixel_row() {
    let style = WaveformViewStyle::default();
    let geometry = WaveformGeometry::new(64, 8);
    let mut commands = Vec::new();
    push_horizontal_grid(&mut commands, &geometry, 128, style);
    let center_lines = collect_lines_by_color(&commands, style.grid_horizontal_center);
    assert_eq!(center_lines.len(), 1);
    let (start, end) = center_lines[0];
    assert_eq!(start.y, end.y);
    let rows: Vec<i32> = horizontal_grid_rows(8, 128).iter().map(|row| row.0).collect();
    assert_eq!(rows, (0..=8).collect::<Vec<i32>>());
}

#[test]
fn horizontal_grid_rows_round_to_nearest_pixel() {
    assert_eq!(
        horizontal_grid_rows(100, 3),
        vec![(0, false), (33, true), (67, false), (100, false)]
    );
    assert_eq!(horizontal_grid_rows(10, 0), vec![(0, true), (10, false)]);
}

#[test]
fn background_fills_the_whole_surface() {
    let style = WaveformViewStyle::default();
    let mut commands = Vec::new();
    push_background(&mut commands, &WaveformGeometry::new(0, 30), style);
    assert_eq!(
        commands,
        vec![SurfaceCommand::FillRect {
            rect: Rect {
                origin: Point { x: 0, y: 0 },
                size: Size {
                    width: 1,
                    height: 30
                },
            },
            color: style.background,
        }]
    );
}

#[test]
fn split_lanes_partition_the_surface_height() {
    let geometry = WaveformGeometry::new(200, 100);
    let lanes: Vec<LaneBounds> = (0..3)
        .map(|index| LaneBounds::for_split_lane(&geometry, index, 3))
        .collect();
    assert_eq!(lanes[0], LaneBounds { top: 0, bottom: 33 });
    assert_eq!(lanes[1], LaneBounds { top: 33, bottom: 66 });
    assert_eq!(lanes[2], LaneBounds { top: 66, bottom: 100 });
    assert_eq!(LaneBounds::full(&geometry), LaneBounds { top: 0, bottom: 100 });
}

#[test]
fn visible_channels_are_listed_in_order() {
    let on = WaveformChannelStyle {
        visible: true,
        color: Color::rgb(1, 2, 3),
    };
    let off = WaveformChannelStyle {
        visible: false,
        ..on
    };
    assert_eq!(visible_channel_indices(4, &[on, off, on, on]), vec![0, 2, 3]);
    assert_eq!(visible_channel_indices(2, &[on, off, on, on]), vec![0]);
    assert!(visible_channel_indices(5, &[]).is_empty());
}

#[test]
fn alpha_scaling_rounds_to_nearest() {
    assert_eq!(with_alpha(Color::rgb(9, 8, 7), 72), Color::rgba(9, 8, 7, 72));
    assert_eq!(with_alpha(Color::rgba(9, 8, 7, 128), 128).a, 64);
    assert_eq!(with_alpha(Color::rgb(9, 8, 7), 0).a, 0);
}

#[test]
fn glow_layers_fade_from_inner_to_outer_alpha() {
    let style = WaveformViewStyle::default();
    let alphas: Vec<u8> = (0..4).map(|layer| outline_layer_alpha(style, layer, 4)).collect();
    assert_eq!(alphas, vec![210, 140, 70, 0]);
    assert_eq!(outline_layer_alpha(style, 3, 1), 210);
    assert_eq!(outline_layer_segment_stride(2), 3);
}

#[test]
fn sampled_point_counts_keep_first_and_last() {
    assert_eq!(sampled_polyline_point_count(0, 3), 0);
    assert_eq!(sampled_polyline_point_count(1, 3), 1);
    assert_eq!(sampled_polyline_point_count(10, 3), 4);
    assert_eq!(sampled_polyline_point_count(10, 0), 10);
    assert_eq!(estimate_glow_points(10, 2, 1, 2), 2 * 10 + 2 * 5);
    assert_eq!(estimate_glow_points(1, 2, 1, 2), 0);
}

#[test]
fn glow_plan_drops_layers_before_coarsening_stride() {
    let style = WaveformViewStyle::default();
    assert_eq!(
        resolve_glow_plan(100, style, 1000, 100_000, 2),
        GlowPlan {
            layers: 4,
            stride_scale: 1
        }
    );
    assert_eq!(
        resolve_glow_plan(100, style, 4, 100_000, 2),
        GlowPlan {
            layers: 2,
            stride_scale: 1
        }
    );
    let tight = resolve_glow_plan(100, style, 1000, 120, 2);
    assert_eq!(tight.layers, 1);
    assert!(estimate_glow_points(100, 1, tight.stride_scale, 2) <= 120);
    assert_eq!(
        resolve_glow_plan(1, style, 1000, 1000, 2),
        GlowPlan {
            layers: 0,
            stride_scale: 1
        }
    );
}

#[test]
fn point_columns_span_the_width() {
    assert_eq!(point_x(0, 5, 8), 0);
    assert_eq!(point_x(4, 5, 8), 8);
    assert_eq!(point_x(1, 5, 8), 2);
    assert_eq!(point_x(3, 4, 3), 3);
    assert_eq!(point_x(0, 1, 8), 0);
}

#[test]
fn compacting_removes_consecutive_duplicates_only() {
    let a = Point { x: 0, y: 0 };
    let b = Point { x: 1, y: 0 };
    assert_eq!(compact_polyline_points(&[a, a, b, b, a]), vec![a, b, a]);
    assert!(compact_polyline_points(&[]).is_empty());
}

#[test]
fn polylines_emit_segments_and_batches() {
    let color = Color::rgb(200, 100, 50);
    let a = Point { x: 0, y: 0 };
    let b = Point { x: 1, y: 2 };
    let mut commands = Vec::new();
    emit_polyline(&mut commands, &[a, a, b], color);
    assert_eq!(
        commands,
        vec![SurfaceCommand::Line {
            start: a,
            end: b,
            color
        }]
    );
    let mut batched = Vec::new();
    emit_polyline_batched(&mut batched, &[a, a, b], color);
    assert_eq!(
        batched,
        vec![SurfaceCommand::Polyline {
            points: vec![a, b],
            color
        }]
    );
    let mut none = Vec::new();
    emit_polyline_batched(&mut none, &[a, a], color);
    emit_polyline(&mut none, &[a, b], Color::rgba(1, 1, 1, 0));
    assert!(none.is_empty());
}

#[test]
fn shifted_polylines_stay_inside_the_lane() {
    let color = Color::rgb(10, 20, 30);
    let lane = LaneBounds { top: 0, bottom: 10 };
    let points: Vec<Point> = (0..6).map(|x| Point { x, y: 9 }).collect();
    let mut commands = Vec::new();
    let mut scratch = Vec::new();
    emit_shifted_polyline(&mut commands, &points, lane, color, 3, 2, &mut scratch);
    assert_eq!(
        commands,
        vec![SurfaceCommand::Polyline {
            points: vec![
                Point { x: 0, y: 10 },
                Point { x: 2, y: 10 },
                Point { x: 4, y: 10 },
                Point { x: 5, y: 10 },
            ],
            color,
        }]
    );
}

#[test]
fn glows_emit_one_polyline_per_visible_layer_and_side() {
    let style = WaveformViewStyle::default();
    let color = Color::rgb(140, 210, 250);
    let lane = LaneBounds { top: 0, bottom: 40 };
    let contour: Vec<Point> = (0..20).map(|x| Point { x, y: 20 + (x % 3) }).collect();
    let plan = GlowPlan {
        layers: 4,
        stride_scale: 1,
    };
    let mut scratch = Vec::new();
    let mut symmetric = Vec::new();
    emit_glow_symmetric(&mut symmetric, &contour, lane, color, style, plan, &mut scratch);
    assert_eq!(symmetric.len(), 6);
    let mut outward = Vec::new();
    emit_glow_outward(&mut outward, &contour, lane, color, style, -1, plan, &mut scratch);
    assert_eq!(outward.len(), 3);
}

#[test]
fn column_bounds_tile_the_samples_with_phase() {
    assert_eq!(phase_aligned_column_bounds(10, 4, 0, 0), (0, 2));
    assert_eq!(phase_aligned_column_bounds(10, 4, 0, 3), (7, 10));
    assert_eq!(phase_aligned_column_bounds(10, 4, 5, 0), (0, 2));
    assert_eq!(phase_aligned_column_bounds(10, 4, 7, 1), (3, 5));
    assert_eq!(phase_aligned_column_bounds(0, 4, 7, 1), (0, 0));
    let mut out = Vec::new();
    fill_phase_aligned_column_bounds_into(2, 4, 0, &mut out);
    assert_eq!(out, vec![(0, 1), (0, 1), (1, 2), (1, 2)]);
    fill_phase_aligned_column_bounds_into(0, 4, 0, &mut out);
    assert!(out.is_empty());
}

#[test]
fn column_phase_repeats_with_the_column_cadence() {
    for column in 0..4 {
        assert_eq!(
            phase_aligned_column_bounds(10, 4, 3, column),
            phase_aligned_column_bounds(10, 4, 3 + 2 * 4, column)
        );
    }
}

#[test]
fn frame_plan_assigns_lanes_budgets_and_dividers() {
    let on = WaveformChannelStyle {
        visible: true,
        color: Color::rgb(1, 2, 3),
    };
    let off = WaveformChannelStyle {
        visible: false,
        ..on
    };
    let styles = [on, off, on, on];
    let plan = waveform_frame_plan(100, 90, 10, 4, &styles, WaveformDisplayMode::Split, 100);
    assert_eq!(
        plan,
        vec![
            ChannelPlan {
                channel: 0,
                lane: LaneBounds { top: 0, bottom: 30 },
                budget: 34,
                divider_above: false
            },
            ChannelPlan {
                channel: 2,
                lane: LaneBounds { top: 30, bottom: 60 },
                budget: 33,
                divider_above: true
            },
            ChannelPlan {
                channel: 3,
                lane: LaneBounds { top: 60, bottom: 90 },
                budget: 33,
                divider_above: true
            },
        ]
    );
    let overlay = waveform_frame_plan(100, 90, 10, 2, &styles, WaveformDisplayMode::Overlay, 5);
    assert_eq!(overlay.len(), 1);
    assert_eq!(overlay[0].lane, LaneBounds { top: 0, bottom: 90 });
    assert!(!overlay[0].divider_above);
    assert!(waveform_frame_plan(100, 90, 1, 4, &styles, WaveformDisplayMode::Split, 100).is_empty());
}

#[test]
fn assembled_frames_put_each_divider_after_its_channel() {
    let color = Color::rgb(9, 9, 9);
    let divider = Color::rgb(1, 1, 1);
    let mark = |y| SurfaceCommand::Line {
        start: Point { x: 0, y },
        end: Point { x: 1, y },
        color,
    };
    let plan = vec![
        ChannelPlan {
            channel: 0,
            lane: LaneBounds { top: 0, bottom: 5 },
            budget: 1,
            divider_above: false,
        },
        ChannelPlan {
            channel: 1,
            lane: LaneBounds { top: 5, bottom: 10 },
            budget: 1,
            divider_above: true,
        },
    ];
    let out = assemble_waveform_commands(vec![mark(100)], &plan, vec![vec![mark(1)], vec![mark(6), mark(7)]], divider, 40);
    assert_eq!(
        out,
        vec![
            mark(100),
            mark(1),
            mark(6),
            mark(7),
            SurfaceCommand::Line {
                start: Point { x: 0, y: 5 },
                end: Point { x: 40, y: 5 },
                color: divider
            },
        ]
    );
}
