use orbui::bounds::{arc_rect, cubic_rect, quad_rect, PathRectTrack};
use orbui::color::Color;
use orbui::fixed::{Fx, FX_ONE};
use orbui::geometry::{Point, Rectangle, Size};
use orbui::gradient::{
    Brush, Direction, Gradient, GradientKind, GradientStop, LinearGradientCoords, OnLinePos,
    OnLinePosKind, OnPlanePos, RadialGradient, RadialGradientSize, StopPosition,
};
use orbui::image::Image;
use orbui::layout::{
    Alignment, Constraint, LayoutEngine, LayoutKind, Node, Thickness, Visibility,
};
use orbui::render::{DrawCommand, RenderContext2D};
use orbui::source::{resolve_brush, DeviceSource, ResolveError, Spread};
use orbui::stops::resolve_stops;
use orbui::trig::{cos_deg, sin_deg};

fn fx(i: i64) -> Fx {
    Fx::from_int(i)
}

fn frac(millionths: i64) -> Fx {
    Fx::from_units(millionths)
}

fn zero_pos() -> OnPlanePos {
    OnPlanePos::new(
        OnLinePos::new(Fx::zero(), OnLinePosKind::Pixels),
        OnLinePos::new(Fx::zero(), OnLinePosKind::Pixels),
    )
}

fn stop(pos: StopPosition, c: Color) -> GradientStop {
    GradientStop { pos, color: c }
}

fn leaf(w: i64, h: i64) -> Node {
    Node {
        layout: LayoutKind::Fixed { width: fx(w), height: fx(h) },
        h_align: Alignment::Start,
        v_align: Alignment::Start,
        margin: Thickness { left: Fx::zero(), top: Fx::zero(), right: Fx::zero(), bottom: Fx::zero() },
        constraint: Constraint {
            min_width: Fx::zero(),
            min_height: Fx::zero(),
            max_width: fx(1_000_000),
            max_height: fx(1_000_000),
        },
        visibility: Visibility::Visible,
        desired: Size::new(Fx::zero(), Fx::zero()),
        bounds: Rectangle::new(Fx::zero(), Fx::zero(), Fx::zero(), Fx::zero()),
        children: Vec::new(),
    }
}

#[test]
fn fixed_point_arithmetic_is_exact() {
    assert_eq!(fx(3).add(fx(4)).raw, 7 * FX_ONE);
    assert_eq!(frac(500_000).mul(frac(500_000)).raw, 250_000);
    assert_eq!(fx(1).div(fx(2)).raw, 500_000);
    assert_eq!(fx(-7).div_int(2).raw, -3_500_000);
    assert_eq!(Fx { raw: i64::MAX }.add(fx(1)).raw, i64::MAX);
}

#[test]
fn distance_of_a_right_triangle() {
    let d = Point::new(fx(0), fx(0)).distance(Point::new(fx(3), fx(4)));
    assert_eq!(d.raw, 5 * FX_ONE);
}

#[test]
fn cardinal_trigonometry_is_exact() {
    assert_eq!(sin_deg(fx(0)).raw, 0);
    assert_eq!(sin_deg(fx(90)).raw, FX_ONE);
    assert_eq!(sin_deg(fx(180)).raw, 0);
    assert_eq!(sin_deg(fx(270)).raw, -FX_ONE);
    assert_eq!(cos_deg(fx(0)).raw, FX_ONE);
    assert_eq!(cos_deg(fx(180)).raw, -FX_ONE);
    assert_eq!(cos_deg(fx(360)).raw, FX_ONE);
    assert_eq!(sin_deg(fx(-90)).raw, -FX_ONE);
}

#[test]
fn tracked_point_bounds_are_exact_min_max() {
    let mut track = PathRectTrack::new(false);
    assert!(track.get_rect().is_none());
    track.record_point_at(fx(10), fx(20));
    track.record_point_at(fx(-5), fx(40));
    track.record_point_at(fx(7), fx(-3));
    let rect = track.get_rect().unwrap();
    assert_eq!(rect.x.raw, -5 * FX_ONE);
    assert_eq!(rect.y.raw, -3 * FX_ONE);
    assert_eq!(rect.width.raw, 15 * FX_ONE);
    assert_eq!(rect.height.raw, 43 * FX_ONE);
}

#[test]
fn cubic_bounds_reach_the_curve_extremum() {
    let rect = cubic_rect(
        Point::new(fx(0), fx(0)),
        Point::new(fx(0), fx(100)),
        Point::new(fx(100), fx(100)),
        Point::new(fx(100), fx(0)),
    );
    assert_eq!(rect.y.raw, 0);
    assert_eq!(rect.height.raw, 75 * FX_ONE);
    assert_eq!(rect.x.raw, 0);
    assert_eq!(rect.width.raw, 100 * FX_ONE);
}

#[test]
fn quad_bounds_fold_in_the_extremum_only_when_control_escapes() {
    let inside = quad_rect(
        Point::new(fx(0), fx(0)),
        Point::new(fx(5), fx(5)),
        Point::new(fx(10), fx(10)),
    );
    assert_eq!(inside.width.raw, 10 * FX_ONE);
    let outside = quad_rect(
        Point::new(fx(0), fx(0)),
        Point::new(fx(0), fx(100)),
        Point::new(fx(100), fx(0)),
    );
    // The vertical extremum of the curve is at half the control height.
    assert_eq!(outside.height.raw, 50 * FX_ONE);
}

#[test]
fn arc_bounds_include_covered_cardinals() {
    let rect = arc_rect(fx(0), fx(0), fx(10), fx(0), fx(90));
    assert_eq!(rect.x.raw, 0);
    assert_eq!(rect.y.raw, 0);
    assert_eq!(rect.width.raw, 10 * FX_ONE);
    assert_eq!(rect.height.raw, 10 * FX_ONE);
}

#[test]
fn all_auto_stops_spread_evenly() {
    let black = Color::rgb(0, 0, 0);
    let stops = vec![
        stop(StopPosition::Auto, black),
        stop(StopPosition::Auto, black),
        stop(StopPosition::Auto, black),
    ];
    let resolved = resolve_stops(&stops, fx(100));
    let positions: Vec<i64> = resolved.iter().map(|s| s.position.raw).collect();
    assert_eq!(positions, vec![0, 500_000, 1_000_000]);
}

#[test]
fn explicit_stop_positions_never_decrease() {
    let black = Color::rgb(0, 0, 0);
    let stops = vec![
        stop(StopPosition::Fraction(frac(800_000)), black),
        stop(StopPosition::Fraction(frac(300_000)), black),
    ];
    let resolved = resolve_stops(&stops, fx(1));
    assert_eq!(resolved[0].position.raw, 800_000);
    assert_eq!(resolved[1].position.raw, 800_000);
}

#[test]
fn absolute_stops_divide_by_the_axis_length() {
    let black = Color::rgb(0, 0, 0);
    let stops = vec![
        stop(StopPosition::Absolute(fx(50)), black),
        stop(StopPosition::Auto, black),
        stop(StopPosition::Absolute(fx(100)), black),
    ];
    let resolved = resolve_stops(&stops, fx(100));
    assert_eq!(resolved[0].position.raw, 500_000);
    assert_eq!(resolved[1].position.raw, 1_000_000);
    assert_eq!(resolved[2].position.raw, 1_000_000);
}

fn linear_gradient(coords: LinearGradientCoords, stops: Vec<GradientStop>) -> Brush {
    Brush::Gradient(Gradient { kind: GradientKind::Linear(coords), stops, repeat: false })
}

#[test]
fn direction_gradient_crosses_the_frame() {
    let black = Color::rgb(0, 0, 0);
    let white = Color::rgb(255, 255, 255);
    let brush = linear_gradient(
        LinearGradientCoords::Direction {
            direction: Direction::ToRight,
            displacement: zero_pos(),
        },
        vec![stop(StopPosition::Auto, black), stop(StopPosition::Auto, white)],
    );
    let frame = Rectangle::new(fx(0), fx(0), fx(100), fx(50));
    match resolve_brush(&brush, frame).unwrap().unwrap() {
        DeviceSource::LinearGradient { start, end, stops, spread } => {
            assert_eq!(start.x.raw, 0);
            assert_eq!(start.y.raw, 25 * FX_ONE);
            assert_eq!(end.x.raw, 100 * FX_ONE);
            assert_eq!(end.y.raw, 25 * FX_ONE);
            assert_eq!(stops.len(), 2);
            assert_eq!(spread, Spread::Pad);
        },
        other => panic!("expected a linear gradient, got {:?}", other),
    }
}

#[test]
fn opposite_angles_swap_start_and_end() {
    let black = Color::rgb(0, 0, 0);
    let white = Color::rgb(255, 255, 255);
    let frame = Rectangle::new(fx(0), fx(0), fx(100), fx(100));
    let up = linear_gradient(
        LinearGradientCoords::Angle { degrees: fx(0), displacement: zero_pos() },
        vec![stop(StopPosition::Auto, black), stop(StopPosition::Auto, white)],
    );
    let down = linear_gradient(
        LinearGradientCoords::Angle { degrees: fx(180), displacement: zero_pos() },
        vec![stop(StopPosition::Auto, black), stop(StopPosition::Auto, white)],
    );
    let g_up = resolve_brush(&up, frame).unwrap().unwrap();
    let g_down = resolve_brush(&down, frame).unwrap().unwrap();
    match (g_up, g_down) {
        (
            DeviceSource::LinearGradient { start: s1, end: e1, .. },
            DeviceSource::LinearGradient { start: s2, end: e2, .. },
        ) => {
            assert_eq!(s1, e2);
            assert_eq!(e1, s2);
            assert_ne!(s1, e1);
        },
        other => panic!("expected linear gradients, got {:?}", other),
    }
}

#[test]
fn single_stop_gradient_degrades_to_solid() {
    let red = Color::rgb(255, 0, 0);
    let brush = linear_gradient(
        LinearGradientCoords::Ends {
            start: Point::new(fx(0), fx(0)),
            end: Point::new(fx(10), fx(0)),
        },
        vec![stop(StopPosition::Auto, red)],
    );
    for frame in [
        Rectangle::new(fx(0), fx(0), fx(10), fx(10)),
        Rectangle::new(fx(-3), fx(7), fx(0), fx(400)),
    ] {
        match resolve_brush(&brush, frame).unwrap().unwrap() {
            DeviceSource::Solid(c) => assert_eq!(c, red),
            other => panic!("expected a solid source, got {:?}", other),
        }
    }
}

#[test]
fn radial_closest_side_scales_the_wide_axis() {
    let black = Color::rgb(0, 0, 0);
    let white = Color::rgb(255, 255, 255);
    let brush = Brush::Gradient(Gradient {
        kind: GradientKind::Radial(RadialGradient {
            size: RadialGradientSize::ToClosestSide(false),
            pos: None,
        }),
        stops: vec![stop(StopPosition::Auto, black), stop(StopPosition::Auto, white)],
        repeat: false,
    });
    let frame = Rectangle::new(fx(0), fx(0), fx(200), fx(100));
    match resolve_brush(&brush, frame).unwrap().unwrap() {
        DeviceSource::RadialGradient { center, radius, scale_x, scale_y, .. } => {
            assert_eq!(radius.raw, 50 * FX_ONE);
            assert_eq!(scale_x.raw, 500_000);
            assert_eq!(scale_y.raw, FX_ONE);
            assert_eq!(center.x.raw, 100 * FX_ONE);
            assert_eq!(center.y.raw, 50 * FX_ONE);
        },
        other => panic!("expected a radial gradient, got {:?}", other),
    }
}

#[test]
fn unsupported_radial_sizing_fails_loudly() {
    let black = Color::rgb(0, 0, 0);
    let brush = Brush::Gradient(Gradient {
        kind: GradientKind::Radial(RadialGradient {
            size: RadialGradientSize::ToFarthestCorner(false),
            pos: None,
        }),
        stops: vec![stop(StopPosition::Auto, black), stop(StopPosition::Auto, black)],
        repeat: false,
    });
    let frame = Rectangle::new(fx(0), fx(0), fx(10), fx(10));
    assert_eq!(
        resolve_brush(&brush, frame),
        Err(ResolveError::UnsupportedGradientSizing)
    );
}

#[test]
fn degenerate_frame_resolves_to_nothing() {
    let black = Color::rgb(0, 0, 0);
    let brush = linear_gradient(
        LinearGradientCoords::Angle { degrees: fx(45), displacement: zero_pos() },
        vec![stop(StopPosition::Auto, black), stop(StopPosition::Auto, black)],
    );
    let frame = Rectangle::new(fx(0), fx(0), fx(0), fx(100));
    assert_eq!(resolve_brush(&brush, frame), Ok(None));
}

#[test]
fn transparent_brush_is_detected() {
    assert!(Brush::SolidColor(Color::rgba(1, 2, 3, 0)).is_transparent());
    assert!(!Brush::SolidColor(Color::rgb(1, 2, 3)).is_transparent());
    assert!(Brush::default().is_transparent());
}

#[test]
fn clean_tree_short_circuits_the_layout_pass() {
    let mut engine = LayoutEngine::new();
    let mut root = leaf(50, 40);
    root.children.push(leaf(10, 10));
    engine.run(&mut root, Size::new(fx(200), fx(100)));
    let bounds_after_first = root.bounds;
    let child_bounds_after_first = root.children[0].bounds;
    // The engine is clean now: another run must not touch any bounds.
    engine.run(&mut root, Size::new(fx(999), fx(999)));
    assert_eq!(root.bounds, bounds_after_first);
    assert_eq!(root.children[0].bounds, child_bounds_after_first);
}

#[test]
fn dirty_widgets_force_a_new_pass() {
    let mut engine = LayoutEngine::new();
    let mut root = leaf(50, 40);
    engine.run(&mut root, Size::new(fx(200), fx(100)));
    assert_eq!(root.bounds.width.raw, 50 * FX_ONE);
    engine.mark_dirty(0);
    let mut wider = leaf(80, 40);
    std::mem::swap(&mut root.layout, &mut wider.layout);
    engine.run(&mut root, Size::new(fx(200), fx(100)));
    assert_eq!(root.bounds.width.raw, 80 * FX_ONE);
}

#[test]
fn vertical_stack_places_children_under_each_other() {
    let mut engine = LayoutEngine::new();
    let mut root = leaf(0, 0);
    root.layout = LayoutKind::Stack { vertical: true, spacing: fx(5) };
    root.h_align = Alignment::Stretch;
    root.v_align = Alignment::Stretch;
    root.children.push(leaf(10, 10));
    root.children.push(leaf(20, 10));
    engine.run(&mut root, Size::new(fx(100), fx(100)));
    assert_eq!(root.bounds.width.raw, 100 * FX_ONE);
    assert_eq!(root.children[0].bounds.y.raw, 0);
    assert_eq!(root.children[0].bounds.height.raw, 10 * FX_ONE);
    assert_eq!(root.children[1].bounds.y.raw, 15 * FX_ONE);
    assert_eq!(root.children[1].bounds.width.raw, 20 * FX_ONE);
}

#[test]
fn measure_clamps_to_the_constraint() {
    let mut engine = LayoutEngine::new();
    let mut root = leaf(500, 5);
    root.constraint.max_width = fx(120);
    root.constraint.min_height = fx(30);
    engine.run(&mut root, Size::new(fx(1000), fx(1000)));
    assert_eq!(root.bounds.width.raw, 120 * FX_ONE);
    assert_eq!(root.bounds.height.raw, 30 * FX_ONE);
}

#[test]
fn centered_child_sits_in_the_middle() {
    let mut engine = LayoutEngine::new();
    let mut root = leaf(0, 0);
    root.layout = LayoutKind::Padding {
        padding: Thickness { left: fx(10), top: fx(10), right: fx(10), bottom: fx(10) },
    };
    root.h_align = Alignment::Stretch;
    root.v_align = Alignment::Stretch;
    let mut child = leaf(20, 20);
    child.h_align = Alignment::Center;
    child.v_align = Alignment::Center;
    root.children.push(child);
    engine.run(&mut root, Size::new(fx(100), fx(100)));
    assert_eq!(root.children[0].bounds.x.raw, 40 * FX_ONE);
    assert_eq!(root.children[0].bounds.y.raw, 40 * FX_ONE);
}

#[test]
fn empty_path_fill_is_a_no_op() {
    let mut ctx = RenderContext2D::new(fx(100), fx(100));
    assert!(ctx.fill().is_ok());
    assert!(ctx.take_commands().is_empty());
}

#[test]
fn fill_records_a_resolved_command() {
    let mut ctx = RenderContext2D::new(fx(100), fx(100));
    let red = Color::rgb(255, 0, 0);
    ctx.set_fill_style(Brush::SolidColor(red));
    ctx.begin_path();
    ctx.move_to(fx(0), fx(0));
    ctx.line_to(fx(10), fx(0));
    ctx.line_to(fx(10), fx(10));
    ctx.close_path();
    assert!(ctx.fill().is_ok());
    let commands = ctx.take_commands();
    assert_eq!(commands.len(), 1);
    match &commands[0] {
        DrawCommand::Fill { path, source, alpha } => {
            assert_eq!(path.len(), 4);
            assert_eq!(*source, DeviceSource::Solid(red));
            assert_eq!(alpha.raw, FX_ONE);
        },
        other => panic!("expected a fill command, got {:?}", other),
    }
}

#[test]
fn restore_pops_a_clip_level_even_without_a_save() {
    let mut ctx = RenderContext2D::new(fx(100), fx(100));
    ctx.restore();
    let commands = ctx.take_commands();
    assert_eq!(commands, vec![DrawCommand::PopClip]);
}

#[test]
fn save_and_restore_bring_the_paint_config_back() {
    let mut ctx = RenderContext2D::new(fx(100), fx(100));
    let red = Color::rgb(255, 0, 0);
    let blue = Color::rgb(0, 0, 255);
    ctx.set_fill_style(Brush::SolidColor(red));
    ctx.save();
    ctx.set_fill_style(Brush::SolidColor(blue));
    ctx.restore();
    assert_eq!(ctx.config.fill_style, Brush::SolidColor(red));
}

#[test]
fn clear_with_a_gradient_falls_back_to_the_documented_color() {
    let mut ctx = RenderContext2D::new(fx(10), fx(10));
    let black = Color::rgb(0, 0, 0);
    let brush = linear_gradient(
        LinearGradientCoords::Direction {
            direction: Direction::ToTop,
            displacement: zero_pos(),
        },
        vec![stop(StopPosition::Auto, black), stop(StopPosition::Auto, black)],
    );
    ctx.clear(&brush);
    match &ctx.take_commands()[0] {
        DrawCommand::Clear { color } => assert_eq!(*color, Color::rgba(0, 0, 0x80, 0x80)),
        other => panic!("expected a clear command, got {:?}", other),
    }
}

#[test]
fn fill_text_skips_invisible_text() {
    let mut ctx = RenderContext2D::new(fx(100), fx(100));
    ctx.set_fill_style(Brush::SolidColor(Color::rgba(1, 1, 1, 0)));
    ctx.fill_text(&vec!['h', 'i'], fx(0), fx(0));
    assert!(ctx.take_commands().is_empty());
    ctx.set_fill_style(Brush::SolidColor(Color::rgb(1, 1, 1)));
    ctx.fill_text(&Vec::new(), fx(0), fx(0));
    assert!(ctx.take_commands().is_empty());
    ctx.fill_text(&vec!['h', 'i'], fx(3), fx(4));
    let commands = ctx.take_commands();
    assert_eq!(commands.len(), 1);
}

#[test]
fn image_buffers_match_their_extent() {
    let img = Image::new(4, 3);
    assert_eq!(img.width(), 4);
    assert_eq!(img.height(), 3);
    assert_eq!(img.data().len(), 12);
    assert!(Image::from_data(2, 2, vec![0; 4]).is_ok());
    assert!(Image::from_data(2, 2, vec![0; 5]).is_err());
    let mut img2 = Image::from_data(2, 1, vec![1, 2]).unwrap();
    img2.draw(&vec![7, 8]);
    assert_eq!(img2.data(), &vec![7, 8]);
    *img2.data_mut() = vec![9, 10];
    assert_eq!(img2.data(), &vec![9, 10]);
}

#[test]
fn on_line_positions_resolve_against_a_length() {
    let pct = OnLinePos::new(fx(50), OnLinePosKind::Percentage);
    assert_eq!(pct.pixels(fx(200)).raw, 100 * FX_ONE);
    assert_eq!(pct.unit_percent(fx(200)).raw, 500_000);
    let px = OnLinePos::new(fx(30), OnLinePosKind::Pixels);
    assert_eq!(px.pixels(fx(200)).raw, 30 * FX_ONE);
    assert_eq!(px.unit_percent(fx(200)).raw, 150_000);
    assert_eq!(px.unit_percent(fx(0)).raw, 0);
}

use orbui::text::Text;

#[test]
fn short_text_editing_by_char_index() {
    let mut t = Text::from_chars(vec!['h', 'e', 'l', 'l', 'o']);
    t.insert_chars(5, &vec![' ', 'w', 'o', 'r', 'l', 'd']);
    assert_eq!(t.export_chars(), "hello world".chars().collect::<Vec<char>>());
    t.remove_range(0, 6);
    assert_eq!(t.export_chars(), "world".chars().collect::<Vec<char>>());
    t.push('!');
    assert_eq!(t.len_chars(), 6);
    assert_eq!(t.get_chars(1, 3), "orl".chars().collect::<Vec<char>>());
    assert_eq!(t.get_chars(99, 3), Vec::<char>::new());
    t.clear();
    assert!(t.is_empty());
}

#[test]
fn rope_storage_keeps_the_characters() {
    let mut t = Text::from_chars(vec!['a', 'b', 'c']);
    t.long_text_mode();
    assert_eq!(t.len_chars(), 3);
    t.insert_chars(1, &vec!['x', 'y']);
    assert_eq!(t.export_chars(), "axybc".chars().collect::<Vec<char>>());
    t.remove_range(0, 2);
    t.push('z');
    assert_eq!(t.export_chars(), "ybcz".chars().collect::<Vec<char>>());
    t.short_text_mode();
    assert_eq!(t.export_chars(), "ybcz".chars().collect::<Vec<char>>());
}

#[test]
fn plane_positions_resolve_per_axis() {
    let pos = OnPlanePos::new(
        OnLinePos::new(fx(50), OnLinePosKind::Percentage),
        OnLinePos::new(fx(7), OnLinePosKind::Pixels),
    );
    let p = pos.pixels(Size::new(fx(200), fx(100)));
    assert_eq!(p.x.raw, 100 * FX_ONE);
    assert_eq!(p.y.raw, 7 * FX_ONE);
}

#[test]
fn brush_conversions_round_trip() {
    let red = Color::rgb(255, 0, 0);
    let b = Brush::from(red);
    assert_eq!(b, Brush::SolidColor(red));
    assert_eq!(Color::from(b), red);
    let g = Gradient {
        kind: GradientKind::Linear(LinearGradientCoords::Direction {
            direction: Direction::ToTop,
            displacement: zero_pos(),
        }),
        stops: vec![stop(StopPosition::Auto, red)],
        repeat: false,
    };
    let gb = Brush::from(g.clone());
    assert_eq!(gb, Brush::Gradient(g));
    assert_eq!(Color::from(gb), Color::rgb(0, 0, 0));
}

use orbui::widgets::{SwitchState, TableViewItemState};

#[test]
fn context_path_ops_track_exact_point_bounds() {
    let mut ctx = RenderContext2D::new(fx(100), fx(100));
    ctx.begin_path();
    ctx.move_to(fx(10), fx(20));
    ctx.line_to(fx(-5), fx(40));
    ctx.line_to(fx(7), fx(-3));
    let rect = ctx.path_rect.get_rect().unwrap();
    assert_eq!(rect.x.raw, -5 * FX_ONE);
    assert_eq!(rect.y.raw, -3 * FX_ONE);
    assert_eq!(rect.width.raw, 15 * FX_ONE);
    assert_eq!(rect.height.raw, 43 * FX_ONE);
}

#[test]
fn mutators_leave_the_saved_state_alone() {
    let mut ctx = RenderContext2D::new(fx(100), fx(100));
    let red = Color::rgb(255, 0, 0);
    ctx.set_fill_style(Brush::SolidColor(red));
    ctx.set_line_width(fx(3));
    ctx.save();
    ctx.set_fill_style(Brush::SolidColor(Color::rgb(0, 0, 255)));
    ctx.set_line_width(fx(9));
    ctx.set_alpha(frac(500_000));
    ctx.begin_path();
    ctx.move_to(fx(1), fx(1));
    ctx.restore();
    assert_eq!(ctx.config.fill_style, Brush::SolidColor(red));
    assert_eq!(ctx.config.line_width.raw, 3 * FX_ONE);
}

#[test]
fn selection_toggles_flip_their_flags() {
    let mut sw = SwitchState::default();
    assert!(!sw.selected);
    sw.toggle_selection();
    assert!(sw.selected);
    sw.toggle_selection();
    assert!(!sw.selected);
    let mut item = TableViewItemState::default();
    item.toggle_selection();
    assert!(item.request_selection_toggle);
    assert!(item.take_selection_request());
    assert!(!item.take_selection_request());
}
