use image::Rgba;
use sensor_graphs::arc::{angle_in_range, draw_thick_arc, PolarAngles, FULL_TURN};
use sensor_graphs::canvas::{Canvas, ICON_SIZE};
use sensor_graphs::fill::{blend_colors, draw_gradient_fill, interpolate_y_at_x};
use sensor_graphs::line::{draw_connected_line, draw_line_segment, draw_point};
use sensor_graphs::normalize::normalize_points;
use sensor_graphs::render::{
    filled_angle, gauge_is_warning, generate_gauge, generate_gauge_data_uri, generate_graph,
    generate_graph_data_uri, is_warning, line_color, render_visualization, threshold_angle,
    title_position, ColorScheme, GraphConfig, GAUGE_OUTER_RADIUS,
};
use sensor_graphs::settings::VisualizationType;

const BLACK: Rgba<u8> = Rgba([0, 0, 0, 255]);
const GREEN: Rgba<u8> = Rgba([0, 255, 0, 255]);
const RED: Rgba<u8> = Rgba([255, 0, 0, 255]);

fn angle_table(radius: u32) -> PolarAngles {
    let r = radius as i64;
    let mut v = Vec::new();
    for dy in -r..=r {
        for dx in -r..=r {
            let mut a = (dy as f64).atan2(dx as f64).to_degrees();
            if a < 0.0 {
                a += 360.0;
            }
            let m = ((a * 1000.0).round() as u32) % (FULL_TURN as u32);
            v.push(m);
        }
    }
    PolarAngles::from_vec(radius, v).expect("table has the right shape")
}

fn config(data: Vec<i64>, threshold: Option<i64>) -> GraphConfig {
    GraphConfig {
        data_points: data,
        max_value: 100_000,
        min_value: 0,
        threshold,
        color_scheme: ColorScheme::default(),
        title: String::from("CPU Load"),
        kind: VisualizationType::Graph,
    }
}

fn all_pixels(c: &Canvas) -> Vec<Rgba<u8>> {
    let mut out = Vec::new();
    for y in 0..ICON_SIZE {
        for x in 0..ICON_SIZE {
            out.push(c.get(x, y));
        }
    }
    out
}

#[test]
fn empty_window_gives_plain_background() {
    let g = generate_graph(&config(vec![], Some(80_000)));
    assert!(all_pixels(&g).iter().all(|p| *p == BLACK));
    let t = angle_table(GAUGE_OUTER_RADIUS);
    let mut cfg = config(vec![], None);
    cfg.kind = VisualizationType::Gauge;
    let k = generate_gauge(&cfg, &t);
    assert!(all_pixels(&k).iter().all(|p| *p == BLACK));
}

#[test]
fn single_sample_plots_one_point() {
    let pts = normalize_points(&vec![50_000], 0, 100_000, 124, 89);
    assert_eq!(pts, vec![(62, 44)]);
    let g = generate_graph(&config(vec![50_000], None));
    assert_eq!(g.get(72, 89), GREEN);
    // the row above the point is untouched; the fill starts at the point itself
    assert_eq!(g.get(72, 88), BLACK);
    assert_eq!(g.get(71, 89), BLACK);
    assert_eq!(g.get(73, 89), BLACK);
    // below the point the column is shaded, fading towards the bottom
    let below = g.get(72, 100);
    assert!(below[1] > 0 && below[1] < 153);
}

#[test]
fn normalization_boundaries() {
    let pts = normalize_points(&vec![0, 50_000, 100_000], 0, 100_000, 124, 99);
    assert_eq!(pts, vec![(0, 99), (62, 49), (124, 0)]);
    let pts = normalize_points(&vec![0, 50_000, 100_000], 0, 100_000, 124, 89);
    assert_eq!(pts, vec![(0, 89), (62, 44), (124, 0)]);
}

#[test]
fn normalization_clamps_and_flat_range() {
    let pts = normalize_points(&vec![-5_000, 150_000], 0, 100_000, 10, 20);
    assert_eq!(pts, vec![(0, 20), (10, 0)]);
    let pts = normalize_points(&vec![1, 2, 3], 7, 7, 10, 21);
    assert_eq!(pts, vec![(0, 10), (5, 10), (10, 10)]);
    // one third of a width of 10 rounds to 3, two thirds to 7
    let pts = normalize_points(&vec![0, 0, 0, 0], 0, 1, 10, 4);
    assert_eq!(pts.iter().map(|p| p.0).collect::<Vec<_>>(), vec![0, 3, 7, 10]);
}

#[test]
fn line_is_endpoint_order_invariant() {
    let mut a = Canvas::new_background();
    draw_line_segment(&mut a, 0, 0, 2, 1, GREEN);
    let mut b = Canvas::new_background();
    draw_line_segment(&mut b, 2, 1, 0, 0, GREEN);
    assert_eq!(all_pixels(&a), all_pixels(&b));
    assert_eq!(a.get(0, 0), GREEN);
    assert_eq!(a.get(1, 0), GREEN);
    assert_eq!(a.get(2, 1), GREEN);
    assert_eq!(a.get(1, 1), BLACK);
    assert_eq!(all_pixels(&a).iter().filter(|p| **p == GREEN).count(), 3);
}

#[test]
fn line_steep_and_off_canvas() {
    let mut c = Canvas::new_background();
    draw_line_segment(&mut c, 140, 10, 150, 12, RED);
    assert_eq!(c.get(140, 10), RED);
    assert_eq!(c.get(143, 11), RED);
    let mut d = Canvas::new_background();
    draw_line_segment(&mut d, 5, 0, 5, 9, RED);
    assert_eq!(all_pixels(&d).iter().filter(|p| **p == RED).count(), 10);
}

#[test]
fn polyline_and_point() {
    let mut c = Canvas::new_background();
    draw_connected_line(&mut c, &vec![(0, 0), (3, 0), (3, 2)], 1, 1, RED);
    for (x, y) in [(1, 1), (2, 1), (3, 1), (4, 1), (4, 2), (4, 3)] {
        assert_eq!(c.get(x, y), RED);
    }
    assert_eq!(all_pixels(&c).iter().filter(|p| **p == RED).count(), 6);
    let mut e = Canvas::new_background();
    draw_connected_line(&mut e, &vec![], 0, 0, RED);
    assert!(all_pixels(&e).iter().all(|p| *p == BLACK));
    let mut f = Canvas::new_background();
    draw_point(&mut f, 200, 3, RED);
    assert!(all_pixels(&f).iter().all(|p| *p == BLACK));
}

#[test]
fn blending_source_over() {
    assert_eq!(blend_colors(BLACK, Rgba([0, 255, 0, 153])), Rgba([0, 153, 0, 255]));
    assert_eq!(blend_colors(BLACK, Rgba([0, 255, 0, 0])), BLACK);
    assert_eq!(blend_colors(Rgba([9, 9, 9, 0]), Rgba([1, 2, 3, 0])), Rgba([0, 0, 0, 0]));
    assert_eq!(blend_colors(Rgba([0, 0, 0, 0]), Rgba([10, 20, 30, 128])), Rgba([10, 20, 30, 128]));
    assert_eq!(blend_colors(Rgba([200, 100, 0, 255]), RED), RED);
}

#[test]
fn gradient_alpha_from_line_to_bottom() {
    let mut c = Canvas::new_background();
    draw_gradient_fill(&mut c, &vec![(0, 0), (0, 0)], 5, 5, 10, GREEN);
    // at the line's row: 60 % of full opacity over black
    assert_eq!(c.get(5, 5), Rgba([0, 153, 0, 255]));
    // one row down: 153 * 9 / 10 = 137
    assert_eq!(c.get(5, 6), Rgba([0, 137, 0, 255]));
    // bottom row: nothing added
    assert_eq!(c.get(5, 15), BLACK);
    assert_eq!(c.get(6, 5), BLACK);
    assert_eq!(c.get(5, 4), BLACK);
}

#[test]
fn interpolation_and_flat_extension() {
    let pts = vec![(10, 0), (20, 10), (30, 10)];
    assert_eq!(interpolate_y_at_x(&pts, 15), 5);
    assert_eq!(interpolate_y_at_x(&pts, 5), 0);
    assert_eq!(interpolate_y_at_x(&pts, 40), 10);
    assert_eq!(interpolate_y_at_x(&vec![(0, 9), (3, 0)], 1), 6);
    assert_eq!(interpolate_y_at_x(&vec![(4, 7), (4, 2)], 4), 7);
}

#[test]
fn graph_end_to_end_warning() {
    let cfg = config(vec![0, 50_000, 100_000], Some(80_000));
    assert!(is_warning(&cfg));
    assert_eq!(line_color(&cfg), RED);
    let g = generate_graph(&cfg);
    assert_eq!(g.get(10, 134), RED);
    assert_eq!(g.get(72, 89), RED);
    assert_eq!(g.get(134, 45), RED);
    assert_eq!(g.get(5, 5), BLACK);
    let calm = config(vec![90_000, 10_000], Some(80_000));
    assert!(!is_warning(&calm));
    assert_eq!(line_color(&calm), GREEN);
    assert!(!is_warning(&config(vec![100_000], None)));
}

#[test]
fn gauge_end_to_end_warning() {
    assert_eq!(filled_angle(90_000, 0, 100_000), 378_000);
    assert_eq!(threshold_angle(Some(80_000), 0, 100_000), 351_000);
    assert_eq!(threshold_angle(None, 0, 100_000), 351_000);
    assert!(gauge_is_warning(90_000, Some(80_000), 0, 100_000));
    assert!(!gauge_is_warning(70_000, Some(80_000), 0, 100_000));
    assert!(!gauge_is_warning(90_000, None, 0, 100_000));
    assert_eq!(filled_angle(500, 7, 7), 135_000);
    assert_eq!(filled_angle(-1, 0, 100_000), 135_000);
    assert_eq!(filled_angle(200_000, 0, 100_000), 405_000);

    let t = angle_table(GAUGE_OUTER_RADIUS);
    let mut cfg = config(vec![90_000], Some(80_000));
    cfg.kind = VisualizationType::Gauge;
    let g = generate_gauge(&cfg, &t);
    let (cx, cy) = (72u32, 87u32);
    // about 10 degrees: inside the filled sweep, which ends at 18 degrees
    assert_eq!(g.get(cx + 46, cy + 8), RED);
    // about 30 degrees: past the fill, in the dimmed warning zone
    assert_eq!(g.get(cx + 40, cy + 23), Rgba([85, 0, 0, 180]));
    // straight up (270 degrees): filled
    assert_eq!(g.get(cx, cy - 45), RED);
    // the gap at the bottom and the center stay black
    assert_eq!(g.get(cx, cy + 46), BLACK);
    assert_eq!(g.get(cx, cy), BLACK);
    // exactly on the outer and inner radius
    assert_eq!(g.get(cx - 55, cy), RED);
    assert_eq!(g.get(cx - 37, cy), RED);
    assert_eq!(g.get(cx - 56, cy), BLACK);
    assert_eq!(g.get(cx - 36, cy), BLACK);
}

#[test]
fn gauge_zones_without_threshold() {
    let t = angle_table(GAUGE_OUTER_RADIUS);
    let mut cfg = config(vec![0], None);
    cfg.kind = VisualizationType::Gauge;
    let g = generate_gauge(&cfg, &t);
    let (cx, cy) = (72u32, 87u32);
    assert_eq!(g.get(cx, cy - 45), Rgba([0, 85, 0, 180]));
    assert_eq!(g.get(cx + 46, cy + 8), Rgba([0, 85, 0, 180]));
    let mut c = Canvas::new_background();
    render_visualization(&mut c, &cfg, &t);
    assert_eq!(all_pixels(&c), all_pixels(&g));
}

#[test]
fn arc_angle_membership() {
    assert!(angle_in_range(100_000, 90_000, 180_000));
    assert!(!angle_in_range(200_000, 90_000, 180_000));
    assert!(angle_in_range(350_000, 300_000, 45_000));
    assert!(angle_in_range(10_000, 300_000, 45_000));
    assert!(!angle_in_range(100_000, 300_000, 45_000));
    // ends above a full turn are brought back into range first
    assert!(angle_in_range(10_000, 135_000, 378_000));
    assert!(!angle_in_range(30_000, 135_000, 378_000));
    let mut c = Canvas::new_background();
    let t = angle_table(10);
    draw_thick_arc(&mut c, &t, 0, 0, 2, 3, 0, 90_000, RED);
    assert_eq!(c.get(3, 0), RED);
    assert_eq!(c.get(0, 2), RED);
    assert_eq!(c.get(2, 2), RED);
    assert_eq!(c.get(1, 1), BLACK);
    assert_eq!(c.get(0, 0), BLACK);
}

#[test]
fn angle_table_validation() {
    assert!(PolarAngles::from_vec(1, vec![0; 9]).is_some());
    assert!(PolarAngles::from_vec(1, vec![0; 8]).is_none());
    assert!(PolarAngles::from_vec(1, vec![360_000; 9]).is_none());
    assert!(PolarAngles::from_vec(5000, vec![]).is_none());
}

#[test]
fn data_uris_hold_png() {
    let uri = generate_graph_data_uri(&config(vec![10_000, 20_000], None)).unwrap();
    assert!(uri.starts_with("data:image/png;base64,iVBORw0KGgo"));
    let t = angle_table(GAUGE_OUTER_RADIUS);
    let uri = generate_gauge_data_uri(&config(vec![10_000], None), &t).unwrap();
    assert!(uri.starts_with("data:image/png;base64,iVBORw0KGgo"));
}

#[test]
fn title_is_roughly_centered() {
    assert_eq!(title_position("CPU Temp"), (22, 8));
    assert_eq!(title_position(""), (72, 8));
    assert_eq!(title_position("Motherboard"), (5, 8));
    assert_eq!(title_position("0123456789"), (9, 8));
}
