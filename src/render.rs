use vstd::prelude::*;
use vstd::string::StrSliceExecFns;
use crate::arc::{PolarAngles, arc_covers, draw_thick_arc};
use crate::canvas::{
    Canvas, Color, ICON_SIZE, background_spec, in_canvas, is_icon, lemma_raster_ext, px_at, raster, rgba,
};
use crate::encode::{RenderError, data_uri_of, data_uri_succeeds, image_to_data_uri, png_of};
use crate::fill::{draw_gradient_fill, filled};
use crate::line::{draw_connected_line, polyline_covers};
use crate::normalize::{normalize_points, normalized, point_y};
use crate::settings::VisualizationType;

verus! {

/// Empty border, in pixels, on every side of the plot.
pub const GRAPH_PADDING: u32 = 10;

/// Height, in pixels, of the band kept for the title above the plot.
pub const TITLE_HEIGHT: u32 = 35;

/// Width of the plot area.
pub const GRAPH_WIDTH: u32 = ICON_SIZE - 2 * GRAPH_PADDING;

/// Height of the plot area: the icon less the padding and the title band.
pub const GRAPH_HEIGHT: u32 = ICON_SIZE - 2 * GRAPH_PADDING - TITLE_HEIGHT;

/// Left edge of the plot area.
pub const GRAPH_LEFT: u32 = GRAPH_PADDING;

/// Top edge of the plot area.
pub const GRAPH_TOP: u32 = GRAPH_PADDING + TITLE_HEIGHT;

/// Gauge geometry: the ring's center sits a little below the icon's middle so
/// that the arc stays on the icon.
pub const GAUGE_CENTER_X: u32 = ICON_SIZE / 2;
/// Row of the ring's center.
pub const GAUGE_CENTER_Y: u32 = ICON_SIZE / 2 + 15;
/// Outer radius of the ring.
pub const GAUGE_OUTER_RADIUS: u32 = 55;
/// Width of the ring.
pub const GAUGE_THICKNESS: u32 = 18;
/// Inner radius of the ring.
pub const GAUGE_INNER_RADIUS: u32 = GAUGE_OUTER_RADIUS - GAUGE_THICKNESS;

/// The gauge's arc runs clockwise on screen from 135 degrees to 45 degrees
/// through 270, leaving its 90 degree gap at the bottom (thousandths of a degree).
pub const GAUGE_START_ANGLE: u64 = 135_000;
/// Where the arc ends.
pub const GAUGE_END_ANGLE: u64 = 45_000;
/// How far the arc turns.
pub const GAUGE_SWEEP: u64 = 270_000;

/// Where the warning zone starts when no threshold is set: 80 % of the sweep.
pub const DEFAULT_THRESHOLD_ANGLE: u64 = 351_000;

/// Opacity of the dimmed zone backgrounds.
pub const ZONE_ALPHA: u8 = 180;

/// Normal and warning colors.
#[derive(Clone, Copy)]
pub struct ColorScheme {
    pub normal_color: Color,
    pub warning_color: Color,
}

/// Green for normal, red for warning.
pub open spec fn default_scheme() -> ColorScheme {
    ColorScheme { normal_color: rgba(0, 255, 0, 255), warning_color: rgba(255, 0, 0, 255) }
}

impl Default for ColorScheme {
    /// Green for normal, red for warning.
    fn default() -> (r: ColorScheme)
        ensures
            r == default_scheme(),
    {
        ColorScheme {
            normal_color: image::Rgba([0u8, 255, 0, 255]),
            warning_color: image::Rgba([255u8, 0, 0, 255]),
        }
    }
}

/// What one render draws. Sample values, limits and threshold are fixed-point
/// numbers in thousandths of the metric's unit.
pub struct GraphConfig {
    pub data_points: Vec<i64>,
    pub max_value: i64,
    pub min_value: i64,
    pub threshold: Option<i64>,
    pub color_scheme: ColorScheme,
    pub title: String,
    pub kind: VisualizationType,
}

impl Default for GraphConfig {
    /// No samples, a range of 0 to 100, no threshold, the default colors, no title.
    fn default() -> (r: GraphConfig)
        ensures
            r.data_points@.len() == 0,
            r.max_value == 100_000,
            r.min_value == 0,
            r.threshold is None,
            r.color_scheme == default_scheme(),
            r.title@.len() == 0,
            r.kind == VisualizationType::Graph,
    {
        GraphConfig {
            data_points: Vec::new(),
            max_value: 100_000,
            min_value: 0,
            threshold: None,
            color_scheme: ColorScheme::default(),
            title: String::new(),
            kind: VisualizationType::Graph,
        }
    }
}

/// The latest sample exceeds the threshold, when there is one.
pub open spec fn warning_spec(data: Seq<i64>, threshold: Option<i64>) -> bool {
    data.len() > 0 && threshold is Some && data.last() > threshold->0
}

/// The title and line color: the warning color in the warning state.
pub open spec fn line_color_spec(data: Seq<i64>, threshold: Option<i64>, scheme: ColorScheme) -> Color {
    if warning_spec(data, threshold) {
        scheme.warning_color
    } else {
        scheme.normal_color
    }
}

/// Whether the latest sample exceeds the threshold.
pub fn is_warning(config: &GraphConfig) -> (r: bool)
    ensures
        r == warning_spec(config.data_points@, config.threshold),
{
    let n = config.data_points.len();
    if n == 0 {
        return false;
    }
    match config.threshold {
        Some(t) => config.data_points[n - 1] > t,
        None => false,
    }
}

/// The color of the title and of the graph's line.
pub fn line_color(config: &GraphConfig) -> (r: Color)
    ensures
        r == line_color_spec(config.data_points@, config.threshold, config.color_scheme),
{
    if is_warning(config) {
        config.color_scheme.warning_color
    } else {
        config.color_scheme.normal_color
    }
}

/// A pixel of the graph drawn over `old_px`: the line where it passes, else
/// the gradient fill under it, else the pixel as it was; nothing without samples.
pub open spec fn graph_pixel(
    old_px: Seq<Color>,
    data: Seq<i64>,
    min: i64,
    max: i64,
    threshold: Option<i64>,
    scheme: ColorScheme,
    x: int,
    y: int,
) -> Color {
    let pts = normalized(data, min, max, GRAPH_WIDTH, GRAPH_HEIGHT);
    let c = line_color_spec(data, threshold, scheme);
    if data.len() == 0 {
        px_at(old_px, x, y)
    } else if polyline_covers(pts, GRAPH_LEFT as int, GRAPH_TOP as int, x, y) {
        c
    } else {
        filled(old_px, pts, GRAPH_LEFT as int, GRAPH_TOP as int, GRAPH_HEIGHT as int, c, x, y)
    }
}

/// Draws the line graph of the samples onto `canvas`: the gradient fill first,
/// then the line over it, in the plot area under the title band.
pub fn render_graph(canvas: &mut Canvas, config: &GraphConfig)
    requires
        is_icon(*old(canvas)),
    ensures
        is_icon(*final(canvas)),
        forall|x: int, y: int|
            in_canvas(x, y) ==> #[trigger] px_at(final(canvas).pixels(), x, y) == graph_pixel(
                old(canvas).pixels(),
                config.data_points@,
                config.min_value,
                config.max_value,
                config.threshold,
                config.color_scheme,
                x,
                y,
            ),
{
    if config.data_points.len() == 0 {
        return;
    }
    let color = line_color(config);
    let points = normalize_points(
        &config.data_points,
        config.min_value,
        config.max_value,
        GRAPH_WIDTH,
        GRAPH_HEIGHT,
    );
    let ghost old_px = canvas.pixels();
    draw_gradient_fill(canvas, &points, GRAPH_LEFT, GRAPH_TOP, GRAPH_HEIGHT, color);
    let ghost mid = canvas.pixels();
    draw_connected_line(canvas, &points, GRAPH_LEFT, GRAPH_TOP, color);
    assert forall|x: int, y: int| in_canvas(x, y) implies #[trigger] px_at(canvas.pixels(), x, y)
        == graph_pixel(
        old_px,
        config.data_points@,
        config.min_value,
        config.max_value,
        config.threshold,
        config.color_scheme,
        x,
        y,
    ) by {
        assert(px_at(mid, x, y) == filled(
            old_px,
            points@,
            GRAPH_LEFT as int,
            GRAPH_TOP as int,
            GRAPH_HEIGHT as int,
            color,
            x,
            y,
        ));
    }
}

/// The graph of the samples on a fresh background.
pub fn generate_graph(config: &GraphConfig) -> (r: Canvas)
    ensures
        is_icon(r),
        forall|x: int, y: int|
            in_canvas(x, y) ==> #[trigger] px_at(r.pixels(), x, y) == graph_pixel(
                background_seq(),
                config.data_points@,
                config.min_value,
                config.max_value,
                config.threshold,
                config.color_scheme,
                x,
                y,
            ),
        config.data_points@.len() == 0 ==> forall|x: int, y: int|
            in_canvas(x, y) ==> #[trigger] px_at(r.pixels(), x, y) == background_spec(),
        r.pixels() == graph_image(
            config.data_points@,
            config.min_value,
            config.max_value,
            config.threshold,
            config.color_scheme,
        ),
{
    let mut canvas = Canvas::new_background();
    proof {
        lemma_background_seq(canvas);
    }
    render_graph(&mut canvas, config);
    proof {
        let f = |x: int, y: int|
            graph_pixel(
                background_seq(),
                config.data_points@,
                config.min_value,
                config.max_value,
                config.threshold,
                config.color_scheme,
                x,
                y,
            );
        lemma_raster_ext(canvas.pixels(), f);
    }
    canvas
}

/// The icon-sized all-background pixel sequence.
pub open spec fn background_seq() -> Seq<Color> {
    Seq::new((ICON_SIZE * ICON_SIZE) as nat, |i: int| background_spec())
}

/// Every pixel of the graph of the samples on a fresh background.
pub open spec fn graph_image(
    data: Seq<i64>,
    min: i64,
    max: i64,
    threshold: Option<i64>,
    scheme: ColorScheme,
) -> Seq<Color> {
    raster(|x: int, y: int| graph_pixel(background_seq(), data, min, max, threshold, scheme, x, y))
}

/// Every pixel of the gauge of the latest sample on a fresh background.
pub open spec fn gauge_image(
    data: Seq<i64>,
    min: i64,
    max: i64,
    threshold: Option<i64>,
    scheme: ColorScheme,
    t: PolarAngles,
) -> Seq<Color> {
    raster(
        |x: int, y: int| gauge_pixel(background_seq(), data, min, max, threshold, scheme, t, x, y),
    )
}

/// The graph of the samples as a PNG data URI.
pub fn generate_graph_data_uri(config: &GraphConfig) -> (r: Result<String, RenderError>)
    ensures
        r is Ok <==> data_uri_succeeds(
            graph_image(
                config.data_points@,
                config.min_value,
                config.max_value,
                config.threshold,
                config.color_scheme,
            ),
            ICON_SIZE as nat,
        ),
        r is Ok ==> r->Ok_0@ == data_uri_of(
            png_of(
                graph_image(
                    config.data_points@,
                    config.min_value,
                    config.max_value,
                    config.threshold,
                    config.color_scheme,
                ),
                ICON_SIZE as nat,
            ),
        ),
{
    let img = generate_graph(config);
    image_to_data_uri(&img)
}

/// The gauge of the latest sample as a PNG data URI.
pub fn generate_gauge_data_uri(config: &GraphConfig, angles: &PolarAngles) -> (r: Result<String, RenderError>)
    requires
        angles.wf(),
        angles.spec_radius() >= GAUGE_OUTER_RADIUS,
    ensures
        r is Ok <==> data_uri_succeeds(
            gauge_image(
                config.data_points@,
                config.min_value,
                config.max_value,
                config.threshold,
                config.color_scheme,
                *angles,
            ),
            ICON_SIZE as nat,
        ),
        r is Ok ==> r->Ok_0@ == data_uri_of(
            png_of(
                gauge_image(
                    config.data_points@,
                    config.min_value,
                    config.max_value,
                    config.threshold,
                    config.color_scheme,
                    *angles,
                ),
                ICON_SIZE as nat,
            ),
        ),
{
    let img = generate_gauge(config, angles);
    image_to_data_uri(&img)
}

/// Draws what `config.kind` asks for onto `canvas`.
pub fn render_visualization(canvas: &mut Canvas, config: &GraphConfig, angles: &PolarAngles)
    requires
        is_icon(*old(canvas)),
        angles.wf(),
        angles.spec_radius() >= GAUGE_OUTER_RADIUS,
    ensures
        is_icon(*final(canvas)),
        forall|x: int, y: int|
            in_canvas(x, y) ==> #[trigger] px_at(final(canvas).pixels(), x, y) == match config.kind {
                VisualizationType::Graph => graph_pixel(
                    old(canvas).pixels(),
                    config.data_points@,
                    config.min_value,
                    config.max_value,
                    config.threshold,
                    config.color_scheme,
                    x,
                    y,
                ),
                VisualizationType::Gauge => gauge_pixel(
                    old(canvas).pixels(),
                    config.data_points@,
                    config.min_value,
                    config.max_value,
                    config.threshold,
                    config.color_scheme,
                    *angles,
                    x,
                    y,
                ),
            },
{
    match config.kind {
        VisualizationType::Graph => render_graph(canvas, config),
        VisualizationType::Gauge => render_gauge(canvas, config, angles),
    }
}

/// Left edge of a title of `chars` characters, centered on the icon by an
/// average glyph width of 12.5 pixels, and never closer than 5 pixels to the edge.
pub open spec fn title_x_spec(chars: int) -> int {
    if 25 * chars <= 268 {
        (288 - 25 * chars) / 4
    } else {
        5
    }
}

/// Top edge of the title.
pub const TITLE_TOP: i32 = 8;

/// Where the title's text starts: roughly centered, at the top.
pub fn title_position(title: &str) -> (r: (i32, i32))
    ensures
        r.0 == title_x_spec(title@.len() as int),
        r.1 == TITLE_TOP,
{
    let n = title.unicode_len();
    if n <= 10 {
        (((288 - 25 * n) / 4) as i32, TITLE_TOP)
    } else {
        (5, TITLE_TOP)
    }
}

/// The offset of `v` from `min`, clamped to `[0, max - min]`.
pub open spec fn clamped_offset(v: int, min: int, max: int) -> int {
    if v - min < 0 {
        0
    } else if v - min > max - min {
        max - min
    } else {
        v - min
    }
}

/// The angle reached after sweeping the share `offset / range` of the gauge's arc.
pub open spec fn sweep_angle(offset: int, range: int) -> int {
    GAUGE_START_ANGLE + offset * GAUGE_SWEEP / range
}

/// The angle up to which the gauge is filled for value `v`: the value's share of
/// `[min, max]`, clamped, of the sweep; nothing when the range is empty.
pub open spec fn filled_angle_spec(v: int, min: int, max: int) -> int {
    if max > min {
        sweep_angle(clamped_offset(v, min, max), max - min)
    } else {
        GAUGE_START_ANGLE as int
    }
}

/// The angle where the warning zone begins: the threshold's share of the
/// sweep, or 80 % of it without a threshold or with an empty range.
pub open spec fn threshold_angle_spec(threshold: Option<i64>, min: int, max: int) -> int {
    if threshold is Some && max > min {
        sweep_angle(clamped_offset(threshold->0 as int, min, max), max - min)
    } else {
        DEFAULT_THRESHOLD_ANGLE as int
    }
}

/// The gauge fills in the warning color: a threshold is set and the value's
/// share of the range exceeds the threshold's.
pub open spec fn gauge_warning_spec(v: int, threshold: Option<i64>, min: int, max: int) -> bool {
    threshold is Some && max > min && clamped_offset(v, min, max) > clamped_offset(
        threshold->0 as int,
        min,
        max,
    )
}

/// A color at a third of its intensity, at the zone opacity.
pub open spec fn dimmed_spec(c: Color) -> Color {
    rgba(c.0[0] / 3, c.0[1] / 3, c.0[2] / 3, ZONE_ALPHA)
}

fn sweep_of(offset: i128, range: i128) -> (r: u64)
    requires
        0 <= offset <= range,
        0 < range < 0x1_0000_0000_0000_0000,
    ensures
        r == sweep_angle(offset as int, range as int),
        GAUGE_START_ANGLE <= r <= GAUGE_START_ANGLE + GAUGE_SWEEP,
{
    assert(offset * 270_000 <= range * 270_000) by (nonlinear_arith)
        requires
            0 <= offset <= range,
    ;
    assert(offset * 270_000 / (range as int) <= 270_000) by (nonlinear_arith)
        requires
            offset * 270_000 <= range * 270_000,
            range > 0,
    ;
    assert(0 <= offset * 270_000 / (range as int)) by (nonlinear_arith)
        requires
            offset >= 0,
            range > 0,
    ;
    let swept = (offset * 270_000) / range;
    GAUGE_START_ANGLE + swept as u64
}

fn offset_of(v: i64, min: i64, max: i64) -> (r: i128)
    requires
        min < max,
    ensures
        r == clamped_offset(v as int, min as int, max as int),
        0 <= r <= max - min,
{
    let d = v as i128 - min as i128;
    let range = max as i128 - min as i128;
    if d < 0 {
        0
    } else if d > range {
        range
    } else {
        d
    }
}

/// How far the gauge is filled for `current`.
pub fn filled_angle(current: i64, min_value: i64, max_value: i64) -> (r: u64)
    ensures
        r == filled_angle_spec(current as int, min_value as int, max_value as int),
{
    if max_value > min_value {
        let off = offset_of(current, min_value, max_value);
        sweep_of(off, max_value as i128 - min_value as i128)
    } else {
        GAUGE_START_ANGLE
    }
}

/// Where the gauge's warning zone begins.
pub fn threshold_angle(threshold: Option<i64>, min_value: i64, max_value: i64) -> (r: u64)
    ensures
        r == threshold_angle_spec(threshold, min_value as int, max_value as int),
{
    match threshold {
        Some(t) => {
            if max_value > min_value {
                let off = offset_of(t, min_value, max_value);
                sweep_of(off, max_value as i128 - min_value as i128)
            } else {
                DEFAULT_THRESHOLD_ANGLE
            }
        },
        None => DEFAULT_THRESHOLD_ANGLE,
    }
}

/// Whether the gauge fills in the warning color for `current`.
pub fn gauge_is_warning(current: i64, threshold: Option<i64>, min_value: i64, max_value: i64) -> (r: bool)
    ensures
        r == gauge_warning_spec(current as int, threshold, min_value as int, max_value as int),
{
    match threshold {
        Some(t) => {
            if max_value > min_value {
                offset_of(current, min_value, max_value) > offset_of(t, min_value, max_value)
            } else {
                false
            }
        },
        None => false,
    }
}

fn dimmed(c: Color) -> (r: Color)
    ensures
        r == dimmed_spec(c),
{
    image::Rgba([c.0[0] / 3, c.0[1] / 3, c.0[2] / 3, ZONE_ALPHA])
}

/// A pixel of the gauge drawn over `old_px`: the filled arc, else the warning
/// zone, else the normal zone, else the pixel as it was; nothing without samples.
pub open spec fn gauge_pixel(
    old_px: Seq<Color>,
    data: Seq<i64>,
    min: i64,
    max: i64,
    threshold: Option<i64>,
    scheme: ColorScheme,
    t: PolarAngles,
    x: int,
    y: int,
) -> Color {
    let cur = data.last() as int;
    let thr = threshold_angle_spec(threshold, min as int, max as int);
    let ring = |s: int, e: int|
        arc_covers(
            t,
            GAUGE_CENTER_X as int,
            GAUGE_CENTER_Y as int,
            GAUGE_INNER_RADIUS as int,
            GAUGE_OUTER_RADIUS as int,
            s,
            e,
            x,
            y,
        );
    if data.len() == 0 {
        px_at(old_px, x, y)
    } else if ring(GAUGE_START_ANGLE as int, filled_angle_spec(cur, min as int, max as int)) {
        if gauge_warning_spec(cur, threshold, min as int, max as int) {
            scheme.warning_color
        } else {
            scheme.normal_color
        }
    } else if ring(thr, GAUGE_END_ANGLE as int) {
        if threshold is Some {
            dimmed_spec(scheme.warning_color)
        } else {
            dimmed_spec(scheme.normal_color)
        }
    } else if ring(GAUGE_START_ANGLE as int, thr) {
        dimmed_spec(scheme.normal_color)
    } else {
        px_at(old_px, x, y)
    }
}

/// Draws the gauge of the latest sample onto `canvas`: the normal zone up to
/// the threshold's angle and the warning zone after it, dimmed, then the arc
/// filled up to the sample's share of the range over them.
pub fn render_gauge(canvas: &mut Canvas, config: &GraphConfig, angles: &PolarAngles)
    requires
        is_icon(*old(canvas)),
        angles.wf(),
        angles.spec_radius() >= GAUGE_OUTER_RADIUS,
    ensures
        is_icon(*final(canvas)),
        forall|x: int, y: int|
            in_canvas(x, y) ==> #[trigger] px_at(final(canvas).pixels(), x, y) == gauge_pixel(
                old(canvas).pixels(),
                config.data_points@,
                config.min_value,
                config.max_value,
                config.threshold,
                config.color_scheme,
                *angles,
                x,
                y,
            ),
{
    let n = config.data_points.len();
    if n == 0 {
        return;
    }
    let current = config.data_points[n - 1];
    let min = config.min_value;
    let max = config.max_value;
    let fill_to = filled_angle(current, min, max);
    let thr = threshold_angle(config.threshold, min, max);
    let normal_bg = dimmed(config.color_scheme.normal_color);
    let ghost p0 = canvas.pixels();
    draw_thick_arc(
        canvas, angles, GAUGE_CENTER_X, GAUGE_CENTER_Y, GAUGE_INNER_RADIUS, GAUGE_OUTER_RADIUS,
        GAUGE_START_ANGLE, thr, normal_bg,
    );
    let ghost p1 = canvas.pixels();
    let upper_bg = match config.threshold {
        Some(_) => dimmed(config.color_scheme.warning_color),
        None => normal_bg,
    };
    draw_thick_arc(
        canvas, angles, GAUGE_CENTER_X, GAUGE_CENTER_Y, GAUGE_INNER_RADIUS, GAUGE_OUTER_RADIUS,
        thr, GAUGE_END_ANGLE, upper_bg,
    );
    let ghost p2 = canvas.pixels();
    let fill_color = if gauge_is_warning(current, config.threshold, min, max) {
        config.color_scheme.warning_color
    } else {
        config.color_scheme.normal_color
    };
    draw_thick_arc(
        canvas, angles, GAUGE_CENTER_X, GAUGE_CENTER_Y, GAUGE_INNER_RADIUS, GAUGE_OUTER_RADIUS,
        GAUGE_START_ANGLE, fill_to, fill_color,
    );
    assert forall|x: int, y: int| in_canvas(x, y) implies #[trigger] px_at(canvas.pixels(), x, y)
        == gauge_pixel(
        p0,
        config.data_points@,
        config.min_value,
        config.max_value,
        config.threshold,
        config.color_scheme,
        *angles,
        x,
        y,
    ) by {
    }
}

/// The gauge of the latest sample on a fresh background.
pub fn generate_gauge(config: &GraphConfig, angles: &PolarAngles) -> (r: Canvas)
    requires
        angles.wf(),
        angles.spec_radius() >= GAUGE_OUTER_RADIUS,
    ensures
        is_icon(r),
        forall|x: int, y: int|
            in_canvas(x, y) ==> #[trigger] px_at(r.pixels(), x, y) == gauge_pixel(
                background_seq(),
                config.data_points@,
                config.min_value,
                config.max_value,
                config.threshold,
                config.color_scheme,
                *angles,
                x,
                y,
            ),
        config.data_points@.len() == 0 ==> forall|x: int, y: int|
            in_canvas(x, y) ==> #[trigger] px_at(r.pixels(), x, y) == background_spec(),
        r.pixels() == gauge_image(
            config.data_points@,
            config.min_value,
            config.max_value,
            config.threshold,
            config.color_scheme,
            *angles,
        ),
{
    let mut canvas = Canvas::new_background();
    proof {
        lemma_background_seq(canvas);
    }
    render_gauge(&mut canvas, config, angles);
    proof {
        let f = |x: int, y: int|
            gauge_pixel(
                background_seq(),
                config.data_points@,
                config.min_value,
                config.max_value,
                config.threshold,
                config.color_scheme,
                *angles,
                x,
                y,
            );
        lemma_raster_ext(canvas.pixels(), f);
    }
    canvas
}

proof fn lemma_background_seq(c: Canvas)
    requires
        is_icon(c),
        forall|x: int, y: int| in_canvas(x, y) ==> #[trigger] px_at(c.pixels(), x, y) == background_spec(),
    ensures
        c.pixels() == background_seq(),
{
    let bg = c.pixels();
    assert forall|i: int| 0 <= i < bg.len() implies bg[i] == background_spec() by {
        let x = i % 144;
        let y = i / 144;
        assert(in_canvas(x, y) && crate::canvas::idx(x, y) == i);
        assert(px_at(bg, x, y) == background_spec());
    }
    assert(bg =~= background_seq());
}

/// A single sample becomes one point at its normalized position, in the middle
/// column, and the graph's line is that one pixel: no segment is drawn.
pub proof fn lemma_single_sample_point(v: i64, min: i64, max: i64, x: int, y: int)
    ensures
        normalized(seq![v], min, max, GRAPH_WIDTH, GRAPH_HEIGHT) == seq![
            ((GRAPH_WIDTH / 2) as u32, point_y(v as int, min as int, max as int, GRAPH_HEIGHT as int) as u32),
        ],
        polyline_covers(
            normalized(seq![v], min, max, GRAPH_WIDTH, GRAPH_HEIGHT),
            GRAPH_LEFT as int,
            GRAPH_TOP as int,
            x,
            y,
        ) <==> (x == GRAPH_LEFT + GRAPH_WIDTH / 2 && y == GRAPH_TOP + point_y(
            v as int,
            min as int,
            max as int,
            GRAPH_HEIGHT as int,
        )),
{
    let pts = normalized(seq![v], min, max, GRAPH_WIDTH, GRAPH_HEIGHT);
    assert(seq![v][0] == v);
    crate::normalize::lemma_y_fits(v as int, min as int, max as int, GRAPH_HEIGHT as int);
    assert(pts =~= seq![
        ((GRAPH_WIDTH / 2) as u32, point_y(v as int, min as int, max as int, GRAPH_HEIGHT as int) as u32),
    ]);
}

/// With samples, every ring pixel on the arc from the start angle to the latest
/// value's share of the sweep shows the fill color: the warning color exactly
/// when a threshold is set and the value's share of the range exceeds the
/// threshold's; every other ring pixel on the warning zone's arc shows the
/// dimmed warning color when a threshold is set.
pub proof fn lemma_gauge_fill(
    old_px: Seq<Color>,
    data: Seq<i64>,
    min: i64,
    max: i64,
    threshold: Option<i64>,
    scheme: ColorScheme,
    t: PolarAngles,
    x: int,
    y: int,
)
    requires
        data.len() > 0,
    ensures
        ({
            let cur = data.last() as int;
            let ring = |s: int, e: int|
                arc_covers(
                    t,
                    GAUGE_CENTER_X as int,
                    GAUGE_CENTER_Y as int,
                    GAUGE_INNER_RADIUS as int,
                    GAUGE_OUTER_RADIUS as int,
                    s,
                    e,
                    x,
                    y,
                );
            let p = gauge_pixel(old_px, data, min, max, threshold, scheme, t, x, y);
            &&& ring(GAUGE_START_ANGLE as int, filled_angle_spec(cur, min as int, max as int)) ==> p
                == if gauge_warning_spec(cur, threshold, min as int, max as int) {
                scheme.warning_color
            } else {
                scheme.normal_color
            }
            &&& (threshold is Some && !ring(
                GAUGE_START_ANGLE as int,
                filled_angle_spec(cur, min as int, max as int),
            ) && ring(threshold_angle_spec(threshold, min as int, max as int), GAUGE_END_ANGLE as int))
                ==> p == dimmed_spec(scheme.warning_color)
        }),
{
}

/// The fill covers the value's share of the sweep, from the start angle, and
/// never more than the whole sweep.
pub proof fn lemma_filled_share(v: int, min: int, max: int)
    requires
        min < max,
    ensures
        filled_angle_spec(v, min, max) == GAUGE_START_ANGLE + clamped_offset(v, min, max) * GAUGE_SWEEP
            / (max - min),
        GAUGE_START_ANGLE <= filled_angle_spec(v, min, max) <= GAUGE_START_ANGLE + GAUGE_SWEEP,
{
    let o = clamped_offset(v, min, max);
    let r = max - min;
    assert(0 <= o * 270_000 / r <= 270_000) by (nonlinear_arith)
        requires
            0 <= o <= r,
            r > 0,
    {
        assert(o * 270_000 <= r * 270_000);
    }
}

} // verus!
