use vstd::prelude::*;
use vstd::string::{StrSliceExecFns, StringExecFns};
use crate::canvas::{Color, rgba};
use crate::render::{ColorScheme, GraphConfig, default_scheme};
use crate::text::{append_decimal, decimal, value_text, value_text_spec};
use crate::websocket::{WebSocketConfig, key_view};
use crate::window::SlidingWindow;

verus! {

/// How many samples a graph keeps.
pub const MAX_DATA_POINTS: usize = 10;

/// Where the samples come from.
#[derive(Debug, Clone, Copy, PartialEq, Eq, Structural)]
pub enum DataSource {
    /// Hardware sensors of this machine.
    LmSensors,
    /// A value streamed over a WebSocket.
    WebSocket,
}

impl Default for DataSource {
    fn default() -> (r: DataSource)
        ensures
            r == DataSource::LmSensors,
    {
        DataSource::LmSensors
    }
}

/// How the samples are drawn.
#[derive(Debug, Clone, Copy, PartialEq, Eq, Structural)]
pub enum VisualizationType {
    /// A line graph with a gradient fill under it.
    Graph,
    /// A horseshoe gauge of the latest sample.
    Gauge,
}

impl Default for VisualizationType {
    fn default() -> (r: VisualizationType)
        ensures
            r == VisualizationType::Graph,
    {
        VisualizationType::Graph
    }
}

/// The sensor metric a graph shows.
#[derive(Debug, Clone, Copy, PartialEq, Eq, Structural)]
pub enum MetricType {
    CpuTemp,
    CpuPackageTemp,
    CpuLoad,
    GpuTemp,
    GpuLoad,
    MotherboardTemp,
    NvmeTemp,
    CpuFan,
    SystemFan,
    CpuVoltage,
    DiskWrite,
    DiskRead,
    RamUsage,
    RamTemp,
    NetDownload,
    NetUpload,
}

impl Default for MetricType {
    fn default() -> (r: MetricType)
        ensures
            r == MetricType::CpuTemp,
    {
        MetricType::CpuTemp
    }
}

/// The metric's usual upper limit, in thousandths of its unit.
pub open spec fn default_max_spec(m: MetricType) -> i64 {
    match m {
        MetricType::CpuTemp | MetricType::CpuPackageTemp | MetricType::GpuTemp
        | MetricType::MotherboardTemp | MetricType::NvmeTemp | MetricType::RamTemp => 120_000,
        MetricType::CpuLoad | MetricType::GpuLoad | MetricType::RamUsage => 100_000,
        MetricType::CpuFan | MetricType::SystemFan => 3_000_000,
        MetricType::CpuVoltage => 2_000,
        MetricType::DiskWrite | MetricType::DiskRead => 500_000,
        MetricType::NetDownload | MetricType::NetUpload => 125_000,
    }
}

/// The metric's usual warning threshold, in thousandths of its unit, if it has one.
pub open spec fn default_threshold_spec(m: MetricType) -> Option<i64> {
    match m {
        MetricType::CpuTemp | MetricType::CpuPackageTemp => Some(80_000),
        MetricType::CpuLoad | MetricType::GpuLoad | MetricType::RamUsage => Some(80_000),
        MetricType::GpuTemp => Some(85_000),
        MetricType::MotherboardTemp => Some(60_000),
        MetricType::NvmeTemp => Some(70_000),
        MetricType::RamTemp => Some(85_000),
        _ => None,
    }
}

/// The name each metric is shown under.
pub open spec fn display_name_spec(m: MetricType) -> Seq<char> {
    match m {
        MetricType::CpuTemp => "CPU Temp"@,
        MetricType::CpuPackageTemp => "CPU Package"@,
        MetricType::CpuLoad => "CPU Load"@,
        MetricType::GpuTemp => "GPU Temp"@,
        MetricType::GpuLoad => "GPU Load"@,
        MetricType::MotherboardTemp => "Motherboard"@,
        MetricType::NvmeTemp => "NVMe Temp"@,
        MetricType::CpuFan => "CPU Fan"@,
        MetricType::SystemFan => "System Fan"@,
        MetricType::CpuVoltage => "CPU Voltage"@,
        MetricType::DiskWrite => "Disk Write"@,
        MetricType::DiskRead => "Disk Read"@,
        MetricType::RamUsage => "RAM Usage"@,
        MetricType::RamTemp => "RAM Temp"@,
        MetricType::NetDownload => "Net Down"@,
        MetricType::NetUpload => "Net Up"@,
    }
}

/// The unit each metric's values are written with.
pub open spec fn value_suffix_spec(m: MetricType) -> Seq<char> {
    match m {
        MetricType::CpuTemp | MetricType::CpuPackageTemp | MetricType::GpuTemp
        | MetricType::MotherboardTemp | MetricType::NvmeTemp | MetricType::RamTemp => "\u{b0}C"@,
        MetricType::CpuLoad | MetricType::GpuLoad | MetricType::RamUsage => "%"@,
        MetricType::CpuFan | MetricType::SystemFan => " RPM"@,
        MetricType::CpuVoltage => "V"@,
        MetricType::DiskWrite | MetricType::DiskRead => " MB/s"@,
        MetricType::NetDownload | MetricType::NetUpload => " MB/s"@,
    }
}

impl MetricType {
    /// The usual upper limit of the metric, in thousandths of its unit.
    pub fn default_max(&self) -> (r: i64)
        ensures
            r == default_max_spec(*self),
    {
        match self {
            MetricType::CpuTemp | MetricType::CpuPackageTemp | MetricType::GpuTemp
            | MetricType::MotherboardTemp | MetricType::NvmeTemp | MetricType::RamTemp => 120_000,
            MetricType::CpuLoad | MetricType::GpuLoad | MetricType::RamUsage => 100_000,
            MetricType::CpuFan | MetricType::SystemFan => 3_000_000,
            MetricType::CpuVoltage => 2_000,
            MetricType::DiskWrite | MetricType::DiskRead => 500_000,
            MetricType::NetDownload | MetricType::NetUpload => 125_000,
        }
    }

    /// The usual warning threshold of the metric, in thousandths of its unit.
    pub fn default_threshold(&self) -> (r: Option<i64>)
        ensures
            r == default_threshold_spec(*self),
    {
        match self {
            MetricType::CpuTemp | MetricType::CpuPackageTemp => Some(80_000),
            MetricType::CpuLoad | MetricType::GpuLoad | MetricType::RamUsage => Some(80_000),
            MetricType::GpuTemp => Some(85_000),
            MetricType::MotherboardTemp => Some(60_000),
            MetricType::NvmeTemp => Some(70_000),
            MetricType::RamTemp => Some(85_000),
            _ => None,
        }
    }

    /// The name shown as the graph's title.
    pub fn display_name(&self) -> (r: &'static str)
        ensures
            r@ == display_name_spec(*self),
    {
        match self {
            MetricType::CpuTemp => "CPU Temp",
            MetricType::CpuPackageTemp => "CPU Package",
            MetricType::CpuLoad => "CPU Load",
            MetricType::GpuTemp => "GPU Temp",
            MetricType::GpuLoad => "GPU Load",
            MetricType::MotherboardTemp => "Motherboard",
            MetricType::NvmeTemp => "NVMe Temp",
            MetricType::CpuFan => "CPU Fan",
            MetricType::SystemFan => "System Fan",
            MetricType::CpuVoltage => "CPU Voltage",
            MetricType::DiskWrite => "Disk Write",
            MetricType::DiskRead => "Disk Read",
            MetricType::RamUsage => "RAM Usage",
            MetricType::RamTemp => "RAM Temp",
            MetricType::NetDownload => "Net Down",
            MetricType::NetUpload => "Net Up",
        }
    }

    /// The unit written after a value of the metric.
    pub fn value_suffix(&self) -> (r: &'static str)
        ensures
            r@ == value_suffix_spec(*self),
    {
        match self {
            MetricType::CpuTemp | MetricType::CpuPackageTemp | MetricType::GpuTemp
            | MetricType::MotherboardTemp | MetricType::NvmeTemp | MetricType::RamTemp => "\u{b0}C",
            MetricType::CpuLoad | MetricType::GpuLoad | MetricType::RamUsage => "%",
            MetricType::CpuFan | MetricType::SystemFan => " RPM",
            MetricType::CpuVoltage => "V",
            MetricType::DiskWrite | MetricType::DiskRead => " MB/s",
            MetricType::NetDownload | MetricType::NetUpload => " MB/s",
        }
    }
}

/// Settings of one graph. Limits and threshold are in thousandths of the metric's unit.
#[derive(Clone)]
pub struct GraphSettings {
    pub data_source: DataSource,
    pub metric_type: MetricType,
    pub websocket_url: Option<String>,
    pub websocket_api_key: Option<String>,
    pub websocket_init_messages: Vec<String>,
    pub websocket_send_pings: bool,
    pub visualization_type: VisualizationType,
    pub show_value_text: bool,
    pub threshold: Option<i64>,
    pub normal_color: String,
    pub warning_color: String,
    pub max_value: Option<i64>,
    pub min_value: Option<i64>,
    /// Which system fan is shown; the first when unset.
    pub fan_number: Option<u32>,
}

impl Default for GraphSettings {
    /// Sensor metric `CpuTemp` drawn as a graph; nothing else set.
    fn default() -> (r: GraphSettings)
        ensures
            r.data_source == DataSource::LmSensors,
            r.metric_type == MetricType::CpuTemp,
            r.websocket_url is None,
            r.websocket_api_key is None,
            r.websocket_init_messages@.len() == 0,
            !r.websocket_send_pings,
            r.visualization_type == VisualizationType::Graph,
            !r.show_value_text,
            r.threshold is None,
            r.normal_color@.len() == 0,
            r.warning_color@.len() == 0,
            r.max_value is None,
            r.min_value is None,
            r.fan_number is None,
    {
        GraphSettings {
            data_source: DataSource::LmSensors,
            metric_type: MetricType::CpuTemp,
            websocket_url: None,
            websocket_api_key: None,
            websocket_init_messages: Vec::new(),
            websocket_send_pings: false,
            visualization_type: VisualizationType::Graph,
            show_value_text: false,
            threshold: None,
            normal_color: String::new(),
            warning_color: String::new(),
            max_value: None,
            min_value: None,
            fan_number: None,
        }
    }
}

/// The value of a hexadecimal digit, either case.
pub open spec fn hex_value(c: char) -> int {
    if '0' <= c && c <= '9' {
        c as int - '0' as int
    } else if 'a' <= c && c <= 'f' {
        c as int - 'a' as int + 10
    } else if 'A' <= c && c <= 'F' {
        c as int - 'A' as int + 10
    } else {
        -1
    }
}

/// `c` is a hexadecimal digit.
pub open spec fn is_hex_digit(c: char) -> bool {
    hex_value(c) >= 0
}

/// The byte written by the two hex digits at `i` and `i + 1`.
pub open spec fn hex_byte(h: Seq<char>, i: int) -> u8 {
    (16 * hex_value(h[i]) + hex_value(h[i + 1])) as u8
}

/// `#RRGGBB` as an opaque color: exactly a `#` followed by six hex digits.
pub open spec fn hex_color_spec(s: Seq<char>) -> Option<Color> {
    let h = s.drop_first();
    if s.len() == 7 && s[0] == '#' && forall|i: int| 0 <= i < 6 ==> #[trigger] is_hex_digit(h[i]) {
        Some(rgba(hex_byte(h, 0), hex_byte(h, 2), hex_byte(h, 4), 255))
    } else {
        None
    }
}

fn hex_digit(c: char) -> (r: Option<u8>)
    ensures
        r is Some <==> is_hex_digit(c),
        r is Some ==> r->0 == hex_value(c),
{
    if '0' <= c && c <= '9' {
        Some((c as u32 - '0' as u32) as u8)
    } else if 'a' <= c && c <= 'f' {
        Some((c as u32 - 'a' as u32 + 10) as u8)
    } else if 'A' <= c && c <= 'F' {
        Some((c as u32 - 'A' as u32 + 10) as u8)
    } else {
        None
    }
}

/// Reads `#RRGGBB` (see `hex_color_spec`); `None` for anything else, so that
/// the caller falls back to its default color.
pub fn parse_hex_color(hex: &str) -> (r: Option<Color>)
    ensures
        r == hex_color_spec(hex@),
{
    let n = hex.unicode_len();
    if n != 7 || hex.get_char(0) != '#' {
        return None;
    }
    let ghost rest = hex@.drop_first();
    let mut digits: Vec<u8> = Vec::new();
    let mut i: usize = 0;
    while i < 6
        invariant
            n == hex@.len(),
            n == 7,
            hex@[0] == '#',
            rest == hex@.drop_first(),
            0 <= i <= 6,
            digits@.len() == i,
            forall|j: int| 0 <= j < i ==> #[trigger] is_hex_digit(rest[j]),
            forall|j: int| 0 <= j < i ==> digits@[j] == hex_value(#[trigger] rest[j]),
        decreases 6 - i,
    {
        match hex_digit(hex.get_char(1 + i)) {
            Some(d) => digits.push(d),
            None => {
                assert(!is_hex_digit(rest[i as int]));
                return None;
            },
        }
        i = i + 1;
    }
    let r = 16 * digits[0] + digits[1];
    let g = 16 * digits[2] + digits[3];
    let b = 16 * digits[4] + digits[5];
    Some(image::Rgba([r, g, b, 255u8]))
}

/// The title drawn on the image: "Fan <n>" for a system fan (the first when no
/// fan is chosen), else the metric's name, or "WebSocket".
pub open spec fn title_spec(s: GraphSettings) -> Seq<char> {
    match s.data_source {
        DataSource::LmSensors => if s.metric_type == MetricType::SystemFan {
            "Fan "@ + decimal(
                match s.fan_number {
                    Some(n) => n as nat,
                    None => 1,
                },
            )
        } else {
            display_name_spec(s.metric_type)
        },
        DataSource::WebSocket => "WebSocket"@,
    }
}

/// The upper limit in effect: the one set, else the metric's usual one, or 100
/// for a WebSocket value.
pub open spec fn max_value_spec(s: GraphSettings) -> i64 {
    match s.max_value {
        Some(v) => v,
        None => match s.data_source {
            DataSource::LmSensors => default_max_spec(s.metric_type),
            DataSource::WebSocket => 100_000,
        },
    }
}

/// The threshold in effect: the one set, else the metric's usual one; none for
/// a WebSocket value.
pub open spec fn threshold_spec(s: GraphSettings) -> Option<i64> {
    match s.threshold {
        Some(v) => Some(v),
        None => match s.data_source {
            DataSource::LmSensors => default_threshold_spec(s.metric_type),
            DataSource::WebSocket => None,
        },
    }
}

/// A configured color, or the default when it does not parse.
pub open spec fn color_or(s: Seq<char>, fallback: Color) -> Color {
    match hex_color_spec(s) {
        Some(c) => c,
        None => fallback,
    }
}

/// The unit written after the value text: the metric's for a sensor metric,
/// none for a WebSocket value.
pub open spec fn suffix_spec(s: GraphSettings) -> Seq<char> {
    match s.data_source {
        DataSource::LmSensors => value_suffix_spec(s.metric_type),
        DataSource::WebSocket => Seq::empty(),
    }
}

/// What one tick hands to the surface: the image to render and, when asked
/// for, the value text for the title.
pub struct TickRender {
    pub config: GraphConfig,
    pub value_text: Option<String>,
}

/// The samples and settings of one graph on the surface.
pub struct GraphData {
    data_points: SlidingWindow,
    pub settings: GraphSettings,
}

impl GraphData {
    /// The samples kept, oldest first.
    pub closed spec fn samples(&self) -> Seq<i64> {
        self.data_points@
    }

    /// The graph's settings.
    pub closed spec fn settings_of(&self) -> GraphSettings {
        self.settings
    }

    /// The window keeps `MAX_DATA_POINTS` samples at most.
    pub closed spec fn wf(&self) -> bool {
        &&& self.data_points.wf()
        &&& self.data_points.capacity_spec() == MAX_DATA_POINTS
    }

    /// No samples yet.
    pub fn new(settings: GraphSettings) -> (r: GraphData)
        ensures
            r.wf(),
            r.samples().len() == 0,
            r.settings_of() == settings,
    {
        GraphData { data_points: SlidingWindow::new(MAX_DATA_POINTS), settings }
    }

    /// Records a sample, forgetting the oldest one when `MAX_DATA_POINTS` are kept.
    pub fn add_data_point(&mut self, value: i64)
        requires
            old(self).wf(),
        ensures
            final(self).wf(),
            final(self).settings_of() == old(self).settings_of(),
            final(self).samples() == if old(self).samples().len() == MAX_DATA_POINTS {
                old(self).samples().drop_first().push(value)
            } else {
                old(self).samples().push(value)
            },
    {
        self.data_points.append(value);
    }

    /// The samples, oldest first.
    pub fn data_points(&self) -> (r: Vec<i64>)
        requires
            self.wf(),
        ensures
            r@ == self.samples(),
    {
        self.data_points.snapshot()
    }

    /// What the render of this graph is given: the samples kept, the limits and
    /// threshold in effect (set, or the metric's defaults), the configured colors
    /// (or the defaults when they do not parse), the title, and the visualization.
    pub open spec fn renders_as(&self, r: GraphConfig) -> bool {
        &&& r.data_points@ == self.samples()
        &&& r.max_value == max_value_spec(self.settings_of())
        &&& r.min_value == match self.settings_of().min_value {
            Some(v) => v,
            None => 0,
        }
        &&& r.threshold == threshold_spec(self.settings_of())
        &&& r.color_scheme.normal_color == color_or(
            self.settings_of().normal_color@,
            default_scheme().normal_color,
        )
        &&& r.color_scheme.warning_color == color_or(
            self.settings_of().warning_color@,
            default_scheme().warning_color,
        )
        &&& r.title@ == title_spec(self.settings_of())
        &&& r.kind == self.settings_of().visualization_type
    }

    /// What to render now (see `renders_as`).
    pub fn get_graph_config(&self) -> (r: GraphConfig)
        requires
            self.wf(),
        ensures
            self.renders_as(r),
    {
        let defaults = ColorScheme::default();
        let normal_color = match parse_hex_color(self.settings.normal_color.as_str()) {
            Some(c) => c,
            None => defaults.normal_color,
        };
        let warning_color = match parse_hex_color(self.settings.warning_color.as_str()) {
            Some(c) => c,
            None => defaults.warning_color,
        };
        let title = match self.settings.data_source {
            DataSource::LmSensors => {
                if self.settings.metric_type == MetricType::SystemFan {
                    let n: u32 = match self.settings.fan_number {
                        Some(n) => n,
                        None => 1,
                    };
                    let mut t = String::from_str("Fan ");
                    append_decimal(&mut t, n as u64);
                    t
                } else {
                    String::from_str(self.settings.metric_type.display_name())
                }
            },
            DataSource::WebSocket => String::from_str("WebSocket"),
        };
        let max_value = match self.settings.max_value {
            Some(v) => v,
            None => match self.settings.data_source {
                DataSource::LmSensors => self.settings.metric_type.default_max(),
                DataSource::WebSocket => 100_000,
            },
        };
        let min_value = match self.settings.min_value {
            Some(v) => v,
            None => 0,
        };
        let threshold = match self.settings.threshold {
            Some(v) => Some(v),
            None => match self.settings.data_source {
                DataSource::LmSensors => self.settings.metric_type.default_threshold(),
                DataSource::WebSocket => None,
            },
        };
        GraphConfig {
            data_points: self.data_points.snapshot(),
            max_value,
            min_value,
            threshold,
            color_scheme: ColorScheme { normal_color, warning_color },
            title,
            kind: self.settings.visualization_type,
        }
    }

    /// One tick of the sampler. A failed reading (`None`) leaves everything as
    /// it was and renders nothing. A value is recorded, and the result is what
    /// to render and, when the settings ask for it, the value text for the
    /// host's title (with the metric's unit for a sensor metric).
    pub fn on_sample(&mut self, reading: Option<i64>) -> (r: Option<TickRender>)
        requires
            old(self).wf(),
        ensures
            final(self).wf(),
            final(self).settings_of() == old(self).settings_of(),
            reading is None ==> r is None && final(self).samples() == old(self).samples(),
            reading is Some ==> {
                &&& final(self).samples() == if old(self).samples().len() == MAX_DATA_POINTS {
                    old(self).samples().drop_first().push(reading->0)
                } else {
                    old(self).samples().push(reading->0)
                }
                &&& r is Some
                &&& final(self).renders_as(r->0.config)
                &&& (old(self).settings_of().show_value_text ==> r->0.value_text is Some
                    && r->0.value_text->0@ == value_text_spec(
                    reading->0 as int,
                    suffix_spec(old(self).settings_of()),
                ))
                &&& (!old(self).settings_of().show_value_text ==> r->0.value_text is None)
            },
    {
        match reading {
            None => None,
            Some(v) => {
                self.add_data_point(v);
                let config = self.get_graph_config();
                let text = if self.settings.show_value_text {
                    let suffix = match self.settings.data_source {
                        DataSource::LmSensors => self.settings.metric_type.value_suffix(),
                        DataSource::WebSocket => "",
                    };
                    proof {
                        reveal_strlit("");
                        assert(""@ =~= Seq::<char>::empty());
                    }
                    Some(value_text(v, suffix))
                } else {
                    None
                };
                Some(TickRender { config, value_text: text })
            },
        }
    }

    /// The stream to open for a WebSocket value: its address, key and
    /// initialization messages; `None` for a sensor metric or without an address.
    pub fn websocket_config(&self) -> (r: Option<WebSocketConfig>)
        ensures
            r is Some <==> (self.settings_of().data_source == DataSource::WebSocket
                && self.settings_of().websocket_url is Some),
            r is Some ==> {
                let c = r->0;
                let s = self.settings_of();
                &&& c.url@ == s.websocket_url->0@
                &&& key_view(c.api_key) == key_view(s.websocket_api_key)
                &&& c.init_messages@.len() == s.websocket_init_messages@.len()
                &&& forall|i: int|
                    0 <= i < c.init_messages@.len() ==> #[trigger] c.init_messages@[i]@
                        == s.websocket_init_messages@[i]@
                &&& c.send_pings == s.websocket_send_pings
            },
    {
        if self.settings.data_source != DataSource::WebSocket {
            return None;
        }
        match &self.settings.websocket_url {
            Some(url) => {
                let api_key = match &self.settings.websocket_api_key {
                    Some(k) => Some(k.clone()),
                    None => None,
                };
                let mut init_messages: Vec<String> = Vec::new();
                let msgs = &self.settings.websocket_init_messages;
                let mut i: usize = 0;
                while i < msgs.len()
                    invariant
                        0 <= i <= msgs@.len(),
                        init_messages@.len() == i,
                        forall|j: int|
                            0 <= j < i ==> #[trigger] init_messages@[j]@ == msgs@[j]@,
                    decreases msgs@.len() - i,
                {
                    init_messages.push(msgs[i].clone());
                    i = i + 1;
                }
                Some(
                    WebSocketConfig {
                        url: url.clone(),
                        api_key,
                        init_messages,
                        send_pings: self.settings.websocket_send_pings,
                    },
                )
            },
            None => None,
        }
    }

    /// Takes new settings, keeping the samples. The result says whether a
    /// WebSocket stream must be started: the value now comes from one and did
    /// not before.
    pub fn apply_settings(&mut self, settings: GraphSettings) -> (start_stream: bool)
        requires
            old(self).wf(),
        ensures
            final(self).wf(),
            final(self).settings_of() == settings,
            final(self).samples() == old(self).samples(),
            start_stream == (settings.data_source == DataSource::WebSocket
                && old(self).settings_of().data_source != DataSource::WebSocket),
    {
        let old_source = self.settings.data_source;
        let start_stream = settings.data_source == DataSource::WebSocket && old_source
            != DataSource::WebSocket;
        self.settings = settings;
        start_stream
    }
}

} // verus!
