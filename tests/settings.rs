use image::Rgba;
use sensor_graphs::encode::png_data_uri;
use sensor_graphs::settings::{parse_hex_color, DataSource, GraphData, GraphSettings, MetricType, MAX_DATA_POINTS};
use sensor_graphs::websocket::{ping_message, WebSocketConfig};
use sensor_graphs::sensors::{metric_source, MetricSource};
use sensor_graphs::text::value_text;
use sensor_graphs::window::SlidingWindow;

#[test]
fn hex_colors() {
    assert_eq!(parse_hex_color("#FF00AA"), Some(Rgba([255, 0, 170, 255])));
    assert_eq!(parse_hex_color("#ff00aa"), Some(Rgba([255, 0, 170, 255])));
    assert_eq!(parse_hex_color("#123456"), Some(Rgba([0x12, 0x34, 0x56, 255])));
    assert_eq!(parse_hex_color("#FFF"), None);
    assert_eq!(parse_hex_color("#GG0000"), None);
    assert_eq!(parse_hex_color("#+F0000"), None);
    assert_eq!(parse_hex_color("#FF00AA0"), None);
    assert_eq!(parse_hex_color(""), None);
    assert_eq!(parse_hex_color("#"), None);
    assert_eq!(parse_hex_color("FF00AA"), None);
    assert_eq!(parse_hex_color("##FF00AA"), None);
    assert_eq!(parse_hex_color("#FF00A\u{e9}"), None);
}

#[test]
fn window_evicts_oldest() {
    let mut w = SlidingWindow::new(3);
    assert_eq!(w.snapshot(), Vec::<i64>::new());
    for v in 1..=3 {
        w.append(v);
    }
    assert_eq!(w.snapshot(), vec![1, 2, 3]);
    w.append(4);
    assert_eq!(w.snapshot(), vec![2, 3, 4]);
    w.append(5);
    w.append(6);
    w.append(7);
    assert_eq!(w.snapshot(), vec![5, 6, 7]);
    assert_eq!(w.len(), 3);
    assert_eq!(w.capacity(), 3);
}

#[test]
fn graph_data_keeps_last_points() {
    let mut d = GraphData::new(GraphSettings::default());
    for v in 0..(MAX_DATA_POINTS as i64 + 5) {
        d.add_data_point(v);
    }
    let pts = d.data_points();
    assert_eq!(pts.len(), MAX_DATA_POINTS);
    assert_eq!(pts[0], 5);
    assert_eq!(*pts.last().unwrap(), MAX_DATA_POINTS as i64 + 4);
}

#[test]
fn config_defaults_for_sensor() {
    let mut d = GraphData::new(GraphSettings::default());
    d.add_data_point(42_000);
    let c = d.get_graph_config();
    assert_eq!(c.data_points, vec![42_000]);
    assert_eq!(c.max_value, 120_000);
    assert_eq!(c.min_value, 0);
    assert_eq!(c.threshold, Some(80_000));
    assert_eq!(c.title, "CPU Temp");
    assert_eq!(c.color_scheme.normal_color, Rgba([0, 255, 0, 255]));
    assert_eq!(c.color_scheme.warning_color, Rgba([255, 0, 0, 255]));
}

#[test]
fn config_from_settings() {
    let mut s = GraphSettings::default();
    s.data_source = DataSource::WebSocket;
    s.normal_color = String::from("#0000FF");
    s.warning_color = String::from("not a color");
    s.min_value = Some(-10_000);
    let c = GraphData::new(s.clone()).get_graph_config();
    assert_eq!(c.title, "WebSocket");
    assert_eq!(c.max_value, 100_000);
    assert_eq!(c.min_value, -10_000);
    assert_eq!(c.threshold, None);
    assert_eq!(c.color_scheme.normal_color, Rgba([0, 0, 255, 255]));
    assert_eq!(c.color_scheme.warning_color, Rgba([255, 0, 0, 255]));
    s.data_source = DataSource::LmSensors;
    s.metric_type = MetricType::CpuFan;
    s.threshold = Some(1_000);
    s.max_value = Some(5_000);
    let c = GraphData::new(s).get_graph_config();
    assert_eq!(c.title, "CPU Fan");
    assert_eq!(c.max_value, 5_000);
    assert_eq!(c.threshold, Some(1_000));
}

#[test]
fn metric_defaults() {
    assert_eq!(MetricType::CpuLoad.default_max(), 100_000);
    assert_eq!(MetricType::SystemFan.default_max(), 3_000_000);
    assert_eq!(MetricType::CpuVoltage.default_max(), 2_000);
    assert_eq!(MetricType::NetUpload.default_max(), 125_000);
    assert_eq!(MetricType::GpuTemp.default_threshold(), Some(85_000));
    assert_eq!(MetricType::DiskRead.default_threshold(), None);
    assert_eq!(MetricType::NvmeTemp.display_name(), "NVMe Temp");
    assert_eq!(MetricType::NetDownload.display_name(), "Net Down");
    assert_eq!(MetricType::CpuTemp.value_suffix(), "\u{b0}C");
    assert_eq!(MetricType::DiskWrite.value_suffix(), " MB/s");
    assert_eq!(MetricType::default(), MetricType::CpuTemp);
    assert_eq!(DataSource::default(), DataSource::LmSensors);
}

#[test]
fn websocket_url_with_key() {
    let mut c = WebSocketConfig {
        url: String::from("ws://host:8080/data"),
        api_key: Some(String::from("abc")),
        init_messages: vec![String::from("hello"), String::from("sub")],
        send_pings: true,
    };
    assert_eq!(c.connection_url(), "ws://host:8080/data?apikey=abc");
    c.url = String::from("ws://host/data?x=1");
    assert_eq!(c.connection_url(), "ws://host/data?x=1&apikey=abc");
    c.api_key = None;
    assert_eq!(c.connection_url(), "ws://host/data?x=1");
    assert_eq!(c.first_ping_id(), 2);
}

#[test]
fn data_uri_encodes_bytes() {
    assert_eq!(png_data_uri(&vec![1, 2, 3]), "data:image/png;base64,AQID");
    assert_eq!(png_data_uri(&vec![]), "data:image/png;base64,");
    assert_eq!(png_data_uri(&vec![255]), "data:image/png;base64,/w==");
}

#[test]
fn ping_messages() {
    assert_eq!(ping_message(0), r#"{"ping":{},"id":0}"#);
    assert_eq!(ping_message(2), r#"{"ping":{},"id":2}"#);
    assert_eq!(ping_message(1907), r#"{"ping":{},"id":1907}"#);
    assert_eq!(ping_message(u64::MAX), r#"{"ping":{},"id":18446744073709551615}"#);
}

#[test]
fn value_texts() {
    assert_eq!(value_text(42_340, "\u{b0}C"), "42.3\u{b0}C");
    assert_eq!(value_text(42_350, "%"), "42.4%");
    assert_eq!(value_text(0, ""), "0.0");
    assert_eq!(value_text(-1_250, "V"), "-1.3V");
    assert_eq!(value_text(1_999_960, " RPM"), "2000.0 RPM");
}

#[test]
fn metric_sources() {
    assert_eq!(metric_source(MetricType::CpuLoad), MetricSource::CpuStat);
    assert_eq!(metric_source(MetricType::RamUsage), MetricSource::Memory);
    assert_eq!(metric_source(MetricType::NetUpload), MetricSource::NetUpload);
    assert_eq!(metric_source(MetricType::GpuTemp), MetricSource::SensorChip);
}

#[test]
fn ticks_record_and_render() {
    let mut s = GraphSettings::default();
    s.show_value_text = true;
    let mut d = GraphData::new(s);
    assert!(d.on_sample(None).is_none());
    assert_eq!(d.data_points(), Vec::<i64>::new());
    let t = d.on_sample(Some(61_250)).unwrap();
    assert_eq!(t.config.data_points, vec![61_250]);
    assert_eq!(t.value_text, Some(String::from("61.3\u{b0}C")));
    assert!(d.on_sample(None).is_none());
    assert_eq!(d.data_points(), vec![61_250]);
}

#[test]
fn settings_changes_start_streams() {
    let mut d = GraphData::new(GraphSettings::default());
    d.add_data_point(5);
    let mut ws = GraphSettings::default();
    ws.data_source = DataSource::WebSocket;
    assert!(d.apply_settings(ws.clone()));
    assert!(!d.apply_settings(ws));
    assert_eq!(d.data_points(), vec![5]);
    let t = d.on_sample(Some(7)).unwrap();
    assert_eq!(t.value_text, None);
    assert_eq!(t.config.title, "WebSocket");
}

#[test]
fn stream_config_from_settings() {
    let mut s = GraphSettings::default();
    assert!(GraphData::new(s.clone()).websocket_config().is_none());
    s.data_source = DataSource::WebSocket;
    assert!(GraphData::new(s.clone()).websocket_config().is_none());
    s.websocket_url = Some(String::from("ws://h/x"));
    s.websocket_api_key = Some(String::from("k"));
    s.websocket_init_messages = vec![String::from("a"), String::from("b")];
    s.websocket_send_pings = true;
    let c = GraphData::new(s).websocket_config().unwrap();
    assert_eq!(c.url, "ws://h/x");
    assert_eq!(c.api_key, Some(String::from("k")));
    assert_eq!(c.init_messages, vec![String::from("a"), String::from("b")]);
    assert!(c.send_pings);
    assert_eq!(c.connection_url(), "ws://h/x?apikey=k");
}

#[test]
fn system_fan_title() {
    let mut s = GraphSettings::default();
    s.metric_type = MetricType::SystemFan;
    assert_eq!(GraphData::new(s.clone()).get_graph_config().title, "Fan 1");
    s.fan_number = Some(3);
    assert_eq!(GraphData::new(s.clone()).get_graph_config().title, "Fan 3");
    s.fan_number = Some(12);
    assert_eq!(GraphData::new(s.clone()).get_graph_config().title, "Fan 12");
    s.data_source = DataSource::WebSocket;
    assert_eq!(GraphData::new(s).get_graph_config().title, "WebSocket");
}

#[test]
fn invalid_colors_fall_back() {
    let mut s = GraphSettings::default();
    s.normal_color = String::from("00FF00");
    s.warning_color = String::from("##0000FF");
    let c = GraphData::new(s).get_graph_config();
    assert_eq!(c.color_scheme.normal_color, Rgba([0, 255, 0, 255]));
    assert_eq!(c.color_scheme.warning_color, Rgba([255, 0, 0, 255]));
}
