use sensor_graphs::json::{extract_value, JsonKind, JsonNode};
use sensor_graphs::sensors::{contains_str, cpu_load, mib_rate, percent, select_sensor_value, total_of, SensorReading};
use sensor_graphs::settings::MetricType;
use sensor_graphs::stat::parse_cpu_times;

fn num(v: i64) -> JsonNode {
    JsonNode { kind: JsonKind::Number, number: v, children: vec![] }
}

fn other() -> JsonNode {
    JsonNode { kind: JsonKind::Other, number: 0, children: vec![] }
}

fn object(members: Vec<(&str, usize)>) -> JsonNode {
    JsonNode {
        kind: JsonKind::Object,
        number: 0,
        children: members.into_iter().map(|(k, i)| (k.to_string(), i)).collect(),
    }
}

fn array(items: Vec<usize>) -> JsonNode {
    JsonNode { kind: JsonKind::Array, number: 0, children: items.into_iter().map(|i| (String::new(), i)).collect() }
}

#[test]
fn json_plain_number() {
    assert_eq!(extract_value(&vec![num(42_500)]), Some(42_500));
    assert_eq!(extract_value(&vec![other()]), None);
    assert_eq!(extract_value(&vec![]), None);
}

#[test]
fn json_preferred_keys_first() {
    // {"a": 1, "temp": 2, "value": "x", "data": 3}
    let doc = vec![object(vec![("a", 1), ("temp", 2), ("value", 3), ("data", 4)]), num(1_000), num(2_000), other(), num(3_000)];
    assert_eq!(extract_value(&doc), Some(3_000));
    // {"b": {"load": 7}, "c": 8}: no preferred key at the top, first member yields
    let doc = vec![object(vec![("b", 1), ("c", 3)]), object(vec![("load", 2)]), num(7_000), num(8_000)];
    assert_eq!(extract_value(&doc), Some(7_000));
}

#[test]
fn json_arrays_use_first_element() {
    let doc = vec![array(vec![1, 2]), other(), num(5)];
    assert_eq!(extract_value(&doc), None);
    let doc = vec![array(vec![1, 2]), num(4), num(5)];
    assert_eq!(extract_value(&doc), Some(4));
    assert_eq!(extract_value(&vec![array(vec![])]), None);
}

#[test]
fn json_backward_reference_rejected() {
    let doc = vec![object(vec![("value", 0)])];
    assert_eq!(extract_value(&doc), None);
}

fn reading(chip: &str, label: Option<&str>, values: Vec<i64>) -> SensorReading {
    SensorReading { chip: chip.to_string(), label: label.map(|l| l.to_string()), values }
}

#[test]
fn sensor_selection() {
    let rs = vec![
        reading("acpitz-acpi-0", Some("temp1"), vec![30_000]),
        reading("coretemp-isa-0000", Some("Package id 0"), vec![]),
        reading("coretemp-isa-0000", Some("Core 0"), vec![55_000, 1]),
        reading("nct6775-isa-0290", Some("SYSTIN"), vec![33_000]),
        reading("nct6775-isa-0290", Some("CPU fan"), vec![1_200_000]),
        reading("nct6775-isa-0290", Some("Chassis fan"), vec![900_000]),
        reading("nvme-pci-0100", None, vec![41_000]),
        reading("nct6775-isa-0290", Some("CPU Vcore"), vec![1_100]),
    ];
    assert_eq!(select_sensor_value(&rs, MetricType::CpuTemp, None, None), 55_000);
    assert_eq!(select_sensor_value(&rs, MetricType::MotherboardTemp, None, None), 33_000);
    assert_eq!(select_sensor_value(&rs, MetricType::CpuFan, None, None), 1_200_000);
    assert_eq!(select_sensor_value(&rs, MetricType::SystemFan, None, None), 900_000);
    assert_eq!(select_sensor_value(&rs, MetricType::NvmeTemp, None, None), 41_000);
    assert_eq!(select_sensor_value(&rs, MetricType::CpuVoltage, None, None), 1_100);
    assert_eq!(select_sensor_value(&rs, MetricType::GpuTemp, None, None), 0);
    assert_eq!(select_sensor_value(&rs, MetricType::CpuTemp, Some("acpitz"), Some("temp")), 30_000);
    assert_eq!(select_sensor_value(&rs, MetricType::CpuTemp, Some("missing"), Some("temp")), 55_000);
    assert_eq!(select_sensor_value(&rs, MetricType::CpuTemp, Some("acpitz"), None), 55_000);
}

#[test]
fn substring_search() {
    assert!(contains_str("coretemp-isa", "temp"));
    assert!(contains_str("abc", ""));
    assert!(!contains_str("ab", "abc"));
    assert!(!contains_str("Core 1", "Core 0"));
}

#[test]
fn rates_and_shares() {
    assert_eq!(mib_rate(None, 5_000_000), 0);
    assert_eq!(mib_rate(Some(0), 1_048_576), 1_000);
    assert_eq!(mib_rate(Some(10), 5), 0);
    assert_eq!(percent(1, 4), 25_000);
    assert_eq!(percent(3, 0), 0);
    assert_eq!(percent(u64::MAX, 1), i64::MAX);
    assert_eq!(cpu_load(None, 100, 50), 0);
    assert_eq!(cpu_load(Some((100, 50)), 200, 125), 75_000);
    assert_eq!(cpu_load(Some((100, 50)), 100, 60), 0);
}

#[test]
fn cpu_stat_line() {
    let content = "cpu  10 20 30 400 50 6 7 0 0 0\ncpu0 1 2 3 4 5 6 7\n";
    assert_eq!(parse_cpu_times(content), Some((523, 73)));
    assert_eq!(parse_cpu_times("cpu 1 2 3 4 5 6"), None);
    assert_eq!(parse_cpu_times("cpu0 1 2 3 4 5 6 7"), None);
    assert_eq!(parse_cpu_times(""), None);
    assert_eq!(parse_cpu_times("cpu 1 x 3 +4 5 6 7"), Some((26, 17)));
    assert_eq!(parse_cpu_times("cpu 99999999999999999999 1 0 0 0 0 0"), Some((1, 1)));
    assert_eq!(parse_cpu_times("cpu 18446744073709551615 1 0 0 0 0 0"), Some((u64::MAX, u64::MAX)));
    assert_eq!(parse_cpu_times("\ncpu 1 2 3 4 5 6 7"), None);
}

#[test]
fn counter_totals() {
    assert_eq!(total_of(&vec![]), 0);
    assert_eq!(total_of(&vec![1, 2, 3]), 6);
    assert_eq!(total_of(&vec![u64::MAX, 1, 2]), u64::MAX);
}
