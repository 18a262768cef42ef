use vstd::prelude::*;
use vstd::string::StrSliceExecFns;
use crate::settings::MetricType;

verus! {

/// One feature of a hardware sensor chip as read: the chip's name, the
/// feature's label (`None` when it could not be read), and the values of its
/// sub-features that could be read, in order, in thousandths of the unit.
pub struct SensorReading {
    pub chip: String,
    pub label: Option<String>,
    pub values: Vec<i64>,
}

/// `needle` occurs in `hay` as a contiguous run.
pub open spec fn has_sub(hay: Seq<char>, needle: Seq<char>) -> bool {
    exists|k: int|
        0 <= k && k + needle.len() <= hay.len() && #[trigger] hay.subrange(k, k + needle.len())
            == needle
}

/// The label holds `needle`; an unreadable label holds nothing.
pub open spec fn label_has(label: Option<String>, needle: Seq<char>) -> bool {
    match label {
        Some(l) => has_sub(l@, needle),
        None => false,
    }
}

fn run_matches(hay: &str, needle: &str, k: usize) -> (r: bool)
    requires
        k + needle@.len() <= hay@.len(),
    ensures
        r == (hay@.subrange(k as int, k + needle@.len()) == needle@),
{
    let n = hay.unicode_len();
    let m = needle.unicode_len();
    let mut j: usize = 0;
    while j < m
        invariant
            m == needle@.len(),
            n == hay@.len(),
            k + m <= hay@.len(),
            0 <= j <= m,
            forall|t: int| 0 <= t < j ==> hay@[k + t] == needle@[t],
        decreases m - j,
    {
        if hay.get_char(k + j) != needle.get_char(j) {
            assert(hay@.subrange(k as int, k + m)[j as int] != needle@[j as int]);
            return false;
        }
        j = j + 1;
    }
    assert(hay@.subrange(k as int, k + m) =~= needle@);
    true
}

/// Whether `needle` occurs in `hay`.
pub fn contains_str(hay: &str, needle: &str) -> (r: bool)
    ensures
        r == has_sub(hay@, needle@),
{
    let n = hay.unicode_len();
    let m = needle.unicode_len();
    if m > n {
        return false;
    }
    if m == 0 {
        assert(hay@.subrange(0int, 0int + needle@.len()) =~= needle@);
        return true;
    }
    let mut k: usize = 0;
    while k <= n - m
        invariant
            n == hay@.len(),
            m == needle@.len(),
            1 <= m <= n,
            0 <= k <= n - m + 1,
            forall|t: int| 0 <= t < k ==> #[trigger] hay@.subrange(t, t + m) != needle@,
        decreases n - m + 1 - k,
    {
        if run_matches(hay, needle, k) {
            return true;
        }
        k = k + 1;
    }
    false
}

fn label_contains(label: &Option<String>, needle: &str) -> (r: bool)
    ensures
        r == label_has(*label, needle@),
{
    match label {
        Some(l) => contains_str(l.as_str(), needle),
        None => false,
    }
}

/// Which sensor feature shows the metric when none is chosen: the chip and
/// label patterns each metric is recognized by. Metrics that are not read from
/// sensor chips match nothing.
pub open spec fn auto_match(m: MetricType, chip: Seq<char>, label: Option<String>) -> bool {
    match m {
        MetricType::CpuTemp | MetricType::CpuPackageTemp => (has_sub(chip, "coretemp"@) || has_sub(
            chip,
            "k10temp"@,
        )) && (label_has(label, "Package"@) || label_has(label, "Tdie"@) || label_has(
            label,
            "Core 0"@,
        )),
        MetricType::GpuLoad => has_sub(chip, "amdgpu"@) && label_has(label, "GPU"@),
        MetricType::GpuTemp => (has_sub(chip, "amdgpu"@) || has_sub(chip, "nvidia"@)) && (
        label_has(label, "temp"@) || label_has(label, "edge"@)),
        MetricType::MotherboardTemp => (has_sub(chip, "nct"@) || has_sub(chip, "it87"@)) && (
        label_has(label, "SYSTIN"@) || label_has(label, "MB"@)),
        MetricType::NvmeTemp => has_sub(chip, "nvme"@),
        MetricType::CpuFan => label_has(label, "CPU"@) && label_has(label, "fan"@),
        MetricType::SystemFan => label_has(label, "fan"@) && !label_has(label, "CPU"@),
        MetricType::CpuVoltage => label_has(label, "CPU"@) && (label_has(label, "Vcore"@)
            || label_has(label, "in"@)),
        _ => false,
    }
}

fn auto_matches(m: MetricType, chip: &str, label: &Option<String>) -> (r: bool)
    ensures
        r == auto_match(m, chip@, *label),
{
    match m {
        MetricType::CpuTemp | MetricType::CpuPackageTemp => (contains_str(chip, "coretemp")
            || contains_str(chip, "k10temp")) && (label_contains(label, "Package")
            || label_contains(label, "Tdie") || label_contains(label, "Core 0")),
        MetricType::GpuLoad => contains_str(chip, "amdgpu") && label_contains(label, "GPU"),
        MetricType::GpuTemp => (contains_str(chip, "amdgpu") || contains_str(chip, "nvidia")) && (
        label_contains(label, "temp") || label_contains(label, "edge")),
        MetricType::MotherboardTemp => (contains_str(chip, "nct") || contains_str(chip, "it87"))
            && (label_contains(label, "SYSTIN") || label_contains(label, "MB")),
        MetricType::NvmeTemp => contains_str(chip, "nvme"),
        MetricType::CpuFan => label_contains(label, "CPU") && label_contains(label, "fan"),
        MetricType::SystemFan => label_contains(label, "fan") && !label_contains(label, "CPU"),
        MetricType::CpuVoltage => label_contains(label, "CPU") && (label_contains(label, "Vcore")
            || label_contains(label, "in")),
        _ => false,
    }
}

/// A feature chosen by hand: its chip's name holds `chip_pat` and its label `feature_pat`.
pub open spec fn custom_match(
    chip_pat: Seq<char>,
    feature_pat: Seq<char>,
    chip: Seq<char>,
    label: Option<String>,
) -> bool {
    has_sub(chip, chip_pat) && label_has(label, feature_pat)
}

/// The first value of the first reading from position `i` on that the pattern
/// (the hand-chosen one when `custom` holds, else the metric's own) accepts
/// and that has a value.
pub open spec fn first_value(
    rs: Seq<SensorReading>,
    i: int,
    m: MetricType,
    custom: Option<(Seq<char>, Seq<char>)>,
) -> Option<i64>
    decreases rs.len() - i,
{
    if i < 0 || i >= rs.len() {
        None
    } else if (match custom {
        Some(p) => custom_match(p.0, p.1, rs[i].chip@, rs[i].label),
        None => auto_match(m, rs[i].chip@, rs[i].label),
    }) && rs[i].values@.len() > 0 {
        Some(rs[i].values@[0])
    } else {
        first_value(rs, i + 1, m, custom)
    }
}

/// The value shown for a sensor metric: the hand-chosen feature when both
/// patterns are given and one matches, else the first feature the metric is
/// recognized by, else 0.
pub open spec fn sensor_value_spec(
    rs: Seq<SensorReading>,
    m: MetricType,
    chip: Option<Seq<char>>,
    feature: Option<Seq<char>>,
) -> i64 {
    let chosen = if chip is Some && feature is Some {
        first_value(rs, 0, m, Some((chip->0, feature->0)))
    } else {
        None
    };
    match chosen {
        Some(v) => v,
        None => match first_value(rs, 0, m, None) {
            Some(v) => v,
            None => 0,
        },
    }
}

/// The characters of an optional pattern.
pub open spec fn str_view(s: Option<&str>) -> Option<Seq<char>> {
    match s {
        Some(t) => Some(t@),
        None => None,
    }
}

fn search(
    readings: &Vec<SensorReading>,
    m: MetricType,
    chip: Option<&str>,
    feature: Option<&str>,
) -> (r: Option<i64>)
    requires
        chip is Some <==> feature is Some,
    ensures
        r == first_value(
            readings@,
            0,
            m,
            if chip is Some {
                Some((chip->0@, feature->0@))
            } else {
                None
            },
        ),
{
    let ghost custom = if chip is Some {
        Some((chip->0@, feature->0@))
    } else {
        None
    };
    let mut i: usize = 0;
    while i < readings.len()
        invariant
            0 <= i <= readings@.len(),
            chip is Some <==> feature is Some,
            custom == (if chip is Some {
                Some((chip->0@, feature->0@))
            } else {
                None
            }),
            first_value(readings@, 0, m, custom) == first_value(readings@, i as int, m, custom),
        decreases readings@.len() - i,
    {
        let r = &readings[i];
        let hit = match (chip, feature) {
            (Some(c), Some(f)) => contains_str(r.chip.as_str(), c) && label_contains(&r.label, f),
            _ => auto_matches(m, r.chip.as_str(), &r.label),
        };
        if hit && r.values.len() > 0 {
            return Some(r.values[0]);
        }
        i = i + 1;
    }
    None
}

/// Picks the value of a sensor metric from the features of all chips, read in
/// order (see `sensor_value_spec`).
pub fn select_sensor_value(
    readings: &Vec<SensorReading>,
    metric: MetricType,
    sensor_chip: Option<&str>,
    sensor_feature: Option<&str>,
) -> (r: i64)
    ensures
        r == sensor_value_spec(readings@, metric, str_view(sensor_chip), str_view(sensor_feature)),
{
    let chosen = match (sensor_chip, sensor_feature) {
        (Some(c), Some(f)) => search(readings, metric, Some(c), Some(f)),
        _ => None,
    };
    match chosen {
        Some(v) => v,
        None => match search(readings, metric, None, None) {
            Some(v) => v,
            None => 0,
        },
    }
}

/// Thousandths of a MiB per second between two readings of a byte counter taken
/// a second apart; 0 on the first reading, and a counter that went back counts as 0.
pub open spec fn mib_rate_spec(prev: Option<u64>, total: u64) -> int {
    match prev {
        Some(p) => if total >= p {
            (total - p) * 1000 / 1_048_576int
        } else {
            0
        },
        None => 0,
    }
}

/// Throughput between two counter readings (see `mib_rate_spec`).
pub fn mib_rate(prev: Option<u64>, total: u64) -> (r: i64)
    ensures
        r == mib_rate_spec(prev, total),
{
    match prev {
        Some(p) => {
            let delta = total.saturating_sub(p) as u128;
            assert(delta * 1000 / 1_048_576 <= 0xffff_ffff_ffff_ffff) by (nonlinear_arith)
                requires
                    delta <= 0xffff_ffff_ffff_ffff,
            ;
            ((delta * 1000) / 1_048_576) as i64
        },
        None => 0,
    }
}

/// `part` as a share of `whole` in thousandths of a percent, saturating at the
/// largest sample; 0 for an empty whole.
pub open spec fn percent_spec(part: u64, whole: u64) -> int {
    if whole == 0 {
        0
    } else if part * 100_000 / (whole as int) > i64::MAX {
        i64::MAX as int
    } else {
        part * 100_000 / (whole as int)
    }
}

/// `part` as a share of `whole` (see `percent_spec`).
pub fn percent(part: u64, whole: u64) -> (r: i64)
    ensures
        r == percent_spec(part, whole),
{
    if whole == 0 {
        return 0;
    }
    let q = (part as u128 * 100_000) / whole as u128;
    if q > i64::MAX as u128 {
        i64::MAX
    } else {
        q as i64
    }
}

/// CPU load, in thousandths of a percent, from the total and active jiffies now
/// and at the previous reading: the active share of the time that passed; 0 on
/// the first reading or when no time passed.
pub open spec fn cpu_load_spec(prev: Option<(u64, u64)>, total: u64, active: u64) -> int {
    match prev {
        Some(p) => {
            let td = if total >= p.0 { total - p.0 } else { 0 };
            let ad = if active >= p.1 { active - p.1 } else { 0 };
            percent_spec(ad as u64, td as u64)
        },
        None => 0,
    }
}

/// CPU load between two readings (see `cpu_load_spec`).
pub fn cpu_load(prev: Option<(u64, u64)>, total: u64, active: u64) -> (r: i64)
    ensures
        r == cpu_load_spec(prev, total, active),
{
    match prev {
        Some((pt, pa)) => percent(active.saturating_sub(pa), total.saturating_sub(pt)),
        None => 0,
    }
}

/// Where a metric's value is read from.
#[derive(Debug, Clone, Copy, PartialEq, Eq, Structural)]
pub enum MetricSource {
    CpuStat,
    Memory,
    DiskWrite,
    DiskRead,
    NetDownload,
    NetUpload,
    SensorChip,
}

/// Where each metric is read from.
pub open spec fn source_spec(m: MetricType) -> MetricSource {
    match m {
        MetricType::CpuLoad => MetricSource::CpuStat,
        MetricType::RamUsage => MetricSource::Memory,
        MetricType::DiskWrite => MetricSource::DiskWrite,
        MetricType::DiskRead => MetricSource::DiskRead,
        MetricType::NetDownload => MetricSource::NetDownload,
        MetricType::NetUpload => MetricSource::NetUpload,
        _ => MetricSource::SensorChip,
    }
}

/// Where the metric's value is read from: CPU load from the kernel's counters,
/// memory, disk and network rates from the system's statistics, the rest from
/// sensor chips.
pub fn metric_source(m: MetricType) -> (r: MetricSource)
    ensures
        r == source_spec(m),
{
    match m {
        MetricType::CpuLoad => MetricSource::CpuStat,
        MetricType::RamUsage => MetricSource::Memory,
        MetricType::DiskWrite => MetricSource::DiskWrite,
        MetricType::DiskRead => MetricSource::DiskRead,
        MetricType::NetDownload => MetricSource::NetDownload,
        MetricType::NetUpload => MetricSource::NetUpload,
        _ => MetricSource::SensorChip,
    }
}

/// The sum of the counters, held at `u64::MAX`.
pub open spec fn counters_total(v: Seq<u64>) -> int
    decreases v.len(),
{
    if v.len() == 0 {
        0
    } else {
        let t = counters_total(v.drop_last()) + v.last();
        if t > u64::MAX {
            u64::MAX as int
        } else {
            t
        }
    }
}

/// Adds up byte counters of several disks or interfaces (see `counters_total`).
pub fn total_of(values: &Vec<u64>) -> (r: u64)
    ensures
        r == counters_total(values@),
{
    let mut acc: u64 = 0;
    let mut i: usize = 0;
    while i < values.len()
        invariant
            0 <= i <= values@.len(),
            acc == counters_total(values@.take(i as int)),
        decreases values@.len() - i,
    {
        assert(values@.take(i + 1).drop_last() =~= values@.take(i as int));
        acc = acc.saturating_add(values[i]);
        i = i + 1;
    }
    assert(values@.take(values@.len() as int) =~= values@);
    acc
}

} // verus!
