use finalizer::config::data::{
    Blan, Config, Fast, MPolicy, Mode, Name, Perf, Policy as PolicyEntry, Power,
};
use finalizer::cpu_handle::cpu_freq::{freq_text, parse_freq, CpuFreq, Policy, SysfsWrite};
use finalizer::cpu_handle::cpu_stat::{CpuStat, ModeLimits};
use finalizer::scheduler::manager::Event;

fn entry(i: u32) -> MPolicy {
    MPolicy {
        delay: 40 + i as u64,
        max_freq: 2400000 + i,
        min_freq: 400000 + i,
        boost_freq: 1800000,
        margin_bits: 1.25f32.to_bits(),
        diff: 50000 + i,
        sleep_freq: 800000,
        governor: "schedutil".to_string(),
    }
}

fn mode() -> Mode {
    Mode {
        power: Power { policy: vec![entry(0), entry(1)], idle_governor: "menu".to_string() },
        blan: Blan { policy: vec![entry(10), entry(11)], idle_governor: "menu".to_string() },
        perf: Perf { policy: vec![entry(20), entry(21)], idle_governor: "teo".to_string() },
        fast: Fast { policy: vec![entry(30), entry(31)], idle_governor: "teo".to_string() },
    }
}

fn config(policies: Vec<PolicyEntry>) -> Config {
    Config {
        name: Name { name: "n".to_string(), version: "v".to_string(), author: "a".to_string() },
        policy: policies,
        mode: mode(),
    }
}

const SNAP1: &str = "cpu  300 0 200 2600 0 0 0 0 0 0\n\
cpu0 100 0 100 800 0 0 0 0 0 0\n\
cpu1 50 0 50 900 0 0 0 0 0 0\n\
cpu2 150 0 50 900 0 0 0 0 0 0\n\
intr 12345 1 2\n";

const SNAP2: &str = "cpu  700 0 300 3500 0 0 0 0 0 0\n\
cpu0 300 0 100 900 100 0 0 0 0 0\n\
cpu1 50 0 50 1100 0 0 0 0 0 0\n\
cpu2 350 0 150 1500 0 0 0 0 0 0\n\
ctxt 99\n";

#[test]
fn first_snapshot_reports_unknown_load() {
    let mut st = CpuStat::new(0, 0, 1);
    assert_eq!(st.get_cpu_load(SNAP1), Some(50));
}

#[test]
fn load_is_average_busy_share() {
    let mut st = CpuStat::new(0, 0, 1);
    st.get_cpu_load(SNAP1);
    // cpu0: total 1000 -> 1400, idle 800 -> 1000: busy 200 of 400 = 50
    // cpu1: total 1000 -> 1200, idle 900 -> 1100: busy 0 of 200 = 0
    assert_eq!(st.get_cpu_load(SNAP2), Some(25));
}

#[test]
fn cores_outside_the_policy_are_ignored() {
    let mut st = CpuStat::new(1, 2, 2);
    st.get_cpu_load(SNAP1);
    // cpu2: total 1100 -> 2000, idle 900 -> 1500: busy 300 of 900 = 33
    assert_eq!(st.get_cpu_load(SNAP2), Some(33));
    assert_eq!(st.policy_id(), 1);
    assert_eq!(st.from(), 2);
    assert_eq!(st.to(), 2);
}

#[test]
fn unchanged_counters_report_unknown_load() {
    let mut st = CpuStat::new(0, 0, 1);
    st.get_cpu_load(SNAP1);
    assert_eq!(st.get_cpu_load(SNAP1), Some(50));
}

#[test]
fn malformed_lines_are_skipped() {
    let mut st = CpuStat::new(0, 0, 0);
    st.get_cpu_load("cpu0 10 10 10 70\n");
    let snap = "cpux 1 2 3 4\ncpu0 20 10\ncpu0 30 20 10 extra 80\r\ncpu 1 2 3 4\n";
    // total 100 -> 140, idle 70 -> 80: busy 30 of 40 = 75
    assert_eq!(st.get_cpu_load(snap), Some(75));
}

#[test]
fn idle_growing_faster_than_total_has_no_load() {
    let mut st = CpuStat::new(0, 0, 0);
    st.get_cpu_load("cpu0 500 0 0 500 0\n");
    assert_eq!(st.get_cpu_load("cpu0 0 0 0 1100 0\n"), None);
}

#[test]
fn counters_beyond_u64_have_no_load() {
    let mut st = CpuStat::new(0, 0, 0);
    assert_eq!(st.get_cpu_load("cpu0 18446744073709551615 1 1 1\n"), None);
}

#[test]
fn empty_policy_range() {
    let mut st = CpuStat::new(0, 5, 4);
    assert_eq!(st.get_cpu_load(SNAP2), Some(50));
}

#[test]
fn mode_limits_follow_the_mode() {
    let st = CpuStat::new(1, 4, 7);
    let m = mode();
    assert_eq!(
        st.mode_limits(&m, 2),
        ModeLimits {
            delay: 61,
            min_freq: 400021,
            max_freq: 2400021,
            margin_bits: 1.25f32.to_bits(),
            diff: 50021
        }
    );
    assert_eq!(
        st.mode_limits(&m, 9),
        ModeLimits {
            delay: 100,
            min_freq: 200000,
            max_freq: 200000,
            margin_bits: 1.0f32.to_bits(),
            diff: 700000
        }
    );
}

#[test]
fn small_changes_are_not_requested() {
    let st = CpuStat::new(0, 4, 7);
    assert_eq!(st.freq_event(1000000, 300000, 1040000, 50000), None);
    assert_eq!(
        st.freq_event(1000000, 300000, 1050000, 50000),
        Some(Event::SetFreq((4, (300000, 1000000))))
    );
    assert_eq!(
        st.freq_event(1200000, 300000, 1000000, 50000),
        Some(Event::SetFreq((4, (300000, 1200000))))
    );
}

#[test]
fn policy_table_follows_configuration() {
    let cf = CpuFreq::new(&config(vec![
        PolicyEntry { from: 0, to: 3 },
        PolicyEntry { from: 4, to: 6 },
        PolicyEntry { from: 7, to: 7 },
    ]));
    assert_eq!(cf.get_policy(0), 0);
    assert_eq!(cf.get_policy(4), 4);
    assert_eq!(cf.get_policy(7), 7);
    assert!(!cf.has_policy(1));
    assert!(cf.has_policy(7));
    assert!(!cf.has_policy(3));
}

#[test]
fn policy_keys_are_truncated_to_a_byte() {
    let cf = CpuFreq::new(&config(vec![PolicyEntry { from: 260, to: 261 }]));
    assert_eq!(cf.get_policy(4), 260);
}

#[test]
fn freq_writes_are_decimal_text() {
    let cf = CpuFreq::new(&config(vec![PolicyEntry { from: 4, to: 7 }]));
    assert_eq!(
        cf.write_index_freq(4, (0, 4294967295)),
        vec![
            SysfsWrite::MinFreq(4, "0".to_string()),
            SysfsWrite::MaxFreq(4, "4294967295".to_string()),
        ]
    );
    assert_eq!(
        cf.write_index_governor(4, "performance".to_string()),
        vec![SysfsWrite::Governor(4, "performance".to_string())]
    );
    assert_eq!(
        cf.write_idle_governor("teo".to_string()),
        vec![SysfsWrite::IdleGovernor("teo".to_string())]
    );
}

#[test]
fn policy_file_paths() {
    let p = Policy::new(7);
    assert_eq!(p.max_path(), "/sys/devices/system/cpu/cpufreq/policy7/scaling_max_freq");
    assert_eq!(p.min_path(), "/sys/devices/system/cpu/cpufreq/policy7/scaling_min_freq");
    assert_eq!(p.governor_path(), "/sys/devices/system/cpu/cpufreq/policy7/scaling_governor");
    assert_eq!(Policy::new(12).max_path(), "/sys/devices/system/cpu/cpufreq/policy12/scaling_max_freq");
}

#[test]
fn reading_frequency_files() {
    let p = Policy::new(0);
    assert_eq!(p.read_max("1804800\n"), 1804800);
    assert_eq!(p.read_min("  300000 "), 300000);
    assert_eq!(p.read_max(""), 2000000);
    assert_eq!(p.read_max("abc"), 2000000);
    assert_eq!(p.read_max("4294967296"), 2000000);
    assert_eq!(parse_freq("+42\n"), 42);
}

#[test]
fn written_frequency_reads_back() {
    for v in [0u32, 1, 300000, 1804800, 4294967295] {
        assert_eq!(parse_freq(&freq_text(v)), v);
        assert_eq!(freq_text(v), v.to_string());
    }
}

#[test]
fn a_fully_busy_policy_reports_one_hundred() {
    let mut st = CpuStat::new(0, 0, 1);
    st.get_cpu_load("cpu0 100 0 0 100 0\ncpu1 100 0 0 100 0\n");
    assert_eq!(st.get_cpu_load("cpu0 900 0 0 100 0\ncpu1 700 0 0 100 0\n"), Some(100));
}

#[test]
fn one_busy_core_of_two() {
    let mut st = CpuStat::new(0, 0, 1);
    st.get_cpu_load("cpu0 100 0 0 100 0\ncpu1 100 0 0 100 0\n");
    // cpu0: 100 busy of 100; cpu1: 0 busy of 300
    assert_eq!(st.get_cpu_load("cpu0 200 0 0 100 0\ncpu1 100 0 0 400 0\n"), Some(50));
}

#[test]
fn lines_of_other_cores_change_nothing() {
    let mut a = CpuStat::new(0, 0, 1);
    let mut b = CpuStat::new(0, 0, 1);
    let extra1 = "cpu  1 2 3 4\ncpu7 9 9 9 9\nintr 5\n";
    let extra2 = "btime 1\ncpu2 1 1 1 1\n";
    a.get_cpu_load(SNAP1);
    b.get_cpu_load(&format!("{}{}{}", extra1, SNAP1, extra2));
    assert_eq!(a.get_cpu_load(SNAP2), b.get_cpu_load(&format!("{}{}", SNAP2, extra1)));
    assert_eq!(a.get_cpu_load(SNAP2), Some(50));
    assert_eq!(b.get_cpu_load(&format!("{}{}", extra2, SNAP2)), Some(50));
}
