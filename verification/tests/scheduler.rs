use finalizer::config::data::{
    Blan, Config, Fast, Game, GameList, MPolicy, Mode, Name, Perf, Policy, Power,
};
use finalizer::cpu_handle::cpu_freq::SysfsWrite;
use finalizer::scheduler::game_moniter::GameMoniter;
use finalizer::scheduler::manager::{Event, Manager};
use finalizer::scheduler::mode_switch::ModeSwitch;
use finalizer::scheduler::screen_moniter::Moniter;

fn entry(tag: &str, i: u32) -> MPolicy {
    MPolicy {
        delay: 50 + i as u64,
        max_freq: 2000000 + i,
        min_freq: 300000 + i,
        boost_freq: 1500000 + i,
        margin_bits: 1.2f32.to_bits(),
        diff: 100000 + i,
        sleep_freq: 900000 + i,
        governor: format!("{}{}", tag, i),
    }
}

fn config() -> Config {
    Config {
        name: Name {
            name: "test".to_string(),
            version: "1".to_string(),
            author: "me".to_string(),
        },
        policy: vec![Policy { from: 0, to: 3 }, Policy { from: 4, to: 7 }],
        mode: Mode {
            power: Power { policy: vec![entry("pw", 0), entry("pw", 1)], idle_governor: "idle_pw".to_string() },
            blan: Blan { policy: vec![entry("bl", 0), entry("bl", 1)], idle_governor: "idle_bl".to_string() },
            perf: Perf { policy: vec![entry("pf", 0), entry("pf", 1)], idle_governor: "idle_pf".to_string() },
            fast: Fast { policy: vec![entry("fs", 0), entry("fs", 1)], idle_governor: "idle_fs".to_string() },
        },
    }
}

fn gov(k: u8, g: &str) -> Event {
    Event::SetGovernor((k, g.to_string()))
}

#[test]
fn mode_switch_sends_governors_of_the_named_mode() {
    let mut ms = ModeSwitch::new(config());
    let r = ms.on_change(false, Some("performance\n"));
    assert_eq!(r.mode, Some(2));
    assert_eq!(
        r.events,
        vec![
            gov(0, "pf0"),
            gov(0, "pf1"),
            gov(4, "pf0"),
            gov(4, "pf1"),
            Event::SetIdleGovernor("idle_pf".to_string()),
        ]
    );
}

#[test]
fn mode_switch_ignores_repeats_and_games() {
    let mut ms = ModeSwitch::new(config());
    let r = ms.on_change(false, Some("powersave"));
    assert!(!r.accepted);
    assert_eq!(r.mode, None);
    assert!(r.events.is_empty());
    let r = ms.on_change(true, Some("balance"));
    assert!(!r.accepted);
    assert_eq!(r.mode, None);
    assert!(r.events.is_empty());
    let r = ms.on_change(false, Some(" balance "));
    assert_eq!(r.mode, Some(1));
    assert_eq!(r.events.len(), 5);
    let r = ms.on_change(false, Some("balance\n"));
    assert_eq!(r.mode, None);
    assert!(r.events.is_empty());
}

#[test]
fn mode_switch_fast_uses_performance_governors() {
    let mut ms = ModeSwitch::new(config());
    let r = ms.on_change(false, Some("fast"));
    assert_eq!(r.mode, Some(3));
    assert_eq!(
        r.events,
        vec![
            gov(0, "pf0"),
            gov(0, "pf1"),
            gov(4, "pf0"),
            gov(4, "pf1"),
            Event::SetIdleGovernor("idle_fs".to_string()),
        ]
    );
}

#[test]
fn mode_switch_unknown_name_is_remembered_only() {
    let mut ms = ModeSwitch::new(config());
    let r = ms.on_change(false, Some("turbo"));
    assert!(r.accepted);
    assert_eq!(r.mode, None);
    assert!(r.events.is_empty());
    let r = ms.on_change(false, Some("turbo"));
    assert!(!r.accepted);
    assert!(r.events.is_empty());
    let r = ms.on_change(false, Some("powersave"));
    assert_eq!(r.mode, Some(0));
    assert_eq!(r.events[4], Event::SetIdleGovernor("idle_pw".to_string()));
}

#[test]
fn mode_switch_unreadable_file_means_balance() {
    let mut ms = ModeSwitch::new(config());
    let r = ms.on_change(false, None);
    assert_eq!(r.mode, Some(1));
    assert_eq!(r.events[0], gov(0, "bl0"));
}

#[test]
fn screen_off_caps_policies_at_sleep_frequency() {
    let mut m = Moniter::new(config());
    let r = m.on_status(false, 0);
    assert_eq!(r.onf, None);
    assert!(r.events.is_empty());
    let r = m.on_status(true, 0);
    assert_eq!(r.onf, Some(true));
    assert!(r.events.is_empty());
    let r = m.on_status(true, 0);
    assert_eq!(r.onf, None);
    let r = m.on_status(false, 1);
    assert_eq!(r.onf, Some(false));
    assert_eq!(
        r.events,
        vec![
            Event::SetFreq((0, (300000, 900000))),
            Event::SetFreq((4, (300001, 900001))),
        ]
    );
}

#[test]
fn screen_off_under_unknown_mode_caps_nothing() {
    let mut m = Moniter::new(config());
    m.on_status(true, 0);
    let r = m.on_status(false, 7);
    assert_eq!(r.onf, Some(false));
    assert!(r.events.is_empty());
}

fn games() -> GameList {
    GameList {
        listvalue: vec![
            Game { name: "Other".to_string(), pkg: "org.other".to_string() },
            Game { name: "Kings".to_string(), pkg: " com.tencent.tmgp.sgame ".to_string() },
        ],
    }
}

#[test]
fn game_in_front_lifts_limits() {
    let gm = GameMoniter::new(games(), config());
    let r = gm.on_poll("com.tencent.tmgp.sgame:xg", false);
    assert_eq!(
        r.events,
        vec![
            Event::SetFreq((0, (500, 8888888))),
            Event::SetFreq((4, (500, 8888888))),
        ]
    );
    assert!(!r.is_game);
}

#[test]
fn game_flag_set_stops_the_pass() {
    let gm = GameMoniter::new(
        GameList { listvalue: vec![Game { name: "K".to_string(), pkg: "com.k".to_string() }] },
        config(),
    );
    let r = gm.on_poll("com.k", true);
    assert!(r.is_game);
    assert!(r.events.is_empty());
}

#[test]
fn no_game_clears_the_flag() {
    let gm = GameMoniter::new(games(), config());
    let r = gm.on_poll("com.android.launcher", true);
    assert!(!r.is_game);
    assert!(r.events.is_empty());
}

#[test]
fn manager_writes_floor_then_ceiling() {
    let m = Manager::new(&config());
    let e = Event::SetFreq((4, (500, 1800000)));
    assert!(m.accepts(&e));
    assert_eq!(
        m.handle(e),
        vec![
            SysfsWrite::MinFreq(4, "500".to_string()),
            SysfsWrite::MaxFreq(4, "1800000".to_string()),
        ]
    );
    assert_eq!(
        m.handle(Event::Boost((0, (2000000, 2000000)))),
        vec![
            SysfsWrite::MinFreq(0, "2000000".to_string()),
            SysfsWrite::MaxFreq(0, "2000000".to_string()),
        ]
    );
}

#[test]
fn manager_writes_governors() {
    let m = Manager::new(&config());
    assert_eq!(
        m.handle(gov(0, "schedutil")),
        vec![SysfsWrite::Governor(0, "schedutil".to_string())]
    );
    assert_eq!(
        m.handle(Event::SetIdleGovernor("teo".to_string())),
        vec![SysfsWrite::IdleGovernor("teo".to_string())]
    );
}

#[test]
fn manager_rejects_unknown_policy() {
    let m = Manager::new(&config());
    assert!(!m.accepts(&Event::SetFreq((1, (0, 0)))));
    assert!(!m.accepts(&gov(9, "x")));
    assert!(m.accepts(&Event::SetIdleGovernor("menu".to_string())));
}

#[test]
fn every_request_of_the_tasks_is_one_the_manager_accepts() {
    let manager = Manager::new(&config());
    let mut all: Vec<Event> = Vec::new();
    for name in ["powersave", "balance", "performance", "fast"] {
        let mut ms = ModeSwitch::new(config());
        ms.on_change(false, Some("none"));
        all.extend(ms.on_change(false, Some(name)).events);
    }
    for mode in 0..4 {
        let mut m = Moniter::new(config());
        m.on_status(true, mode);
        all.extend(m.on_status(false, mode).events);
    }
    all.extend(GameMoniter::new(games(), config()).on_poll("com.tencent.tmgp.sgame", false).events);
    assert_eq!(all.len(), 4 * 5 + 4 * 2 + 2);
    for e in &all {
        assert!(manager.accepts(e), "{:?}", e);
    }
}

#[test]
fn a_second_identical_reading_changes_nothing() {
    let mut ms = ModeSwitch::new(config());
    let first = ms.on_change(false, Some("performance"));
    let second = ms.on_change(false, Some("performance"));
    assert!(first.accepted && !second.accepted);
    assert!(second.events.is_empty() && second.mode.is_none());
    let mut m = Moniter::new(config());
    let first = m.on_status(true, 2);
    let second = m.on_status(true, 2);
    assert_eq!(first.onf, Some(true));
    assert_eq!(second.onf, None);
    assert!(m.status());
}

#[test]
fn each_matching_entry_lifts_again() {
    let list = GameList {
        listvalue: vec![
            Game { name: "A".to_string(), pkg: "com.a".to_string() },
            Game { name: "A2".to_string(), pkg: "com.a\n".to_string() },
        ],
    };
    let gm = GameMoniter::new(list, config());
    let r = gm.on_poll("com.a", false);
    assert_eq!(r.events.len(), 4);
    assert!(!r.is_game);
}
