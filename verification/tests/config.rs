use finalizer::config::data::{
    Blan, Config, Fast, Game, GameList, MPolicy, Mode, Name, Perf, Policy, Power,
};

fn entry(g: &str) -> MPolicy {
    MPolicy {
        delay: 30,
        max_freq: 2000000,
        min_freq: 300000,
        boost_freq: 1500000,
        margin_bits: 1.1f32.to_bits(),
        diff: 100000,
        sleep_freq: 800000,
        governor: g.to_string(),
    }
}

fn config() -> Config {
    Config {
        name: Name {
            name: "SZE".to_string(),
            version: "2.0".to_string(),
            author: "someone".to_string(),
        },
        policy: vec![Policy { from: 0, to: 5 }, Policy { from: 6, to: 7 }],
        mode: Mode {
            power: Power { policy: vec![entry("powersave")], idle_governor: "menu".to_string() },
            blan: Blan { policy: vec![entry("schedutil")], idle_governor: "menu".to_string() },
            perf: Perf { policy: vec![entry("performance")], idle_governor: "teo".to_string() },
            fast: Fast { policy: vec![entry("performance")], idle_governor: "ladder".to_string() },
        },
    }
}

#[test]
fn getters_return_copies() {
    let c = config();
    let n = c.get_name();
    assert_eq!(n.name, "SZE");
    assert_eq!(n.version, "2.0");
    assert_eq!(n.author, "someone");
    assert_eq!(c.get_policy(), vec![Policy { from: 0, to: 5 }, Policy { from: 6, to: 7 }]);
    assert_eq!(c.get_power().policy[0].governor, "powersave");
    assert_eq!(c.get_blan().policy[0].governor, "schedutil");
    assert_eq!(c.get_perf().idle_governor, "teo");
    assert_eq!(c.get_fast().idle_governor, "ladder");
    let m = c.get_mode();
    assert_eq!(m.power.idle_governor, "menu");
    assert_eq!(m.fast.policy[0].sleep_freq, 800000);
}

#[test]
fn clones_keep_every_field() {
    let c = config();
    let d = c.clone();
    assert_eq!(format!("{:?}", c), format!("{:?}", d));
    let gl = GameList {
        listvalue: vec![Game { name: "A".to_string(), pkg: "com.a".to_string() }],
    };
    let gl2 = gl.clone();
    assert_eq!(gl2.listvalue[0].pkg, "com.a");
    assert_eq!(gl2.listvalue[0].name, "A");
}

#[test]
fn margin_is_held_by_its_bits() {
    let e = entry("x");
    assert_eq!(f32::from_bits(e.margin_bits), 1.1f32);
}
