use finalizer::config::data::{
    Blan, Config, Fast, Mode, Name, Perf, Policy, Power,
};
use finalizer::devices::touch::{find_touchscreen_device, touch_boost, TouchEvent};
use finalizer::scheduler::manager::Event;

fn config() -> Config {
    Config {
        name: Name { name: "n".to_string(), version: "v".to_string(), author: "a".to_string() },
        policy: vec![Policy { from: 0, to: 3 }, Policy { from: 4, to: 6 }, Policy { from: 7, to: 7 }],
        mode: Mode {
            power: Power { policy: vec![], idle_governor: String::new() },
            blan: Blan { policy: vec![], idle_governor: String::new() },
            perf: Perf { policy: vec![], idle_governor: String::new() },
            fast: Fast { policy: vec![], idle_governor: String::new() },
        },
    }
}

#[test]
fn touch_boosts_slow_policies() {
    let r = touch_boost(&config(), &vec![Some(1000000), Some(1200000), None]);
    assert_eq!(r, vec![Event::Boost((0, (2000000, 2000000)))]);
    let r = touch_boost(&config(), &vec![Some(0), None, Some(1199999)]);
    assert_eq!(
        r,
        vec![Event::Boost((0, (2000000, 2000000))), Event::Boost((7, (2000000, 2000000)))]
    );
}

#[test]
fn first_multitouch_device_is_chosen() {
    let devs = vec![
        ("/dev/input/event0".to_string(), false),
        ("/dev/input/event3".to_string(), true),
        ("/dev/input/event5".to_string(), true),
    ];
    assert_eq!(find_touchscreen_device(&devs), Some("/dev/input/event3".to_string()));
    assert_eq!(find_touchscreen_device(&vec![("/dev/input/event1".to_string(), false)]), None);
    assert_eq!(find_touchscreen_device(&vec![]), None);
}

#[test]
fn touch_event_record() {
    let e = TouchEvent { tv_sec: 1, tv_usec: 2, type_: 3, code: 0x35, value: -1 };
    let f = e;
    assert_eq!(e, f);
    assert_eq!(std::mem::size_of::<TouchEvent>(), 24);
}
