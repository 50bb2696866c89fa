//! The screen watcher: scheduling runs while the screen is on; when it goes
//! off, each policy is capped at its sleep frequency.
use vstd::prelude::*;

use crate::config::data::{Config, ConfigView, Policy, ProfileView, MPolicy};
use crate::cpu_handle::cpu_freq::{lemma_policy_table_has_all, policy_table};
use crate::scheduler::manager::{Event, EventView, events_view, targets_known};

verus! {

/// For each cpufreq policy, in order, the range (floor, sleep ceiling) of
/// the entry at the same place in `profile`.
pub open spec fn sleep_events(pols: Seq<Policy>, profile: ProfileView) -> Seq<EventView> {
    Seq::new(
        pols.len(),
        |u: int|
            EventView::SetFreq(
                pols[u].from as u8,
                profile.policy[u].min_freq,
                profile.policy[u].sleep_freq,
            ),
    )
}

/// What the screen watcher does when it reads the screen state `on`: the
/// state it remembers afterwards, the new value of the scheduling switch if
/// it changes, and its requests. A change to off under mode number `mode`
/// caps the policies as that mode's profile says; a number that names no
/// mode caps nothing.
pub open spec fn screen_step(cfg: ConfigView, last: bool, on: bool, mode: int) -> (
    bool,
    Option<bool>,
    Seq<EventView>,
) {
    if on == last {
        (last, None, seq![])
    } else if on {
        (on, Some(true), seq![])
    } else if 0 <= mode <= 3 {
        (on, Some(false), sleep_events(cfg.policy, cfg.mode.profile(mode)))
    } else {
        (on, Some(false), seq![])
    }
}

/// What one reading of the screen state leads to.
pub struct ScreenChange {
    /// The new value of the scheduling switch, when the state changed.
    pub onf: Option<bool>,
    pub events: Vec<Event>,
}

/// The state of the screen watcher: the configuration and the last state
/// read.
pub struct Moniter {
    config: Config,
    status_temp: bool,
}

fn sleep_requests(pols: &Vec<Policy>, entries: &Vec<MPolicy>) -> (r: Vec<Event>)
    requires
        entries@.len() >= pols@.len(),
    ensures
        events_view(r@) == Seq::new(
            pols@.len(),
            |u: int|
                EventView::SetFreq(
                    pols@[u].from as u8,
                    entries@[u].min_freq,
                    entries@[u].sleep_freq,
                ),
        ),
{
    let n = pols.len();
    let mut r: Vec<Event> = Vec::new();
    let mut u: usize = 0;
    while u < n
        invariant
            u <= n == pols@.len() <= entries@.len(),
            events_view(r@) == Seq::new(
                u as nat,
                |k: int|
                    EventView::SetFreq(
                        pols@[k].from as u8,
                        entries@[k].min_freq,
                        entries@[k].sleep_freq,
                    ),
            ),
        decreases n - u,
    {
        let e = &entries[u];
        let ghost prev = r@;
        r.push(Event::SetFreq((pols[u].from as u8, (e.min_freq, e.sleep_freq))));
        assert(events_view(r@) =~= events_view(prev).push(
            EventView::SetFreq(pols@[u as int].from as u8, e.min_freq, e.sleep_freq),
        ));
        u = u + 1;
        assert(events_view(r@) =~= Seq::new(
            u as nat,
            |k: int|
                EventView::SetFreq(
                    pols@[k].from as u8,
                    entries@[k].min_freq,
                    entries@[k].sleep_freq,
                ),
        ));
    }
    r
}

impl Moniter {
    /// A watcher that takes the screen to be off.
    pub fn new(config: Config) -> (r: Moniter)
        ensures
            r.spec_config() == config@,
            r.spec_last() == false,
    {
        Moniter { config, status_temp: false }
    }

    pub closed spec fn spec_config(&self) -> ConfigView {
        self.config@
    }

    /// The last screen state read.
    pub closed spec fn spec_last(&self) -> bool {
        self.status_temp
    }

    /// The last screen state read.
    pub fn status(&self) -> (r: bool)
        ensures
            r == self.spec_last(),
    {
        self.status_temp
    }

    /// Handles one reading of the screen state under mode number `mode`. A
    /// change to off under a mode whose profile has fewer entries than there
    /// are policies has no meaning.
    pub fn on_status(&mut self, screen_on: bool, mode: usize) -> (r: ScreenChange)
        requires
            screen_on != old(self).spec_last() && !screen_on && mode <= 3 ==> old(
                self,
            ).spec_config().mode.profile(mode as int).policy.len()
                >= old(self).spec_config().policy.len(),
        ensures
            final(self).spec_config() == old(self).spec_config(),
            ({
                let (last, onf, evs) = screen_step(
                    old(self).spec_config(),
                    old(self).spec_last(),
                    screen_on,
                    mode as int,
                );
                &&& final(self).spec_last() == last
                &&& r.onf == onf
                &&& events_view(r.events@) == evs
            }),
    {
        if screen_on == self.status_temp {
            return ScreenChange { onf: None, events: Vec::new() };
        }
        self.status_temp = screen_on;
        if screen_on {
            return ScreenChange { onf: Some(true), events: Vec::new() };
        }
        let events = if mode == 0 {
            sleep_requests(&self.config.policy, &self.config.mode.power.policy)
        } else if mode == 1 {
            sleep_requests(&self.config.policy, &self.config.mode.blan.policy)
        } else if mode == 2 {
            sleep_requests(&self.config.policy, &self.config.mode.perf.policy)
        } else if mode == 3 {
            sleep_requests(&self.config.policy, &self.config.mode.fast.policy)
        } else {
            Vec::new()
        };
        proof {
            if mode <= 3 {
                let p = self.config@.mode.profile(mode as int);
                assert(events_view(events@) =~= sleep_events(self.config@.policy, p));
            } else {
                assert(events_view(events@) =~= seq![]);
            }
        }
        ScreenChange { onf: Some(false), events }
    }
}

/// When the screen turns off under mode 0, 1, 2 or 3, scheduling is
/// switched off and each policy `u`, in order, is capped at the floor and
/// sleep ceiling of entry `u` of the power-saving, balanced, performance or
/// fast profile respectively.
pub proof fn lemma_screen_off_caps(cfg: ConfigView, mode: int)
    requires
        0 <= mode <= 3,
    ensures
        ({
            let (l, onf, evs) = screen_step(cfg, true, false, mode);
            let entries = if mode == 0 {
                cfg.mode.power.policy
            } else if mode == 1 {
                cfg.mode.blan.policy
            } else if mode == 2 {
                cfg.mode.perf.policy
            } else {
                cfg.mode.fast.policy
            };
            &&& l == false
            &&& onf == Some(false)
            &&& evs.len() == cfg.policy.len()
            &&& forall|u: int|
                0 <= u < cfg.policy.len() ==> #[trigger] evs[u] == EventView::SetFreq(
                    cfg.policy[u].from as u8,
                    entries[u].min_freq,
                    entries[u].sleep_freq,
                )
        }),
{
}

/// When the screen turns off under a number that names no mode, scheduling
/// is switched off and nothing is capped; when it turns on, scheduling is
/// switched on and nothing is requested.
pub proof fn lemma_screen_other_changes(cfg: ConfigView, mode: int)
    ensures
        (mode < 0 || mode > 3) ==> screen_step(cfg, true, false, mode) == (
            false,
            Some(false),
            Seq::<EventView>::empty(),
        ),
        screen_step(cfg, false, true, mode) == (true, Some(true), Seq::<EventView>::empty()),
{
}

/// Reading the same screen state twice in a row changes nothing the second
/// time.
pub proof fn lemma_screen_idempotent(cfg: ConfigView, last: bool, on: bool, m1: int, m2: int)
    ensures
        ({
            let (l1, _o1, _e1) = screen_step(cfg, last, on, m1);
            let (l2, o2, e2) = screen_step(cfg, l1, on, m2);
            l2 == l1 && o2 is None && e2.len() == 0
        }),
{
}

/// Every request of the screen watcher addresses a configured policy.
pub proof fn lemma_screen_events_known(cfg: ConfigView, last: bool, on: bool, mode: int)
    ensures
        targets_known(screen_step(cfg, last, on, mode).2, policy_table(cfg.policy)),
{
    lemma_policy_table_has_all(cfg.policy);
}

} // verus!
