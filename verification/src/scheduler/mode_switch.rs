//! The mode switch: when the mode file changes, selects the named profile and
//! asks for its governors.
use vstd::prelude::*;

use crate::config::data::{
    Config, ConfigView, MPolicy, MPolicyView, ModeView, Policy, ProfileView, mpolicies_view,
};
use crate::cpu_handle::cpu_freq::{lemma_policy_table_has_all, policy_table};
use crate::scheduler::manager::{Event, EventView, events_view, targets_known};
use crate::text::{chars_of, trim, trim_chars, trim_end, trim_start};

verus! {

/// The number of the mode that a name selects.
pub open spec fn mode_number(name: Seq<char>) -> Option<nat> {
    if name == "powersave"@ {
        Some(0)
    } else if name == "balance"@ {
        Some(1)
    } else if name == "performance"@ {
        Some(2)
    } else if name == "fast"@ {
        Some(3)
    } else {
        None
    }
}

/// The profile whose governors a mode applies. The fast mode applies the
/// governors of the performance profile.
pub open spec fn governor_profile(mode: ModeView, m: int) -> ProfileView {
    if m == 3 {
        mode.perf
    } else {
        mode.profile(m)
    }
}

/// For each cpufreq policy in turn, one governor request per entry of
/// `entries`, with that entry's governor.
pub open spec fn governor_events(pols: Seq<Policy>, entries: Seq<MPolicyView>) -> Seq<EventView>
    decreases pols.len(),
{
    if pols.len() == 0 {
        seq![]
    } else {
        governor_events(pols.drop_last(), entries) + entries.map_values(
            |l: MPolicyView| EventView::SetGovernor(pols.last().from as u8, l.governor),
        )
    }
}

/// The requests made on entering mode `m`: the governors, then the cpuidle
/// governor of the mode's own profile.
pub open spec fn mode_events(cfg: ConfigView, m: int) -> Seq<EventView> {
    governor_events(cfg.policy, governor_profile(cfg.mode, m).policy).push(
        EventView::SetIdleGovernor(cfg.mode.profile(m).idle_governor),
    )
}

/// The text that stands for the mode file when it cannot be read.
pub open spec fn unreadable_mode() -> Seq<char> {
    "balance"@
}

/// What the mode switch does when the mode file changes: the name it
/// remembers afterwards, the mode number it sets, if any, and its requests.
/// Nothing happens during a game, nor when the trimmed text is the name
/// remembered; a name of no mode is remembered but sets nothing.
pub open spec fn mode_switch_step(
    cfg: ConfigView,
    last: Seq<char>,
    is_game: bool,
    content: Option<Seq<char>>,
) -> (Seq<char>, Option<nat>, Seq<EventView>) {
    let text = trim(
        match content {
            Some(c) => c,
            None => unreadable_mode(),
        },
    );
    if is_game || text == last {
        (last, None, seq![])
    } else {
        match mode_number(text) {
            Some(m) => (text, Some(m), mode_events(cfg, m as int)),
            None => (text, None, seq![]),
        }
    }
}

/// What one change of the mode file leads to.
pub struct ModeChange {
    /// Whether the text was taken in: outside a game, and differing from the
    /// name remembered.
    pub accepted: bool,
    /// The mode number to set, if any.
    pub mode: Option<usize>,
    pub events: Vec<Event>,
}

/// The state of the mode switch: the configuration and the name of the last
/// mode read.
pub struct ModeSwitch {
    config: Config,
    mode_temp: Vec<char>,
}

fn same_chars(a: &[char], b: &[char]) -> (r: bool)
    ensures
        r == (a@ == b@),
{
    if a.len() != b.len() {
        return false;
    }
    let n = a.len();
    let mut i: usize = 0;
    while i < n
        invariant
            i <= n == a@.len() == b@.len(),
            forall|k: int| 0 <= k < i ==> a@[k] == b@[k],
        decreases n - i,
    {
        if a[i] != b[i] {
            return false;
        }
        i = i + 1;
    }
    assert(a@ =~= b@);
    true
}

fn mode_of(name: &[char]) -> (r: Option<usize>)
    ensures
        r is Some <==> mode_number(name@) is Some,
        r is Some ==> r->0 == mode_number(name@)->0,
{
    if same_chars(name, chars_of("powersave").as_slice()) {
        Some(0)
    } else if same_chars(name, chars_of("balance").as_slice()) {
        Some(1)
    } else if same_chars(name, chars_of("performance").as_slice()) {
        Some(2)
    } else if same_chars(name, chars_of("fast").as_slice()) {
        Some(3)
    } else {
        None
    }
}

/// Appends the governor requests of every policy to `out`.
fn push_governor_events(out: &mut Vec<Event>, pols: &Vec<Policy>, entries: &Vec<MPolicy>)
    ensures
        events_view(final(out)@) == events_view(old(out)@) + governor_events(
            pols@,
            mpolicies_view(entries@),
        ),
{
    let ghost ev = mpolicies_view(entries@);
    let n = pols.len();
    let m = entries.len();
    let mut i: usize = 0;
    assert(pols@.take(0) =~= seq![]);
    assert(events_view(out@) =~= events_view(old(out)@) + governor_events(pols@.take(0), ev));
    while i < n
        invariant
            i <= n == pols@.len(),
            m == entries@.len(),
            ev == mpolicies_view(entries@),
            events_view(out@) == events_view(old(out)@) + governor_events(pols@.take(i as int), ev),
        decreases n - i,
    {
        let key = pols[i].from as u8;
        let ghost before = events_view(out@);
        let mut j: usize = 0;
        while j < m
            invariant
                i < n == pols@.len(),
                j <= m == entries@.len(),
                key == pols@[i as int].from as u8,
                ev == mpolicies_view(entries@),
                events_view(out@) == before + ev.take(j as int).map_values(
                    |l: MPolicyView| EventView::SetGovernor(key, l.governor),
                ),
            decreases m - j,
        {
            let g = entries[j].governor.clone();
            let ghost prev = out@;
            out.push(Event::SetGovernor((key, g)));
            assert(events_view(out@) =~= events_view(prev).push(
                EventView::SetGovernor(key, ev[j as int].governor),
            ));
            assert(ev.take(j + 1) =~= ev.take(j as int).push(ev[j as int]));
            assert(ev.take(j + 1).map_values(
                |l: MPolicyView| EventView::SetGovernor(key, l.governor),
            ) =~= ev.take(j as int).map_values(
                |l: MPolicyView| EventView::SetGovernor(key, l.governor),
            ).push(EventView::SetGovernor(key, ev[j as int].governor)));
            j = j + 1;
        }
        assert(ev.take(m as int) =~= ev);
        assert(pols@.take(i + 1).drop_last() =~= pols@.take(i as int));
        assert(events_view(out@) =~= events_view(old(out)@) + governor_events(
            pols@.take(i + 1),
            ev,
        ));
        i = i + 1;
    }
    assert(pols@.take(n as int) =~= pols@);
}

impl ModeSwitch {
    /// A mode switch that remembers the power-saving mode.
    pub fn new(config: Config) -> (r: ModeSwitch)
        ensures
            r.spec_config() == config@,
            r.spec_last() == "powersave"@,
    {
        ModeSwitch { config, mode_temp: chars_of("powersave") }
    }

    pub closed spec fn spec_config(&self) -> ConfigView {
        self.config@
    }

    /// The name of the last mode read.
    pub closed spec fn spec_last(&self) -> Seq<char> {
        self.mode_temp@
    }

    /// Handles one change of the mode file. `content` is its text, or `None`
    /// when it could not be read; `is_game` whether a game is in front.
    pub fn on_change(&mut self, is_game: bool, content: Option<&str>) -> (r: ModeChange)
        ensures
            final(self).spec_config() == old(self).spec_config(),
            ({
                let (last, m, evs) = mode_switch_step(
                    old(self).spec_config(),
                    old(self).spec_last(),
                    is_game,
                    match content {
                        Some(c) => Some(c@),
                        None => None,
                    },
                );
                &&& final(self).spec_last() == last
                &&& r.accepted == !(is_game || trim(
                    match content {
                        Some(c) => c@,
                        None => unreadable_mode(),
                    },
                ) == old(self).spec_last())
                &&& (r.mode matches Some(x) ==> m == Some(x as nat))
                &&& (r.mode is None ==> m is None)
                &&& events_view(r.events@) == evs
            }),
    {
        if is_game {
            return ModeChange { accepted: false, mode: None, events: Vec::new() };
        }
        let raw = match content {
            Some(c) => chars_of(c),
            None => chars_of("balance"),
        };
        let text = trim_chars(raw.as_slice());
        if same_chars(text.as_slice(), self.mode_temp.as_slice()) {
            return ModeChange { accepted: false, mode: None, events: Vec::new() };
        }
        let m = mode_of(text.as_slice());
        let mut events: Vec<Event> = Vec::new();
        match m {
            Some(k) => {
                let (entries, idle) = if k == 0 {
                    (&self.config.mode.power.policy, &self.config.mode.power.idle_governor)
                } else if k == 1 {
                    (&self.config.mode.blan.policy, &self.config.mode.blan.idle_governor)
                } else if k == 2 {
                    (&self.config.mode.perf.policy, &self.config.mode.perf.idle_governor)
                } else {
                    (&self.config.mode.perf.policy, &self.config.mode.fast.idle_governor)
                };
                push_governor_events(&mut events, &self.config.policy, entries);
                let ghost before = events@;
                events.push(Event::SetIdleGovernor(idle.clone()));
                assert(events_view(events@) =~= events_view(before).push(
                    EventView::SetIdleGovernor(self.config@.mode.profile(k as int).idle_governor),
                ));
            },
            None => {},
        }
        self.mode_temp = text;
        assert(events_view(events@) =~= mode_switch_step(
            self.config@,
            old(self).spec_last(),
            is_game,
            match content {
                Some(c) => Some(c@),
                None => None,
            },
        ).2);
        ModeChange { accepted: true, mode: m, events }
    }
}

/// The governor requests, by place: the request for policy `i` and entry
/// `j` stands at `i * entries.len() + j`.
pub proof fn lemma_governor_events_index(pols: Seq<Policy>, entries: Seq<MPolicyView>)
    ensures
        governor_events(pols, entries).len() == pols.len() * entries.len(),
        forall|i: int, j: int|
            0 <= i < pols.len() && 0 <= j < entries.len() ==> #[trigger] governor_events(
                pols,
                entries,
            )[i * entries.len() + j] == EventView::SetGovernor(
                pols[i].from as u8,
                #[trigger] entries[j].governor,
            ),
    decreases pols.len(),
{
    let e = entries.len() as int;
    if pols.len() == 0 {
        assert(0 * e == 0);
    } else {
        let n = pols.len() as int;
        let front = pols.drop_last();
        lemma_governor_events_index(front, entries);
        let head = governor_events(front, entries);
        let tail = entries.map_values(
            |l: MPolicyView| EventView::SetGovernor(pols.last().from as u8, l.governor),
        );
        let all = governor_events(pols, entries);
        assert(all == head + tail);
        assert(head.len() == (n - 1) * e);
        assert(n * e == (n - 1) * e + e) by (nonlinear_arith);
        assert(all.len() == n * e);
        assert forall|i: int, j: int|
            0 <= i < n && 0 <= j < e implies #[trigger] all[i * e + j] == EventView::SetGovernor(
            pols[i].from as u8,
            #[trigger] entries[j].governor,
        ) by {
            if i < n - 1 {
                assert(i * e + j < (n - 1) * e) by (nonlinear_arith)
                    requires
                        0 <= i < n - 1,
                        0 <= j < e,
                ;
                assert(0 <= i * e) by (nonlinear_arith)
                    requires
                        0 <= i,
                        0 <= e,
                ;
                assert(front[i] == pols[i]);
                assert(all[i * e + j] == head[i * e + j]);
            } else {
                assert(i * e == (n - 1) * e);
                assert(all[i * e + j] == tail[j]);
            }
        }
    }
}

/// Entering a mode requests, for each policy in turn, the governor of each
/// entry of a profile, and then a cpuidle governor: both from the
/// power-saving profile for mode 0, the balanced for 1, the performance for
/// 2; mode 3 takes the governors of the performance profile and the cpuidle
/// governor of the fast profile.
pub proof fn lemma_mode_events_by_mode(cfg: ConfigView, m: int)
    requires
        0 <= m <= 3,
    ensures
        ({
            let evs = mode_events(cfg, m);
            let n = cfg.policy.len();
            let govs = if m == 0 {
                cfg.mode.power.policy
            } else if m == 1 {
                cfg.mode.blan.policy
            } else {
                cfg.mode.perf.policy
            };
            let idle = if m == 0 {
                cfg.mode.power.idle_governor
            } else if m == 1 {
                cfg.mode.blan.idle_governor
            } else if m == 2 {
                cfg.mode.perf.idle_governor
            } else {
                cfg.mode.fast.idle_governor
            };
            &&& evs.len() == n * govs.len() + 1
            &&& forall|i: int, j: int|
                0 <= i < n && 0 <= j < govs.len() ==> #[trigger] evs[i * govs.len() + j]
                    == EventView::SetGovernor(cfg.policy[i].from as u8, #[trigger] govs[j].governor)
            &&& evs[evs.len() - 1] == EventView::SetIdleGovernor(idle)
        }),
{
    let govs = if m == 0 {
        cfg.mode.power.policy
    } else if m == 1 {
        cfg.mode.blan.policy
    } else {
        cfg.mode.perf.policy
    };
    assert(governor_profile(cfg.mode, m).policy == govs);
    lemma_governor_events_index(cfg.policy, govs);
    let g = governor_events(cfg.policy, govs);
    let evs = mode_events(cfg, m);
    assert forall|i: int, j: int| 0 <= i < cfg.policy.len() && 0 <= j < govs.len() implies #[trigger] evs[i
        * govs.len() + j] == EventView::SetGovernor(
        cfg.policy[i].from as u8,
        #[trigger] govs[j].governor,
    ) by {
        assert(g[i * govs.len() + j] == EventView::SetGovernor(
            cfg.policy[i].from as u8,
            govs[j].governor,
        ));
        assert(i * govs.len() + j < g.len()) by (nonlinear_arith)
            requires
                0 <= i < cfg.policy.len(),
                0 <= j < govs.len(),
                g.len() == cfg.policy.len() * govs.len(),
        ;
        assert(0 <= i * govs.len()) by (nonlinear_arith)
            requires
                0 <= i,
        ;
    }
}

/// Outside a game, a mode file whose trimmed text differs from the name
/// remembered is remembered, and selects mode 0, 1, 2 or 3 for the names
/// `powersave`, `balance`, `performance` and `fast` with that mode's
/// requests; any other name selects nothing and requests nothing. An
/// unreadable file counts as `balance`.
pub proof fn lemma_mode_switch_names(cfg: ConfigView, last: Seq<char>, content: Option<Seq<char>>)
    ensures
        ({
            let text = match content {
                Some(c) => trim(c),
                None => "balance"@,
            };
            let (l, m, evs) = mode_switch_step(cfg, last, false, content);
            &&& text == last ==> (l == last && m is None && evs.len() == 0)
            &&& text != last ==> l == text
            &&& (text != last && text == "powersave"@) ==> (m == Some(0nat) && evs == mode_events(
                cfg,
                0,
            ))
            &&& (text != last && text == "balance"@) ==> (m == Some(1nat) && evs == mode_events(
                cfg,
                1,
            ))
            &&& (text != last && text == "performance"@) ==> (m == Some(2nat) && evs
                == mode_events(cfg, 2))
            &&& (text != last && text == "fast"@) ==> (m == Some(3nat) && evs == mode_events(cfg, 3))
            &&& (text != last && text != "powersave"@ && text != "balance"@ && text
                != "performance"@ && text != "fast"@) ==> (m is None && evs.len() == 0)
        }),
{
    reveal_strlit("balance");
    reveal_strlit("powersave");
    reveal_strlit("performance");
    reveal_strlit("fast");
    let b = "balance"@;
    assert(trim_start(b) == b);
    assert(trim_end(b) == b);
}

/// During a game the mode switch neither remembers, selects nor requests
/// anything.
pub proof fn lemma_mode_switch_game(cfg: ConfigView, last: Seq<char>, content: Option<Seq<char>>)
    ensures
        mode_switch_step(cfg, last, true, content) == (last, None::<nat>, Seq::<EventView>::empty()),
{
}

/// Reading the same mode file twice in a row, outside a game, changes
/// nothing the second time.
pub proof fn lemma_mode_switch_idempotent(cfg: ConfigView, last: Seq<char>, content: Option<
    Seq<char>,
>)
    ensures
        ({
            let (l1, _m1, _e1) = mode_switch_step(cfg, last, false, content);
            let (l2, m2, e2) = mode_switch_step(cfg, l1, false, content);
            l2 == l1 && m2 is None && e2.len() == 0
        }),
{
}

proof fn lemma_governor_targets(pols: Seq<Policy>, entries: Seq<MPolicyView>, table: Map<u8, u32>)
    requires
        forall|j: int| 0 <= j < pols.len() ==> table.contains_key(#[trigger] pols[j].from as u8),
    ensures
        targets_known(governor_events(pols, entries), table),
    decreases pols.len(),
{
    if pols.len() > 0 {
        let front = pols.drop_last();
        assert forall|j: int| 0 <= j < front.len() implies table.contains_key(
            #[trigger] front[j].from as u8,
        ) by {
            assert(front[j] == pols[j]);
        }
        lemma_governor_targets(front, entries, table);
        assert(table.contains_key(pols[pols.len() - 1].from as u8));
    }
}

/// Every request of a mode change addresses a configured policy, or none.
pub proof fn lemma_mode_events_known(cfg: ConfigView, m: int)
    ensures
        targets_known(mode_events(cfg, m), policy_table(cfg.policy)),
{
    lemma_policy_table_has_all(cfg.policy);
    lemma_governor_targets(
        cfg.policy,
        governor_profile(cfg.mode, m).policy,
        policy_table(cfg.policy),
    );
}

} // verus!
