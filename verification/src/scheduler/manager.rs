//! Events that the tasks send to the manager, and how the manager turns each
//! into writes to the cpufreq and cpuidle files.
use vstd::prelude::*;

use crate::config::data::Config;
use crate::cpu_handle::cpu_freq::{
    CpuFreq, SysfsWrite, SysfsWriteView, lemma_read_back_written, policy_table, read_freq,
};
use crate::text::decimal;

verus! {

/// A request to the manager. `u8` is the cpufreq policy's key, and
/// `(u32, u32)` the (lowest, highest) frequency to allow.
#[derive(Debug, PartialEq, Eq)]
pub enum Event {
    Boost((u8, (u32, u32))),
    SetFreq((u8, (u32, u32))),
    SetGovernor((u8, String)),
    SetIdleGovernor(String),
}

/// The model of an [`Event`], with text as characters.
pub enum EventView {
    Boost(u8, u32, u32),
    SetFreq(u8, u32, u32),
    SetGovernor(u8, Seq<char>),
    SetIdleGovernor(Seq<char>),
}

impl View for Event {
    type V = EventView;

    open spec fn view(&self) -> EventView {
        match self {
            Event::Boost((k, (lo, hi))) => EventView::Boost(*k, *lo, *hi),
            Event::SetFreq((k, (lo, hi))) => EventView::SetFreq(*k, *lo, *hi),
            Event::SetGovernor((k, g)) => EventView::SetGovernor(*k, g@),
            Event::SetIdleGovernor(g) => EventView::SetIdleGovernor(g@),
        }
    }
}

pub open spec fn events_view(s: Seq<Event>) -> Seq<EventView> {
    s.map_values(|e: Event| e@)
}

impl EventView {
    /// The policy key that the event addresses, if it addresses one.
    pub open spec fn target(self) -> Option<u8> {
        match self {
            EventView::Boost(k, _, _) => Some(k),
            EventView::SetFreq(k, _, _) => Some(k),
            EventView::SetGovernor(k, _) => Some(k),
            EventView::SetIdleGovernor(_) => None,
        }
    }

    /// The writes that carry the event out, in the order they are made; the
    /// first that fails ends the event.
    pub open spec fn writes(self) -> Seq<SysfsWriteView> {
        match self {
            EventView::Boost(k, lo, hi) => seq![
                SysfsWriteView::MinFreq(k, decimal(lo as nat)),
                SysfsWriteView::MaxFreq(k, decimal(hi as nat)),
            ],
            EventView::SetFreq(k, lo, hi) => seq![
                SysfsWriteView::MinFreq(k, decimal(lo as nat)),
                SysfsWriteView::MaxFreq(k, decimal(hi as nat)),
            ],
            EventView::SetGovernor(k, g) => seq![SysfsWriteView::Governor(k, g)],
            EventView::SetIdleGovernor(g) => seq![SysfsWriteView::IdleGovernor(g)],
        }
    }
}

/// Receives events and applies them to the cpufreq policies of the
/// configuration.
pub struct Manager {
    cpu_freq_handle: CpuFreq,
}

impl Manager {
    pub fn new(config: &Config) -> (r: Manager)
        ensures
            r.policies() == policy_table(config.policy@),
    {
        Manager { cpu_freq_handle: CpuFreq::new(config) }
    }

    /// The policy keys the manager knows, with the policy number of each.
    pub closed spec fn policies(&self) -> Map<u8, u32> {
        self.cpu_freq_handle@
    }

    /// Whether an event can be handled: it addresses no policy, or one that
    /// the manager knows.
    pub fn accepts(&self, event: &Event) -> (b: bool)
        ensures
            b == (event@.target() matches Some(k) ==> self.policies().contains_key(k)),
    {
        match event {
            Event::Boost((k, _)) => self.cpu_freq_handle.has_policy(*k),
            Event::SetFreq((k, _)) => self.cpu_freq_handle.has_policy(*k),
            Event::SetGovernor((k, _)) => self.cpu_freq_handle.has_policy(*k),
            Event::SetIdleGovernor(_) => true,
        }
    }

    /// The writes that carry out `event`. An event for a policy that the
    /// manager does not know has no meaning.
    pub fn handle(&self, event: Event) -> (r: Vec<SysfsWrite>)
        requires
            event@.target() matches Some(k) ==> self.policies().contains_key(k),
        ensures
            r@.map_values(|w: SysfsWrite| w@) == event@.writes(),
    {
        match event {
            Event::Boost((k, values)) => self.cpu_freq_handle.write_index_freq(k, values),
            Event::SetFreq((k, values)) => self.cpu_freq_handle.write_index_freq(k, values),
            Event::SetGovernor((k, g)) => self.cpu_freq_handle.write_index_governor(k, g),
            Event::SetIdleGovernor(g) => self.cpu_freq_handle.write_idle_governor(g),
        }
    }
}

/// Whether every request in `evs` that addresses a policy addresses one
/// filed in `table`.
pub open spec fn targets_known(evs: Seq<EventView>, table: Map<u8, u32>) -> bool {
    forall|i: int|
        0 <= i < evs.len() ==> ((#[trigger] evs[i]).target() matches Some(k)
            ==> table.contains_key(k))
}

/// A frequency request, boost or not, writes the floor and then the
/// ceiling of its policy, each as text that reads back as the value asked
/// for.
pub proof fn lemma_freq_request_reads_back(e: EventView)
    requires
        e is Boost || e is SetFreq,
    ensures
        ({
            let (k, lo, hi) = match e {
                EventView::Boost(k, lo, hi) => (k, lo, hi),
                EventView::SetFreq(k, lo, hi) => (k, lo, hi),
                _ => (0u8, 0u32, 0u32),
            };
            &&& e.writes().len() == 2
            &&& e.writes()[0] matches SysfsWriteView::MinFreq(k0, t0) && k0 == k && read_freq(t0)
                == lo
            &&& e.writes()[1] matches SysfsWriteView::MaxFreq(k1, t1) && k1 == k && read_freq(t1)
                == hi
        }),
{
    match e {
        EventView::Boost(k, lo, hi) => {
            lemma_read_back_written(lo);
            lemma_read_back_written(hi);
        },
        EventView::SetFreq(k, lo, hi) => {
            lemma_read_back_written(lo);
            lemma_read_back_written(hi);
        },
        _ => {},
    }
}

} // verus!
