//! The touchscreen: its input record, how the device is chosen, and the
//! boost that a touch asks for.
use vstd::prelude::*;

use crate::config::data::{Config, Policy};
use crate::cpu_handle::cpu_freq::{lemma_policy_table_has_all, policy_table};
use crate::scheduler::manager::{Event, EventView, events_view, targets_known};

verus! {

/// One input record of an evdev device (`struct input_event`).
#[derive(Debug, Clone, Copy, PartialEq, Eq)]
pub struct TouchEvent {
    pub tv_sec: i64,
    pub tv_usec: i64,
    pub type_: u16,
    pub code: u16,
    pub value: i32,
}

/// A policy whose ceiling is below this is boosted on touch.
pub const BOOST_BELOW: u32 = 1200000;

/// The frequency that a boost sets as both floor and ceiling.
pub const BOOST_FREQ: u32 = 2000000;

/// The boosts that a touch asks for: for each policy in order whose current
/// ceiling could be read and is below [`BOOST_BELOW`], its range pinned at
/// [`BOOST_FREQ`].
pub open spec fn boost_events(pols: Seq<Policy>, ceilings: Seq<Option<u32>>) -> Seq<EventView>
    decreases pols.len(),
{
    if pols.len() == 0 {
        seq![]
    } else {
        let rest = boost_events(pols.drop_last(), ceilings);
        match ceilings[pols.len() - 1] {
            Some(f) if f < BOOST_BELOW => rest.push(
                EventView::Boost(pols.last().from as u8, BOOST_FREQ, BOOST_FREQ),
            ),
            _ => rest,
        }
    }
}

/// The boosts for a touch, given the current ceiling of each policy of the
/// configuration (`None` where it could not be read).
pub fn touch_boost(config: &Config, ceilings: &Vec<Option<u32>>) -> (r: Vec<Event>)
    requires
        ceilings@.len() == config@.policy.len(),
    ensures
        events_view(r@) == boost_events(config@.policy, ceilings@),
{
    let pols = &config.policy;
    let n = pols.len();
    let mut r: Vec<Event> = Vec::new();
    let mut i: usize = 0;
    while i < n
        invariant
            i <= n == pols@.len() == ceilings@.len(),
            events_view(r@) == boost_events(pols@.take(i as int), ceilings@),
        decreases n - i,
    {
        let ghost prev = r@;
        assert(pols@.take(i + 1).drop_last() =~= pols@.take(i as int));
        match ceilings[i] {
            Some(f) => {
                if f < BOOST_BELOW {
                    r.push(Event::Boost((pols[i].from as u8, (BOOST_FREQ, BOOST_FREQ))));
                    assert(events_view(r@) =~= events_view(prev).push(
                        EventView::Boost(pols@[i as int].from as u8, BOOST_FREQ, BOOST_FREQ),
                    ));
                }
            },
            None => {},
        }
        i = i + 1;
    }
    assert(pols@.take(n as int) =~= pols@);
    r
}

/// The path of the first device, in the order given, that reports the
/// multi-touch X axis; `devices` holds each device's path and whether it
/// does.
pub fn find_touchscreen_device(devices: &Vec<(String, bool)>) -> (r: Option<String>)
    ensures
        r is None <==> forall|i: int| 0 <= i < devices@.len() ==> !(#[trigger] devices@[i]).1,
        r matches Some(p) ==> exists|i: int|
            0 <= i < devices@.len() && (#[trigger] devices@[i]).1 && p@ == devices@[i].0@ && forall|
                j: int,
            | 0 <= j < i ==> !(#[trigger] devices@[j]).1,
{
    let n = devices.len();
    let mut i: usize = 0;
    while i < n
        invariant
            i <= n == devices@.len(),
            forall|j: int| 0 <= j < i ==> !(#[trigger] devices@[j]).1,
        decreases n - i,
    {
        if devices[i].1 {
            let p = devices[i].0.clone();
            return Some(p);
        }
        i = i + 1;
    }
    None
}

/// A touch boosts each policy whose ceiling could be read and is below
/// 1.2 GHz, in order, by pinning its range at 2 GHz, and no other: there are
/// no more boosts than policies, each boost pins some policy at 2 GHz, and
/// when every ceiling is known and below 1.2 GHz policy `i` gets the `i`-th
/// boost.
pub proof fn lemma_boosts(pols: Seq<Policy>, ceilings: Seq<Option<u32>>)
    requires
        ceilings.len() == pols.len(),
    ensures
        boost_events(pols, ceilings).len() <= pols.len(),
        forall|k: int|
            0 <= k < boost_events(pols, ceilings).len() ==> exists|i: int|
                0 <= i < pols.len() && (ceilings[i] matches Some(f) && f < 1200000) && #[trigger] boost_events(
                    pols,
                    ceilings,
                )[k] == EventView::Boost(#[trigger] pols[i].from as u8, 2000000, 2000000),
        (forall|i: int| 0 <= i < pols.len() ==> (#[trigger] ceilings[i] matches Some(f) && f < 1200000))
            ==> boost_events(pols, ceilings).len() == pols.len() && forall|i: int|
            0 <= i < pols.len() ==> #[trigger] boost_events(pols, ceilings)[i] == EventView::Boost(
                pols[i].from as u8,
                2000000,
                2000000,
            ),
        (forall|i: int| 0 <= i < pols.len() ==> !(#[trigger] ceilings[i] matches Some(f) && f < 1200000))
            ==> boost_events(pols, ceilings).len() == 0,
{
    lemma_boosts_prefix(pols, ceilings);
}

proof fn lemma_boosts_prefix(pols: Seq<Policy>, ceilings: Seq<Option<u32>>)
    requires
        ceilings.len() >= pols.len(),
    ensures
        boost_events(pols, ceilings).len() <= pols.len(),
        forall|k: int|
            0 <= k < boost_events(pols, ceilings).len() ==> exists|i: int|
                0 <= i < pols.len() && (ceilings[i] matches Some(f) && f < 1200000) && #[trigger] boost_events(
                    pols,
                    ceilings,
                )[k] == EventView::Boost(#[trigger] pols[i].from as u8, 2000000, 2000000),
        (forall|i: int| 0 <= i < pols.len() ==> (#[trigger] ceilings[i] matches Some(f) && f < 1200000))
            ==> boost_events(pols, ceilings).len() == pols.len() && forall|i: int|
            0 <= i < pols.len() ==> #[trigger] boost_events(pols, ceilings)[i] == EventView::Boost(
                pols[i].from as u8,
                2000000,
                2000000,
            ),
        (forall|i: int| 0 <= i < pols.len() ==> !(#[trigger] ceilings[i] matches Some(f) && f < 1200000))
            ==> boost_events(pols, ceilings).len() == 0,
    decreases pols.len(),
{
    if pols.len() > 0 {
        let front = pols.drop_last();
        lemma_boosts_prefix(front, ceilings);
        let head = boost_events(front, ceilings);
        let all = boost_events(pols, ceilings);
        let last = pols.len() - 1;
        assert forall|k: int| 0 <= k < all.len() implies exists|i: int|
            0 <= i < pols.len() && (ceilings[i] matches Some(f) && f < 1200000) && #[trigger] all[k]
                == EventView::Boost(#[trigger] pols[i].from as u8, 2000000, 2000000) by {
            if k < head.len() {
                let i = choose|i: int|
                    0 <= i < front.len() && (ceilings[i] matches Some(f) && f < 1200000)
                        && #[trigger] head[k] == EventView::Boost(
                        #[trigger] front[i].from as u8,
                        2000000,
                        2000000,
                    );
                assert(front[i] == pols[i]);
                assert(all[k] == head[k]);
            } else {
                assert(all[k] == EventView::Boost(pols[last].from as u8, 2000000, 2000000));
            }
        }
        if forall|i: int| 0 <= i < pols.len() ==> (#[trigger] ceilings[i] matches Some(f) && f < 1200000) {
            assert forall|i: int| 0 <= i < front.len() implies (#[trigger] ceilings[i] matches Some(
                f,
            ) && f < 1200000) by {
                assert(0 <= i < pols.len());
            }
            assert forall|i: int| 0 <= i < pols.len() implies #[trigger] all[i] == EventView::Boost(
                pols[i].from as u8,
                2000000,
                2000000,
            ) by {
                if i < last {
                    assert(front[i] == pols[i]);
                    assert(head[i] == EventView::Boost(front[i].from as u8, 2000000, 2000000));
                }
            }
        }
        if forall|i: int| 0 <= i < pols.len() ==> !(#[trigger] ceilings[i] matches Some(f) && f < 1200000) {
            assert forall|i: int| 0 <= i < front.len() implies !(#[trigger] ceilings[i] matches Some(
                f,
            ) && f < 1200000) by {
                assert(0 <= i < pols.len());
            }
            assert(!(ceilings[last] matches Some(f) && f < 1200000));
        }
    }
}

/// Every boost addresses a configured policy.
pub proof fn lemma_boost_events_known(pols: Seq<Policy>, ceilings: Seq<Option<u32>>)
    ensures
        targets_known(boost_events(pols, ceilings), policy_table(pols)),
{
    lemma_policy_table_has_all(pols);
    lemma_boost_targets(pols, ceilings, policy_table(pols));
}

proof fn lemma_boost_targets(pols: Seq<Policy>, ceilings: Seq<Option<u32>>, table: Map<u8, u32>)
    requires
        forall|j: int| 0 <= j < pols.len() ==> table.contains_key(#[trigger] pols[j].from as u8),
    ensures
        targets_known(boost_events(pols, ceilings), table),
    decreases pols.len(),
{
    if pols.len() > 0 {
        let front = pols.drop_last();
        assert forall|j: int| 0 <= j < front.len() implies table.contains_key(
            #[trigger] front[j].from as u8,
        ) by {
            assert(front[j] == pols[j]);
        }
        lemma_boost_targets(front, ceilings, table);
        assert(table.contains_key(pols[pols.len() - 1].from as u8));
    }
}

} // verus!
