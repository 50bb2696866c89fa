//! The game watcher: compares the package in front with the game list and,
//! on entering a game, lifts the frequency limits of every policy.
use vstd::prelude::*;

use crate::config::data::{Config, ConfigView, GameList, GameView, Policy};
use crate::cpu_handle::cpu_freq::{lemma_policy_table_has_all, policy_table};
use crate::scheduler::manager::{Event, EventView, events_view, targets_known};
use crate::text::{chars_of, contains, contains_chars, lemma_contains_piece, trim, trim_chars};

verus! {

/// The floor requested for every policy on entering a game.
pub const GAME_MIN_FREQ: u32 = 500;

/// The ceiling requested for every policy on entering a game.
pub const GAME_MAX_FREQ: u32 = 8888888;

/// The requests that lift the limits of every policy, in order.
pub open spec fn lift_events(pols: Seq<Policy>) -> Seq<EventView> {
    pols.map_values(|p: Policy| EventView::SetFreq(p.from as u8, GAME_MIN_FREQ, GAME_MAX_FREQ))
}

/// One pass over the game list with the package `pkg` in front, starting
/// from the game flag `g`: the flag afterwards and the requests made.
///
/// For each entry in turn: when `pkg` contains the entry's trimmed package
/// name, the pass stops if the flag is set, and otherwise sets it and lifts
/// the limits; then, unless the pass stopped, the flag is cleared.
pub open spec fn game_scan(entries: Seq<GameView>, pkg: Seq<char>, g: bool, pols: Seq<Policy>) -> (
    bool,
    Seq<EventView>,
)
    decreases entries.len(),
{
    if entries.len() == 0 {
        (g, seq![])
    } else if contains(pkg, trim(entries[0].pkg)) {
        if g {
            (g, seq![])
        } else {
            let (g2, rest) = game_scan(entries.drop_first(), pkg, false, pols);
            (g2, lift_events(pols) + rest)
        }
    } else {
        game_scan(entries.drop_first(), pkg, false, pols)
    }
}

/// What one poll of the package in front leads to.
pub struct GamePoll {
    /// The game flag afterwards.
    pub is_game: bool,
    pub events: Vec<Event>,
}

/// The state of the game watcher: the game list and the configuration.
pub struct GameMoniter {
    game_list: GameList,
    config: Config,
}

fn lift_requests(pols: &Vec<Policy>) -> (r: Vec<Event>)
    ensures
        events_view(r@) == lift_events(pols@),
{
    let n = pols.len();
    let mut r: Vec<Event> = Vec::new();
    let mut i: usize = 0;
    while i < n
        invariant
            i <= n == pols@.len(),
            events_view(r@) == lift_events(pols@.take(i as int)),
        decreases n - i,
    {
        let ghost prev = r@;
        r.push(Event::SetFreq((pols[i].from as u8, (GAME_MIN_FREQ, GAME_MAX_FREQ))));
        assert(events_view(r@) =~= events_view(prev).push(
            EventView::SetFreq(pols@[i as int].from as u8, GAME_MIN_FREQ, GAME_MAX_FREQ),
        ));
        assert(pols@.take(i + 1) =~= pols@.take(i as int).push(pols@[i as int]));
        assert(lift_events(pols@.take(i + 1)) =~= lift_events(pols@.take(i as int)).push(
            EventView::SetFreq(pols@[i as int].from as u8, GAME_MIN_FREQ, GAME_MAX_FREQ),
        ));
        i = i + 1;
    }
    assert(pols@.take(n as int) =~= pols@);
    r
}

impl GameMoniter {
    pub fn new(game_list: GameList, config: Config) -> (r: GameMoniter)
        ensures
            r.spec_games() == game_list@,
            r.spec_config() == config@,
    {
        GameMoniter { game_list, config }
    }

    pub closed spec fn spec_games(&self) -> Seq<GameView> {
        self.game_list@
    }

    pub closed spec fn spec_config(&self) -> ConfigView {
        self.config@
    }

    /// Handles one poll: `current_pkg` is the package in front and `is_game`
    /// the game flag before the pass.
    pub fn on_poll(&self, current_pkg: &str, is_game: bool) -> (r: GamePoll)
        ensures
            ({
                let (g, evs) = game_scan(
                    self.spec_games(),
                    current_pkg@,
                    is_game,
                    self.spec_config().policy,
                );
                r.is_game == g && events_view(r.events@) == evs
            }),
    {
        let ghost es = self.game_list@;
        let ghost pols = self.config@.policy;
        let pkg = chars_of(current_pkg);
        let n = self.game_list.listvalue.len();
        let mut g = is_game;
        let mut events: Vec<Event> = Vec::new();
        let mut i: usize = 0;
        assert(es.skip(0) =~= es);
        assert(events_view(events@) =~= seq![]);
        while i < n
            invariant
                i <= n == es.len(),
                es == self.game_list@,
                pols == self.config@.policy,
                pkg@ == current_pkg@,
                game_scan(es, current_pkg@, is_game, pols) == ({
                    let (g2, rest) = game_scan(es.skip(i as int), current_pkg@, g, pols);
                    (g2, events_view(events@) + rest)
                }),
            decreases n - i,
        {
            let entry = &self.game_list.listvalue[i];
            assert(es[i as int] == entry@);
            assert(es.skip(i as int)[0] == es[i as int]);
            assert(es.skip(i as int).drop_first() =~= es.skip(i + 1));
            let name = chars_of(entry.pkg.as_str());
            let wanted = trim_chars(name.as_slice());
            if contains_chars(pkg.as_slice(), wanted.as_slice()) {
                if g {
                    assert(events_view(events@) + seq![] =~= events_view(events@));
                    return GamePoll { is_game: g, events };
                }
                g = true;
                let lifts = lift_requests(&self.config.policy);
                let ghost prev = events@;
                let mut lifts = lifts;
                events.append(&mut lifts);
                assert(events_view(events@) =~= events_view(prev) + lift_events(pols));
                proof {
                    let (g3, rest3) = game_scan(es.skip(i + 1), current_pkg@, false, pols);
                    assert(events_view(prev) + (lift_events(pols) + rest3) =~= events_view(events@)
                        + rest3);
                }
            }
            if g {
                g = false;
            }
            i = i + 1;
        }
        assert(es.skip(n as int) =~= seq![]);
        assert(events_view(events@) + seq![] =~= events_view(events@));
        GamePoll { is_game: g, events }
    }
}

/// With the game flag clear, an entry whose trimmed package occurs anywhere
/// in the front text lifts the limits of every policy, in order, to the
/// range (500, 8888888); the pass goes on over the other entries with the
/// flag clear.
pub proof fn lemma_game_entry_lifts(
    entries: Seq<GameView>,
    before: Seq<char>,
    after: Seq<char>,
    pols: Seq<Policy>,
)
    requires
        entries.len() > 0,
    ensures
        ({
            let text = before + trim(entries[0].pkg) + after;
            let (g, evs) = game_scan(entries, text, false, pols);
            let (g2, rest) = game_scan(entries.drop_first(), text, false, pols);
            &&& g == g2
            &&& evs.len() == pols.len() + rest.len()
            &&& forall|i: int|
                0 <= i < pols.len() ==> #[trigger] evs[i] == EventView::SetFreq(
                    pols[i].from as u8,
                    500,
                    8888888,
                )
            &&& forall|k: int| 0 <= k < rest.len() ==> #[trigger] evs[pols.len() + k] == rest[k]
        }),
{
    lemma_contains_piece(before, trim(entries[0].pkg), after);
}

/// With the game flag set, an entry whose trimmed package occurs in the
/// front text ends the pass: the flag stays set and nothing is requested.
pub proof fn lemma_game_entry_stops(entries: Seq<GameView>, text: Seq<char>, pols: Seq<Policy>)
    requires
        entries.len() > 0,
        contains(text, trim(entries[0].pkg)),
    ensures
        game_scan(entries, text, true, pols) == (true, Seq::<EventView>::empty()),
{
}

/// An entry whose trimmed package does not occur in the front text requests
/// nothing and clears the flag.
pub proof fn lemma_game_entry_misses(
    entries: Seq<GameView>,
    text: Seq<char>,
    g: bool,
    pols: Seq<Policy>,
)
    requires
        entries.len() > 0,
        !contains(text, trim(entries[0].pkg)),
    ensures
        game_scan(entries, text, g, pols) == game_scan(entries.drop_first(), text, false, pols),
{
}

/// A pass over no entries keeps the flag and requests nothing.
pub proof fn lemma_game_no_entries(text: Seq<char>, g: bool, pols: Seq<Policy>)
    ensures
        game_scan(Seq::<GameView>::empty(), text, g, pols) == (g, Seq::<EventView>::empty()),
{
}

/// Every request of the game watcher addresses a configured policy.
pub proof fn lemma_game_events_known(
    entries: Seq<GameView>,
    pkg: Seq<char>,
    g: bool,
    pols: Seq<Policy>,
)
    ensures
        targets_known(game_scan(entries, pkg, g, pols).1, policy_table(pols)),
    decreases entries.len(),
{
    lemma_policy_table_has_all(pols);
    if entries.len() > 0 {
        lemma_game_events_known(entries.drop_first(), pkg, false, pols);
        let lifts = lift_events(pols);
        assert(targets_known(lifts, policy_table(pols)));
    }
}

} // verus!
