//! Configuration records. Frequencies are in kHz, delays in milliseconds.
//!
//! The headroom factor of a mode's policy is a 32-bit float in the
//! configuration file; it is held here by its IEEE-754 bit pattern
//! (`f32::to_bits`), so that the records carry only integers and text.
use vstd::prelude::*;

verus! {

/// The configuration file as a whole.
#[derive(Debug)]
pub struct Config {
    pub name: Name,
    pub policy: Vec<Policy>,
    pub mode: Mode,
}

/// Who wrote the configuration, and which version it is.
#[derive(Debug)]
pub struct Name {
    pub name: String,
    pub version: String,
    pub author: String,
}

/// A cpufreq policy: the cores `from..=to`, governed by policy number `from`.
#[derive(Debug, Clone, Copy, PartialEq, Eq)]
pub struct Policy {
    pub from: u32,
    pub to: u32,
}

/// The four scheduling profiles.
#[derive(Debug)]
pub struct Mode {
    pub power: Power,
    pub blan: Blan,
    pub perf: Perf,
    pub fast: Fast,
}

/// The power-saving profile: one entry per cpufreq policy, in the order of
/// `Config::policy`.
#[derive(Debug)]
pub struct Power {
    pub policy: Vec<MPolicy>,
    pub idle_governor: String,
}

/// The balanced profile.
#[derive(Debug)]
pub struct Blan {
    pub policy: Vec<MPolicy>,
    pub idle_governor: String,
}

/// The performance profile.
#[derive(Debug)]
pub struct Perf {
    pub policy: Vec<MPolicy>,
    pub idle_governor: String,
}

/// The fast profile.
#[derive(Debug)]
pub struct Fast {
    pub policy: Vec<MPolicy>,
    pub idle_governor: String,
}

/// The settings of one cpufreq policy within a profile.
#[derive(Debug)]
pub struct MPolicy {
    /// Sampling period of the load tracker.
    pub delay: u64,
    pub max_freq: u32,
    pub min_freq: u32,
    pub boost_freq: u32,
    /// Bit pattern of the `f32` headroom factor.
    pub margin_bits: u32,
    /// Smallest change of the frequency ceiling worth writing.
    pub diff: u32,
    /// Frequency ceiling while the screen is off.
    pub sleep_freq: u32,
    pub governor: String,
}

/// The applications during which scheduling pauses.
#[derive(Debug)]
pub struct GameList {
    pub listvalue: Vec<Game>,
}

/// One application: a display name and its package name.
#[derive(Debug)]
pub struct Game {
    pub name: String,
    pub pkg: String,
}

// ---------------------------------------------------------------------------
// Mathematical models
// ---------------------------------------------------------------------------

pub struct NameView {
    pub name: Seq<char>,
    pub version: Seq<char>,
    pub author: Seq<char>,
}

pub struct MPolicyView {
    pub delay: u64,
    pub max_freq: u32,
    pub min_freq: u32,
    pub boost_freq: u32,
    pub margin_bits: u32,
    pub diff: u32,
    pub sleep_freq: u32,
    pub governor: Seq<char>,
}

/// The model shared by the four profiles.
pub struct ProfileView {
    pub policy: Seq<MPolicyView>,
    pub idle_governor: Seq<char>,
}

pub struct ModeView {
    pub power: ProfileView,
    pub blan: ProfileView,
    pub perf: ProfileView,
    pub fast: ProfileView,
}

pub struct ConfigView {
    pub name: NameView,
    pub policy: Seq<Policy>,
    pub mode: ModeView,
}

pub struct GameView {
    pub name: Seq<char>,
    pub pkg: Seq<char>,
}

pub open spec fn mpolicies_view(v: Seq<MPolicy>) -> Seq<MPolicyView> {
    v.map_values(|p: MPolicy| p@)
}

impl View for Name {
    type V = NameView;

    open spec fn view(&self) -> NameView {
        NameView { name: self.name@, version: self.version@, author: self.author@ }
    }
}

impl View for MPolicy {
    type V = MPolicyView;

    open spec fn view(&self) -> MPolicyView {
        MPolicyView {
            delay: self.delay,
            max_freq: self.max_freq,
            min_freq: self.min_freq,
            boost_freq: self.boost_freq,
            margin_bits: self.margin_bits,
            diff: self.diff,
            sleep_freq: self.sleep_freq,
            governor: self.governor@,
        }
    }
}

impl View for Power {
    type V = ProfileView;

    open spec fn view(&self) -> ProfileView {
        ProfileView { policy: mpolicies_view(self.policy@), idle_governor: self.idle_governor@ }
    }
}

impl View for Blan {
    type V = ProfileView;

    open spec fn view(&self) -> ProfileView {
        ProfileView { policy: mpolicies_view(self.policy@), idle_governor: self.idle_governor@ }
    }
}

impl View for Perf {
    type V = ProfileView;

    open spec fn view(&self) -> ProfileView {
        ProfileView { policy: mpolicies_view(self.policy@), idle_governor: self.idle_governor@ }
    }
}

impl View for Fast {
    type V = ProfileView;

    open spec fn view(&self) -> ProfileView {
        ProfileView { policy: mpolicies_view(self.policy@), idle_governor: self.idle_governor@ }
    }
}

impl View for Mode {
    type V = ModeView;

    open spec fn view(&self) -> ModeView {
        ModeView { power: self.power@, blan: self.blan@, perf: self.perf@, fast: self.fast@ }
    }
}

impl View for Config {
    type V = ConfigView;

    open spec fn view(&self) -> ConfigView {
        ConfigView { name: self.name@, policy: self.policy@, mode: self.mode@ }
    }
}

impl View for Game {
    type V = GameView;

    open spec fn view(&self) -> GameView {
        GameView { name: self.name@, pkg: self.pkg@ }
    }
}

impl View for GameList {
    type V = Seq<GameView>;

    open spec fn view(&self) -> Seq<GameView> {
        self.listvalue@.map_values(|g: Game| g@)
    }
}

impl ModeView {
    /// The profile that a mode number selects: 0 power-saving, 1 balanced,
    /// 2 performance, 3 fast.
    pub open spec fn profile(self, mode: int) -> ProfileView {
        if mode == 0 {
            self.power
        } else if mode == 1 {
            self.blan
        } else if mode == 2 {
            self.perf
        } else {
            self.fast
        }
    }
}

// ---------------------------------------------------------------------------
// Copies
// ---------------------------------------------------------------------------

impl Clone for Name {
    fn clone(&self) -> (r: Self)
        ensures
            r@ == self@,
    {
        Name { name: self.name.clone(), version: self.version.clone(), author: self.author.clone() }
    }
}

impl Clone for MPolicy {
    fn clone(&self) -> (r: Self)
        ensures
            r@ == self@,
    {
        MPolicy {
            delay: self.delay,
            max_freq: self.max_freq,
            min_freq: self.min_freq,
            boost_freq: self.boost_freq,
            margin_bits: self.margin_bits,
            diff: self.diff,
            sleep_freq: self.sleep_freq,
            governor: self.governor.clone(),
        }
    }
}

/// A copy of a list of per-policy settings.
pub fn copy_mpolicies(v: &Vec<MPolicy>) -> (r: Vec<MPolicy>)
    ensures
        mpolicies_view(r@) == mpolicies_view(v@),
{
    let mut r: Vec<MPolicy> = Vec::new();
    let n = v.len();
    let mut i: usize = 0;
    while i < n
        invariant
            i <= n == v@.len(),
            mpolicies_view(r@) == mpolicies_view(v@.take(i as int)),
        decreases n - i,
    {
        let p = v[i].clone();
        let ghost old_r = r@;
        r.push(p);
        assert(mpolicies_view(r@) =~= mpolicies_view(old_r).push(v@[i as int]@));
        assert(v@.take(i + 1) =~= v@.take(i as int).push(v@[i as int]));
        assert(mpolicies_view(v@.take(i + 1)) =~= mpolicies_view(v@.take(i as int)).push(
            v@[i as int]@,
        ));
        i = i + 1;
    }
    assert(v@.take(n as int) =~= v@);
    r
}

/// A copy of a list of cpufreq policies.
pub fn copy_policies(v: &Vec<Policy>) -> (r: Vec<Policy>)
    ensures
        r@ == v@,
{
    let mut r: Vec<Policy> = Vec::new();
    let n = v.len();
    let mut i: usize = 0;
    while i < n
        invariant
            i <= n == v@.len(),
            r@ == v@.take(i as int),
        decreases n - i,
    {
        r.push(v[i]);
        assert(r@ =~= v@.take(i + 1));
        i = i + 1;
    }
    assert(v@.take(n as int) =~= v@);
    r
}

impl Clone for Power {
    fn clone(&self) -> (r: Self)
        ensures
            r@ == self@,
    {
        Power { policy: copy_mpolicies(&self.policy), idle_governor: self.idle_governor.clone() }
    }
}

impl Clone for Blan {
    fn clone(&self) -> (r: Self)
        ensures
            r@ == self@,
    {
        Blan { policy: copy_mpolicies(&self.policy), idle_governor: self.idle_governor.clone() }
    }
}

impl Clone for Perf {
    fn clone(&self) -> (r: Self)
        ensures
            r@ == self@,
    {
        Perf { policy: copy_mpolicies(&self.policy), idle_governor: self.idle_governor.clone() }
    }
}

impl Clone for Fast {
    fn clone(&self) -> (r: Self)
        ensures
            r@ == self@,
    {
        Fast { policy: copy_mpolicies(&self.policy), idle_governor: self.idle_governor.clone() }
    }
}

impl Clone for Mode {
    fn clone(&self) -> (r: Self)
        ensures
            r@ == self@,
    {
        Mode {
            power: self.power.clone(),
            blan: self.blan.clone(),
            perf: self.perf.clone(),
            fast: self.fast.clone(),
        }
    }
}

impl Clone for Config {
    fn clone(&self) -> (r: Self)
        ensures
            r@ == self@,
    {
        Config {
            name: self.name.clone(),
            policy: copy_policies(&self.policy),
            mode: self.mode.clone(),
        }
    }
}

impl Clone for Game {
    fn clone(&self) -> (r: Self)
        ensures
            r@ == self@,
    {
        Game { name: self.name.clone(), pkg: self.pkg.clone() }
    }
}

impl Clone for GameList {
    fn clone(&self) -> (r: Self)
        ensures
            r@ == self@,
    {
        let mut r: Vec<Game> = Vec::new();
        let n = self.listvalue.len();
        let mut i: usize = 0;
        while i < n
            invariant
                i <= n == self.listvalue@.len(),
                r@.map_values(|g: Game| g@) == self.listvalue@.take(i as int).map_values(
                    |g: Game| g@,
                ),
            decreases n - i,
        {
            let g = self.listvalue[i].clone();
            let ghost old_r = r@;
            r.push(g);
            assert(r@.map_values(|g: Game| g@) =~= old_r.map_values(|g: Game| g@).push(
                self.listvalue@[i as int]@,
            ));
            assert(self.listvalue@.take(i + 1) =~= self.listvalue@.take(i as int).push(
                self.listvalue@[i as int],
            ));
            assert(self.listvalue@.take(i + 1).map_values(|g: Game| g@) =~= self.listvalue@.take(
                i as int,
            ).map_values(|g: Game| g@).push(self.listvalue@[i as int]@));
            i = i + 1;
        }
        assert(self.listvalue@.take(n as int) =~= self.listvalue@);
        GameList { listvalue: r }
    }
}

} // verus!
