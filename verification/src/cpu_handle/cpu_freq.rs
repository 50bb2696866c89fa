//! cpufreq policies: their table, the files of each, what is written to
//! them and how what is read from them is understood.
use vstd::prelude::*;

use crate::config::data::{Config, Policy as PolicyEntry};
use crate::text::{
    chars_of, decimal, lemma_parse_decimal, parse_uint, parse_uint_chars, push_decimal, trim,
    trim_chars,
};

verus! {

broadcast use vstd::std_specs::hash::group_hash_axioms;

/// The frequency assumed when a frequency file does not hold a number.
pub const DEFAULT_FREQ: u32 = 2000000;

/// One write to a cpufreq or cpuidle file: the policy's key, and the text.
#[derive(Debug, PartialEq, Eq)]
pub enum SysfsWrite {
    MinFreq(u8, String),
    MaxFreq(u8, String),
    Governor(u8, String),
    IdleGovernor(String),
}

pub enum SysfsWriteView {
    MinFreq(u8, Seq<char>),
    MaxFreq(u8, Seq<char>),
    Governor(u8, Seq<char>),
    IdleGovernor(Seq<char>),
}

impl View for SysfsWrite {
    type V = SysfsWriteView;

    open spec fn view(&self) -> SysfsWriteView {
        match self {
            SysfsWrite::MinFreq(k, t) => SysfsWriteView::MinFreq(*k, t@),
            SysfsWrite::MaxFreq(k, t) => SysfsWriteView::MaxFreq(*k, t@),
            SysfsWrite::Governor(k, t) => SysfsWriteView::Governor(*k, t@),
            SysfsWrite::IdleGovernor(t) => SysfsWriteView::IdleGovernor(t@),
        }
    }
}

/// The policy table that a list of policies gives: each policy is filed
/// under its number truncated to a byte, a later one replacing an earlier.
pub open spec fn policy_table(ps: Seq<PolicyEntry>) -> Map<u8, u32>
    decreases ps.len(),
{
    if ps.len() == 0 {
        Map::empty()
    } else {
        policy_table(ps.drop_last()).insert(ps.last().from as u8, ps.last().from)
    }
}

/// The cpufreq policies in use, keyed as events address them.
pub struct CpuFreq {
    pub policys: std::collections::HashMap<u8, u32>,
}

impl View for CpuFreq {
    type V = Map<u8, u32>;

    open spec fn view(&self) -> Map<u8, u32> {
        self.policys@
    }
}

impl CpuFreq {
    pub fn new(config: &Config) -> (r: CpuFreq)
        ensures
            r@ == policy_table(config.policy@),
    {
        let mut policys: std::collections::HashMap<u8, u32> = std::collections::HashMap::new();
        let n = config.policy.len();
        let mut i: usize = 0;
        while i < n
            invariant
                i <= n == config.policy@.len(),
                policys@ == policy_table(config.policy@.take(i as int)),
            decreases n - i,
        {
            let line = config.policy[i].from;
            policys.insert(line as u8, line);
            assert(config.policy@.take(i + 1).drop_last() =~= config.policy@.take(i as int));
            i = i + 1;
        }
        assert(config.policy@.take(n as int) =~= config.policy@);
        CpuFreq { policys }
    }

    /// Whether a policy is filed under `index`.
    pub fn has_policy(&self, index: u8) -> (b: bool)
        ensures
            b == self@.contains_key(index),
    {
        self.policys.contains_key(&index)
    }

    /// The number of the policy filed under `index`. A key under which no
    /// policy is filed has no meaning.
    pub fn get_policy(&self, index: u8) -> (r: u32)
        requires
            self@.contains_key(index),
        ensures
            r == self@[index],
    {
        match self.policys.get(&index) {
            Some(p) => *p,
            None => {
                assert(false);
                0
            },
        }
    }

    /// Sets the frequency range of a policy: the floor first, then the
    /// ceiling.
    pub fn write_index_freq(&self, index: u8, values: (u32, u32)) -> (r: Vec<SysfsWrite>)
        requires
            self@.contains_key(index),
        ensures
            r@.map_values(|w: SysfsWrite| w@) == seq![
                SysfsWriteView::MinFreq(index, decimal(values.0 as nat)),
                SysfsWriteView::MaxFreq(index, decimal(values.1 as nat)),
            ],
    {
        let mut r: Vec<SysfsWrite> = Vec::new();
        r.push(SysfsWrite::MinFreq(index, freq_text(values.0)));
        r.push(SysfsWrite::MaxFreq(index, freq_text(values.1)));
        assert(r@.map_values(|w: SysfsWrite| w@) =~= seq![
            SysfsWriteView::MinFreq(index, decimal(values.0 as nat)),
            SysfsWriteView::MaxFreq(index, decimal(values.1 as nat)),
        ]);
        r
    }

    /// Sets the governor of a policy.
    pub fn write_index_governor(&self, index: u8, value: String) -> (r: Vec<SysfsWrite>)
        requires
            self@.contains_key(index),
        ensures
            r@.map_values(|w: SysfsWrite| w@) == seq![SysfsWriteView::Governor(index, value@)],
    {
        let ghost v = value@;
        let mut r: Vec<SysfsWrite> = Vec::new();
        r.push(SysfsWrite::Governor(index, value));
        assert(r@.map_values(|w: SysfsWrite| w@) =~= seq![SysfsWriteView::Governor(index, v)]);
        r
    }

    /// Sets the cpuidle governor.
    pub fn write_idle_governor(&self, value: String) -> (r: Vec<SysfsWrite>)
        ensures
            r@.map_values(|w: SysfsWrite| w@) == seq![SysfsWriteView::IdleGovernor(value@)],
    {
        let ghost v = value@;
        let mut r: Vec<SysfsWrite> = Vec::new();
        r.push(SysfsWrite::IdleGovernor(value));
        assert(r@.map_values(|w: SysfsWrite| w@) =~= seq![SysfsWriteView::IdleGovernor(v)]);
        r
    }
}

/// What is written to a frequency file to set `value` (its decimal text).
pub fn freq_text(value: u32) -> (r: String)
    ensures
        r@ == decimal(value as nat),
{
    let mut r = String::new();
    push_decimal(&mut r, value as u64);
    assert(r@ =~= decimal(value as nat));
    r
}

/// The frequency that the text of a frequency file gives: the number it
/// holds between whitespace, or [`DEFAULT_FREQ`] when it holds none that fits
/// in a `u32`.
pub open spec fn read_freq(content: Seq<char>) -> u32 {
    match parse_uint(trim(content), u32::MAX as nat) {
        Some(v) => v as u32,
        None => DEFAULT_FREQ,
    }
}

/// A cpufreq policy, by its number.
pub struct Policy {
    pub index: u32,
}

/// The directory of policy `index`.
pub open spec fn policy_dir(index: u32) -> Seq<char> {
    "/sys/devices/system/cpu/cpufreq/policy"@ + decimal(index as nat)
}

impl Policy {
    pub fn new(index: u32) -> (r: Policy)
        ensures
            r.index == index,
    {
        Policy { index }
    }

    fn path(&self, file: &str) -> (r: String)
        ensures
            r@ == policy_dir(self.index) + file@,
    {
        let mut r = String::new();
        r.append("/sys/devices/system/cpu/cpufreq/policy");
        push_decimal(&mut r, self.index as u64);
        r.append(file);
        assert(r@ =~= policy_dir(self.index) + file@);
        r
    }

    /// The file of the frequency ceiling.
    pub fn max_path(&self) -> (r: String)
        ensures
            r@ == policy_dir(self.index) + "/scaling_max_freq"@,
    {
        self.path("/scaling_max_freq")
    }

    /// The file of the frequency floor.
    pub fn min_path(&self) -> (r: String)
        ensures
            r@ == policy_dir(self.index) + "/scaling_min_freq"@,
    {
        self.path("/scaling_min_freq")
    }

    /// The file of the governor.
    pub fn governor_path(&self) -> (r: String)
        ensures
            r@ == policy_dir(self.index) + "/scaling_governor"@,
    {
        self.path("/scaling_governor")
    }

    /// The frequency ceiling that the text of its file gives.
    pub fn read_max(&self, content: &str) -> (r: u32)
        ensures
            r == read_freq(content@),
    {
        parse_freq(content)
    }

    /// The frequency floor that the text of its file gives.
    pub fn read_min(&self, content: &str) -> (r: u32)
        ensures
            r == read_freq(content@),
    {
        parse_freq(content)
    }
}

/// The frequency that the text of a frequency file gives.
pub fn parse_freq(content: &str) -> (r: u32)
    ensures
        r == read_freq(content@),
{
    let cs = chars_of(content);
    let t = trim_chars(cs.as_slice());
    match parse_uint_chars(t.as_slice(), u32::MAX as u64) {
        Some(v) => v as u32,
        None => DEFAULT_FREQ,
    }
}

/// Reading a frequency file gives back the frequency last written to it.
pub proof fn lemma_read_back_written(v: u32)
    ensures
        read_freq(decimal(v as nat)) == v,
{
    lemma_parse_decimal(v as nat, u32::MAX as nat);
}

/// A frequency file whose trimmed text is not an unsigned number that fits
/// in a `u32` reads as 2 GHz.
pub proof fn lemma_read_freq_default(content: Seq<char>)
    requires
        parse_uint(trim(content), u32::MAX as nat) is None,
    ensures
        read_freq(content) == 2000000,
{
}

/// A frequency file whose trimmed text is such a number reads as it.
pub proof fn lemma_read_freq_number(content: Seq<char>)
    requires
        parse_uint(trim(content), u32::MAX as nat) is Some,
    ensures
        read_freq(content) as nat == parse_uint(trim(content), u32::MAX as nat)->0,
{
}

/// Every configured policy is filed in the table, under its number truncated
/// to a byte.
pub proof fn lemma_policy_table_has(ps: Seq<PolicyEntry>, i: int)
    requires
        0 <= i < ps.len(),
    ensures
        policy_table(ps).contains_key(ps[i].from as u8),
    decreases ps.len(),
{
    if i < ps.len() - 1 {
        lemma_policy_table_has(ps.drop_last(), i);
        assert(ps.drop_last()[i] == ps[i]);
    }
}

/// Every configured policy is filed in the table.
pub proof fn lemma_policy_table_has_all(ps: Seq<PolicyEntry>)
    ensures
        forall|j: int|
            0 <= j < ps.len() ==> policy_table(ps).contains_key(#[trigger] ps[j].from as u8),
{
    assert forall|j: int| 0 <= j < ps.len() implies policy_table(ps).contains_key(
        #[trigger] ps[j].from as u8,
    ) by {
        lemma_policy_table_has(ps, j);
    }
}

/// The table holds nothing but configured policies: each key is the
/// truncated number of some policy, and is filed with that policy's number.
pub proof fn lemma_policy_table_only(ps: Seq<PolicyEntry>, k: u8)
    requires
        policy_table(ps).contains_key(k),
    ensures
        exists|i: int|
            0 <= i < ps.len() && #[trigger] ps[i].from as u8 == k && policy_table(ps)[k]
                == ps[i].from,
    decreases ps.len(),
{
    if ps.last().from as u8 != k {
        lemma_policy_table_only(ps.drop_last(), k);
        let i = choose|i: int|
            0 <= i < ps.drop_last().len() && #[trigger] ps.drop_last()[i].from as u8 == k
                && policy_table(ps.drop_last())[k] == ps.drop_last()[i].from;
        assert(ps[i] == ps.drop_last()[i]);
    } else {
        assert(ps[ps.len() - 1].from as u8 == k);
    }
}

} // verus!
