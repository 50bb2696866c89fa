//! The load tracker of one cpufreq policy: from successive snapshots of
//! `/proc/stat` it computes the average busy share of the policy's cores.
use vstd::prelude::*;

use crate::config::data::{Mode, ModeView};
use crate::scheduler::manager::{Event, EventView};
use crate::text::{
    chars_of, copy_range, lemma_word_len_bound, lines, parse_uint, parse_uint_chars, split_lines,
    split_words, word_len, words, is_space,
};

verus! {

/// The load reported when no core of the policy could be measured.
pub const UNKNOWN_LOAD: u32 = 50;

// ---------------------------------------------------------------------------
// Specification
// ---------------------------------------------------------------------------

/// The number of cores in `from..=to`.
pub open spec fn core_count(from: u32, to: u32) -> nat {
    if to >= from {
        (to - from + 1) as nat
    } else {
        0
    }
}

/// The numbers among `ws`, in order: each word that parses as a `u64`.
pub open spec fn parse_values(ws: Seq<Seq<char>>) -> Seq<u64>
    decreases ws.len(),
{
    if ws.len() == 0 {
        seq![]
    } else {
        let rest = parse_values(ws.drop_last());
        match parse_uint(ws.last(), u64::MAX as nat) {
            Some(v) => rest.push(v as u64),
            None => rest,
        }
    }
}

/// The sum of `vs`.
pub open spec fn sum(vs: Seq<u64>) -> nat
    decreases vs.len(),
{
    if vs.len() == 0 {
        0
    } else {
        sum(vs.drop_last()) + vs.last() as nat
    }
}

/// Whether a line names a single core: it starts with `cpu`, and its first
/// word is longer than `cpu`.
pub open spec fn is_core_line(line: Seq<char>) -> bool {
    &&& line.len() >= 3
    &&& line[0] == 'c'
    &&& line[1] == 'p'
    &&& line[2] == 'u'
    &&& words(line).len() > 0
    &&& words(line)[0] != seq!['c', 'p', 'u']
}

/// The core number and the counters of a line of `/proc/stat`: `None` unless
/// the line names a single core whose number parses as a `u32`.
pub open spec fn core_sample(line: Seq<char>) -> Option<(nat, Seq<u64>)> {
    if !is_core_line(line) {
        None
    } else {
        match parse_uint(words(line)[0].skip(3), u32::MAX as nat) {
            Some(idx) => Some((idx, parse_values(words(line).skip(1)))),
            None => None,
        }
    }
}

/// What the tracker has gathered so far in one pass: for each core, the last
/// (total, idle) counters it saw, and the sum and number of the loads it
/// measured.
pub struct StatState {
    pub history: Seq<(u64, u64)>,
    pub sum: nat,
    pub count: nat,
}

/// One line of a pass. `None` where the arithmetic would leave the range of
/// its machine integers: a sum of counters beyond `u64`, an idle time that
/// grew more than the total time, a busy share beyond `u64` when scaled by
/// 100, or more measured cores than a `u32` counts.
pub open spec fn stat_step(st: StatState, line: Seq<char>, from: u32, to: u32) -> Option<StatState> {
    match core_sample(line) {
        None => Some(st),
        Some((idx, vals)) => {
            if !(from <= idx <= to) || vals.len() < 4 {
                Some(st)
            } else {
                let total = sum(vals);
                let idle = vals[3] + if vals.len() > 4 {
                    vals[4] as int
                } else {
                    0
                };
                if total > u64::MAX || idle > u64::MAX {
                    None
                } else {
                    let h = idx - from;
                    let (pt, pi) = st.history[h];
                    let history = st.history.update(h, (total as u64, idle as u64));
                    if pt != 0 && total > pt {
                        let td = total - pt;
                        let id = if idle >= pi {
                            idle - pi
                        } else {
                            0
                        };
                        if id > td || (td - id) * 100 > u64::MAX || st.count + 1 > u32::MAX {
                            None
                        } else {
                            Some(
                                StatState {
                                    history,
                                    sum: (st.sum + ((td - id) * 100) / td) as nat,
                                    count: st.count + 1,
                                },
                            )
                        }
                    } else {
                        Some(StatState { history, sum: st.sum, count: st.count })
                    }
                }
            }
        },
    }
}

/// A whole pass over the lines of a snapshot.
pub open spec fn stat_pass(ls: Seq<Seq<char>>, st: StatState, from: u32, to: u32) -> Option<
    StatState,
>
    decreases ls.len(),
{
    if ls.len() == 0 {
        Some(st)
    } else {
        match stat_step(st, ls[0], from, to) {
            None => None,
            Some(next) => stat_pass(ls.drop_first(), next, from, to),
        }
    }
}

/// The load a pass reports: the integer average of the measured loads, or
/// [`UNKNOWN_LOAD`] when none was measured.
pub open spec fn reported_load(st: StatState) -> nat {
    if st.count > 0 {
        st.sum / st.count
    } else {
        UNKNOWN_LOAD as nat
    }
}

// ---------------------------------------------------------------------------
// Lemmas
// ---------------------------------------------------------------------------

/// A line that names core `idx` of the policy with at least four counters
/// records, for that core and no other, the sum of all its counters and its
/// idle plus iowait time (counters 3 and 4, the latter 0 when absent).
pub proof fn lemma_step_records_counters(
    st: StatState,
    line: Seq<char>,
    from: u32,
    to: u32,
    idx: nat,
    vals: Seq<u64>,
)
    requires
        st.history.len() == core_count(from, to),
        core_sample(line) == Some((idx, vals)),
        from <= idx <= to,
        vals.len() >= 4,
        stat_step(st, line, from, to) is Some,
    ensures
        ({
            let next = stat_step(st, line, from, to)->0;
            let idle_iowait: int = vals[3] + if vals.len() > 4 {
                vals[4] as int
            } else {
                0int
            };
            &&& next.history.len() == st.history.len()
            &&& next.history[idx - from] == (sum(vals) as u64, idle_iowait as u64)
            &&& sum(vals) <= u64::MAX
            &&& idle_iowait <= u64::MAX
            &&& forall|k: int|
                0 <= k < st.history.len() && k != idx - from ==> next.history[k]
                    == st.history[k]
        }),
{
}

/// Over two snapshots, a core whose counters advanced is measured at
/// `100 * (dTotal - dIdle) / dTotal`, rounded down, where `dTotal` is the
/// growth of the sum of its counters and `dIdle` that of its idle plus
/// iowait time.
pub proof fn lemma_two_snapshots_load(
    st: StatState,
    line1: Seq<char>,
    line2: Seq<char>,
    from: u32,
    to: u32,
    idx: nat,
    vals1: Seq<u64>,
    vals2: Seq<u64>,
)
    requires
        st.history.len() == core_count(from, to),
        from <= idx <= to,
        core_sample(line1) == Some((idx, vals1)),
        core_sample(line2) == Some((idx, vals2)),
        vals1.len() >= 4,
        vals2.len() >= 4,
        stat_step(st, line1, from, to) is Some,
        stat_step(stat_step(st, line1, from, to)->0, line2, from, to) is Some,
        sum(vals1) > 0,
        sum(vals2) > sum(vals1),
        vals2[3] + (if vals2.len() > 4 {
            vals2[4] as int
        } else {
            0int
        }) >= vals1[3] + (if vals1.len() > 4 {
            vals1[4] as int
        } else {
            0int
        }),
    ensures
        ({
            let first = stat_step(st, line1, from, to)->0;
            let second = stat_step(first, line2, from, to)->0;
            let idle1: int = vals1[3] + if vals1.len() > 4 {
                vals1[4] as int
            } else {
                0int
            };
            let idle2: int = vals2[3] + if vals2.len() > 4 {
                vals2[4] as int
            } else {
                0int
            };
            let d_total: int = sum(vals2) - sum(vals1);
            let d_idle: int = idle2 - idle1;
            &&& second.count == first.count + 1
            &&& second.sum == first.sum + (100 * (d_total - d_idle)) / d_total
            &&& second.history[idx - from] == (sum(vals2) as u64, idle2 as u64)
        }),
{
    lemma_step_records_counters(st, line1, from, to, idx, vals1);
    let first = stat_step(st, line1, from, to)->0;
    lemma_step_records_counters(first, line2, from, to, idx, vals2);
    let d_total: int = sum(vals2) - sum(vals1);
    let idle1: int = vals1[3] + if vals1.len() > 4 {
        vals1[4] as int
    } else {
        0int
    };
    let idle2: int = vals2[3] + if vals2.len() > 4 {
        vals2[4] as int
    } else {
        0int
    };
    assert(100 * (d_total - (idle2 - idle1)) == (d_total - (idle2 - idle1)) * 100);
}

/// The limits of a round: under modes 0 to 3 the settings of the policy's
/// entry in the power-saving, balanced, performance and fast profiles
/// respectively; under any other number 100 ms, 200 MHz as floor and
/// ceiling, a headroom factor of 1.0 and a threshold of 700 MHz.
pub proof fn lemma_mode_limits_by_mode(mode: ModeView, mode_id: int, pid: int)
    ensures
        ({
            let r = mode_limits_spec(mode, mode_id, pid);
            &&& mode_id == 0 ==> r == ModeLimits {
                delay: mode.power.policy[pid].delay,
                min_freq: mode.power.policy[pid].min_freq,
                max_freq: mode.power.policy[pid].max_freq,
                margin_bits: mode.power.policy[pid].margin_bits,
                diff: mode.power.policy[pid].diff,
            }
            &&& mode_id == 1 ==> r == ModeLimits {
                delay: mode.blan.policy[pid].delay,
                min_freq: mode.blan.policy[pid].min_freq,
                max_freq: mode.blan.policy[pid].max_freq,
                margin_bits: mode.blan.policy[pid].margin_bits,
                diff: mode.blan.policy[pid].diff,
            }
            &&& mode_id == 2 ==> r == ModeLimits {
                delay: mode.perf.policy[pid].delay,
                min_freq: mode.perf.policy[pid].min_freq,
                max_freq: mode.perf.policy[pid].max_freq,
                margin_bits: mode.perf.policy[pid].margin_bits,
                diff: mode.perf.policy[pid].diff,
            }
            &&& mode_id == 3 ==> r == ModeLimits {
                delay: mode.fast.policy[pid].delay,
                min_freq: mode.fast.policy[pid].min_freq,
                max_freq: mode.fast.policy[pid].max_freq,
                margin_bits: mode.fast.policy[pid].margin_bits,
                diff: mode.fast.policy[pid].diff,
            }
            &&& (mode_id < 0 || mode_id > 3) ==> r == ModeLimits {
                delay: 100,
                min_freq: 200000,
                max_freq: 200000,
                margin_bits: 0x3f80_0000,
                diff: 700000,
            }
        }),
{
}

/// A pass over two runs of lines is the pass over the second run from where
/// the first left off; a pass that fails on the first run fails.
pub proof fn lemma_pass_concat(
    first: Seq<Seq<char>>,
    second: Seq<Seq<char>>,
    st: StatState,
    from: u32,
    to: u32,
)
    ensures
        stat_pass(first + second, st, from, to) == match stat_pass(first, st, from, to) {
            None => None,
            Some(mid) => stat_pass(second, mid, from, to),
        },
    decreases first.len(),
{
    if first.len() == 0 {
        assert(first + second =~= second);
    } else {
        assert((first + second)[0] == first[0]);
        assert((first + second).drop_first() =~= first.drop_first() + second);
        match stat_step(st, first[0], from, to) {
            None => {},
            Some(next) => {
                lemma_pass_concat(first.drop_first(), second, next, from, to);
            },
        }
    }
}

/// A pass over one line is that line's step.
pub proof fn lemma_pass_single(line: Seq<char>, st: StatState, from: u32, to: u32)
    ensures
        stat_pass(seq![line], st, from, to) == stat_step(st, line, from, to),
{
    assert(seq![line].drop_first() =~= Seq::<Seq<char>>::empty());
    assert(seq![line][0] == line);
    match stat_step(st, line, from, to) {
        None => {},
        Some(next) => {
            assert(stat_pass(Seq::<Seq<char>>::empty(), next, from, to) == Some(next));
        },
    }
}

/// The reported load is the measured loads' average rounded down, and 50
/// when no core was measured.
pub proof fn lemma_reported_load_average(st: StatState)
    ensures
        st.count == 0 ==> reported_load(st) == 50,
        st.count > 0 ==> reported_load(st) * st.count <= st.sum < (reported_load(st) + 1)
            * st.count,
{
    if st.count > 0 {
        let q = st.sum / st.count;
        assert(q * st.count <= st.sum < (q + 1) * st.count) by (nonlinear_arith)
            requires
                st.count > 0,
                q == st.sum / st.count,
        ;
    }
}

/// A line that does not start with `cpu`, or whose first word is `cpu`
/// alone (the total over all cores), names no core.
pub proof fn lemma_non_core_lines(line: Seq<char>)
    ensures
        !(line.len() >= 3 && line[0] == 'c' && line[1] == 'p' && line[2] == 'u') ==> core_sample(
            line,
        ) is None,
        (words(line).len() > 0 && words(line)[0] == seq!['c', 'p', 'u']) ==> core_sample(
            line,
        ) is None,
{
}

/// The gap between two frequencies is symmetric and is what the smaller
/// lacks of the larger.
pub proof fn lemma_freq_gap(a: u32, b: u32)
    ensures
        freq_gap(a, b) == freq_gap(b, a),
        a <= b ==> a + freq_gap(a, b) == b,
        b <= a ==> b + freq_gap(a, b) == a,
{
}

/// Whether a line names one of the cores `from..=to`.
pub open spec fn names_policy_core(line: Seq<char>, from: u32, to: u32) -> bool {
    core_sample(line) matches Some((idx, _)) && from <= idx <= to
}

/// A line that names none of the policy's cores leaves a step's state as
/// it is.
pub proof fn lemma_other_line_step(st: StatState, line: Seq<char>, from: u32, to: u32)
    requires
        !names_policy_core(line, from, to),
    ensures
        stat_step(st, line, from, to) == Some(st),
{
}

/// Adding to a snapshot a line that names none of the policy's cores, at any
/// place, changes neither the load nor the history a pass leaves.
pub proof fn lemma_other_line_pass(
    before: Seq<Seq<char>>,
    line: Seq<char>,
    after: Seq<Seq<char>>,
    st: StatState,
    from: u32,
    to: u32,
)
    requires
        !names_policy_core(line, from, to),
    ensures
        stat_pass(before + seq![line] + after, st, from, to) == stat_pass(
            before + after,
            st,
            from,
            to,
        ),
    decreases before.len(),
{
    let with = before + seq![line] + after;
    let without = before + after;
    if before.len() == 0 {
        assert(with[0] == line);
        assert(with.drop_first() =~= after);
        assert(without =~= after);
        lemma_other_line_step(st, line, from, to);
    } else {
        assert(with[0] == before[0]);
        assert(without[0] == before[0]);
        assert(with.drop_first() =~= before.drop_first() + seq![line] + after);
        assert(without.drop_first() =~= before.drop_first() + after);
        match stat_step(st, before[0], from, to) {
            None => {},
            Some(next) => {
                lemma_other_line_pass(before.drop_first(), line, after, next, from, to);
            },
        }
    }
}

proof fn lemma_sum_prefix(vs: Seq<u64>, k: int)
    requires
        0 <= k <= vs.len(),
    ensures
        sum(vs.take(k)) <= sum(vs),
    decreases vs.len(),
{
    if k < vs.len() {
        lemma_sum_prefix(vs.drop_last(), k);
        assert(vs.drop_last().take(k) =~= vs.take(k));
    } else {
        assert(vs.take(k) =~= vs);
    }
}

proof fn lemma_share_bound(busy: nat, total: nat)
    requires
        total > 0,
        busy <= total,
    ensures
        (busy * 100) / total <= 100,
{
    assert((busy * 100) / total <= (total * 100) / total) by (nonlinear_arith)
        requires
            busy <= total,
            total > 0,
    ;
    assert((total * 100) / total == 100) by (nonlinear_arith)
        requires
            total > 0,
    ;
}

proof fn lemma_average_bound(s: nat, c: nat)
    requires
        c > 0,
        s <= 100 * c,
    ensures
        s / c <= 100,
{
    assert(s / c <= (100 * c) / c) by (nonlinear_arith)
        requires
            s <= 100 * c,
            c > 0,
    ;
    assert((100 * c) / c == 100) by (nonlinear_arith)
        requires
            c > 0,
    ;
}

/// A step keeps the history's length, and each measured load is at most 100.
pub proof fn lemma_step_bounds(st: StatState, line: Seq<char>, from: u32, to: u32)
    requires
        st.history.len() == core_count(from, to),
        st.sum <= 100 * st.count,
    ensures
        stat_step(st, line, from, to) matches Some(next) ==> {
            &&& next.history.len() == core_count(from, to)
            &&& next.sum <= 100 * next.count
        },
{
    match core_sample(line) {
        None => {},
        Some((idx, vals)) => {
            if from <= idx <= to && vals.len() >= 4 {
                let total = sum(vals);
                let idle = vals[3] + if vals.len() > 4 {
                    vals[4] as int
                } else {
                    0
                };
                if total <= u64::MAX && idle <= u64::MAX {
                    let (pt, pi) = st.history[idx - from];
                    if pt != 0 && total > pt {
                        let td = total - pt;
                        let id = if idle >= pi {
                            idle - pi
                        } else {
                            0
                        };
                        if id <= td {
                            lemma_share_bound((td - id) as nat, td as nat);
                        }
                    }
                }
            }
        },
    }
}

/// A pass that completes reports a load of at most 100.
pub proof fn lemma_pass_bounds(ls: Seq<Seq<char>>, st: StatState, from: u32, to: u32)
    requires
        st.history.len() == core_count(from, to),
        st.sum <= 100 * st.count,
    ensures
        stat_pass(ls, st, from, to) matches Some(fin) ==> {
            &&& fin.history.len() == core_count(from, to)
            &&& fin.sum <= 100 * fin.count
            &&& reported_load(fin) <= 100
        },
    decreases ls.len(),
{
    if ls.len() == 0 {
        if st.count > 0 {
            lemma_average_bound(st.sum, st.count);
        }
    } else {
        lemma_step_bounds(st, ls[0], from, to);
        match stat_step(st, ls[0], from, to) {
            None => {},
            Some(next) => {
                lemma_pass_bounds(ls.drop_first(), next, from, to);
            },
        }
    }
}

/// A line that starts with `cpu` has a first word of at least three
/// characters, which starts it.
proof fn lemma_core_word(line: Seq<char>)
    requires
        line.len() >= 3,
        line[0] == 'c',
        line[1] == 'p',
        line[2] == 'u',
    ensures
        words(line).len() > 0,
        words(line)[0] == line.take(word_len(line) as int),
        word_len(line) >= 3,
        word_len(line) <= line.len(),
{
    let d1 = line.drop_first();
    let d2 = d1.drop_first();
    assert(d1[0] == 'p');
    assert(d2[0] == 'u');
    assert(!is_space('c') && !is_space('p') && !is_space('u'));
    assert(word_len(line) == 1 + word_len(d1));
    assert(word_len(d1) == 1 + word_len(d2));
    assert(word_len(d2) >= 1);
    lemma_word_len_bound(line);
}

// ---------------------------------------------------------------------------
// Executable functions
// ---------------------------------------------------------------------------

/// The sum of `vs`, or `None` when it exceeds `u64`.
fn sum_values(vs: &Vec<u64>) -> (r: Option<u64>)
    ensures
        r is Some <==> sum(vs@) <= u64::MAX,
        r is Some ==> r->0 == sum(vs@),
{
    let n = vs.len();
    let mut total: u64 = 0;
    let mut i: usize = 0;
    while i < n
        invariant
            i <= n == vs@.len(),
            total == sum(vs@.take(i as int)),
        decreases n - i,
    {
        assert(vs@.take(i + 1).drop_last() =~= vs@.take(i as int));
        match total.checked_add(vs[i]) {
            None => {
                proof {
                    lemma_sum_prefix(vs@, i + 1);
                }
                return None;
            },
            Some(t) => {
                total = t;
            },
        }
        i = i + 1;
    }
    assert(vs@.take(n as int) =~= vs@);
    Some(total)
}

/// The core number and counters of a line of `/proc/stat`.
fn sample_of(line: &[char]) -> (r: Option<(u32, Vec<u64>)>)
    ensures
        core_sample(line@) is None ==> r is None,
        core_sample(line@) matches Some((idx, vals)) ==> (r matches Some((i, vs)) && i == idx
            && vs@ == vals),
{
    let n = line.len();
    if !(n >= 3 && line[0] == 'c' && line[1] == 'p' && line[2] == 'u') {
        return None;
    }
    proof {
        lemma_core_word(line@);
    }
    let ws = split_words(line);
    let ghost w = words(line@);
    assert(ws@.map_values(|v: Vec<char>| v@)[0] == ws@[0]@);
    let first = &ws[0];
    assert(first@ == w[0]);
    assert(w[0] == line@.take(word_len(line@) as int));
    if first.len() == 3 {
        assert(first@ =~= seq!['c', 'p', 'u']);
        return None;
    }
    assert(w[0] != seq!['c', 'p', 'u']);
    let digits = copy_range(first.as_slice(), 3, first.len());
    assert(digits@ =~= w[0].skip(3));
    match parse_uint_chars(digits.as_slice(), u32::MAX as u64) {
        None => None,
        Some(idx) => {
            let m = ws.len();
            let mut vals: Vec<u64> = Vec::new();
            let mut i: usize = 1;
            assert(w.subrange(1, 1) =~= seq![]);
            while i < m
                invariant
                    1 <= i <= m == w.len(),
                    ws@.map_values(|v: Vec<char>| v@) == w,
                    vals@ == parse_values(w.subrange(1, i as int)),
                decreases m - i,
            {
                assert(ws@.map_values(|v: Vec<char>| v@)[i as int] == ws@[i as int]@);
                assert(w.subrange(1, i + 1).drop_last() =~= w.subrange(1, i as int));
                match parse_uint_chars(ws[i].as_slice(), u64::MAX) {
                    Some(v) => {
                        vals.push(v);
                    },
                    None => {},
                }
                i = i + 1;
            }
            assert(w.subrange(1, m as int) =~= w.skip(1));
            Some((idx as u32, vals))
        },
    }
}

/// The load tracker of the cores `from..=to`, which form cpufreq policy
/// number `from`; `policy_id` is the policy's place in the configuration.
pub struct CpuStat {
    policy_id: usize,
    from: u32,
    to: u32,
    history: Vec<(u64, u64)>,
}

/// Limits of one sampling round, taken from the current mode.
#[derive(Debug, Clone, Copy, PartialEq, Eq)]
pub struct ModeLimits {
    pub delay: u64,
    pub min_freq: u32,
    pub max_freq: u32,
    /// Bit pattern of the `f32` headroom factor.
    pub margin_bits: u32,
    pub diff: u32,
}

/// The limits used under a mode number that names no mode.
pub open spec fn fallback_limits() -> ModeLimits {
    ModeLimits { delay: 100, min_freq: 200000, max_freq: 200000, margin_bits: 0x3f80_0000, diff: 700000 }
}

/// The limits of the `policy_id`-th policy under mode number `mode_id`.
pub open spec fn mode_limits_spec(mode: ModeView, mode_id: int, policy_id: int) -> ModeLimits {
    if 0 <= mode_id <= 3 {
        let p = mode.profile(mode_id).policy[policy_id];
        ModeLimits {
            delay: p.delay,
            min_freq: p.min_freq,
            max_freq: p.max_freq,
            margin_bits: p.margin_bits,
            diff: p.diff,
        }
    } else {
        fallback_limits()
    }
}

impl CpuStat {
    /// The history holds one entry per core.
    pub closed spec fn wf(self) -> bool {
        self.history@.len() == core_count(self.from, self.to)
    }

    pub closed spec fn spec_policy_id(self) -> usize {
        self.policy_id
    }

    pub closed spec fn spec_from(self) -> u32 {
        self.from
    }

    pub closed spec fn spec_to(self) -> u32 {
        self.to
    }

    /// The last (total, idle) counters seen of each core.
    pub closed spec fn spec_history(self) -> Seq<(u64, u64)> {
        self.history@
    }

    /// A tracker that has seen nothing yet. The number of cores must fit in
    /// a `u32`.
    pub fn new(policy_id: usize, from: u32, to: u32) -> (r: CpuStat)
        requires
            to < from || to - from < u32::MAX,
        ensures
            r.spec_policy_id() == policy_id,
            r.spec_from() == from,
            r.spec_to() == to,
            r.spec_history() == Seq::new(core_count(from, to), |i: int| (0u64, 0u64)),
            r.wf(),
    {
        let num_cpus: usize = if to >= from {
            (to - from + 1) as usize
        } else {
            0
        };
        let mut history: Vec<(u64, u64)> = Vec::new();
        let mut i: usize = 0;
        while i < num_cpus
            invariant
                i <= num_cpus == core_count(from, to),
                history@ == Seq::new(i as nat, |k: int| (0u64, 0u64)),
            decreases num_cpus - i,
        {
            history.push((0, 0));
            i = i + 1;
            assert(history@ =~= Seq::new(i as nat, |k: int| (0u64, 0u64)));
        }
        CpuStat { policy_id, from, to, history }
    }

    pub fn policy_id(&self) -> (r: usize)
        ensures
            r == self.spec_policy_id(),
    {
        self.policy_id
    }

    pub fn from(&self) -> (r: u32)
        ensures
            r == self.spec_from(),
    {
        self.from
    }

    pub fn to(&self) -> (r: u32)
        ensures
            r == self.spec_to(),
    {
        self.to
    }

    /// One line of a pass: the running sum and count of measured loads after
    /// it, or `None` where `stat_step` has none.
    fn apply_line(&mut self, line: &[char], total_sum: u64, counted: u32) -> (r: Option<(u64, u32)>)
        requires
            old(self).wf(),
            total_sum <= 100 * counted,
        ensures
            final(self).wf(),
            final(self).spec_from() == old(self).spec_from(),
            final(self).spec_to() == old(self).spec_to(),
            final(self).spec_policy_id() == old(self).spec_policy_id(),
            ({
                let st = StatState {
                    history: old(self).spec_history(),
                    sum: total_sum as nat,
                    count: counted as nat,
                };
                match stat_step(st, line@, old(self).spec_from(), old(self).spec_to()) {
                    None => r is None,
                    Some(next) => r matches Some((s, c)) && s == next.sum && c == next.count
                        && final(self).spec_history() == next.history,
                }
            }),
    {
        let ghost st = StatState {
            history: self.history@,
            sum: total_sum as nat,
            count: counted as nat,
        };
        let sample = sample_of(line);
        let (idx, vals) = match sample {
            None => {
                return Some((total_sum, counted));
            },
            Some(s) => s,
        };
        if !(idx >= self.from && idx <= self.to) || vals.len() < 4 {
            return Some((total_sum, counted));
        }
        let current_total = match sum_values(&vals) {
            None => {
                return None;
            },
            Some(t) => t,
        };
        let extra: u64 = if vals.len() > 4 {
            vals[4]
        } else {
            0
        };
        let current_idle = match vals[3].checked_add(extra) {
            None => {
                return None;
            },
            Some(t) => t,
        };
        let h = (idx - self.from) as usize;
        let (prev_total, prev_idle) = self.history[h];
        let mut new_sum = total_sum;
        let mut new_count = counted;
        if prev_total != 0 && current_total > prev_total {
            let total_diff = current_total - prev_total;
            let idle_diff = if current_idle >= prev_idle {
                current_idle - prev_idle
            } else {
                0
            };
            if idle_diff > total_diff {
                return None;
            }
            let scaled = match (total_diff - idle_diff).checked_mul(100) {
                None => {
                    return None;
                },
                Some(m) => m,
            };
            if counted == u32::MAX {
                return None;
            }
            let cpu_load = scaled / total_diff;
            proof {
                lemma_share_bound((total_diff - idle_diff) as nat, total_diff as nat);
            }
            new_sum = total_sum + cpu_load;
            new_count = counted + 1;
        }
        self.history.set(h, (current_total, current_idle));
        Some((new_sum, new_count))
    }

    /// Reads a snapshot of `/proc/stat`: measures each core of the policy
    /// whose counters advanced since the previous snapshot, records the
    /// counters, and returns the average load in percent. `None` where the
    /// pass has no result (its arithmetic would overflow).
    pub fn get_cpu_load(&mut self, content: &str) -> (r: Option<u32>)
        requires
            old(self).wf(),
        ensures
            final(self).wf(),
            final(self).spec_from() == old(self).spec_from(),
            final(self).spec_to() == old(self).spec_to(),
            final(self).spec_policy_id() == old(self).spec_policy_id(),
            ({
                let st = StatState { history: old(self).spec_history(), sum: 0, count: 0 };
                match stat_pass(lines(content@), st, old(self).spec_from(), old(self).spec_to()) {
                    None => r is None,
                    Some(fin) => r == Some(reported_load(fin) as u32) && final(self).spec_history()
                        == fin.history,
                }
            }),
            r matches Some(load) ==> load <= 100,
    {
        let ghost from = self.from;
        let ghost to = self.to;
        let ghost init = StatState { history: self.history@, sum: 0, count: 0 };
        let cs = chars_of(content);
        let ls = split_lines(cs.as_slice());
        let ghost lv = lines(content@);
        let n = ls.len();
        let mut total_sum: u64 = 0;
        let mut counted: u32 = 0;
        let mut k: usize = 0;
        assert(lv.skip(0) =~= lv);
        while k < n
            invariant
                k <= n == lv.len(),
                ls@.map_values(|l: Vec<char>| l@) == lv,
                from == self.spec_from(),
                to == self.spec_to(),
                from == old(self).spec_from(),
                to == old(self).spec_to(),
                lv == lines(content@),
                init == (StatState { history: old(self).spec_history(), sum: 0, count: 0 }),
                self.spec_policy_id() == old(self).spec_policy_id(),
                self.wf(),
                total_sum <= 100 * counted,
                stat_pass(lv, init, from, to) == stat_pass(
                    lv.skip(k as int),
                    StatState {
                        history: self.spec_history(),
                        sum: total_sum as nat,
                        count: counted as nat,
                    },
                    from,
                    to,
                ),
            decreases n - k,
        {
            assert(ls@.map_values(|l: Vec<char>| l@)[k as int] == ls@[k as int]@);
            assert(lv.skip(k as int)[0] == lv[k as int]);
            assert(lv.skip(k as int).drop_first() =~= lv.skip(k + 1));
            let ghost cur = StatState {
                history: self.spec_history(),
                sum: total_sum as nat,
                count: counted as nat,
            };
            proof {
                lemma_step_bounds(cur, lv[k as int], from, to);
            }
            match self.apply_line(ls[k].as_slice(), total_sum, counted) {
                None => {
                    return None;
                },
                Some((s, c)) => {
                    total_sum = s;
                    counted = c;
                },
            }
            k = k + 1;
        }
        let ghost fin = StatState {
            history: self.spec_history(),
            sum: total_sum as nat,
            count: counted as nat,
        };
        proof {
            lemma_pass_bounds(lv.skip(n as int), fin, from, to);
        }
        if counted > 0 {
            proof {
                lemma_average_bound(total_sum as nat, counted as nat);
            }
            Some((total_sum / counted as u64) as u32)
        } else {
            Some(UNKNOWN_LOAD)
        }
    }

    /// The limits of this policy under mode number `mode_id`: the settings of
    /// its entry in the selected profile, or fixed limits for a number that
    /// names no mode.
    pub fn mode_limits(&self, mode: &Mode, mode_id: usize) -> (r: ModeLimits)
        requires
            mode_id <= 3 ==> self.spec_policy_id() < mode@.profile(mode_id as int).policy.len(),
        ensures
            r == mode_limits_spec(mode@, mode_id as int, self.spec_policy_id() as int),
    {
        let policies = if mode_id == 0 {
            &mode.power.policy
        } else if mode_id == 1 {
            &mode.blan.policy
        } else if mode_id == 2 {
            &mode.perf.policy
        } else if mode_id == 3 {
            &mode.fast.policy
        } else {
            return ModeLimits {
                delay: 100,
                min_freq: 200000,
                max_freq: 200000,
                margin_bits: 0x3f80_0000,
                diff: 700000,
            };
        };
        let p = &policies[self.policy_id];
        proof {
            assert(mode@.profile(mode_id as int).policy[self.policy_id as int] == p@);
        }
        ModeLimits {
            delay: p.delay,
            min_freq: p.min_freq,
            max_freq: p.max_freq,
            margin_bits: p.margin_bits,
            diff: p.diff,
        }
    }

    /// The frequency request of one sampling round: the range
    /// `(min_limit, target_max)` for this policy, unless the new ceiling is
    /// closer than `diff` to the current one.
    pub fn freq_event(&self, target_max: u32, min_limit: u32, hardware_max: u32, diff: u32) -> (r:
        Option<Event>)
        ensures
            freq_gap(target_max, hardware_max) < diff ==> r is None,
            freq_gap(target_max, hardware_max) >= diff ==> (r matches Some(e) && e@
                == EventView::SetFreq(self.spec_from() as u8, min_limit, target_max)),
    {
        let gap = if target_max >= hardware_max {
            target_max - hardware_max
        } else {
            hardware_max - target_max
        };
        if gap < diff {
            None
        } else {
            Some(Event::SetFreq((self.from as u8, (min_limit, target_max))))
        }
    }
}

/// The distance between two frequencies.
pub open spec fn freq_gap(a: u32, b: u32) -> nat {
    if a >= b {
        (a - b) as nat
    } else {
        (b - a) as nat
    }
}

} // verus!
