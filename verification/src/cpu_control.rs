//! CPU control: which sysfs writes a request turns into.
//!
//! Every write goes through the sysfs guard (`guard_sysfs_write`). A request
//! becomes a [`WritePlan`]: the writes to perform, in order, up to the first
//! one the guard refuses, and the outcome the request reports once they are
//! done. Whether an optional attribute exists on this machine is read by the
//! caller and passed in.
use vstd::prelude::*;
use crate::sysfs_guard::{guard_sysfs_write, guard_verdict, GuardError};
use crate::text::{chars_eq, chars_of, decimal, push_decimal};

verus! {

/// One write of `contents` to the sysfs attribute `path`.
#[derive(Debug)]
pub struct SysfsWrite {
    pub path: String,
    pub contents: String,
}

/// Why a control request failed.
#[derive(Debug)]
pub enum ControlError {
    /// The sysfs guard refused a write.
    Guard(GuardError),
    /// No boost/turbo attribute exists.
    BoostUnavailable,
    /// No SMT control attribute exists.
    SmtUnavailable,
    /// The amd_pstate status attribute does not exist.
    AmdPstateUnavailable,
    /// Not one of "passive", "active", "guided".
    InvalidAmdPstateStatus,
    /// The intel_pstate status attribute does not exist.
    IntelPstateUnavailable,
    /// Not one of "passive", "active".
    InvalidIntelPstateStatus,
    /// Not a known energy-performance preference.
    InvalidEpp,
    /// No backlight with a brightness attribute exists.
    NoBacklight,
}

/// The writes a request performs, in order, and what it then reports.
#[derive(Debug)]
pub struct WritePlan {
    pub writes: Vec<SysfsWrite>,
    pub outcome: Result<(), ControlError>,
}

/// A write as text: (path, contents).
pub open spec fn write_view(w: SysfsWrite) -> (Seq<char>, Seq<char>) {
    (w.path@, w.contents@)
}

pub open spec fn write_views(ws: Seq<SysfsWrite>) -> Seq<(Seq<char>, Seq<char>)> {
    ws.map_values(|w: SysfsWrite| write_view(w))
}

/// Number of leading candidates among the first `n` that the guard accepts.
pub open spec fn accepted_prefix(
    c: Seq<(Seq<char>, Seq<char>)>,
    bounds: Option<(u64, u64)>,
    max_brightness: Option<u32>,
    n: int,
) -> int
    decreases n,
{
    if n <= 0 {
        0
    } else {
        let a = accepted_prefix(c, bounds, max_brightness, n - 1);
        if a == n - 1 && guard_verdict(c[n - 1].0, c[n - 1].1, bounds, max_brightness) is Ok {
            n
        } else {
            a
        }
    }
}

proof fn lemma_accepted_prefix(
    c: Seq<(Seq<char>, Seq<char>)>,
    bounds: Option<(u64, u64)>,
    max_brightness: Option<u32>,
    n: int,
)
    requires
        0 <= n,
    ensures
        0 <= accepted_prefix(c, bounds, max_brightness, n) <= n,
    decreases n,
{
    if n > 0 {
        lemma_accepted_prefix(c, bounds, max_brightness, n - 1);
    }
}

/// The plan for candidate writes `c`: the accepted leading writes, then
/// `Ok(())` if all were accepted, or the guard's refusal of the first write it
/// refused.
pub open spec fn guarded(
    c: Seq<(Seq<char>, Seq<char>)>,
    bounds: Option<(u64, u64)>,
    max_brightness: Option<u32>,
) -> (Seq<(Seq<char>, Seq<char>)>, Result<(), ControlError>) {
    let k = accepted_prefix(c, bounds, max_brightness, c.len() as int);
    (
        c.take(k),
        if k == c.len() {
            Ok(())
        } else {
            match guard_verdict(c[k].0, c[k].1, bounds, max_brightness) {
                Err(e) => Err(ControlError::Guard(e)),
                Ok(_) => Ok(()),
            }
        },
    )
}

pub open spec fn plan_is(p: WritePlan, expected: (Seq<(Seq<char>, Seq<char>)>, Result<(), ControlError>)) -> bool {
    write_views(p.writes@) == expected.0 && p.outcome == expected.1
}

/// Runs the sysfs guard over the candidate writes, in order.
pub fn guard_writes(c: Vec<SysfsWrite>, bounds: Option<(u64, u64)>, max_brightness: Option<u32>) -> (r:
    WritePlan)
    ensures
        plan_is(r, guarded(write_views(c@), bounds, max_brightness)),
{
    let ghost cs = write_views(c@);
    let ghost cw = c@;
    let n = c.len();
    let mut accepted: Vec<SysfsWrite> = Vec::new();
    let mut rest = c;
    let mut i: usize = 0;
    while i < n
        invariant
            cw == c@,
            cs == write_views(cw),
            n == cs.len(),
            i <= n,
            rest@ == cw.subrange(i as int, n as int),
            write_views(accepted@) == cs.take(i as int),
            accepted_prefix(cs, bounds, max_brightness, i as int) == i,
        decreases n - i,
    {
        let w = rest.remove(0);
        proof {
            assert(w == cw[i as int]);
            assert(write_view(w) == cs[i as int]);
            assert(rest@ =~= cw.subrange(i + 1, n as int));
        }
        match guard_sysfs_write(w.path.as_str(), w.contents.as_str(), bounds, max_brightness) {
            Ok(()) => {
                let ghost before = accepted@;
                accepted.push(w);
                proof {
                    assert(write_views(accepted@) =~= write_views(before).push(cs[i as int]));
                    assert(write_views(accepted@) =~= cs.take(i + 1));
                }
                i = i + 1;
            },
            Err(e) => {
                proof {
                    lemma_prefix_stops(cs, bounds, max_brightness, i as int);
                    assert(accepted_prefix(cs, bounds, max_brightness, n as int) == i);
                    assert(guarded(cs, bounds, max_brightness).0 == cs.take(i as int));
                }
                return WritePlan { writes: accepted, outcome: Err(ControlError::Guard(e)) };
            },
        }
    }
    proof {
        assert(cs.take(n as int) =~= cs);
    }
    WritePlan { writes: accepted, outcome: Ok(()) }
}

/// Once a candidate is refused, no later one counts as accepted.
proof fn lemma_prefix_stops(
    c: Seq<(Seq<char>, Seq<char>)>,
    bounds: Option<(u64, u64)>,
    max_brightness: Option<u32>,
    i: int,
)
    requires
        0 <= i < c.len(),
        accepted_prefix(c, bounds, max_brightness, i) == i,
        guard_verdict(c[i].0, c[i].1, bounds, max_brightness) is Err,
    ensures
        forall|m: int| i < m <= c.len() ==> #[trigger] accepted_prefix(c, bounds, max_brightness, m) == i,
{
    assert forall|m: int| i < m <= c.len() implies #[trigger] accepted_prefix(
        c,
        bounds,
        max_brightness,
        m,
    ) == i by {
        lemma_prefix_stops_at(c, bounds, max_brightness, i, m);
    }
}

proof fn lemma_prefix_stops_at(
    c: Seq<(Seq<char>, Seq<char>)>,
    bounds: Option<(u64, u64)>,
    max_brightness: Option<u32>,
    i: int,
    m: int,
)
    requires
        0 <= i < m <= c.len(),
        accepted_prefix(c, bounds, max_brightness, i) == i,
        guard_verdict(c[i].0, c[i].1, bounds, max_brightness) is Err,
    ensures
        accepted_prefix(c, bounds, max_brightness, m) == i,
    decreases m,
{
    if m > i + 1 {
        lemma_prefix_stops_at(c, bounds, max_brightness, i, m - 1);
    }
}

/// `/sys/devices/system/cpu/cpu{i}/cpufreq/{attr}`.
pub open spec fn cpu_attr_path(i: nat, attr: Seq<char>) -> Seq<char> {
    "/sys/devices/system/cpu/cpu"@ + decimal(i) + "/cpufreq/"@ + attr
}

pub fn cpu_attr_path_exec(i: u32, attr: &str) -> (r: String)
    ensures
        r@ == cpu_attr_path(i as nat, attr@),
{
    let mut s = "/sys/devices/system/cpu/cpu".to_owned();
    push_decimal(&mut s, i as u64);
    s.append("/cpufreq/");
    s.append(attr);
    s
}

fn write_of(path: String, contents: &str) -> (r: SysfsWrite)
    ensures
        write_view(r) == (path@, contents@),
{
    SysfsWrite { path, contents: contents.to_owned() }
}

fn push_write(ws: &mut Vec<SysfsWrite>, w: SysfsWrite)
    ensures
        write_views(final(ws)@) == write_views(old(ws)@).push(write_view(w)),
{
    ws.push(w);
    proof {
        assert(write_views(ws@) =~= write_views(old(ws)@).push(write_view(w)));
    }
}

/// `contents` written to `attr` of every CPU `0..n`, in order.
pub open spec fn each_cpu(n: nat, attr: Seq<char>, contents: Seq<char>) -> Seq<(Seq<char>, Seq<char>)> {
    Seq::new(n, |k: int| (cpu_attr_path(k as nat, attr), contents))
}

/// Governor writes: CPU 0 first, then every CPU in order.
pub open spec fn governor_writes(g: Seq<char>, n: nat) -> Seq<(Seq<char>, Seq<char>)> {
    seq![(cpu_attr_path(0, "scaling_governor"@), g)] + each_cpu(n, "scaling_governor"@, g)
}

/// Sets the scaling governor of every CPU (`cpu_count` CPUs, as
/// /proc/cpuinfo lists them), CPU 0 first. The guard refuses a governor that
/// is not sanctioned.
pub fn set_cpu_governor(governor: &str, cpu_count: u32) -> (r: WritePlan)
    ensures
        plan_is(r, guarded(governor_writes(governor@, cpu_count as nat), None, None)),
{
    let mut ws: Vec<SysfsWrite> = Vec::new();
    push_write(&mut ws, write_of(cpu_attr_path_exec(0, "scaling_governor"), governor));
    let ghost head = write_views(ws@);
    let mut i: u32 = 0;
    while i < cpu_count
        invariant
            i <= cpu_count,
            head == seq![(cpu_attr_path(0, "scaling_governor"@), governor@)],
            write_views(ws@) == head + each_cpu(i as nat, "scaling_governor"@, governor@),
        decreases cpu_count - i,
    {
        push_write(&mut ws, write_of(cpu_attr_path_exec(i, "scaling_governor"), governor));
        proof {
            assert(each_cpu((i + 1) as nat, "scaling_governor"@, governor@) =~= each_cpu(
                i as nat,
                "scaling_governor"@,
                governor@,
            ).push((cpu_attr_path(i as nat, "scaling_governor"@), governor@)));
            assert(write_views(ws@) =~= head + each_cpu((i + 1) as nat, "scaling_governor"@, governor@));
        }
        i = i + 1;
    }
    guard_writes(ws, None, None)
}

/// The frequency-limit writes of CPUs `0..n`: per CPU, max before min when
/// the new range moves down (max lowered or min raised), so the kernel never
/// sees min above max; min before max otherwise.
pub open spec fn frequency_writes(min: u64, max: u64, cur_min: u64, cur_max: u64, n: nat) -> Seq<
    (Seq<char>, Seq<char>),
>
    decreases n,
{
    if n == 0 {
        Seq::empty()
    } else {
        let i = (n - 1) as nat;
        let min_w = (cpu_attr_path(i, "scaling_min_freq"@), decimal(min as nat));
        let max_w = (cpu_attr_path(i, "scaling_max_freq"@), decimal(max as nat));
        let pair = if max < cur_max || min > cur_min {
            seq![max_w, min_w]
        } else {
            seq![min_w, max_w]
        };
        frequency_writes(min, max, cur_min, cur_max, i) + pair
    }
}

/// CPU `i`'s write of the new maximum.
pub open spec fn max_write(i: nat, max: u64) -> (Seq<char>, Seq<char>) {
    (cpu_attr_path(i, "scaling_max_freq"@), decimal(max as nat))
}

/// CPU `i`'s write of the new minimum.
pub open spec fn min_write(i: nat, min: u64) -> (Seq<char>, Seq<char>) {
    (cpu_attr_path(i, "scaling_min_freq"@), decimal(min as nat))
}

proof fn lemma_frequency_writes_prefix(min: u64, max: u64, cur_min: u64, cur_max: u64, n: nat, m: nat)
    requires
        m <= n,
    ensures
        frequency_writes(min, max, cur_min, cur_max, n).len() == 2 * n,
        frequency_writes(min, max, cur_min, cur_max, n).subrange(0, 2 * m as int) == frequency_writes(
            min,
            max,
            cur_min,
            cur_max,
            m,
        ),
    decreases n,
{
    if n > 0 {
        if m < n {
            lemma_frequency_writes_prefix(min, max, cur_min, cur_max, (n - 1) as nat, m);
            let prev = frequency_writes(min, max, cur_min, cur_max, (n - 1) as nat);
            let all = frequency_writes(min, max, cur_min, cur_max, n);
            assert(all.subrange(0, 2 * m as int) =~= prev.subrange(0, 2 * m as int));
        } else {
            lemma_frequency_writes_prefix(min, max, cur_min, cur_max, (n - 1) as nat, (n - 1) as nat);
            let all = frequency_writes(min, max, cur_min, cur_max, n);
            assert(all.subrange(0, 2 * m as int) =~= all);
        }
    }
}

proof fn lemma_cpu_limit_pair(min: u64, max: u64, cur_min: u64, cur_max: u64, n: nat, i: nat)
    requires
        i < n,
    ensures
        frequency_writes(min, max, cur_min, cur_max, n)[2 * i as int] == (if min > cur_min || max < cur_max {
            max_write(i, max)
        } else {
            min_write(i, min)
        }),
        frequency_writes(min, max, cur_min, cur_max, n)[2 * i as int + 1] == (if min > cur_min || max < cur_max {
            min_write(i, min)
        } else {
            max_write(i, max)
        }),
{
    let w = frequency_writes(min, max, cur_min, cur_max, n);
    lemma_frequency_writes_prefix(min, max, cur_min, cur_max, n, i + 1);
    let upto = frequency_writes(min, max, cur_min, cur_max, i + 1);
    assert(w[2 * i as int] == upto[2 * i as int]);
    assert(w[2 * i as int + 1] == upto[2 * i as int + 1]);
    lemma_frequency_writes_prefix(min, max, cur_min, cur_max, i, i);
    let prev = frequency_writes(min, max, cur_min, cur_max, i);
    let pair = if max < cur_max || min > cur_min {
        seq![max_write(i, max), min_write(i, min)]
    } else {
        seq![min_write(i, min), max_write(i, max)]
    };
    assert(upto == prev + pair);
    assert(upto[2 * i as int] == pair[0]);
    assert(upto[2 * i as int + 1] == pair[1]);
}

/// The two writes that CPU `i` gets in `w`, in the order they are made.
pub open spec fn limit_writes_of_cpu(w: Seq<(Seq<char>, Seq<char>)>, i: nat) -> (
    (Seq<char>, Seq<char>),
    (Seq<char>, Seq<char>),
) {
    (w[2 * i as int], w[2 * i as int + 1])
}

/// Every CPU gets exactly its two limit writes, one after the other: the
/// new maximum first whenever the minimum is raised or the maximum lowered,
/// and the new minimum first otherwise.
pub proof fn lemma_max_goes_first_when_the_range_moves_up_or_shrinks(
    min: u64,
    max: u64,
    cur_min: u64,
    cur_max: u64,
    n: nat,
)
    ensures
        frequency_writes(min, max, cur_min, cur_max, n).len() == 2 * n,
        forall|i: nat|
            i < n ==> #[trigger] limit_writes_of_cpu(frequency_writes(min, max, cur_min, cur_max, n), i) == (
            if min > cur_min || max < cur_max {
                (max_write(i, max), min_write(i, min))
            } else {
                (min_write(i, min), max_write(i, max))
            }),
{
    lemma_frequency_writes_prefix(min, max, cur_min, cur_max, n, n);
    assert forall|i: nat| i < n implies #[trigger] limit_writes_of_cpu(
        frequency_writes(min, max, cur_min, cur_max, n),
        i,
    ) == (if min > cur_min || max < cur_max {
        (max_write(i, max), min_write(i, min))
    } else {
        (min_write(i, min), max_write(i, max))
    }) by {
        lemma_cpu_limit_pair(min, max, cur_min, cur_max, n, i);
    }
}

/// The kernel never sees a CPU's minimum above its maximum between its two
/// writes: starting from a valid range and moving to a valid range that is
/// not wholly below the current minimum, the limits in force after the
/// first write of each CPU still have the minimum at or below the maximum.
pub proof fn lemma_no_cpu_sees_min_above_max(min: u64, max: u64, cur_min: u64, cur_max: u64, n: nat)
    requires
        min <= max,
        cur_min <= cur_max,
        cur_min <= max,
    ensures
        forall|i: nat|
            i < n ==> {
                let first = #[trigger] frequency_writes(min, max, cur_min, cur_max, n)[2 * i as int];
                let after = if first == max_write(i, max) {
                    (cur_min, max)
                } else {
                    (min, cur_max)
                };
                after.0 <= after.1
            },
{
    assert forall|i: nat| i < n implies {
        let first = #[trigger] frequency_writes(min, max, cur_min, cur_max, n)[2 * i as int];
        let after = if first == max_write(i, max) {
            (cur_min, max)
        } else {
            (min, cur_max)
        };
        after.0 <= after.1
    } by {
        lemma_cpu_limit_pair(min, max, cur_min, cur_max, n, i);
    }
}

fn decimal_text(n: u64) -> (r: String)
    ensures
        r@ == decimal(n as nat),
{
    let mut s = String::new();
    push_decimal(&mut s, n);
    assert(s@ =~= decimal(n as nat));
    s
}

/// Sets the scaling frequency limits (kHz) of every CPU. `current_min` and
/// `current_max` are CPU 0's present limits (`None` when unreadable, which
/// counts as unchanged); `hw_bounds` are the hardware limits the guard checks
/// every value against. When the outcome is `Ok`, the limits count as
/// modified and are restored when the daemon stops.
pub fn set_cpu_frequency_limits(
    min_freq: u64,
    max_freq: u64,
    current_min: Option<u64>,
    current_max: Option<u64>,
    cpu_count: u32,
    hw_bounds: Option<(u64, u64)>,
) -> (r: WritePlan)
    ensures
        plan_is(
            r,
            guarded(
                frequency_writes(
                    min_freq,
                    max_freq,
                    match current_min {
                        Some(v) => v,
                        None => min_freq,
                    },
                    match current_max {
                        Some(v) => v,
                        None => max_freq,
                    },
                    cpu_count as nat,
                ),
                hw_bounds,
                None,
            ),
        ),
{
    let cur_min = match current_min {
        Some(v) => v,
        None => min_freq,
    };
    let cur_max = match current_max {
        Some(v) => v,
        None => max_freq,
    };
    let max_first = max_freq < cur_max || min_freq > cur_min;
    let min_text = decimal_text(min_freq);
    let max_text = decimal_text(max_freq);
    let mut ws: Vec<SysfsWrite> = Vec::new();
    let mut i: u32 = 0;
    while i < cpu_count
        invariant
            i <= cpu_count,
            max_first == (max_freq < cur_max || min_freq > cur_min),
            min_text@ == decimal(min_freq as nat),
            max_text@ == decimal(max_freq as nat),
            write_views(ws@) == frequency_writes(min_freq, max_freq, cur_min, cur_max, i as nat),
        decreases cpu_count - i,
    {
        let min_w = write_of(cpu_attr_path_exec(i, "scaling_min_freq"), min_text.as_str());
        let max_w = write_of(cpu_attr_path_exec(i, "scaling_max_freq"), max_text.as_str());
        let ghost before = write_views(ws@);
        let ghost mv = write_view(min_w);
        let ghost xv = write_view(max_w);
        if max_first {
            push_write(&mut ws, max_w);
            push_write(&mut ws, min_w);
            proof {
                assert(write_views(ws@) =~= before + seq![xv, mv]);
            }
        } else {
            push_write(&mut ws, min_w);
            push_write(&mut ws, max_w);
            proof {
                assert(write_views(ws@) =~= before + seq![mv, xv]);
            }
        }
        i = i + 1;
    }
    guard_writes(ws, hw_bounds, None)
}

/// The limits to restore when the daemon stops: only when it modified them,
/// and only when both hardware limits are known.
pub fn restore_cpu_frequency_limits(modified: bool, hw_min: Option<u64>, hw_max: Option<u64>) -> (r:
    Option<(u64, u64)>)
    ensures
        r == (if modified && hw_min is Some && hw_max is Some {
            Some((hw_min.unwrap(), hw_max.unwrap()))
        } else {
            None
        }),
{
    if !modified {
        return None;
    }
    match (hw_min, hw_max) {
        (Some(lo), Some(hi)) => Some((lo, hi)),
        _ => None,
    }
}

/// A plan that performs nothing and reports `e`.
fn refused(e: ControlError) -> (r: WritePlan)
    ensures
        r.writes@.len() == 0,
        r.outcome == Err::<(), ControlError>(e),
{
    WritePlan { writes: Vec::new(), outcome: Err(e) }
}

fn single(path: &str, contents: &str) -> (r: Vec<SysfsWrite>)
    ensures
        write_views(r@) == seq![(path@, contents@)],
{
    let mut v = Vec::new();
    push_write(&mut v, write_of(path.to_owned(), contents));
    proof {
        assert(write_views(v@) =~= seq![(path@, contents@)]);
    }
    v
}

pub open spec fn toggle(on: bool) -> Seq<char> {
    if on {
        "1"@
    } else {
        "0"@
    }
}

/// Which boost attribute a request goes to, by priority: AMD cpufreq boost,
/// Intel no_turbo (inverted), AMD P-State cpb_boost.
pub open spec fn boost_write(enabled: bool, amd: bool, intel: bool, pstate: bool) -> Option<
    (Seq<char>, Seq<char>),
> {
    if amd {
        Some(("/sys/devices/system/cpu/cpufreq/boost"@, toggle(enabled)))
    } else if intel {
        Some(("/sys/devices/system/cpu/intel_pstate/no_turbo"@, toggle(!enabled)))
    } else if pstate {
        Some(("/sys/devices/system/cpu/amd_pstate/cpb_boost"@, toggle(enabled)))
    } else {
        None
    }
}

/// Enables or disables CPU boost. `amd_boost`, `intel_no_turbo` and
/// `amd_pstate_boost` say which of the three attributes exist.
pub fn set_cpu_boost(enabled: bool, amd_boost: bool, intel_no_turbo: bool, amd_pstate_boost: bool) -> (r:
    WritePlan)
    ensures
        match boost_write(enabled, amd_boost, intel_no_turbo, amd_pstate_boost) {
            Some(w) => plan_is(r, guarded(seq![w], None, None)),
            None => r.writes@.len() == 0 && r.outcome == Err::<(), ControlError>(
                ControlError::BoostUnavailable,
            ),
        },
{
    let on = if enabled {
        "1"
    } else {
        "0"
    };
    let off = if enabled {
        "0"
    } else {
        "1"
    };
    if amd_boost {
        guard_writes(single("/sys/devices/system/cpu/cpufreq/boost", on), None, None)
    } else if intel_no_turbo {
        guard_writes(single("/sys/devices/system/cpu/intel_pstate/no_turbo", off), None, None)
    } else if amd_pstate_boost {
        guard_writes(single("/sys/devices/system/cpu/amd_pstate/cpb_boost", on), None, None)
    } else {
        refused(ControlError::BoostUnavailable)
    }
}

/// Turns SMT on or off; `available` says whether the control attribute
/// exists.
pub fn set_smt(enabled: bool, available: bool) -> (r: WritePlan)
    ensures
        !available ==> r.writes@.len() == 0 && r.outcome == Err::<(), ControlError>(
            ControlError::SmtUnavailable,
        ),
        available ==> plan_is(
            r,
            guarded(
                seq![
                    ("/sys/devices/system/cpu/smt/control"@, if enabled {
                        "on"@
                    } else {
                        "off"@
                    }),
                ],
                None,
                None,
            ),
        ),
{
    if !available {
        return refused(ControlError::SmtUnavailable);
    }
    let word = if enabled {
        "on"
    } else {
        "off"
    };
    guard_writes(single("/sys/devices/system/cpu/smt/control", word), None, None)
}

fn is_one_of(s: &str, words: &[&str]) -> (r: bool)
    ensures
        r == exists|k: int| 0 <= k < words@.len() && s@ == (#[trigger] words@[k])@,
{
    let c = chars_of(s);
    let mut k: usize = 0;
    while k < words.len()
        invariant
            c@ == s@,
            k <= words@.len(),
            forall|q: int| 0 <= q < k ==> s@ != (#[trigger] words@[q])@,
        decreases words@.len() - k,
    {
        let w = chars_of(words[k]);
        if chars_eq(c.as_slice(), w.as_slice()) {
            return true;
        }
        k = k + 1;
    }
    false
}

pub open spec fn amd_pstate_word(s: Seq<char>) -> bool {
    s == "passive"@ || s == "active"@ || s == "guided"@
}

pub open spec fn intel_pstate_word(s: Seq<char>) -> bool {
    s == "passive"@ || s == "active"@
}

/// Sets the amd_pstate driver mode; `available` says whether its status
/// attribute exists.
pub fn set_amd_pstate_status(status: &str, available: bool) -> (r: WritePlan)
    ensures
        !available ==> r.writes@.len() == 0 && r.outcome == Err::<(), ControlError>(
            ControlError::AmdPstateUnavailable,
        ),
        available && !amd_pstate_word(status@) ==> r.writes@.len() == 0 && r.outcome == Err::<
            (),
            ControlError,
        >(ControlError::InvalidAmdPstateStatus),
        available && amd_pstate_word(status@) ==> plan_is(
            r,
            guarded(seq![("/sys/devices/system/cpu/amd_pstate/status"@, status@)], None, None),
        ),
{
    if !available {
        return refused(ControlError::AmdPstateUnavailable);
    }
    let words = ["passive", "active", "guided"];
    let ok = is_one_of(status, &words);
    proof {
        reveal_strlit("passive");
        reveal_strlit("active");
        reveal_strlit("guided");
        if amd_pstate_word(status@) {
            if status@ == "passive"@ {
                assert(status@ == words@[0]@);
            } else if status@ == "active"@ {
                assert(status@ == words@[1]@);
            } else {
                assert(status@ == words@[2]@);
            }
        }
    }
    if !ok {
        return refused(ControlError::InvalidAmdPstateStatus);
    }
    guard_writes(single("/sys/devices/system/cpu/amd_pstate/status", status), None, None)
}

/// Sets the intel_pstate driver mode; `available` says whether its status
/// attribute exists.
pub fn set_intel_pstate_status(status: &str, available: bool) -> (r: WritePlan)
    ensures
        !available ==> r.writes@.len() == 0 && r.outcome == Err::<(), ControlError>(
            ControlError::IntelPstateUnavailable,
        ),
        available && !intel_pstate_word(status@) ==> r.writes@.len() == 0 && r.outcome == Err::<
            (),
            ControlError,
        >(ControlError::InvalidIntelPstateStatus),
        available && intel_pstate_word(status@) ==> plan_is(
            r,
            guarded(seq![("/sys/devices/system/cpu/intel_pstate/status"@, status@)], None, None),
        ),
{
    if !available {
        return refused(ControlError::IntelPstateUnavailable);
    }
    let words = ["passive", "active"];
    let ok = is_one_of(status, &words);
    proof {
        if intel_pstate_word(status@) {
            if status@ == "passive"@ {
                assert(status@ == words@[0]@);
            } else {
                assert(status@ == words@[1]@);
            }
        }
    }
    if !ok {
        return refused(ControlError::InvalidIntelPstateStatus);
    }
    guard_writes(single("/sys/devices/system/cpu/intel_pstate/status", status), None, None)
}

/// The energy-performance preferences the kernel documents.
pub open spec fn epp_word(s: Seq<char>) -> bool {
    ||| s == "performance"@
    ||| s == "balance_performance"@
    ||| s == "balance_power"@
    ||| s == "power"@
    ||| s == "default"@
    ||| s == "balance-performance"@
    ||| s == "balance-power"@
}

/// The EPP writes of the CPUs among `0..n` whose attribute exists.
pub open spec fn epp_writes(epp: Seq<char>, present: Seq<bool>, n: int) -> Seq<(Seq<char>, Seq<char>)>
    decreases n,
{
    if n <= 0 {
        Seq::empty()
    } else if present[n - 1] {
        epp_writes(epp, present, n - 1).push(
            (cpu_attr_path((n - 1) as nat, "energy_performance_preference"@), epp),
        )
    } else {
        epp_writes(epp, present, n - 1)
    }
}

fn is_epp_word(epp: &str) -> (r: bool)
    ensures
        r == epp_word(epp@),
{
    let words = [
        "performance",
        "balance_performance",
        "balance_power",
        "power",
        "default",
        "balance-performance",
        "balance-power",
    ];
    let ok = is_one_of(epp, &words);
    proof {
        if epp_word(epp@) {
            if epp@ == "performance"@ {
                assert(epp@ == words@[0]@);
            } else if epp@ == "balance_performance"@ {
                assert(epp@ == words@[1]@);
            } else if epp@ == "balance_power"@ {
                assert(epp@ == words@[2]@);
            } else if epp@ == "power"@ {
                assert(epp@ == words@[3]@);
            } else if epp@ == "default"@ {
                assert(epp@ == words@[4]@);
            } else if epp@ == "balance-performance"@ {
                assert(epp@ == words@[5]@);
            } else {
                assert(epp@ == words@[6]@);
            }
        }
    }
    ok
}

fn epp_candidates(epp: &str, present: &[bool]) -> (r: Vec<SysfsWrite>)
    requires
        present@.len() <= u32::MAX,
    ensures
        write_views(r@) == epp_writes(epp@, present@, present@.len() as int),
{
    let mut ws: Vec<SysfsWrite> = Vec::new();
    let mut i: usize = 0;
    while i < present.len()
        invariant
            present@.len() <= u32::MAX,
            i <= present@.len(),
            write_views(ws@) == epp_writes(epp@, present@, i as int),
        decreases present@.len() - i,
    {
        if present[i] {
            push_write(
                &mut ws,
                write_of(cpu_attr_path_exec(i as u32, "energy_performance_preference"), epp),
            );
        }
        i = i + 1;
    }
    ws
}

/// Sets the energy-performance preference of every CPU whose attribute
/// exists; `present[i]` says whether CPU `i` has one (one entry per CPU that
/// /proc/cpuinfo lists). An unknown preference is refused before anything is
/// written.
pub fn set_energy_performance_preference(epp: &str, present: &[bool]) -> (r: WritePlan)
    requires
        present@.len() <= u32::MAX,
    ensures
        !epp_word(epp@) ==> r.writes@.len() == 0 && r.outcome == Err::<(), ControlError>(
            ControlError::InvalidEpp,
        ),
        epp_word(epp@) ==> plan_is(
            r,
            guarded(epp_writes(epp@, present@, present@.len() as int), None, None),
        ),
{
    if !is_epp_word(epp) {
        return refused(ControlError::InvalidEpp);
    }
    guard_writes(epp_candidates(epp, present), None, None)
}

/// The cpufreq-wide EPP attribute.
pub open spec fn policy_epp_path() -> Seq<char> {
    "/sys/devices/system/cpu/cpufreq/energy_performance_preference"@
}

/// Sets the energy-performance preference of every CPU, then of the
/// cpufreq-wide attribute when `policy_present` says it exists.
pub fn set_all_cpu_epp(epp: &str, present: &[bool], policy_present: bool) -> (r: WritePlan)
    requires
        present@.len() <= u32::MAX,
    ensures
        !epp_word(epp@) ==> r.writes@.len() == 0 && r.outcome == Err::<(), ControlError>(
            ControlError::InvalidEpp,
        ),
        epp_word(epp@) ==> plan_is(
            r,
            guarded(
                epp_writes(epp@, present@, present@.len() as int) + if policy_present {
                    seq![(policy_epp_path(), epp@)]
                } else {
                    Seq::empty()
                },
                None,
                None,
            ),
        ),
{
    if !is_epp_word(epp) {
        return refused(ControlError::InvalidEpp);
    }
    let mut ws = epp_candidates(epp, present);
    let ghost before = write_views(ws@);
    if policy_present {
        push_write(
            &mut ws,
            write_of("/sys/devices/system/cpu/cpufreq/energy_performance_preference".to_owned(), epp),
        );
        proof {
            assert(write_views(ws@) =~= before + seq![(policy_epp_path(), epp@)]);
        }
    } else {
        proof {
            assert(write_views(ws@) =~= before + Seq::<(Seq<char>, Seq<char>)>::empty());
        }
    }
    guard_writes(ws, None, None)
}

proof fn lemma_accepted_prefix_passes(
    c: Seq<(Seq<char>, Seq<char>)>,
    bounds: Option<(u64, u64)>,
    max_brightness: Option<u32>,
    n: int,
)
    requires
        0 <= n <= c.len(),
    ensures
        0 <= accepted_prefix(c, bounds, max_brightness, n) <= n,
        forall|k: int|
            0 <= k < accepted_prefix(c, bounds, max_brightness, n) ==> guard_verdict(
                #[trigger] c[k].0,
                c[k].1,
                bounds,
                max_brightness,
            ) is Ok,
    decreases n,
{
    if n > 0 {
        lemma_accepted_prefix_passes(c, bounds, max_brightness, n - 1);
    }
}

/// Nothing reaches sysfs that the guard refused: every write of a plan passed
/// the guard with the bounds it was given, the writes are the candidates in
/// their order, and a plan stops at the first refusal, which it reports.
pub proof fn lemma_plans_only_write_what_the_guard_accepts(
    c: Seq<(Seq<char>, Seq<char>)>,
    bounds: Option<(u64, u64)>,
    max_brightness: Option<u32>,
)
    ensures
        guarded(c, bounds, max_brightness).0.len() <= c.len(),
        forall|k: int|
            0 <= k < guarded(c, bounds, max_brightness).0.len() ==> (#[trigger] guarded(
                c,
                bounds,
                max_brightness,
            ).0[k]) == c[k] && guard_verdict(c[k].0, c[k].1, bounds, max_brightness) is Ok,
        guarded(c, bounds, max_brightness).1 is Ok <==> guarded(c, bounds, max_brightness).0.len()
            == c.len(),
{
    lemma_accepted_prefix_passes(c, bounds, max_brightness, c.len() as int);
    let k = accepted_prefix(c, bounds, max_brightness, c.len() as int);
    if k < c.len() {
        // The candidate at `k` is the one the guard refused.
        lemma_refusal_at_prefix_end(c, bounds, max_brightness, c.len() as int);
    }
}

proof fn lemma_refusal_at_prefix_end(
    c: Seq<(Seq<char>, Seq<char>)>,
    bounds: Option<(u64, u64)>,
    max_brightness: Option<u32>,
    n: int,
)
    requires
        0 <= n <= c.len(),
        accepted_prefix(c, bounds, max_brightness, n) < n,
    ensures
        guard_verdict(
            c[accepted_prefix(c, bounds, max_brightness, n)].0,
            c[accepted_prefix(c, bounds, max_brightness, n)].1,
            bounds,
            max_brightness,
        ) is Err,
    decreases n,
{
    lemma_accepted_prefix(c, bounds, max_brightness, n - 1);
    if accepted_prefix(c, bounds, max_brightness, n - 1) < n - 1 {
        lemma_refusal_at_prefix_end(c, bounds, max_brightness, n - 1);
    }
}

/// A governor that is not sanctioned is never written to any CPU: the plan
/// performs no write and reports the refusal.
pub proof fn lemma_unsanctioned_governor_is_never_written(g: Seq<char>, n: nat)
    requires
        !crate::sysfs_guard::governor_allowed(g),
    ensures
        guarded(governor_writes(g, n), None, None).0.len() == 0,
        guarded(governor_writes(g, n), None, None).1 is Err,
{
    let c = governor_writes(g, n);
    let p = c[0].0;
    reveal_strlit("scaling_governor");
    reveal_strlit("/sys/devices/system/cpu/cpu");
    reveal_strlit("/cpufreq/");
    assert(p.subrange(p.len() - 16, p.len() as int) =~= "scaling_governor"@);
    assert(guard_verdict(c[0].0, c[0].1, None, None) is Err);
    assert(accepted_prefix(c, None, None, 1) == 0) by {
        reveal_with_fuel(accepted_prefix, 2);
    }
    lemma_prefix_stops(c, None, None, 0);
    lemma_refusal_at_prefix_end(c, None, None, c.len() as int);
}

} // verus!
