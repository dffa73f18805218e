//! CPU facts read from procfs and sysfs text: per-CPU time counters, the CPU
//! count, the governor and preference lists, boost and SMT state, and which
//! control interfaces exist.
use vstd::prelude::*;
use crate::text::{
    char_vec_views, chars_eq, chars_of, parse_unsigned, parse_unsigned_chars, split_chars,
    split_on, split_ws_chars, starts_with, starts_with_chars, string_of, trim_ws, trim_ws_chars,
    words,
};
use crate::types::CpuCapabilities;

verus! {

/// One CPU's time counters from /proc/stat (in clock ticks).
#[derive(Debug, Clone, Copy, PartialEq, Eq, Structural)]
pub struct CpuStats {
    pub user: u64,
    pub nice: u64,
    pub system: u64,
    pub idle: u64,
    pub iowait: u64,
    pub irq: u64,
    pub softirq: u64,
}

pub open spec fn total_of(s: CpuStats) -> int {
    s.user + s.nice + s.system + s.idle + s.iowait + s.irq + s.softirq
}

pub open spec fn work_of(s: CpuStats) -> int {
    s.user + s.nice + s.system + s.irq + s.softirq
}

impl CpuStats {
    /// All ticks.
    pub fn total(&self) -> (r: u64)
        requires
            total_of(*self) <= u64::MAX,
        ensures
            r == total_of(*self),
    {
        self.user + self.nice + self.system + self.idle + self.iowait + self.irq + self.softirq
    }

    /// Ticks spent working (neither idle nor waiting for I/O).
    pub fn work(&self) -> (r: u64)
        requires
            total_of(*self) <= u64::MAX,
        ensures
            r == work_of(*self),
    {
        self.user + self.nice + self.system + self.irq + self.softirq
    }
}

/// Work and total ticks between two samples of one CPU (counters that went
/// backwards count as zero), from which the load is `work / total`.
pub fn load_ticks(prev: &CpuStats, cur: &CpuStats) -> (r: (u64, u64))
    requires
        total_of(*prev) <= u64::MAX,
        total_of(*cur) <= u64::MAX,
    ensures
        r.0 == (if work_of(*cur) >= work_of(*prev) {
            work_of(*cur) - work_of(*prev)
        } else {
            0
        }),
        r.1 == (if total_of(*cur) >= total_of(*prev) {
            total_of(*cur) - total_of(*prev)
        } else {
            0
        }),
{
    (cur.work().saturating_sub(prev.work()), cur.total().saturating_sub(prev.total()))
}

/// `s` with every leading copy of `p` removed (`str::trim_start_matches`).
pub open spec fn strip_prefixes(s: Seq<char>, p: Seq<char>) -> Seq<char>
    decreases s.len(),
{
    if p.len() > 0 && starts_with(s, p) {
        strip_prefixes(s.subrange(p.len() as int, s.len() as int), p)
    } else {
        s
    }
}

/// What a /proc/stat line says: `None` for a line that is not a per-CPU line
/// ("cpu" followed by more than a space) or has fewer than eight fields;
/// `Some(None)` for a per-CPU line whose numbers do not parse; otherwise the
/// CPU number and its counters.
pub open spec fn stat_line(line: Seq<char>) -> Option<Option<(u32, CpuStats)>> {
    if !starts_with(line, "cpu"@) || starts_with(line, "cpu "@) {
        None
    } else {
        let w = words(line);
        if w.len() < 8 {
            None
        } else {
            let id = parse_unsigned(strip_prefixes(w[0], "cpu"@), u32::MAX as nat);
            let v1 = parse_unsigned(w[1], u64::MAX as nat);
            let v2 = parse_unsigned(w[2], u64::MAX as nat);
            let v3 = parse_unsigned(w[3], u64::MAX as nat);
            let v4 = parse_unsigned(w[4], u64::MAX as nat);
            let v5 = parse_unsigned(w[5], u64::MAX as nat);
            let v6 = parse_unsigned(w[6], u64::MAX as nat);
            let v7 = parse_unsigned(w[7], u64::MAX as nat);
            if id is Some && v1 is Some && v2 is Some && v3 is Some && v4 is Some && v5 is Some
                && v6 is Some && v7 is Some {
                Some(
                    Some(
                        (
                            id.unwrap() as u32,
                            CpuStats {
                                user: v1.unwrap() as u64,
                                nice: v2.unwrap() as u64,
                                system: v3.unwrap() as u64,
                                idle: v4.unwrap() as u64,
                                iowait: v5.unwrap() as u64,
                                irq: v6.unwrap() as u64,
                                softirq: v7.unwrap() as u64,
                            },
                        ),
                    ),
                )
            } else {
                Some(None)
            }
        }
    }
}

/// Position of CPU `id` in `s`, or -1.
pub open spec fn cpu_position(s: Seq<(u32, CpuStats)>, id: u32) -> int
    decreases s.len(),
{
    if s.len() == 0 {
        -1
    } else if s.last().0 == id {
        s.len() - 1
    } else {
        cpu_position(s.drop_last(), id)
    }
}

/// `s` with CPU `e.0`'s counters set to `e.1`: replaced where it is listed,
/// appended otherwise.
pub open spec fn upsert(s: Seq<(u32, CpuStats)>, e: (u32, CpuStats)) -> Seq<(u32, CpuStats)> {
    let p = cpu_position(s, e.0);
    if 0 <= p < s.len() {
        s.update(p, e)
    } else {
        s.push(e)
    }
}

/// The counters of the first `n` lines: a later line for the same CPU
/// replaces the earlier one; one unparsable per-CPU line fails the whole.
pub open spec fn stats_upto(lines: Seq<Seq<char>>, n: int) -> Option<Seq<(u32, CpuStats)>>
    decreases n,
{
    if n <= 0 {
        Some(Seq::empty())
    } else {
        match stats_upto(lines, n - 1) {
            None => None,
            Some(prev) => match stat_line(lines[n - 1]) {
                None => Some(prev),
                Some(None) => None,
                Some(Some(e)) => Some(upsert(prev, e)),
            },
        }
    }
}

pub open spec fn cpu_stats_of(stat: Seq<char>) -> Option<Seq<(u32, CpuStats)>> {
    let lines = split_on(stat, '\n');
    stats_upto(lines, lines.len() as int)
}

proof fn lemma_cpu_position(s: Seq<(u32, CpuStats)>, id: u32)
    ensures
        -1 <= cpu_position(s, id) < s.len(),
        cpu_position(s, id) >= 0 ==> s[cpu_position(s, id)].0 == id,
        cpu_position(s, id) < 0 ==> forall|q: int| 0 <= q < s.len() ==> s[q].0 != id,
        forall|q: int| cpu_position(s, id) < q < s.len() ==> s[q].0 != id,
    decreases s.len(),
{
    if s.len() > 0 && s.last().0 != id {
        lemma_cpu_position(s.drop_last(), id);
        assert forall|q: int| cpu_position(s, id) < q < s.len() implies s[q].0 != id by {
            if q < s.len() - 1 {
                assert(s[q] == s.drop_last()[q]);
            }
        }
        if cpu_position(s, id) < 0 {
            assert forall|q: int| 0 <= q < s.len() implies s[q].0 != id by {
                if q < s.len() - 1 {
                    assert(s[q] == s.drop_last()[q]);
                }
            }
        }
    }
}

fn upsert_exec(v: &mut Vec<(u32, CpuStats)>, e: (u32, CpuStats))
    ensures
        final(v)@ == upsert(old(v)@, e),
{
    proof {
        lemma_cpu_position(v@, e.0);
    }
    let mut found: Option<usize> = None;
    let mut i: usize = v.len();
    while i > 0
        invariant
            i <= v@.len(),
            -1 <= cpu_position(v@, e.0) < v@.len(),
            cpu_position(v@, e.0) >= 0 ==> v@[cpu_position(v@, e.0)].0 == e.0,
            forall|q: int| cpu_position(v@, e.0) < q < v@.len() ==> v@[q].0 != e.0,
            found is None ==> forall|q: int| i <= q < v@.len() ==> v@[q].0 != e.0,
            found matches Some(p) ==> p == cpu_position(v@, e.0),
        decreases i,
    {
        if found.is_none() && v[i - 1].0 == e.0 {
            proof {
                // The last matching position is the one the spec names.
                assert(cpu_position(v@, e.0) == i - 1) by {
                    let p = cpu_position(v@, e.0);
                    if p < i - 1 {
                        assert(v@[i - 1].0 != e.0);
                    }
                    if p > i - 1 {
                        assert(v@[p].0 != e.0);
                    }
                }
            }
            found = Some(i - 1);
        }
        i = i - 1;
    }
    match found {
        Some(p) => {
            v.set(p, e);
        },
        None => {
            proof {
                if cpu_position(v@, e.0) >= 0 {
                    assert(v@[cpu_position(v@, e.0)].0 == e.0);
                }
            }
            v.push(e);
        },
    }
}

fn parse_u64_word(w: &[char]) -> (r: Option<u64>)
    ensures
        match parse_unsigned(w@, u64::MAX as nat) {
            Some(v) => r == Some(v as u64),
            None => r is None,
        },
{
    parse_unsigned_chars(w, u64::MAX)
}

fn strip_prefixes_exec(s: &[char], p: &[char]) -> (r: Vec<char>)
    ensures
        r@ == strip_prefixes(s@, p@),
{
    let mut cur: Vec<char> = crate::text::slice_chars(s, 0, s.len());
    assert(s@.subrange(0, s@.len() as int) =~= s@);
    if p.len() == 0 {
        return cur;
    }
    loop
        invariant
            p@.len() > 0,
            strip_prefixes(cur@, p@) == strip_prefixes(s@, p@),
        decreases cur@.len(),
    {
        if starts_with_chars(cur.as_slice(), p) {
            let n = cur.len();
            let rest = crate::text::slice_chars(cur.as_slice(), p.len(), n);
            cur = rest;
        } else {
            return cur;
        }
    }
}

fn stat_line_exec(line: &[char]) -> (r: Option<Option<(u32, CpuStats)>>)
    ensures
        r == stat_line(line@),
{
    let cpu = chars_of("cpu");
    let cpu_space = chars_of("cpu ");
    if !starts_with_chars(line, cpu.as_slice()) || starts_with_chars(line, cpu_space.as_slice()) {
        return None;
    }
    let w = split_ws_chars(line);
    let ghost wv = char_vec_views(w@);
    if w.len() < 8 {
        return None;
    }
    proof {
        assert forall|k: int| 0 <= k < 8 implies w@[k]@ == wv[k] by {}
    }
    let idw = strip_prefixes_exec(w[0].as_slice(), cpu.as_slice());
    let id = match parse_unsigned_chars(idw.as_slice(), 0xffff_ffff) {
        Some(v) => v,
        None => {
            return Some(None);
        },
    };
    let v1 = parse_u64_word(w[1].as_slice());
    let v2 = parse_u64_word(w[2].as_slice());
    let v3 = parse_u64_word(w[3].as_slice());
    let v4 = parse_u64_word(w[4].as_slice());
    let v5 = parse_u64_word(w[5].as_slice());
    let v6 = parse_u64_word(w[6].as_slice());
    let v7 = parse_u64_word(w[7].as_slice());
    match (v1, v2, v3, v4, v5, v6, v7) {
        (Some(user), Some(nice), Some(system), Some(idle), Some(iowait), Some(irq), Some(softirq)) => {
            Some(
                Some(
                    (
                        id as u32,
                        CpuStats { user, nice, system, idle, iowait, irq, softirq },
                    ),
                ),
            )
        },
        _ => Some(None),
    }
}

/// The per-CPU counters of /proc/stat, or `None` when a per-CPU line does
/// not parse.
pub fn parse_cpu_stats(stat: &str) -> (r: Option<Vec<(u32, CpuStats)>>)
    ensures
        match cpu_stats_of(stat@) {
            Some(s) => r matches Some(v) && v@ == s,
            None => r is None,
        },
{
    let cs = chars_of(stat);
    let lines = split_chars(cs.as_slice(), '\n');
    let ghost lv = char_vec_views(lines@);
    let mut out: Vec<(u32, CpuStats)> = Vec::new();
    let mut k: usize = 0;
    while k < lines.len()
        invariant
            lv == char_vec_views(lines@),
            lv == split_on(stat@, '\n'),
            k <= lines@.len(),
            stats_upto(lv, k as int) == Some(out@),
        decreases lines@.len() - k,
    {
        proof {
            assert(lv[k as int] == lines@[k as int]@);
        }
        match stat_line_exec(lines[k].as_slice()) {
            None => {},
            Some(None) => {
                proof {
                    lemma_stats_fail_stays(lv, k + 1, lines@.len() as int);
                }
                return None;
            },
            Some(Some(e)) => {
                upsert_exec(&mut out, e);
            },
        }
        k = k + 1;
    }
    Some(out)
}

proof fn lemma_stats_fail_stays(lines: Seq<Seq<char>>, i: int, n: int)
    requires
        0 <= i <= n,
        stats_upto(lines, i) is None,
    ensures
        stats_upto(lines, n) is None,
    decreases n - i,
{
    if n > i {
        lemma_stats_fail_stays(lines, i, n - 1);
    }
}

/// Number of the first `n` lines that start with "processor".
pub open spec fn processor_lines(lines: Seq<Seq<char>>, n: int) -> nat
    decreases n,
{
    if n <= 0 {
        0
    } else {
        processor_lines(lines, n - 1) + if starts_with(lines[n - 1], "processor"@) {
            1nat
        } else {
            0nat
        }
    }
}

/// The number of CPUs /proc/cpuinfo lists: its lines starting with
/// "processor" (as a `u32`, wrapping like the cast it is read with).
pub fn get_cpu_count(cpuinfo: &str) -> (r: u32)
    ensures
        r == (processor_lines(split_on(cpuinfo@, '\n'), split_on(cpuinfo@, '\n').len() as int)
            % 0x1_0000_0000),
{
    let cs = chars_of(cpuinfo);
    let lines = split_chars(cs.as_slice(), '\n');
    let ghost lv = char_vec_views(lines@);
    let p = chars_of("processor");
    let mut count: u64 = 0;
    let mut k: usize = 0;
    while k < lines.len()
        invariant
            lv == char_vec_views(lines@),
            lv == split_on(cpuinfo@, '\n'),
            p@ == "processor"@,
            k <= lines@.len(),
            count == processor_lines(lv, k as int),
            count <= k,
        decreases lines@.len() - k,
    {
        proof {
            assert(lv[k as int] == lines@[k as int]@);
        }
        if starts_with_chars(lines[k].as_slice(), p.as_slice()) {
            count = count + 1;
        }
        k = k + 1;
    }
    (count % 0x1_0000_0000) as u32
}

pub open spec fn string_views(v: Seq<String>) -> Seq<Seq<char>> {
    v.map_values(|s: String| s@)
}

fn strings_of(ws: &Vec<Vec<char>>) -> (r: Vec<String>)
    ensures
        string_views(r@) == char_vec_views(ws@),
{
    let mut out: Vec<String> = Vec::new();
    let mut i: usize = 0;
    while i < ws.len()
        invariant
            i <= ws@.len(),
            string_views(out@) == char_vec_views(ws@).take(i as int),
        decreases ws@.len() - i,
    {
        let ghost before = out@;
        let t = string_of(ws[i].as_slice());
        assert(t@ == char_vec_views(ws@)[i as int]);
        out.push(t);
        proof {
            assert(string_views(out@) =~= string_views(before).push(t@));
            assert(char_vec_views(ws@).take(i + 1) =~= char_vec_views(ws@).take(i as int).push(
                char_vec_views(ws@)[i as int],
            ));
        }
        i = i + 1;
    }
    proof {
        assert(char_vec_views(ws@).take(ws@.len() as int) =~= char_vec_views(ws@));
    }
    out
}

/// The governors listed in `scaling_available_governors`.
pub fn read_available_governors(content: &str) -> (r: Vec<String>)
    ensures
        string_views(r@) == words(content@),
{
    let cs = chars_of(content);
    let w = split_ws_chars(cs.as_slice());
    strings_of(&w)
}

/// The preferences listed in `energy_performance_available_preferences`, or
/// the four the kernel always offers when the list cannot be read.
pub fn read_available_epp_options(content: Option<&str>) -> (r: Vec<String>)
    ensures
        content matches Some(c) ==> string_views(r@) == words(c@),
        content is None ==> string_views(r@) == seq![
            "performance"@,
            "balance_performance"@,
            "balance_power"@,
            "power"@,
        ],
{
    match content {
        Some(c) => read_available_governors(c),
        None => {
            let mut v: Vec<String> = Vec::new();
            v.push("performance".to_owned());
            v.push("balance_performance".to_owned());
            v.push("balance_power".to_owned());
            v.push("power".to_owned());
            assert(string_views(v@) =~= seq![
                "performance"@,
                "balance_performance"@,
                "balance_power"@,
                "power"@,
            ]);
            v
        },
    }
}

fn trimmed_is(content: &str, word: &str) -> (r: bool)
    ensures
        r == (trim_ws(content@) == word@),
{
    let c = chars_of(content);
    let t = trim_ws_chars(c.as_slice());
    let w = chars_of(word);
    chars_eq(t.as_slice(), w.as_slice())
}

/// Is boost on? The cpufreq `boost` attribute ("1") decides when readable,
/// otherwise intel_pstate's `no_turbo` ("0"); neither readable means off.
pub fn is_boost_enabled(boost: Option<&str>, no_turbo: Option<&str>) -> (r: bool)
    ensures
        r == match boost {
            Some(b) => trim_ws(b@) == "1"@,
            None => match no_turbo {
                Some(n) => trim_ws(n@) == "0"@,
                None => false,
            },
        },
{
    match boost {
        Some(b) => trimmed_is(b, "1"),
        None => match no_turbo {
            Some(n) => trimmed_is(n, "0"),
            None => false,
        },
    }
}

/// Is SMT on? Without an SMT control attribute it is; otherwise when the
/// attribute reads "on".
pub fn is_smt_enabled(control: Option<&str>) -> (r: bool)
    ensures
        r == match control {
            Some(c) => trim_ws(c@) == "on"@,
            None => true,
        },
{
    match control {
        Some(c) => trimmed_is(c, "on"),
        None => true,
    }
}

/// Which of the CPU control files exist (read by the caller).
#[derive(Debug, Clone, Copy)]
pub struct CpuControlFiles {
    pub cpufreq_boost: bool,
    pub intel_no_turbo: bool,
    pub cpuinfo_max_freq: bool,
    pub cpuinfo_min_freq: bool,
    pub scaling_driver: bool,
    pub policy0_scaling_driver: bool,
    pub energy_performance_preference: bool,
    pub scaling_governor: bool,
    pub smt_control: bool,
    pub scaling_min_freq: bool,
    pub scaling_max_freq: bool,
    pub scaling_available_governors: bool,
    pub amd_pstate_status: bool,
    pub intel_pstate_status: bool,
}

/// The CPU's control capabilities from which control files exist: boost via
/// either attribute, the scaling driver in either place, the rest one file
/// each.
pub fn detect_cpu_capabilities(f: &CpuControlFiles) -> (r: CpuCapabilities)
    ensures
        r == (CpuCapabilities {
            has_boost: f.cpufreq_boost || f.intel_no_turbo,
            has_cpuinfo_max_freq: f.cpuinfo_max_freq,
            has_cpuinfo_min_freq: f.cpuinfo_min_freq,
            has_scaling_driver: f.scaling_driver || f.policy0_scaling_driver,
            has_energy_performance_preference: f.energy_performance_preference,
            has_scaling_governor: f.scaling_governor,
            has_smt: f.smt_control,
            has_scaling_min_freq: f.scaling_min_freq,
            has_scaling_max_freq: f.scaling_max_freq,
            has_available_governors: f.scaling_available_governors,
            has_amd_pstate: f.amd_pstate_status,
            has_intel_pstate: f.intel_pstate_status,
        }),
{
    CpuCapabilities {
        has_boost: f.cpufreq_boost || f.intel_no_turbo,
        has_cpuinfo_max_freq: f.cpuinfo_max_freq,
        has_cpuinfo_min_freq: f.cpuinfo_min_freq,
        has_scaling_driver: f.scaling_driver || f.policy0_scaling_driver,
        has_energy_performance_preference: f.energy_performance_preference,
        has_scaling_governor: f.scaling_governor,
        has_smt: f.smt_control,
        has_scaling_min_freq: f.scaling_min_freq,
        has_scaling_max_freq: f.scaling_max_freq,
        has_available_governors: f.scaling_available_governors,
        has_amd_pstate: f.amd_pstate_status,
        has_intel_pstate: f.intel_pstate_status,
    }
}

} // verus!
