//! When the discrete NVIDIA GPU may be queried.
//!
//! Every NVML/NVAPI query resets the kernel's autosuspend timer, so polling an
//! idle adapter keeps it awake. Each tick therefore decides, per adapter and
//! from the free sysfs runtime-PM word alone, one of three tiers:
//! - `Live`: NVML and NVAPI may be queried this tick;
//! - `Quiet`: sysfs reads only, all telemetry published blank;
//! - `Suspended`: sysfs reads only, and never a probe (it would wake it).
//!
//! Adapters are identified by their PCI BDF ("0000:01:00.0"), never by their
//! position in a list: the state of one adapter is looked up under its own
//! key, and sysfs and NVML entries are paired by BDF.
//!
//! Time is a monotonic clock in milliseconds, supplied by the caller.
use vstd::prelude::*;
use std::collections::HashMap;
use vstd::std_specs::hash::spec_hash_map_iter;
use vstd::std_specs::iter::IteratorSpec;
use crate::text::{
    chars_of, eq_ignore_ascii_case, eq_ignore_ascii_case_chars, lowercase_of, to_lowercase,
    decimal, push_decimal, hex4, push_hex4, push_char,
};

verus! {

/// Minimum quiet-tier dwell before one bounded re-probe is allowed (seconds).
/// It must outlast the kernel's autosuspend delay plus the driver's release
/// latency, or the re-probe itself would keep the adapter awake.
pub const QUIET_REPROBE_SECS: u64 = 45;

/// The same dwell in milliseconds.
pub const QUIET_REPROBE_MS: u64 = 45000;

/// GPU utilization (percent, as NVML reports it) above which an adapter
/// counts as doing work.
pub const GPU_WORK_UTILIZATION_PERCENT: u32 = 1;

/// What a tick is allowed to do for one GPU.
#[derive(Clone, Copy, Debug, PartialEq, Eq, Structural)]
pub enum GpuPollTier {
    /// Issue NVML + NVAPI queries this tick.
    Live,
    /// sysfs reads only; every telemetry field is published blank.
    Quiet,
    /// Runtime-suspended: sysfs reads only, and never a probe.
    Suspended,
}

/// Per-GPU control state. It decides the tier only and is never published as
/// a measurement.
#[derive(Debug)]
pub struct GpuPollState {
    /// Last runtime-PM word observed from sysfs.
    pub last_runtime_status: Option<String>,
    /// Last performance state seen by a live NVML pass.
    pub last_pstate: Option<u8>,
    /// GPU utilization (percent) observed by that same pass.
    pub last_load: Option<u32>,
    /// When the last invasive query was issued (monotonic milliseconds).
    pub last_probe_ms: Option<u64>,
}

/// The mathematical content of a [`GpuPollState`].
pub struct GpuPollStateView {
    pub last_runtime_status: Option<Seq<char>>,
    pub last_pstate: Option<u8>,
    pub last_load: Option<u32>,
    pub last_probe_ms: Option<u64>,
}

pub open spec fn opt_text(o: Option<String>) -> Option<Seq<char>> {
    match o {
        Some(s) => Some(s@),
        None => None,
    }
}

impl View for GpuPollState {
    type V = GpuPollStateView;

    open spec fn view(&self) -> GpuPollStateView {
        GpuPollStateView {
            last_runtime_status: opt_text(self.last_runtime_status),
            last_pstate: self.last_pstate,
            last_load: self.last_load,
            last_probe_ms: self.last_probe_ms,
        }
    }
}

/// The state of an adapter never seen before.
pub open spec fn fresh_state() -> GpuPollStateView {
    GpuPollStateView {
        last_runtime_status: None,
        last_pstate: None,
        last_load: None,
        last_probe_ms: None,
    }
}

impl GpuPollState {
    /// The state of an adapter never seen before.
    pub fn new() -> (r: Self)
        ensures
            r@ == fresh_state(),
    {
        GpuPollState { last_runtime_status: None, last_pstate: None, last_load: None, last_probe_ms: None }
    }

    /// A copy of this state.
    pub fn duplicate(&self) -> (r: Self)
        ensures
            r@ == self@,
    {
        GpuPollState {
            last_runtime_status: match &self.last_runtime_status {
                Some(s) => Some(s.clone()),
                None => None,
            },
            last_pstate: self.last_pstate,
            last_load: self.last_load,
            last_probe_ms: self.last_probe_ms,
        }
    }
}

/// Is this runtime-PM word "suspended" (in any letter case)?
pub open spec fn is_suspended_word(s: Seq<char>) -> bool {
    eq_ignore_ascii_case(s, "suspended"@)
}

pub fn is_suspended_status(s: &str) -> (r: bool)
    ensures
        r == is_suspended_word(s@),
{
    let a = chars_of(s);
    let b = chars_of("suspended");
    eq_ignore_ascii_case_chars(a.as_slice(), b.as_slice())
}

/// Has the bounded re-probe dwell elapsed since `at`? Like
/// `Instant::elapsed`, a probe time in the future counts as no time elapsed.
pub open spec fn dwell_elapsed(at: u64, now_ms: u64) -> bool {
    now_ms >= at && now_ms - at >= QUIET_REPROBE_MS
}

/// The tier decision, from the adapter's own state and its sysfs word.
pub open spec fn tier_of(state: Option<GpuPollStateView>, runtime_status: Seq<char>, now_ms: u64) -> GpuPollTier {
    if is_suspended_word(runtime_status) {
        GpuPollTier::Suspended
    } else {
        match state {
            None => GpuPollTier::Live,
            Some(st) => {
                if (st.last_runtime_status matches Some(p) && is_suspended_word(p)) {
                    // A wake after a suspended observation: probe while awake.
                    GpuPollTier::Live
                } else if (st.last_pstate matches Some(p) && p <= 2) {
                    // P0..P2: the GPU is doing work.
                    GpuPollTier::Live
                } else if (st.last_load matches Some(l) && l > GPU_WORK_UTILIZATION_PERCENT) {
                    // Work at any p-state.
                    GpuPollTier::Live
                } else {
                    match st.last_probe_ms {
                        // Never probed: one pass is needed to learn the p-state.
                        None => GpuPollTier::Live,
                        Some(at) => if dwell_elapsed(at, now_ms) {
                            GpuPollTier::Live
                        } else {
                            GpuPollTier::Quiet
                        },
                    }
                }
            }
        }
    }
}

pub open spec fn opt_state(s: Option<&GpuPollState>) -> Option<GpuPollStateView> {
    match s {
        Some(st) => Some(st@),
        None => None,
    }
}

/// What a tick is allowed to do for one GPU, from the adapter's recorded
/// state (`None` when never seen) and its runtime-PM word.
pub fn gpu_poll_tier(state: Option<&GpuPollState>, runtime_status: &str, now_ms: u64) -> (r: GpuPollTier)
    ensures
        r == tier_of(opt_state(state), runtime_status@, now_ms),
        is_suspended_word(runtime_status@) ==> r == GpuPollTier::Suspended,
{
    if is_suspended_status(runtime_status) {
        return GpuPollTier::Suspended;
    }
    let st = match state {
        None => {
            return GpuPollTier::Live;
        },
        Some(st) => st,
    };
    let woke = match &st.last_runtime_status {
        Some(previous) => is_suspended_status(previous.as_str()),
        None => false,
    };
    if woke {
        return GpuPollTier::Live;
    }
    if let Some(p) = st.last_pstate {
        if p <= 2 {
            return GpuPollTier::Live;
        }
    }
    if let Some(load) = st.last_load {
        if load > GPU_WORK_UTILIZATION_PERCENT {
            return GpuPollTier::Live;
        }
    }
    match st.last_probe_ms {
        None => GpuPollTier::Live,
        Some(at) => {
            if now_ms >= at && now_ms - at >= QUIET_REPROBE_MS {
                GpuPollTier::Live
            } else {
                GpuPollTier::Quiet
            }
        },
    }
}

/// A suspended adapter is never given a probe, whatever its recorded state
/// says; an adapter that has just woken from suspend is always given one.
pub proof fn lemma_suspended_never_probed(
    state: Option<GpuPollStateView>,
    runtime_status: Seq<char>,
    now_ms: u64,
)
    ensures
        is_suspended_word(runtime_status) ==> tier_of(state, runtime_status, now_ms)
            == GpuPollTier::Suspended,
        !is_suspended_word(runtime_status) && (state matches Some(st) && (
        st.last_runtime_status matches Some(p) && is_suspended_word(p))) ==> tier_of(
            state,
            runtime_status,
            now_ms,
        ) == GpuPollTier::Live,
        tier_of(state, runtime_status, now_ms) == GpuPollTier::Quiet ==> (state matches Some(st)
            && st.last_probe_ms matches Some(at) && !dwell_elapsed(at, now_ms)),
{
}

/// A table of values keyed by text, in which no key occurs twice.
pub struct KeyedTable<V> {
    entries: Vec<(String, V)>,
}

pub open spec fn entries_have_key<V>(e: Seq<(String, V)>, k: Seq<char>) -> bool {
    exists|i: int| 0 <= i < e.len() && (#[trigger] e[i]).0@ == k
}

pub open spec fn entry_index<V>(e: Seq<(String, V)>, k: Seq<char>) -> int {
    choose|i: int| 0 <= i < e.len() && (#[trigger] e[i]).0@ == k
}

pub open spec fn keys_unique<V>(e: Seq<(String, V)>) -> bool {
    forall|i: int, j: int| 0 <= i < e.len() && 0 <= j < e.len() && i != j ==> (#[trigger] e[i]).0@
        != (#[trigger] e[j]).0@
}

proof fn lemma_entry_index<V>(e: Seq<(String, V)>, i: int)
    requires
        keys_unique(e),
        0 <= i < e.len(),
    ensures
        entries_have_key(e, e[i].0@),
        entry_index(e, e[i].0@) == i,
{
    assert(e[i].0@ == e[i].0@);
}

impl<V: View> View for KeyedTable<V> {
    type V = Map<Seq<char>, V::V>;

    closed spec fn view(&self) -> Map<Seq<char>, V::V> {
        Map::new(
            |k: Seq<char>| entries_have_key(self.entries@, k),
            |k: Seq<char>| self.entries@[entry_index(self.entries@, k)].1@,
        )
    }
}

impl<V> KeyedTable<V> {
    #[verifier::type_invariant]
    spec fn keys_are_unique(&self) -> bool {
        keys_unique(self.entries@)
    }
}

impl<V: View> KeyedTable<V> {
    /// An empty table.
    pub fn new() -> (r: Self)
        ensures
            r@ == Map::<Seq<char>, V::V>::empty(),
    {
        let r = KeyedTable { entries: Vec::new() };
        assert(r@ =~= Map::<Seq<char>, V::V>::empty());
        r
    }

    fn find(&self, key: &String) -> (r: Option<usize>)
        ensures
            match r {
                Some(i) => i < self.entries@.len() && self.entries@[i as int].0@ == key@,
                None => !entries_have_key(self.entries@, key@),
            },
    {
        let mut i: usize = 0;
        while i < self.entries.len()
            invariant
                i <= self.entries@.len(),
                forall|q: int| 0 <= q < i ==> (#[trigger] self.entries@[q]).0@ != key@,
            decreases self.entries@.len() - i,
        {
            if self.entries[i].0 == *key {
                return Some(i);
            }
            i = i + 1;
        }
        None
    }

    /// The value stored under `key`.
    pub fn get(&self, key: &str) -> (r: Option<&V>)
        ensures
            match r {
                Some(v) => self@.contains_key(key@) && v@ == self@[key@],
                None => !self@.contains_key(key@),
            },
    {
        proof {
            use_type_invariant(self);
        }
        let k = key.to_owned();
        match self.find(&k) {
            Some(i) => {
                proof {
                    lemma_entry_index(self.entries@, i as int);
                }
                Some(&self.entries[i].1)
            },
            None => None,
        }
    }

    /// Stores `v` under `key`, replacing what was there.
    pub fn insert(&mut self, key: &str, v: V)
        ensures
            final(self)@ == old(self)@.insert(key@, v@),
    {
        proof {
            use_type_invariant(&*self);
        }
        let k = key.to_owned();
        let ghost old_e = self.entries@;
        match self.find(&k) {
            Some(i) => {
                let mut entries = Vec::new();
                std::mem::swap(&mut entries, &mut self.entries);
                entries.set(i, (k, v));
                let ghost new_e = entries@;
                proof {
                    assert(new_e =~= old_e.update(i as int, new_e[i as int]));
                    assert(keys_unique(new_e)) by {
                        assert forall|a: int, b: int|
                            0 <= a < new_e.len() && 0 <= b < new_e.len() && a != b implies (
                            #[trigger] new_e[a]).0@ != (#[trigger] new_e[b]).0@ by {
                            if a != i && b != i {
                                assert(new_e[a] == old_e[a]);
                                assert(new_e[b] == old_e[b]);
                            } else if a == i {
                                assert(new_e[b] == old_e[b]);
                                assert(old_e[a].0@ == key@);
                            } else {
                                assert(new_e[a] == old_e[a]);
                                assert(old_e[b].0@ == key@);
                            }
                        }
                    }
                }
                self.entries = entries;
                proof {
                    let m_new = self@;
                    let m_old = old(self)@.insert(key@, v@);
                    assert forall|q: Seq<char>| #[trigger] m_new.contains_key(q) == m_old.contains_key(q)
                        by {
                        if q == key@ {
                            assert(new_e[i as int].0@ == q);
                        } else if entries_have_key(old_e, q) {
                            let j = entry_index(old_e, q);
                            assert(new_e[j] == old_e[j]);
                        } else if entries_have_key(new_e, q) {
                            let j = entry_index(new_e, q);
                            assert(new_e[j] == old_e[j]);
                        }
                    }
                    assert forall|q: Seq<char>| #[trigger] m_new.contains_key(q) implies m_new[q]
                        == m_old[q] by {
                        if q == key@ {
                            lemma_entry_index(new_e, i as int);
                        } else {
                            let j = entry_index(old_e, q);
                            assert(new_e[j] == old_e[j]);
                            lemma_entry_index(new_e, j);
                            lemma_entry_index(old_e, j);
                        }
                    }
                    assert(m_new =~= m_old);
                }
            },
            None => {
                let mut entries = Vec::new();
                std::mem::swap(&mut entries, &mut self.entries);
                entries.push((k, v));
                let ghost new_e = entries@;
                proof {
                    let n = old_e.len() as int;
                    assert forall|a: int| 0 <= a < n implies (#[trigger] new_e[a]) == old_e[a] by {}
                    assert(keys_unique(new_e)) by {
                        assert forall|a: int, b: int|
                            0 <= a < new_e.len() && 0 <= b < new_e.len() && a != b implies (
                            #[trigger] new_e[a]).0@ != (#[trigger] new_e[b]).0@ by {
                            if a < n && b < n {
                            } else if a == n {
                                assert(old_e[b].0@ != key@);
                            } else {
                                assert(old_e[a].0@ != key@);
                            }
                        }
                    }
                }
                self.entries = entries;
                proof {
                    let n = old_e.len() as int;
                    let m_new = self@;
                    let m_old = old(self)@.insert(key@, v@);
                    assert forall|q: Seq<char>| #[trigger] m_new.contains_key(q) == m_old.contains_key(q)
                        by {
                        if q == key@ {
                            assert(new_e[n].0@ == q);
                        } else if entries_have_key(old_e, q) {
                            let j = entry_index(old_e, q);
                            assert(new_e[j] == old_e[j]);
                        } else if entries_have_key(new_e, q) {
                            let j = entry_index(new_e, q);
                            if j < n {
                                assert(new_e[j] == old_e[j]);
                            }
                        }
                    }
                    assert forall|q: Seq<char>| #[trigger] m_new.contains_key(q) implies m_new[q]
                        == m_old[q] by {
                        if q == key@ {
                            lemma_entry_index(new_e, n);
                        } else {
                            let j = entry_index(old_e, q);
                            assert(new_e[j] == old_e[j]);
                            lemma_entry_index(new_e, j);
                            lemma_entry_index(old_e, j);
                        }
                    }
                    assert(m_new =~= m_old);
                }
            },
        }
    }
}

/// The tier state of every adapter, keyed by its poll-state key.
pub type GpuPollStates = KeyedTable<GpuPollState>;

/// The state after a sysfs-only observation: only the runtime-PM word is
/// recorded; the probe clock is deliberately not touched.
pub open spec fn observed(prev: Option<GpuPollStateView>, runtime_status: Seq<char>) -> GpuPollStateView {
    let base = match prev {
        Some(p) => p,
        None => fresh_state(),
    };
    GpuPollStateView { last_runtime_status: Some(runtime_status), ..base }
}

/// The state after a completed invasive pass: its p-state and utilization
/// (where the pass could read them) and the time of the probe.
pub open spec fn probed(
    prev: Option<GpuPollStateView>,
    runtime_status: Seq<char>,
    pstate: Option<u8>,
    load: Option<u32>,
    now_ms: u64,
) -> GpuPollStateView {
    let base = match prev {
        Some(p) => p,
        None => fresh_state(),
    };
    GpuPollStateView {
        last_runtime_status: Some(runtime_status),
        last_pstate: match pstate {
            Some(p) => Some(p),
            None => base.last_pstate,
        },
        last_load: match load {
            Some(l) => Some(l),
            None => base.last_load,
        },
        last_probe_ms: Some(now_ms),
    }
}

pub open spec fn state_at(states: Map<Seq<char>, GpuPollStateView>, key: Seq<char>) -> Option<
    GpuPollStateView,
> {
    if states.contains_key(key) {
        Some(states[key])
    } else {
        None
    }
}

/// Records a sysfs-only observation of the adapter under `key`.
pub fn record_gpu_observation(states: &mut GpuPollStates, key: &str, runtime_status: &str)
    ensures
        final(states)@ == old(states)@.insert(
            key@,
            observed(state_at(old(states)@, key@), runtime_status@),
        ),
{
    let next = match states.get(key) {
        Some(st) => {
            let mut n = st.duplicate();
            n.last_runtime_status = Some(runtime_status.to_owned());
            n
        },
        None => {
            let mut n = GpuPollState::new();
            n.last_runtime_status = Some(runtime_status.to_owned());
            n
        },
    };
    states.insert(key, next);
}

/// Records a completed invasive pass over the adapter under `key`.
pub fn record_gpu_probe(
    states: &mut GpuPollStates,
    key: &str,
    runtime_status: &str,
    pstate: Option<u8>,
    load: Option<u32>,
    now_ms: u64,
)
    ensures
        final(states)@ == old(states)@.insert(
            key@,
            probed(state_at(old(states)@, key@), runtime_status@, pstate, load, now_ms),
        ),
{
    let mut n = match states.get(key) {
        Some(st) => st.duplicate(),
        None => GpuPollState::new(),
    };
    n.last_runtime_status = Some(runtime_status.to_owned());
    if let Some(p) = pstate {
        n.last_pstate = Some(p);
    }
    if let Some(l) = load {
        n.last_load = Some(l);
    }
    n.last_probe_ms = Some(now_ms);
    states.insert(key, n);
}

/// Was the previous observation of this adapter "suspended"?
pub open spec fn woke_from_suspend(states: Map<Seq<char>, GpuPollStateView>, key: Seq<char>) -> bool {
    states.contains_key(key) && (states[key].last_runtime_status matches Some(s)
        && is_suspended_word(s))
}

/// Was the previous observation of this adapter "suspended"? The first power
/// sample after such a wake is validated before it is believed.
pub fn gpu_woke_from_suspend(states: &GpuPollStates, key: &str) -> (r: bool)
    ensures
        r == woke_from_suspend(states@, key@),
{
    match states.get(key) {
        Some(st) => match &st.last_runtime_status {
            Some(s) => is_suspended_status(s.as_str()),
            None => false,
        },
        None => false,
    }
}

/// A completed pass that found the GPU in P0..P2 keeps it live on every
/// later tick, as long as it is not suspended; one that found no work
/// (P3 or deeper, utilization at most 1 %) keeps it quiet until the re-probe
/// dwell has elapsed, and live again from then on.
pub proof fn lemma_probe_cadence(
    prev: Option<GpuPollStateView>,
    status: Seq<char>,
    pstate: Option<u8>,
    load: Option<u32>,
    probe_ms: u64,
    next_status: Seq<char>,
    now_ms: u64,
)
    requires
        !is_suspended_word(status),
        !is_suspended_word(next_status),
    ensures
        (pstate matches Some(p) && p <= 2) ==> tier_of(
            Some(probed(prev, status, pstate, load, probe_ms)),
            next_status,
            now_ms,
        ) == GpuPollTier::Live,
        (pstate matches Some(p) && p > 2) && (load matches Some(l) && l
            <= GPU_WORK_UTILIZATION_PERCENT) ==> tier_of(
            Some(probed(prev, status, pstate, load, probe_ms)),
            next_status,
            now_ms,
        ) == (if dwell_elapsed(probe_ms, now_ms) {
            GpuPollTier::Live
        } else {
            GpuPollTier::Quiet
        }),
{
}

/// Poll-state key of one adapter: its BDF (lower-cased) whenever it is known,
/// and an index-scoped key otherwise.
pub open spec fn state_key(bdf: Option<Seq<char>>, index: u32) -> Seq<char> {
    match bdf {
        Some(b) => if b.len() > 0 {
            lowercase_of(b)
        } else {
            "index:"@ + decimal(index as nat)
        },
        None => "index:"@ + decimal(index as nat),
    }
}

pub open spec fn opt_str(o: Option<&str>) -> Option<Seq<char>> {
    match o {
        Some(s) => Some(s@),
        None => None,
    }
}

/// Poll-state key for one adapter. The BDF is used whenever it is known, so
/// the state follows the adapter across enumerations; only an adapter NVML
/// cannot identify falls back to an index-scoped key.
pub fn poll_state_key(bdf: Option<&str>, index: u32) -> (r: String)
    ensures
        r@ == state_key(opt_str(bdf), index),
{
    match bdf {
        Some(b) => {
            if b.unicode_len() > 0 {
                return to_lowercase(b);
            }
        },
        None => {},
    }
    let mut s = "index:".to_owned();
    push_decimal(&mut s, index as u64);
    s
}

/// The key of a known adapter does not depend on its enumeration position.
pub proof fn lemma_key_is_adapter_identity(bdf: Seq<char>, i: u32, j: u32)
    requires
        bdf.len() > 0,
    ensures
        state_key(Some(bdf), i) == state_key(Some(bdf), j),
        state_key(Some(bdf), i) == lowercase_of(bdf),
{
}

/// Index of the first ':' in `s`, if any.
pub open spec fn first_colon(s: Seq<char>) -> Option<int> {
    if exists|i: int| 0 <= i < s.len() && is_first_colon(s, i) {
        Some(choose|i: int| 0 <= i < s.len() && is_first_colon(s, i))
    } else {
        None
    }
}

pub open spec fn is_first_colon(s: Seq<char>, i: int) -> bool {
    0 <= i < s.len() && s[i] == ':' && forall|q: int| 0 <= q < i ==> s[q] != ':'
}

/// The sysfs directory-name form of an NVML PCI identity: the domain as (at
/// least) four hex digits, then what follows the first ':' of the bus id,
/// all lower-cased.
pub open spec fn canonical_bdf_of(bus_id: Seq<char>, domain: u32) -> Option<Seq<char>> {
    match first_colon(bus_id) {
        None => None,
        Some(i) => {
            let rest = bus_id.subrange(i + 1, bus_id.len() as int);
            if rest.len() == 0 {
                None
            } else {
                Some(lowercase_of(hex4(domain as nat) + seq![':'] + rest))
            }
        },
    }
}

/// Canonicalises an NVML PCI identity into the sysfs directory-name form used
/// by /sys/bus/pci/devices and /sys/bus/pci/drivers/nvidia ("0000:01:00.0").
pub fn canonical_bdf(bus_id: &str, domain: u32) -> (r: Option<String>)
    ensures
        opt_text(r) == canonical_bdf_of(bus_id@, domain),
{
    let cs = chars_of(bus_id);
    let mut i: usize = 0;
    while i < cs.len()
        invariant
            cs@ == bus_id@,
            i <= cs@.len(),
            forall|q: int| 0 <= q < i ==> cs@[q] != ':',
        ensures
            i <= cs@.len(),
            forall|q: int| 0 <= q < i ==> cs@[q] != ':',
            i < cs@.len() ==> cs@[i as int] == ':',
        decreases cs@.len() - i,
    {
        if cs[i] == ':' {
            break;
        }
        i = i + 1;
    }
    if i >= cs.len() {
        proof {
            assert(!exists|k: int| 0 <= k < cs@.len() && is_first_colon(cs@, k));
        }
        return None;
    }
    proof {
        assert(is_first_colon(cs@, i as int));
        let c = choose|k: int| 0 <= k < cs@.len() && is_first_colon(cs@, k);
        assert(c == i) by {
            if c < i {
                assert(cs@[c] != ':');
            } else if c > i {
                assert(cs@[i as int] != ':');
            }
        }
    }
    if i + 1 == cs.len() {
        return None;
    }
    let mut formatted = String::new();
    push_hex4(&mut formatted, domain);
    push_char(&mut formatted, ':');
    let mut j: usize = i + 1;
    let ghost head = formatted@;
    while j < cs.len()
        invariant
            i < j <= cs@.len(),
            formatted@ == head + cs@.subrange(i + 1, j as int),
        decreases cs@.len() - j,
    {
        push_char(&mut formatted, cs[j]);
        j = j + 1;
        proof {
            assert(formatted@ =~= head + cs@.subrange(i + 1, j as int));
        }
    }
    proof {
        assert(head =~= hex4(domain as nat) + seq![':']);
    }
    Some(to_lowercase(formatted.as_str()))
}

/// One adapter as sysfs sees it: directory name plus runtime-PM word.
#[derive(Debug)]
pub struct SysfsNvidiaDevice {
    /// Directory name under /sys/bus/pci/drivers/nvidia, e.g. "0000:01:00.0".
    pub bdf: String,
    /// `power/runtime_status`, lower case.
    pub runtime_status: String,
}

/// One NVML device plus the identity NVML reports for it.
#[derive(Debug)]
pub struct NvmlDeviceSlot {
    pub index: u32,
    /// `None` when NVML cannot report the PCI identity for this device.
    pub bdf: Option<String>,
}

/// Does this sysfs entry describe the adapter with BDF `b` (ignoring case)?
pub open spec fn lists_bdf(d: SysfsNvidiaDevice, b: Seq<char>) -> bool {
    eq_ignore_ascii_case(d.bdf@, b)
}

pub open spec fn is_first_listing(devs: Seq<SysfsNvidiaDevice>, b: Seq<char>, j: int) -> bool {
    0 <= j < devs.len() && lists_bdf(devs[j], b) && forall|q: int|
        0 <= q < j ==> !lists_bdf(#[trigger] devs[q], b)
}

/// Position of the first sysfs entry listing BDF `b`.
pub open spec fn find_listing(devs: Seq<SysfsNvidiaDevice>, b: Seq<char>) -> Option<int> {
    if exists|j: int| is_first_listing(devs, b, j) {
        Some(choose|j: int| is_first_listing(devs, b, j))
    } else {
        None
    }
}

proof fn lemma_first_listing_unique(devs: Seq<SysfsNvidiaDevice>, b: Seq<char>, i: int, j: int)
    requires
        is_first_listing(devs, b, i),
        is_first_listing(devs, b, j),
    ensures
        i == j,
{
    if i < j {
        assert(!lists_bdf(devs[i], b));
    } else if j < i {
        assert(!lists_bdf(devs[j], b));
    }
}

/// If some entry lists `b`, a first one does.
proof fn lemma_listing_exists(devs: Seq<SysfsNvidiaDevice>, b: Seq<char>, j: int)
    requires
        0 <= j < devs.len(),
        lists_bdf(devs[j], b),
    ensures
        exists|k: int| is_first_listing(devs, b, k),
    decreases j,
{
    if exists|q: int| 0 <= q < j && lists_bdf(#[trigger] devs[q], b) {
        let q = choose|q: int| 0 <= q < j && lists_bdf(#[trigger] devs[q], b);
        lemma_listing_exists(devs, b, q);
    } else {
        assert(is_first_listing(devs, b, j));
    }
}

/// The first sysfs entry listing BDF `b`.
pub fn find_sysfs_device(devs: &[SysfsNvidiaDevice], b: &str) -> (r: Option<usize>)
    ensures
        match r {
            Some(i) => find_listing(devs@, b@) == Some(i as int),
            None => find_listing(devs@, b@) is None,
        },
        r is None <==> forall|j: int| 0 <= j < devs@.len() ==> !lists_bdf(#[trigger] devs@[j], b@),
{
    let bc = chars_of(b);
    let mut i: usize = 0;
    while i < devs.len()
        invariant
            bc@ == b@,
            i <= devs@.len(),
            forall|q: int| 0 <= q < i ==> !lists_bdf(#[trigger] devs@[q], b@),
        decreases devs@.len() - i,
    {
        let dc = chars_of(devs[i].bdf.as_str());
        if eq_ignore_ascii_case_chars(dc.as_slice(), bc.as_slice()) {
            proof {
                assert(is_first_listing(devs@, b@, i as int));
                let c = choose|j: int| is_first_listing(devs@, b@, j);
                lemma_first_listing_unique(devs@, b@, c, i as int);
            }
            return Some(i);
        }
        i = i + 1;
    }
    None
}

/// The runtime-PM word of NVML device `slot`, resolved by its own BDF.
/// Without a reported BDF, only a single-device, single-adapter system has
/// one possible interpretation.
pub open spec fn status_for_slot(slot: NvmlDeviceSlot, n_slots: int, devs: Seq<SysfsNvidiaDevice>) -> Option<
    Seq<char>,
> {
    match slot.bdf {
        Some(b) => match find_listing(devs, b@) {
            Some(j) => Some(devs[j].runtime_status@),
            None => None,
        },
        None => if n_slots == 1 && devs.len() == 1 {
            Some(devs[0].runtime_status@)
        } else {
            None
        },
    }
}

/// Resolves each NVML device's runtime-PM status by its own PCI identity:
/// association is by BDF, never by list position. A device whose BDF sysfs
/// does not list yields `None` (unknown) instead of a neighbour's status.
pub fn runtime_status_by_device(devices: &[NvmlDeviceSlot], sysfs: &[SysfsNvidiaDevice]) -> (r: Vec<
    Option<String>,
>)
    ensures
        r@.len() == devices@.len(),
        forall|k: int|
            0 <= k < devices@.len() ==> opt_text(#[trigger] r@[k]) == status_for_slot(
                devices@[k],
                devices@.len() as int,
                sysfs@,
            ),
{
    let mut out: Vec<Option<String>> = Vec::new();
    let mut k: usize = 0;
    while k < devices.len()
        invariant
            k <= devices@.len(),
            out@.len() == k,
            forall|q: int|
                0 <= q < k ==> opt_text(#[trigger] out@[q]) == status_for_slot(
                    devices@[q],
                    devices@.len() as int,
                    sysfs@,
                ),
        decreases devices@.len() - k,
    {
        let status: Option<String> = match &devices[k].bdf {
            Some(b) => match find_sysfs_device(sysfs, b.as_str()) {
                Some(j) => Some(sysfs[j].runtime_status.clone()),
                None => None,
            },
            None => {
                if devices.len() == 1 && sysfs.len() == 1 {
                    Some(sysfs[0].runtime_status.clone())
                } else {
                    None
                }
            },
        };
        out.push(status);
        k = k + 1;
    }
    out
}

/// Pure decision behind `is_gpu_suspended_by_index`: `Some(suspended)` when
/// the adapter is known, `None` when the NVML index cannot be attributed
/// safely (no learned BDF on a multi-adapter system, or a BDF sysfs does not
/// list).
pub open spec fn suspended_decision_of(
    sysfs: Seq<SysfsNvidiaDevice>,
    known_bdf: Option<Seq<char>>,
    candidates: int,
) -> Option<bool> {
    match known_bdf {
        Some(b) => match find_listing(sysfs, b) {
            Some(j) => Some(is_suspended_word(sysfs[j].runtime_status@)),
            None => None,
        },
        None => if candidates == 1 && sysfs.len() == 1 {
            Some(is_suspended_word(sysfs[0].runtime_status@))
        } else {
            None
        },
    }
}

/// Is the adapter behind a learned BDF suspended? See `suspended_decision_of`.
pub fn suspended_decision(sysfs: &[SysfsNvidiaDevice], known_bdf: Option<&str>, candidates: usize) -> (r:
    Option<bool>)
    ensures
        r == suspended_decision_of(sysfs@, opt_str(known_bdf), candidates as int),
{
    match known_bdf {
        Some(b) => match find_sysfs_device(sysfs, b) {
            Some(j) => Some(is_suspended_status(sysfs[j].runtime_status.as_str())),
            None => None,
        },
        None => {
            if candidates == 1 && sysfs.len() == 1 {
                Some(is_suspended_status(sysfs[0].runtime_status.as_str()))
            } else {
                None
            }
        },
    }
}

/// The answer a sysfs view gives for an adapter with a reported BDF depends on
/// that adapter alone: two views that list the same adapters, each BDF once
/// (ignoring case), in any order, give the same runtime-PM word and the same
/// suspended verdict. A BDF that no entry lists gets no word at all.
pub proof fn lemma_status_follows_the_bdf(
    b: Seq<char>,
    v1: Seq<SysfsNvidiaDevice>,
    v2: Seq<SysfsNvidiaDevice>,
)
    requires
        forall|d: SysfsNvidiaDevice| v1.contains(d) <==> v2.contains(d),
        forall|i: int, j: int|
            0 <= i < v1.len() && 0 <= j < v1.len() && i != j ==> !eq_ignore_ascii_case(
                (#[trigger] v1[i]).bdf@,
                (#[trigger] v1[j]).bdf@,
            ),
        forall|i: int, j: int|
            0 <= i < v2.len() && 0 <= j < v2.len() && i != j ==> !eq_ignore_ascii_case(
                (#[trigger] v2[i]).bdf@,
                (#[trigger] v2[j]).bdf@,
            ),
    ensures
        find_listing(v1, b) is Some <==> find_listing(v2, b) is Some,
        find_listing(v1, b) matches Some(i) ==> (find_listing(v2, b) matches Some(j) && v1[i]
            == v2[j]),
        find_listing(v1, b) is None ==> forall|j: int|
            0 <= j < v1.len() ==> !lists_bdf(#[trigger] v1[j], b),
{
    if exists|j: int| 0 <= j < v1.len() && lists_bdf(#[trigger] v1[j], b) {
        let j = choose|j: int| 0 <= j < v1.len() && lists_bdf(#[trigger] v1[j], b);
        lemma_listing_exists(v1, b, j);
        let i = choose|k: int| is_first_listing(v1, b, k);
        assert(v2.contains(v1[i]));
        let j2 = choose|q: int| 0 <= q < v2.len() && v2[q] == v1[i];
        lemma_listing_exists(v2, b, j2);
        let k2 = choose|k: int| is_first_listing(v2, b, k);
        assert(v1.contains(v2[k2]));
        let i1 = choose|q: int| 0 <= q < v1.len() && v1[q] == v2[k2];
        // v1[i] and v1[i1] both list b, so they are the same entry.
        crate::text::lemma_eq_ignore_ascii_case_equiv(v1[i].bdf@, b, v1[i1].bdf@);
        if i != i1 {
            assert(!eq_ignore_ascii_case(v1[i].bdf@, v1[i1].bdf@));
        }
    } else {
        if exists|j: int| 0 <= j < v2.len() && lists_bdf(#[trigger] v2[j], b) {
            let j = choose|j: int| 0 <= j < v2.len() && lists_bdf(#[trigger] v2[j], b);
            assert(v1.contains(v2[j]));
            let i = choose|q: int| 0 <= q < v1.len() && v1[q] == v2[j];
            assert(lists_bdf(v1[i], b));
        }
    }
}

pub open spec fn device_key(d: SysfsNvidiaDevice) -> Seq<char> {
    state_key(Some(d.bdf@), 0)
}

/// The keys of the first `n` sysfs adapters whose tier allows an invasive
/// query, in sysfs order.
pub open spec fn live_keys(
    states: Map<Seq<char>, GpuPollStateView>,
    devs: Seq<SysfsNvidiaDevice>,
    now_ms: u64,
    n: int,
) -> Seq<Seq<char>>
    decreases n,
{
    if n <= 0 {
        Seq::empty()
    } else {
        let rest = live_keys(states, devs, now_ms, n - 1);
        let d = devs[n - 1];
        if tier_of(state_at(states, device_key(d)), d.runtime_status@, now_ms) == GpuPollTier::Live {
            rest.push(device_key(d))
        } else {
            rest
        }
    }
}

/// Poll-state keys whose current tier allows an invasive query, evaluated
/// without touching any GPU. Shared by the metric poll and the GPU-fan poll so
/// both obey the same policy.
pub fn live_tier_keys(states: &GpuPollStates, sysfs: &[SysfsNvidiaDevice], now_ms: u64) -> (r: Vec<
    String,
>)
    ensures
        r@.map_values(|s: String| s@) == live_keys(states@, sysfs@, now_ms, sysfs@.len() as int),
{
    let mut out: Vec<String> = Vec::new();
    let mut i: usize = 0;
    while i < sysfs.len()
        invariant
            i <= sysfs@.len(),
            out@.map_values(|s: String| s@) == live_keys(states@, sysfs@, now_ms, i as int),
        decreases sysfs@.len() - i,
    {
        let key = poll_state_key(Some(sysfs[i].bdf.as_str()), 0);
        let tier = gpu_poll_tier(states.get(key.as_str()), sysfs[i].runtime_status.as_str(), now_ms);
        let ghost before = out@;
        if tier == GpuPollTier::Live {
            out.push(key);
            proof {
                assert(out@.map_values(|s: String| s@) =~= before.map_values(|s: String| s@).push(
                    key@,
                ));
            }
        }
        i = i + 1;
    }
    out
}

/// Is any adapter in the live tier this tick? When none is, the tick must
/// not even initialise NVML: loading the library and taking a device handle
/// is itself a touch that resets the autosuspend timer.
pub fn any_live_tier(states: &GpuPollStates, sysfs: &[SysfsNvidiaDevice], now_ms: u64) -> (r: bool)
    ensures
        r <==> exists|j: int|
            0 <= j < sysfs@.len() && tier_of(
                state_at(states@, device_key(#[trigger] sysfs@[j])),
                sysfs@[j].runtime_status@,
                now_ms,
            ) == GpuPollTier::Live,
{
    let mut i: usize = 0;
    while i < sysfs.len()
        invariant
            i <= sysfs@.len(),
            forall|q: int|
                0 <= q < i ==> tier_of(
                    state_at(states@, device_key(#[trigger] sysfs@[q])),
                    sysfs@[q].runtime_status@,
                    now_ms,
                ) != GpuPollTier::Live,
        decreases sysfs@.len() - i,
    {
        let key = poll_state_key(Some(sysfs[i].bdf.as_str()), 0);
        if gpu_poll_tier(states.get(key.as_str()), sysfs[i].runtime_status.as_str(), now_ms)
            == GpuPollTier::Live {
            return true;
        }
        i = i + 1;
    }
    false
}

/// Is sysfs entry `d` covered by an NVML slot that reported its BDF?
pub open spec fn covered_by_slots(slots: Seq<NvmlDeviceSlot>, d: SysfsNvidiaDevice) -> bool {
    exists|k: int|
        0 <= k < slots.len() && ((#[trigger] slots[k]).bdf matches Some(b) && eq_ignore_ascii_case(
            b@,
            d.bdf@,
        ))
}

/// Positions of the sysfs adapters that no NVML slot identifies: they still
/// belong in the payload, as sysfs-only entries. Identified by BDF, so this
/// can never duplicate a device NVML reported.
pub fn uncovered_devices(slots: &[NvmlDeviceSlot], sysfs: &[SysfsNvidiaDevice]) -> (r: Vec<usize>)
    ensures
        forall|k: int| 0 <= k < r@.len() ==> (#[trigger] r@[k]) < sysfs@.len(),
        forall|k: int, l: int| 0 <= k < l < r@.len() ==> r@[k] < r@[l],
        forall|j: int|
            0 <= j < sysfs@.len() ==> (r@.contains(j as usize) <==> !covered_by_slots(
                slots@,
                #[trigger] sysfs@[j],
            )),
{
    let mut out: Vec<usize> = Vec::new();
    let mut j: usize = 0;
    while j < sysfs.len()
        invariant
            j <= sysfs@.len(),
            forall|k: int| 0 <= k < out@.len() ==> (#[trigger] out@[k]) < j,
            forall|k: int, l: int| 0 <= k < l < out@.len() ==> out@[k] < out@[l],
            forall|q: int|
                0 <= q < j ==> (out@.contains(q as usize) <==> !covered_by_slots(
                    slots@,
                    #[trigger] sysfs@[q],
                )),
        decreases sysfs@.len() - j,
    {
        let dc = chars_of(sysfs[j].bdf.as_str());
        let mut covered = false;
        let mut k: usize = 0;
        while k < slots.len()
            invariant
                j < sysfs@.len(),
                dc@ == sysfs@[j as int].bdf@,
                k <= slots@.len(),
                covered <==> exists|q: int|
                    0 <= q < k && ((#[trigger] slots@[q]).bdf matches Some(b) && eq_ignore_ascii_case(
                        b@,
                        dc@,
                    )),
            decreases slots@.len() - k,
        {
            match &slots[k].bdf {
                Some(b) => {
                    let bc = chars_of(b.as_str());
                    if eq_ignore_ascii_case_chars(bc.as_slice(), dc.as_slice()) {
                        covered = true;
                    }
                },
                None => {},
            }
            k = k + 1;
        }
        let ghost before = out@;
        if !covered {
            out.push(j);
        }
        proof {
            assert forall|q: int|
                0 <= q < j + 1 implies (out@.contains(q as usize) <==> !covered_by_slots(
                slots@,
                #[trigger] sysfs@[q],
            )) by {
                if q < j {
                    if out@.contains(q as usize) {
                        let w = choose|w: int| 0 <= w < out@.len() && out@[w] == q as usize;
                        if w == before.len() {
                            assert(out@[w] == j);
                        } else {
                            assert(before[w] == out@[w]);
                        }
                    }
                    if before.contains(q as usize) {
                        let w = choose|w: int| 0 <= w < before.len() && before[w] == q as usize;
                        assert(out@[w] == before[w]);
                    }
                } else {
                    if !covered {
                        assert(out@[before.len() as int] == j);
                    } else {
                        assert(!before.contains(j));
                    }
                }
            }
        }
        j = j + 1;
    }
    out
}

/// Adapter names learned during live passes, keyed by lower-cased BDF: the
/// sysfs-only paths find an adapter's name by its identity, never by list
/// position.
pub type GpuNames = KeyedTable<String>;

/// Remembers the name NVML reported for the adapter with BDF `bdf`.
pub fn remember_gpu_name(names: &mut GpuNames, bdf: &str, name: &str)
    ensures
        final(names)@ == old(names)@.insert(lowercase_of(bdf@), name@),
{
    let key = to_lowercase(bdf);
    names.insert(key.as_str(), name.to_owned());
}

/// The name remembered for the adapter with BDF `bdf`.
pub fn gpu_name_for_bdf(names: &GpuNames, bdf: &str) -> (r: Option<String>)
    ensures
        match r {
            Some(n) => names@.contains_key(lowercase_of(bdf@)) && n@ == names@[lowercase_of(bdf@)],
            None => !names@.contains_key(lowercase_of(bdf@)),
        },
{
    let key = to_lowercase(bdf);
    match names.get(key.as_str()) {
        Some(n) => Some(n.clone()),
        None => None,
    }
}

/// NVML device index -> PCI BDF, learned from the driver during live passes.
/// NVML's index order is an implementation detail of the library; the BDF is
/// the identity the kernel, sysfs and NVML all agree on.
pub struct NvmlBdfMap {
    map: HashMap<u32, String>,
}

impl View for NvmlBdfMap {
    type V = Map<u32, Seq<char>>;

    closed spec fn view(&self) -> Map<u32, Seq<char>> {
        self.map@.map_values(|s: String| s@)
    }
}

/// Does some learned index map to BDF `b` (ignoring case)?
pub open spec fn bdf_learned(m: Map<u32, Seq<char>>, b: Seq<char>) -> bool {
    exists|k: u32| m.contains_key(k) && eq_ignore_ascii_case(#[trigger] m[k], b)
}

impl NvmlBdfMap {
    /// No association learned yet.
    pub fn new() -> (r: Self)
        ensures
            r@ == Map::<u32, Seq<char>>::empty(),
    {
        let r = NvmlBdfMap { map: HashMap::new() };
        assert(r@ =~= Map::<u32, Seq<char>>::empty());
        r
    }

    /// BDF the most recent live pass saw for an NVML index.
    pub fn bdf_for_nvml_index(&self, index: u32) -> (r: Option<String>)
        ensures
            match r {
                Some(b) => self@.contains_key(index) && b@ == self@[index],
                None => !self@.contains_key(index),
            },
    {
        broadcast use vstd::std_specs::hash::group_hash_axioms;

        match self.map.get(&index) {
            Some(b) => Some(b.clone()),
            None => None,
        }
    }

    /// An NVML index whose learned BDF is `bdf` (ignoring case).
    pub fn nvml_index_for_bdf(&self, bdf: &str) -> (r: Option<u32>)
        ensures
            match r {
                Some(k) => self@.contains_key(k) && eq_ignore_ascii_case(self@[k], bdf@),
                None => !bdf_learned(self@, bdf@),
            },
    {
        broadcast use vstd::std_specs::hash::group_hash_axioms;

        let bc = chars_of(bdf);
        let ghost m = self.map@;
        for (k, v) in it: self.map.iter()
            invariant
                bc@ == bdf@,
                m == self.map@,
                it.seq() == spec_hash_map_iter(&self.map).remaining(),
                forall|q: int|
                    0 <= q < it.index() ==> !eq_ignore_ascii_case((*#[trigger] it.seq()[q].1)@, bdf@),
        {
            let kc = chars_of(v.as_str());
            if eq_ignore_ascii_case_chars(kc.as_slice(), bc.as_slice()) {
                proof {
                    let s = spec_hash_map_iter(&self.map).remaining();
                    assert(m.contains_key(*s[it.index() as int].0));
                }
                return Some(*k);
            }
        }
        proof {
            let s = spec_hash_map_iter(&self.map).remaining();
            assert forall|q: u32| self@.contains_key(q) implies !eq_ignore_ascii_case(
                #[trigger] self@[q],
                bdf@,
            ) by {
                assert(m.contains_key(q));
                assert(s.contains((&q, &m[q])));
                let i = choose|i: int| 0 <= i < s.len() && s[i] == (&q, &m[q]);
                assert(!eq_ignore_ascii_case((*s[i].1)@, bdf@));
            }
        }
        None
    }

    /// Learns that NVML index `index` reports BDF `bdf`. An association that
    /// already says the same (ignoring case) is kept; otherwise the index is
    /// (re)mapped to the lower-cased BDF.
    pub fn remember_nvml_bdf(&mut self, index: u32, bdf: &str)
        ensures
            (old(self)@.contains_key(index) && eq_ignore_ascii_case(old(self)@[index], bdf@))
                ==> final(self)@ == old(self)@,
            !(old(self)@.contains_key(index) && eq_ignore_ascii_case(old(self)@[index], bdf@))
                ==> final(self)@ == old(self)@.insert(index, lowercase_of(bdf@)),
    {
        broadcast use vstd::std_specs::hash::group_hash_axioms;

        let same = match self.map.get(&index) {
            Some(known) => eq_ignore_ascii_case_chars(chars_of(known.as_str()).as_slice(), chars_of(bdf).as_slice()),
            None => false,
        };
        if same {
            return;
        }
        let value = to_lowercase(bdf);
        self.map.insert(index, value);
        proof {
            assert(self@ =~= old(self)@.insert(index, lowercase_of(bdf@)));
        }
    }
}

/// Is the GPU behind this NVML index runtime-suspended? The BDF learned from
/// NVML decides it. When no identity is learned yet on a multi-adapter system
/// (or sysfs does not list it), the index is treated as suspended: refusing
/// to query is the conservative choice, since a wrong "awake" answer would
/// wake the adapter.
pub fn is_gpu_suspended_by_index(map: &NvmlBdfMap, index: u32, sysfs: &[SysfsNvidiaDevice]) -> (r: bool)
    ensures
        r == match suspended_decision_of(
            sysfs@,
            if map@.contains_key(index) {
                Some(map@[index])
            } else {
                None
            },
            sysfs@.len() as int,
        ) {
            Some(s) => s,
            None => true,
        },
{
    let known = map.bdf_for_nvml_index(index);
    let decision = match &known {
        Some(b) => suspended_decision(sysfs, Some(b.as_str()), sysfs.len()),
        None => suspended_decision(sysfs, None, sysfs.len()),
    };
    match decision {
        Some(s) => s,
        None => true,
    }
}

} // verus!
