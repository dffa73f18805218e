//! Applying a profile: the hardware steps it asks for, in the order they
//! run, and which of them abort the apply when they fail.
use vstd::prelude::*;
use crate::keyboard::HardwareInterface;
use crate::text::{chars_of, contains_chars, contains_seq, lowercase_of, to_lowercase};
use crate::types::{CpuSettings, NvidiaFanSettings};

verus! {

/// One hardware step of a profile apply. Steps without data take it from
/// the profile (the governor name, the keyboard settings, ...).
#[derive(Debug, Clone, Copy, PartialEq, Eq, Structural)]
pub enum ProfileStep {
    Governor,
    TdpProfile,
    /// A power limit written through the vendor interface (Uniwill only).
    VendorTdp { slot: u8, value: u32 },
    AmdPstateStatus,
    IntelPstateStatus,
    EnergyPerformancePreference,
    FrequencyLimits { min: u64, max: u64 },
    GpuPowerLimit { gpu: u32, limit: u32 },
    GpuCoreOffset { gpu: u32 },
    GpuMemoryOffset { gpu: u32 },
    GpuLockedClocks { gpu: u32, min: u32, max: u32 },
    GpuResetClocks { gpu: u32 },
    Boost(bool),
    Smt(bool),
    Keyboard,
    Screen,
    Fans,
    GpuFanSpeed { gpu: u32, fan: u32, speed: u32 },
    GpuFanAuto { gpu: u32, fan: u32 },
}

/// The GPU part of a profile, as far as the plan needs it (the offsets are
/// only asked for when set).
pub struct GpuProfileRequest {
    pub power_limit: Option<u32>,
    pub core_offset_set: bool,
    pub memory_offset_set: bool,
    pub min_gpu_clock: Option<u32>,
    pub max_gpu_clock: Option<u32>,
    pub nvidia_fans: Vec<NvidiaFanSettings>,
}

/// Does a failure of the step abort the apply? CPU, keyboard, screen and
/// fan steps do; the vendor power limits and the GPU steps are best effort.
pub open spec fn step_required(s: ProfileStep) -> bool {
    match s {
        ProfileStep::Governor | ProfileStep::TdpProfile | ProfileStep::AmdPstateStatus
        | ProfileStep::IntelPstateStatus | ProfileStep::EnergyPerformancePreference
        | ProfileStep::FrequencyLimits { .. } | ProfileStep::Boost(_) | ProfileStep::Smt(_)
        | ProfileStep::Keyboard | ProfileStep::Screen | ProfileStep::Fans => true,
        _ => false,
    }
}

pub fn aborts_on_failure(s: ProfileStep) -> (r: bool)
    ensures
        r == step_required(s),
{
    match s {
        ProfileStep::Governor | ProfileStep::TdpProfile | ProfileStep::AmdPstateStatus
        | ProfileStep::IntelPstateStatus | ProfileStep::EnergyPerformancePreference
        | ProfileStep::FrequencyLimits { .. } | ProfileStep::Boost(_) | ProfileStep::Smt(_)
        | ProfileStep::Keyboard | ProfileStep::Screen | ProfileStep::Fans => true,
        _ => false,
    }
}

pub open spec fn step_if(cond: bool, s: ProfileStep) -> Seq<ProfileStep> {
    if cond {
        seq![s]
    } else {
        Seq::empty()
    }
}

/// The CPU steps before the GPU ones: governor, TDP profile, the vendor
/// power limits (on a Uniwill interface), the P-state modes, the energy
/// preference and the frequency limits (when both are set).
pub open spec fn cpu_head_steps(cpu: CpuSettings, io: Option<HardwareInterface>) -> Seq<ProfileStep> {
    let vendor = if io == Some(HardwareInterface::Uniwill) {
        step_if(cpu.tdp0 is Some, ProfileStep::VendorTdp { slot: 0, value: cpu.tdp0->0 }) + step_if(
            cpu.tdp1 is Some,
            ProfileStep::VendorTdp { slot: 1, value: cpu.tdp1->0 },
        ) + step_if(cpu.tdp2 is Some, ProfileStep::VendorTdp { slot: 2, value: cpu.tdp2->0 })
    } else {
        Seq::empty()
    };
    step_if(cpu.governor is Some, ProfileStep::Governor) + step_if(
        cpu.tdp_profile is Some,
        ProfileStep::TdpProfile,
    ) + vendor + step_if(cpu.amd_pstate_status is Some, ProfileStep::AmdPstateStatus) + step_if(
        cpu.intel_pstate_status is Some,
        ProfileStep::IntelPstateStatus,
    ) + step_if(cpu.energy_performance_preference is Some, ProfileStep::EnergyPerformancePreference)
        + step_if(
        cpu.min_frequency is Some && cpu.max_frequency is Some,
        ProfileStep::FrequencyLimits { min: cpu.min_frequency->0, max: cpu.max_frequency->0 },
    )
}

/// The GPU steps: power limit, offsets, and locked clocks when both bounds
/// are set (otherwise the clocks are reset).
pub open spec fn gpu_steps(gpu: GpuProfileRequest, index: u32) -> Seq<ProfileStep> {
    step_if(gpu.power_limit is Some, ProfileStep::GpuPowerLimit { gpu: index, limit: gpu.power_limit->0 })
        + step_if(gpu.core_offset_set, ProfileStep::GpuCoreOffset { gpu: index }) + step_if(
        gpu.memory_offset_set,
        ProfileStep::GpuMemoryOffset { gpu: index },
    ) + if gpu.min_gpu_clock is Some && gpu.max_gpu_clock is Some {
        seq![
            ProfileStep::GpuLockedClocks {
                gpu: index,
                min: gpu.min_gpu_clock->0,
                max: gpu.max_gpu_clock->0,
            },
        ]
    } else {
        seq![ProfileStep::GpuResetClocks { gpu: index }]
    }
}

/// One step per saved GPU fan setting, in order.
pub open spec fn fan_step(f: NvidiaFanSettings) -> ProfileStep {
    if f.manual {
        ProfileStep::GpuFanSpeed { gpu: f.device_index, fan: f.fan_id, speed: f.speed }
    } else {
        ProfileStep::GpuFanAuto { gpu: f.device_index, fan: f.fan_id }
    }
}

/// The steps of a profile apply, in the order they run.
pub open spec fn profile_plan(
    cpu: CpuSettings,
    io: Option<HardwareInterface>,
    gpu: GpuProfileRequest,
    gpu_index: u32,
) -> Seq<ProfileStep> {
    cpu_head_steps(cpu, io) + gpu_steps(gpu, gpu_index) + step_if(
        cpu.boost is Some,
        ProfileStep::Boost(cpu.boost->0),
    ) + step_if(cpu.smt is Some, ProfileStep::Smt(cpu.smt->0)) + seq![
        ProfileStep::Keyboard,
        ProfileStep::Screen,
        ProfileStep::Fans,
    ] + gpu.nvidia_fans@.map_values(|f: NvidiaFanSettings| fan_step(f))
}

/// The steps that apply a CPU setting of the profile by name: governor,
/// TDP profile, the two P-state modes and the energy preference.
pub open spec fn is_cpu_setting(s: ProfileStep) -> bool {
    ||| s is Governor
    ||| s is TdpProfile
    ||| s is AmdPstateStatus
    ||| s is IntelPstateStatus
    ||| s is EnergyPerformancePreference
}

pub open spec fn cpu_setting_pred() -> spec_fn(ProfileStep) -> bool {
    |s: ProfileStep| is_cpu_setting(s)
}

/// The CPU-setting steps of `p`, in their order in `p`.
pub open spec fn cpu_setting_steps(p: Seq<ProfileStep>) -> Seq<ProfileStep> {
    p.filter(cpu_setting_pred())
}

proof fn lemma_cpu_setting_steps_none(p: Seq<ProfileStep>)
    requires
        forall|i: int| 0 <= i < p.len() ==> !is_cpu_setting(#[trigger] p[i]),
    ensures
        cpu_setting_steps(p) == Seq::<ProfileStep>::empty(),
    decreases p.len(),
{
    reveal(Seq::filter);
    if p.len() > 0 {
        let q = p.drop_last();
        assert forall|i: int| 0 <= i < q.len() implies !is_cpu_setting(#[trigger] q[i]) by {
            assert(q[i] == p[i]);
        }
        lemma_cpu_setting_steps_none(q);
        assert(!is_cpu_setting(p[p.len() - 1]));
        assert(!(cpu_setting_pred())(p.last()));
        assert(cpu_setting_steps(p) == cpu_setting_steps(q));
    } else {
        assert(p =~= Seq::<ProfileStep>::empty());
    }
}

proof fn lemma_cpu_setting_steps_all(p: Seq<ProfileStep>)
    requires
        forall|i: int| 0 <= i < p.len() ==> is_cpu_setting(#[trigger] p[i]),
    ensures
        cpu_setting_steps(p) == p,
    decreases p.len(),
{
    reveal(Seq::filter);
    if p.len() > 0 {
        let q = p.drop_last();
        assert forall|i: int| 0 <= i < q.len() implies is_cpu_setting(#[trigger] q[i]) by {
            assert(q[i] == p[i]);
        }
        lemma_cpu_setting_steps_all(q);
        assert(is_cpu_setting(p[p.len() - 1]));
        assert((cpu_setting_pred())(p.last()));
        assert(cpu_setting_steps(p) == cpu_setting_steps(q).push(p.last()));
        assert(q.push(p.last()) =~= p);
    }
}

proof fn lemma_cpu_setting_steps_cat(a: Seq<ProfileStep>, b: Seq<ProfileStep>)
    ensures
        cpu_setting_steps(a + b) == cpu_setting_steps(a) + cpu_setting_steps(b),
{
    Seq::filter_distributes_over_add(a, b, cpu_setting_pred());
}

proof fn lemma_step_if_setting(c: bool, s: ProfileStep)
    ensures
        is_cpu_setting(s) ==> cpu_setting_steps(step_if(c, s)) == step_if(c, s),
        !is_cpu_setting(s) ==> cpu_setting_steps(step_if(c, s)) == Seq::<ProfileStep>::empty(),
{
    if is_cpu_setting(s) {
        lemma_cpu_setting_steps_all(step_if(c, s));
    } else {
        lemma_cpu_setting_steps_none(step_if(c, s));
    }
}

proof fn lemma_cpu_head_setting_steps(cpu: CpuSettings, io: Option<HardwareInterface>)
    ensures
        cpu_setting_steps(cpu_head_steps(cpu, io)) == step_if(cpu.governor is Some, ProfileStep::Governor)
            + step_if(cpu.tdp_profile is Some, ProfileStep::TdpProfile) + step_if(
            cpu.amd_pstate_status is Some,
            ProfileStep::AmdPstateStatus,
        ) + step_if(cpu.intel_pstate_status is Some, ProfileStep::IntelPstateStatus) + step_if(
            cpu.energy_performance_preference is Some,
            ProfileStep::EnergyPerformancePreference,
        ),
{
    let e = Seq::<ProfileStep>::empty();
    let g = step_if(cpu.governor is Some, ProfileStep::Governor);
    let t = step_if(cpu.tdp_profile is Some, ProfileStep::TdpProfile);
    let a = step_if(cpu.amd_pstate_status is Some, ProfileStep::AmdPstateStatus);
    let i = step_if(cpu.intel_pstate_status is Some, ProfileStep::IntelPstateStatus);
    let pp = step_if(cpu.energy_performance_preference is Some, ProfileStep::EnergyPerformancePreference);
    let v0 = step_if(cpu.tdp0 is Some, ProfileStep::VendorTdp { slot: 0, value: cpu.tdp0->0 });
    let v1 = step_if(cpu.tdp1 is Some, ProfileStep::VendorTdp { slot: 1, value: cpu.tdp1->0 });
    let v2 = step_if(cpu.tdp2 is Some, ProfileStep::VendorTdp { slot: 2, value: cpu.tdp2->0 });
    let vendor = if io == Some(HardwareInterface::Uniwill) {
        v0 + v1 + v2
    } else {
        e
    };
    let fl = step_if(
        cpu.min_frequency is Some && cpu.max_frequency is Some,
        ProfileStep::FrequencyLimits { min: cpu.min_frequency->0, max: cpu.max_frequency->0 },
    );
    lemma_step_if_setting(cpu.governor is Some, ProfileStep::Governor);
    lemma_step_if_setting(cpu.tdp_profile is Some, ProfileStep::TdpProfile);
    lemma_step_if_setting(cpu.amd_pstate_status is Some, ProfileStep::AmdPstateStatus);
    lemma_step_if_setting(cpu.intel_pstate_status is Some, ProfileStep::IntelPstateStatus);
    lemma_step_if_setting(
        cpu.energy_performance_preference is Some,
        ProfileStep::EnergyPerformancePreference,
    );
    lemma_step_if_setting(cpu.tdp0 is Some, ProfileStep::VendorTdp { slot: 0, value: cpu.tdp0->0 });
    lemma_step_if_setting(cpu.tdp1 is Some, ProfileStep::VendorTdp { slot: 1, value: cpu.tdp1->0 });
    lemma_step_if_setting(cpu.tdp2 is Some, ProfileStep::VendorTdp { slot: 2, value: cpu.tdp2->0 });
    lemma_step_if_setting(
        cpu.min_frequency is Some && cpu.max_frequency is Some,
        ProfileStep::FrequencyLimits { min: cpu.min_frequency->0, max: cpu.max_frequency->0 },
    );
    lemma_cpu_setting_steps_none(e);
    lemma_cpu_setting_steps_cat(v0, v1);
    lemma_cpu_setting_steps_cat(v0 + v1, v2);
    assert(cpu_setting_steps(vendor) == e);
    lemma_cpu_setting_steps_cat(g, t);
    lemma_cpu_setting_steps_cat(g + t, vendor);
    lemma_cpu_setting_steps_cat(g + t + vendor, a);
    lemma_cpu_setting_steps_cat(g + t + vendor + a, i);
    lemma_cpu_setting_steps_cat(g + t + vendor + a + i, pp);
    lemma_cpu_setting_steps_cat(g + t + vendor + a + i + pp, fl);
    let head = cpu_head_steps(cpu, io);
    assert(head == g + t + vendor + a + i + pp + fl);
    assert(cpu_setting_steps(head) =~= g + t + a + i + pp);
}

proof fn lemma_gpu_and_tail_steps_set_no_cpu_setting(
    cpu: CpuSettings,
    gpu: GpuProfileRequest,
    gpu_index: u32,
)
    ensures
        cpu_setting_steps(gpu_steps(gpu, gpu_index)) == Seq::<ProfileStep>::empty(),
        cpu_setting_steps(step_if(cpu.boost is Some, ProfileStep::Boost(cpu.boost->0)))
            == Seq::<ProfileStep>::empty(),
        cpu_setting_steps(step_if(cpu.smt is Some, ProfileStep::Smt(cpu.smt->0)))
            == Seq::<ProfileStep>::empty(),
        cpu_setting_steps(seq![ProfileStep::Keyboard, ProfileStep::Screen, ProfileStep::Fans])
            == Seq::<ProfileStep>::empty(),
        cpu_setting_steps(gpu.nvidia_fans@.map_values(|f: NvidiaFanSettings| fan_step(f)))
            == Seq::<ProfileStep>::empty(),
{
    let gs = gpu_steps(gpu, gpu_index);
    let b = step_if(cpu.boost is Some, ProfileStep::Boost(cpu.boost->0));
    let sm = step_if(cpu.smt is Some, ProfileStep::Smt(cpu.smt->0));
    let ksf = seq![ProfileStep::Keyboard, ProfileStep::Screen, ProfileStep::Fans];
    let fans = gpu.nvidia_fans@.map_values(|f: NvidiaFanSettings| fan_step(f));
    let g0 = step_if(
        gpu.power_limit is Some,
        ProfileStep::GpuPowerLimit { gpu: gpu_index, limit: gpu.power_limit->0 },
    );
    let g1 = step_if(gpu.core_offset_set, ProfileStep::GpuCoreOffset { gpu: gpu_index });
    let g2 = step_if(gpu.memory_offset_set, ProfileStep::GpuMemoryOffset { gpu: gpu_index });
    let g3 = if gpu.min_gpu_clock is Some && gpu.max_gpu_clock is Some {
        seq![
            ProfileStep::GpuLockedClocks {
                gpu: gpu_index,
                min: gpu.min_gpu_clock->0,
                max: gpu.max_gpu_clock->0,
            },
        ]
    } else {
        seq![ProfileStep::GpuResetClocks { gpu: gpu_index }]
    };
    lemma_step_if_setting(
        gpu.power_limit is Some,
        ProfileStep::GpuPowerLimit { gpu: gpu_index, limit: gpu.power_limit->0 },
    );
    lemma_step_if_setting(gpu.core_offset_set, ProfileStep::GpuCoreOffset { gpu: gpu_index });
    lemma_step_if_setting(gpu.memory_offset_set, ProfileStep::GpuMemoryOffset { gpu: gpu_index });
    assert forall|k: int| 0 <= k < g3.len() implies !is_cpu_setting(#[trigger] g3[k]) by {}
    lemma_cpu_setting_steps_none(g3);
    lemma_cpu_setting_steps_cat(g0, g1);
    lemma_cpu_setting_steps_cat(g0 + g1, g2);
    lemma_cpu_setting_steps_cat(g0 + g1 + g2, g3);
    assert(gs == g0 + g1 + g2 + g3);
    assert(cpu_setting_steps(gs) =~= Seq::<ProfileStep>::empty());
    lemma_step_if_setting(cpu.boost is Some, ProfileStep::Boost(cpu.boost->0));
    lemma_step_if_setting(cpu.smt is Some, ProfileStep::Smt(cpu.smt->0));
    assert forall|k: int| 0 <= k < ksf.len() implies !is_cpu_setting(#[trigger] ksf[k]) by {}
    lemma_cpu_setting_steps_none(ksf);
    assert forall|k: int| 0 <= k < fans.len() implies !is_cpu_setting(#[trigger] fans[k]) by {
        assert(fans[k] == fan_step(gpu.nvidia_fans@[k]));
    }
    lemma_cpu_setting_steps_none(fans);
}

/// Every CPU setting that the profile sets yields its own step, and no other
/// step applies one: the governor, TDP-profile, AMD and Intel P-state and
/// energy-preference steps of a plan are exactly those whose settings are
/// present, in that order.
pub proof fn lemma_cpu_settings_yield_their_steps_in_order(
    cpu: CpuSettings,
    io: Option<HardwareInterface>,
    gpu: GpuProfileRequest,
    gpu_index: u32,
)
    ensures
        cpu_setting_steps(profile_plan(cpu, io, gpu, gpu_index)) == step_if(
            cpu.governor is Some,
            ProfileStep::Governor,
        ) + step_if(cpu.tdp_profile is Some, ProfileStep::TdpProfile) + step_if(
            cpu.amd_pstate_status is Some,
            ProfileStep::AmdPstateStatus,
        ) + step_if(cpu.intel_pstate_status is Some, ProfileStep::IntelPstateStatus) + step_if(
            cpu.energy_performance_preference is Some,
            ProfileStep::EnergyPerformancePreference,
        ),
{
    let g = step_if(cpu.governor is Some, ProfileStep::Governor);
    let t = step_if(cpu.tdp_profile is Some, ProfileStep::TdpProfile);
    let a = step_if(cpu.amd_pstate_status is Some, ProfileStep::AmdPstateStatus);
    let i = step_if(cpu.intel_pstate_status is Some, ProfileStep::IntelPstateStatus);
    let pp = step_if(cpu.energy_performance_preference is Some, ProfileStep::EnergyPerformancePreference);
    let head = cpu_head_steps(cpu, io);
    let gs = gpu_steps(gpu, gpu_index);
    let b = step_if(cpu.boost is Some, ProfileStep::Boost(cpu.boost->0));
    let sm = step_if(cpu.smt is Some, ProfileStep::Smt(cpu.smt->0));
    let ksf = seq![ProfileStep::Keyboard, ProfileStep::Screen, ProfileStep::Fans];
    let fans = gpu.nvidia_fans@.map_values(|f: NvidiaFanSettings| fan_step(f));
    lemma_cpu_head_setting_steps(cpu, io);
    lemma_gpu_and_tail_steps_set_no_cpu_setting(cpu, gpu, gpu_index);
    lemma_cpu_setting_steps_cat(head, gs);
    lemma_cpu_setting_steps_cat(head + gs, b);
    lemma_cpu_setting_steps_cat(head + gs + b, sm);
    lemma_cpu_setting_steps_cat(head + gs + b + sm, ksf);
    lemma_cpu_setting_steps_cat(head + gs + b + sm + ksf, fans);
    assert(profile_plan(cpu, io, gpu, gpu_index) == head + gs + b + sm + ksf + fans);
    assert(cpu_setting_steps(profile_plan(cpu, io, gpu, gpu_index)) =~= g + t + a + i + pp);
}

proof fn lemma_plan_contains_setting_step(p: Seq<ProfileStep>, x: ProfileStep)
    requires
        is_cpu_setting(x),
    ensures
        p.contains(x) <==> cpu_setting_steps(p).contains(x),
{
    if p.contains(x) {
        let k = choose|k: int| 0 <= k < p.len() && p[k] == x;
        assert((cpu_setting_pred())(p[k]));
        p.lemma_filter_contains(cpu_setting_pred(), k);
    }
    if cpu_setting_steps(p).contains(x) {
        p.lemma_filter_contains_rev(cpu_setting_pred(), x);
    }
}

proof fn lemma_step_if_contains(c: bool, s: ProfileStep, x: ProfileStep)
    ensures
        step_if(c, s).contains(x) <==> (c && s == x),
{
    if c {
        assert(step_if(c, s)[0] == s);
    }
}

proof fn lemma_contains_cat(a: Seq<ProfileStep>, b: Seq<ProfileStep>, x: ProfileStep)
    ensures
        (a + b).contains(x) <==> (a.contains(x) || b.contains(x)),
{
    if a.contains(x) {
        let k = choose|k: int| 0 <= k < a.len() && a[k] == x;
        assert((a + b)[k] == x);
    }
    if b.contains(x) {
        let k = choose|k: int| 0 <= k < b.len() && b[k] == x;
        assert((a + b)[a.len() + k] == x);
    }
    if (a + b).contains(x) {
        let k = choose|k: int| 0 <= k < (a + b).len() && (a + b)[k] == x;
        if k < a.len() {
            assert(a[k] == x);
        } else {
            assert(b[k - a.len()] == x);
        }
    }
}

proof fn lemma_plan_contains_setting(
    cpu: CpuSettings,
    io: Option<HardwareInterface>,
    gpu: GpuProfileRequest,
    gpu_index: u32,
    x: ProfileStep,
)
    requires
        is_cpu_setting(x),
    ensures
        profile_plan(cpu, io, gpu, gpu_index).contains(x) <==> (
        (x is Governor && cpu.governor is Some)
        || (x is TdpProfile && cpu.tdp_profile is Some)
        || (x is AmdPstateStatus && cpu.amd_pstate_status is Some)
        || (x is IntelPstateStatus && cpu.intel_pstate_status is Some)
        || (x is EnergyPerformancePreference && cpu.energy_performance_preference is Some)),
{
    let g = step_if(cpu.governor is Some, ProfileStep::Governor);
    let t = step_if(cpu.tdp_profile is Some, ProfileStep::TdpProfile);
    let a = step_if(cpu.amd_pstate_status is Some, ProfileStep::AmdPstateStatus);
    let i = step_if(cpu.intel_pstate_status is Some, ProfileStep::IntelPstateStatus);
    let pp = step_if(cpu.energy_performance_preference is Some, ProfileStep::EnergyPerformancePreference);
    lemma_cpu_settings_yield_their_steps_in_order(cpu, io, gpu, gpu_index);
    lemma_plan_contains_setting_step(profile_plan(cpu, io, gpu, gpu_index), x);
    lemma_contains_cat(g, t, x);
    lemma_contains_cat(g + t, a, x);
    lemma_contains_cat(g + t + a, i, x);
    lemma_contains_cat(g + t + a + i, pp, x);
    lemma_step_if_contains(cpu.governor is Some, ProfileStep::Governor, x);
    lemma_step_if_contains(cpu.tdp_profile is Some, ProfileStep::TdpProfile, x);
    lemma_step_if_contains(cpu.amd_pstate_status is Some, ProfileStep::AmdPstateStatus, x);
    lemma_step_if_contains(cpu.intel_pstate_status is Some, ProfileStep::IntelPstateStatus, x);
    lemma_step_if_contains(
        cpu.energy_performance_preference is Some,
        ProfileStep::EnergyPerformancePreference,
        x,
    );
}

/// A plan holds the governor, TDP-profile, AMD P-state, Intel P-state and
/// energy-preference steps exactly when the profile sets the governor, the
/// TDP profile, the AMD mode, the Intel mode and the energy preference.
pub proof fn lemma_plan_holds_a_cpu_setting_step_iff_it_is_set(
    cpu: CpuSettings,
    io: Option<HardwareInterface>,
    gpu: GpuProfileRequest,
    gpu_index: u32,
)
    ensures
        profile_plan(cpu, io, gpu, gpu_index).contains(ProfileStep::Governor) <==> cpu.governor is Some,
        profile_plan(cpu, io, gpu, gpu_index).contains(ProfileStep::TdpProfile) <==> cpu.tdp_profile is Some,
        profile_plan(cpu, io, gpu, gpu_index).contains(ProfileStep::AmdPstateStatus)
            <==> cpu.amd_pstate_status is Some,
        profile_plan(cpu, io, gpu, gpu_index).contains(ProfileStep::IntelPstateStatus)
            <==> cpu.intel_pstate_status is Some,
        profile_plan(cpu, io, gpu, gpu_index).contains(ProfileStep::EnergyPerformancePreference)
            <==> cpu.energy_performance_preference is Some,
{
    lemma_plan_contains_setting(cpu, io, gpu, gpu_index, ProfileStep::Governor);
    lemma_plan_contains_setting(cpu, io, gpu, gpu_index, ProfileStep::TdpProfile);
    lemma_plan_contains_setting(cpu, io, gpu, gpu_index, ProfileStep::AmdPstateStatus);
    lemma_plan_contains_setting(cpu, io, gpu, gpu_index, ProfileStep::IntelPstateStatus);
    lemma_plan_contains_setting(cpu, io, gpu, gpu_index, ProfileStep::EnergyPerformancePreference);
}

fn push_if(v: &mut Vec<ProfileStep>, cond: bool, s: ProfileStep)
    ensures
        final(v)@ == old(v)@ + step_if(cond, s),
{
    if cond {
        v.push(s);
        proof {
            assert(v@ =~= old(v)@ + seq![s]);
        }
    } else {
        proof {
            assert(v@ =~= old(v)@ + Seq::<ProfileStep>::empty());
        }
    }
}

fn vendor_tdp_steps(cpu: &CpuSettings, io: Option<HardwareInterface>) -> (r: Vec<ProfileStep>)
    ensures
        r@ == (if io == Some(HardwareInterface::Uniwill) {
            step_if(cpu.tdp0 is Some, ProfileStep::VendorTdp { slot: 0, value: cpu.tdp0->0 })
                + step_if(cpu.tdp1 is Some, ProfileStep::VendorTdp { slot: 1, value: cpu.tdp1->0 })
                + step_if(cpu.tdp2 is Some, ProfileStep::VendorTdp { slot: 2, value: cpu.tdp2->0 })
        } else {
            Seq::empty()
        }),
{
    let mut v: Vec<ProfileStep> = Vec::new();
    let uniwill = match io {
        Some(HardwareInterface::Uniwill) => true,
        _ => false,
    };
    if uniwill {
        match cpu.tdp0 {
            Some(t) => push_if(&mut v, true, ProfileStep::VendorTdp { slot: 0, value: t }),
            None => push_if(&mut v, false, ProfileStep::VendorTdp { slot: 0, value: 0 }),
        }
        match cpu.tdp1 {
            Some(t) => push_if(&mut v, true, ProfileStep::VendorTdp { slot: 1, value: t }),
            None => push_if(&mut v, false, ProfileStep::VendorTdp { slot: 1, value: 0 }),
        }
        match cpu.tdp2 {
            Some(t) => push_if(&mut v, true, ProfileStep::VendorTdp { slot: 2, value: t }),
            None => push_if(&mut v, false, ProfileStep::VendorTdp { slot: 2, value: 0 }),
        }
    }
    v
}

fn cpu_head(cpu: &CpuSettings, io: Option<HardwareInterface>) -> (r: Vec<ProfileStep>)
    ensures
        r@ == cpu_head_steps(*cpu, io),
{
    let mut v: Vec<ProfileStep> = Vec::new();
    push_if(&mut v, cpu.governor.is_some(), ProfileStep::Governor);
    push_if(&mut v, cpu.tdp_profile.is_some(), ProfileStep::TdpProfile);
    let mut vendor = vendor_tdp_steps(cpu, io);
    v.append(&mut vendor);
    push_if(&mut v, cpu.amd_pstate_status.is_some(), ProfileStep::AmdPstateStatus);
    push_if(&mut v, cpu.intel_pstate_status.is_some(), ProfileStep::IntelPstateStatus);
    push_if(
        &mut v,
        cpu.energy_performance_preference.is_some(),
        ProfileStep::EnergyPerformancePreference,
    );
    match (cpu.min_frequency, cpu.max_frequency) {
        (Some(min), Some(max)) => push_if(&mut v, true, ProfileStep::FrequencyLimits { min, max }),
        _ => push_if(&mut v, false, ProfileStep::FrequencyLimits { min: 0, max: 0 }),
    }
    proof {
        assert(v@ =~= cpu_head_steps(*cpu, io));
    }
    v
}

fn gpu_part(gpu: &GpuProfileRequest, gpu_index: u32) -> (r: Vec<ProfileStep>)
    ensures
        r@ == gpu_steps(*gpu, gpu_index),
{
    let mut v: Vec<ProfileStep> = Vec::new();
    match gpu.power_limit {
        Some(limit) => push_if(&mut v, true, ProfileStep::GpuPowerLimit { gpu: gpu_index, limit }),
        None => push_if(&mut v, false, ProfileStep::GpuPowerLimit { gpu: gpu_index, limit: 0 }),
    }
    push_if(&mut v, gpu.core_offset_set, ProfileStep::GpuCoreOffset { gpu: gpu_index });
    push_if(&mut v, gpu.memory_offset_set, ProfileStep::GpuMemoryOffset { gpu: gpu_index });
    match (gpu.min_gpu_clock, gpu.max_gpu_clock) {
        (Some(min), Some(max)) => v.push(ProfileStep::GpuLockedClocks { gpu: gpu_index, min, max }),
        _ => v.push(ProfileStep::GpuResetClocks { gpu: gpu_index }),
    }
    proof {
        assert(v@ =~= gpu_steps(*gpu, gpu_index));
    }
    v
}

fn fan_part(fans: &Vec<NvidiaFanSettings>) -> (r: Vec<ProfileStep>)
    ensures
        r@ == fans@.map_values(|f: NvidiaFanSettings| fan_step(f)),
{
    let mut v: Vec<ProfileStep> = Vec::new();
    let mut i: usize = 0;
    while i < fans.len()
        invariant
            i <= fans@.len(),
            v@ == fans@.subrange(0, i as int).map_values(|f: NvidiaFanSettings| fan_step(f)),
        decreases fans@.len() - i,
    {
        let f = fans[i];
        if f.manual {
            v.push(ProfileStep::GpuFanSpeed { gpu: f.device_index, fan: f.fan_id, speed: f.speed });
        } else {
            v.push(ProfileStep::GpuFanAuto { gpu: f.device_index, fan: f.fan_id });
        }
        i = i + 1;
        proof {
            assert(v@ =~= fans@.subrange(0, i as int).map_values(|f: NvidiaFanSettings| fan_step(f)));
        }
    }
    proof {
        assert(fans@.subrange(0, fans@.len() as int) =~= fans@);
    }
    v
}

/// The steps of a profile apply, in the order they run (see
/// `profile_plan`). A failing step that `aborts_on_failure` ends the apply.
pub fn plan_profile(
    cpu: &CpuSettings,
    io: Option<HardwareInterface>,
    gpu: &GpuProfileRequest,
    gpu_index: u32,
) -> (r: Vec<ProfileStep>)
    ensures
        r@ == profile_plan(*cpu, io, *gpu, gpu_index),
{
    let mut v = cpu_head(cpu, io);
    let mut g = gpu_part(gpu, gpu_index);
    v.append(&mut g);
    match cpu.boost {
        Some(b) => push_if(&mut v, true, ProfileStep::Boost(b)),
        None => push_if(&mut v, false, ProfileStep::Boost(false)),
    }
    match cpu.smt {
        Some(b) => push_if(&mut v, true, ProfileStep::Smt(b)),
        None => push_if(&mut v, false, ProfileStep::Smt(false)),
    }
    let ghost before = v@;
    v.push(ProfileStep::Keyboard);
    v.push(ProfileStep::Screen);
    v.push(ProfileStep::Fans);
    proof {
        assert(v@ =~= before + seq![ProfileStep::Keyboard, ProfileStep::Screen, ProfileStep::Fans]);
    }
    let mut f = fan_part(&gpu.nvidia_fans);
    v.append(&mut f);
    proof {
        assert(v@ =~= profile_plan(*cpu, io, *gpu, gpu_index));
    }
    v
}

/// A GPU as the hardware cache lists it: its name and NVML index.
pub struct GpuIdentity {
    pub name: String,
    pub nvml_index: Option<u32>,
}

/// The GPU the profile's GPU steps address: the NVML index of the first
/// GPU whose lower-cased name mentions "nvidia" (0 when it has none, or
/// there is no such GPU).
pub open spec fn nvidia_index_from(gpus: Seq<GpuIdentity>, i: int) -> u32
    decreases gpus.len() - i,
{
    if i < 0 || i >= gpus.len() {
        0
    } else if contains_seq(lowercase_of(gpus[i].name@), "nvidia"@) {
        match gpus[i].nvml_index {
            Some(n) => n,
            None => 0,
        }
    } else {
        nvidia_index_from(gpus, i + 1)
    }
}

pub fn nvidia_gpu_index(gpus: &Vec<GpuIdentity>) -> (r: u32)
    ensures
        r == nvidia_index_from(gpus@, 0),
{
    let key = chars_of("nvidia");
    let mut i: usize = 0;
    while i < gpus.len()
        invariant
            i <= gpus@.len(),
            key@ == "nvidia"@,
            nvidia_index_from(gpus@, 0) == nvidia_index_from(gpus@, i as int),
        decreases gpus@.len() - i,
    {
        let lower_s = to_lowercase(gpus[i].name.as_str());
        let lower = chars_of(lower_s.as_str());
        if contains_chars(lower.as_slice(), key.as_slice()) {
            return match gpus[i].nvml_index {
                Some(n) => n,
                None => 0,
            };
        }
        i = i + 1;
    }
    0
}


/// The profile last applied in full. An apply of a profile equal to it is
/// skipped; a profile is recorded only when every step of its apply
/// succeeded, and a failed apply clears the record, so that a partial apply
/// is never taken for a complete one and the next identical apply runs
/// again.
pub struct LastApplied<P> {
    last: Option<P>,
}

impl<P> LastApplied<P> {
    pub closed spec fn view(&self) -> Option<P> {
        self.last
    }

    /// Nothing applied yet.
    pub fn new() -> (r: Self)
        ensures
            r@ is None,
    {
        LastApplied { last: None }
    }

    /// The profile last applied in full, to compare the next one with.
    pub fn last(&self) -> (r: Option<&P>)
        ensures
            match self@ {
                Some(p) => r == Some(&p),
                None => r is None,
            },
    {
        match &self.last {
            Some(p) => Some(p),
            None => None,
        }
    }

    /// Records the outcome of applying `profile`: remembered when the apply
    /// succeeded, the record cleared when it failed.
    pub fn record(&mut self, profile: P, succeeded: bool)
        ensures
            final(self)@ == (if succeeded {
                Some(profile)
            } else {
                None
            }),
    {
        if succeeded {
            self.last = Some(profile);
        } else {
            self.last = None;
        }
    }
}

} // verus!
