//! RGB keyboard backlight control: what a mode request turns into.
//!
//! A keyboard is reached through the LED class directories of its zones and,
//! on TUXEDO hardware, through the vendor driver (Clevo boards take mode,
//! color and brightness commands there too). A request becomes a
//! [`KeyboardPlan`]: the driver commands and sysfs writes to perform, in
//! order, and the outcome it reports. Writes marked best-effort are the zone
//! colors of a mode: their failure is ignored, as it is in the plan itself.
use vstd::prelude::*;
use crate::cpu_control::SysfsWrite;
use crate::sysfs_guard::{guard_sysfs_write, guard_verdict, GuardError};
use crate::text::{decimal, push_decimal};
use crate::types::{KeyboardMode, KeyboardSettings, ZoneColor};

verus! {

/// The embedded-controller interface the vendor driver exposes.
#[derive(Debug, Clone, Copy, PartialEq, Eq, Structural)]
pub enum HardwareInterface {
    Clevo,
    Uniwill,
    Unknown,
}

/// What exists next to one zone's LED directory, read by the caller.
#[derive(Debug, Clone, Copy, PartialEq, Eq, Structural)]
pub struct LedState {
    pub has_multi_intensity: bool,
    pub has_mode: bool,
    pub has_speed: bool,
    /// `max_brightness`, when readable and numeric.
    pub max_brightness: Option<u32>,
}

/// Why a keyboard request failed.
#[derive(Debug, Clone, Copy, PartialEq, Eq, Structural)]
pub enum KbdError {
    /// Neither LED directories nor the vendor driver are present.
    Unavailable,
    /// No zone with this index.
    InvalidZone(usize),
    /// The zone has no `multi_intensity` attribute.
    RgbUnavailable(usize),
    /// The sysfs guard refused a write.
    Guard(GuardError),
}

/// One step of a keyboard plan.
#[derive(Debug)]
pub enum KbdAction {
    /// Vendor driver: set the effect mode word.
    ClevoMode(u32),
    /// Vendor driver: set one zone's color.
    ClevoColor { zone: u8, r: u8, g: u8, b: u8 },
    /// Vendor driver: set the brightness.
    ClevoBrightness(u8),
    /// A sysfs write; when `best_effort`, its failure is ignored.
    Write { write: SysfsWrite, best_effort: bool },
}

/// The content of a [`KbdAction`].
pub enum KbdStep {
    ClevoMode(u32),
    ClevoColor(u8, u8, u8, u8),
    ClevoBrightness(u8),
    Write(Seq<char>, Seq<char>, bool),
}

impl View for KbdAction {
    type V = KbdStep;

    open spec fn view(&self) -> KbdStep {
        match self {
            KbdAction::ClevoMode(m) => KbdStep::ClevoMode(*m),
            KbdAction::ClevoColor { zone, r, g, b } => KbdStep::ClevoColor(*zone, *r, *g, *b),
            KbdAction::ClevoBrightness(v) => KbdStep::ClevoBrightness(*v),
            KbdAction::Write { write, best_effort } => KbdStep::Write(
                write.path@,
                write.contents@,
                *best_effort,
            ),
        }
    }
}

/// The steps to perform, in order, and what the request then reports.
#[derive(Debug)]
pub struct KeyboardPlan {
    pub actions: Vec<KbdAction>,
    pub outcome: Result<(), KbdError>,
}

pub open spec fn steps_of(v: Seq<KbdAction>) -> Seq<KbdStep> {
    v.map_values(|a: KbdAction| a@)
}

pub open spec fn plan_view(p: KeyboardPlan) -> (Seq<KbdStep>, Result<(), KbdError>) {
    (steps_of(p.actions@), p.outcome)
}

/// `a`, then `b` if `a` succeeded.
pub open spec fn then(a: (Seq<KbdStep>, Result<(), KbdError>), b: (Seq<KbdStep>, Result<(), KbdError>)) -> (
    Seq<KbdStep>,
    Result<(), KbdError>,
) {
    if a.1 is Err {
        a
    } else {
        (a.0 + b.0, b.1)
    }
}

pub open spec fn mark_step(s: KbdStep) -> KbdStep {
    match s {
        KbdStep::Write(p, c, _) => KbdStep::Write(p, c, true),
        _ => s,
    }
}

/// The steps of `a` with every write made best-effort.
pub open spec fn best_effort(a: Seq<KbdStep>) -> Seq<KbdStep> {
    a.map_values(|s: KbdStep| mark_step(s))
}

pub open spec fn clevo_step(io: Option<HardwareInterface>, s: KbdStep) -> Seq<KbdStep> {
    if io == Some(HardwareInterface::Clevo) {
        seq![s]
    } else {
        Seq::empty()
    }
}

/// One guarded sysfs write.
pub open spec fn write_step(path: Seq<char>, contents: Seq<char>, max_brightness: Option<u32>) -> (
    Seq<KbdStep>,
    Result<(), KbdError>,
) {
    match guard_verdict(path, contents, None, max_brightness) {
        Ok(_) => (seq![KbdStep::Write(path, contents, false)], Ok(())),
        Err(e) => (Seq::empty(), Err(KbdError::Guard(e))),
    }
}

pub open spec fn rgb_text(r: u8, g: u8, b: u8) -> Seq<char> {
    decimal(r as nat) + " "@ + decimal(g as nat) + " "@ + decimal(b as nat)
}

/// Setting one zone's color: the vendor command on Clevo boards, then the
/// zone's `multi_intensity` write.
pub open spec fn zone_color_plan(
    io: Option<HardwareInterface>,
    paths: Seq<Seq<char>>,
    led: Seq<LedState>,
    zone: usize,
    r: u8,
    g: u8,
    b: u8,
) -> (Seq<KbdStep>, Result<(), KbdError>) {
    then(
        (clevo_step(io, KbdStep::ClevoColor(zone as u8, r, g, b)), Ok(())),
        if zone >= paths.len() {
            (Seq::empty(), Err(KbdError::InvalidZone(zone)))
        } else if !led[zone as int].has_multi_intensity {
            (Seq::empty(), Err(KbdError::RgbUnavailable(zone)))
        } else {
            write_step(paths[zone as int] + "/multi_intensity"@, rgb_text(r, g, b), None)
        },
    )
}

/// The brightness written to zone `i`: the percentage of its maximum (255
/// when unreadable).
pub open spec fn zone_brightness(led: LedState, brightness: u8) -> nat {
    let max = match led.max_brightness {
        Some(m) => m as nat,
        None => 255,
    };
    (brightness as nat * max) / 100
}

pub open spec fn brightness_steps(paths: Seq<Seq<char>>, led: Seq<LedState>, brightness: u8, n: int) -> (
    Seq<KbdStep>,
    Result<(), KbdError>,
)
    decreases n,
{
    if n <= 0 {
        (Seq::empty(), Ok(()))
    } else {
        then(
            brightness_steps(paths, led, brightness, n - 1),
            write_step(
                paths[n - 1] + "/brightness"@,
                decimal(zone_brightness(led[n - 1], brightness)),
                led[n - 1].max_brightness,
            ),
        )
    }
}

/// Setting the brightness: the vendor command on Clevo boards, then every
/// zone's `brightness`.
pub open spec fn brightness_plan(
    io: Option<HardwareInterface>,
    paths: Seq<Seq<char>>,
    led: Seq<LedState>,
    brightness: u8,
) -> (Seq<KbdStep>, Result<(), KbdError>) {
    then(
        (clevo_step(io, KbdStep::ClevoBrightness(brightness)), Ok(())),
        brightness_steps(paths, led, brightness, paths.len() as int),
    )
}

/// Writing an effect attribute (`mode` or `speed`) of every zone that has it.
pub open spec fn effect_steps(
    paths: Seq<Seq<char>>,
    led: Seq<LedState>,
    speed_attr: bool,
    value: u8,
    n: int,
) -> (Seq<KbdStep>, Result<(), KbdError>)
    decreases n,
{
    if n <= 0 {
        (Seq::empty(), Ok(()))
    } else {
        let prev = effect_steps(paths, led, speed_attr, value, n - 1);
        let has = if speed_attr {
            led[n - 1].has_speed
        } else {
            led[n - 1].has_mode
        };
        if has {
            then(
                prev,
                write_step(
                    paths[n - 1] + if speed_attr {
                        "/speed"@
                    } else {
                        "/mode"@
                    },
                    decimal(value as nat),
                    None,
                ),
            )
        } else {
            prev
        }
    }
}

/// Best-effort colors for zones `0..n`.
pub open spec fn zones_steps(
    io: Option<HardwareInterface>,
    paths: Seq<Seq<char>>,
    led: Seq<LedState>,
    colors: Seq<ZoneColor>,
    n: int,
) -> Seq<KbdStep>
    decreases n,
{
    if n <= 0 {
        Seq::empty()
    } else {
        let c = colors[n - 1];
        zones_steps(io, paths, led, colors, n - 1) + best_effort(
            zone_color_plan(io, paths, led, (n - 1) as usize, c.r, c.g, c.b).0,
        )
    }
}

/// The vendor effect word of each mode.
pub open spec fn clevo_mode_word(mode: KeyboardMode) -> u32 {
    match mode {
        KeyboardMode::Breathe { .. } => 0x1002a000,
        KeyboardMode::Wave { .. } => 0xB0000000,
        KeyboardMode::Cycle { .. } => 0x33010000,
        KeyboardMode::Dance { .. } => 0x80000000,
        KeyboardMode::Flash { .. } => 0xA0000000,
        KeyboardMode::RandomColor { .. } => 0x70000000,
        KeyboardMode::Tempo { .. } => 0x90000000,
        _ => 0,
    }
}

/// The LED effect id of each animated mode.
pub open spec fn effect_id(mode: KeyboardMode) -> u8 {
    match mode {
        KeyboardMode::Breathe { .. } => 1,
        KeyboardMode::Cycle { .. } => 2,
        KeyboardMode::Dance { .. } => 3,
        KeyboardMode::Flash { .. } => 4,
        KeyboardMode::RandomColor { .. } => 5,
        KeyboardMode::Tempo { .. } => 6,
        KeyboardMode::Wave { .. } => 7,
        _ => 0,
    }
}

pub open spec fn uniform(n: int, r: u8, g: u8, b: u8) -> Seq<ZoneColor> {
    Seq::new(n as nat, |i: int| ZoneColor { r, g, b })
}

/// Number of zones a single color is applied to: every LED directory, and at
/// least three when the vendor driver is present.
pub open spec fn color_zone_count(io: Option<HardwareInterface>, n_paths: int) -> int {
    let d = if io is Some {
        3
    } else {
        0
    };
    if n_paths >= d {
        n_paths
    } else {
        d
    }
}

/// The whole plan of a mode request.
pub open spec fn mode_plan(
    io: Option<HardwareInterface>,
    paths: Seq<Seq<char>>,
    led: Seq<LedState>,
    mode: KeyboardMode,
) -> (Seq<KbdStep>, Result<(), KbdError>) {
    let pre = clevo_step(io, KbdStep::ClevoMode(clevo_mode_word(mode)));
    let n = paths.len() as int;
    match mode {
        KeyboardMode::SingleColor { r, g, b, brightness } => {
            let z = color_zone_count(io, n);
            then(
                (pre + zones_steps(io, paths, led, uniform(z, r, g, b), z), Ok(())),
                brightness_plan(io, paths, led, brightness),
            )
        },
        KeyboardMode::MultipleZones { zones, brightness } => then(
            (pre + zones_steps(io, paths, led, zones@, zones@.len() as int), Ok(())),
            brightness_plan(io, paths, led, brightness),
        ),
        KeyboardMode::PerKeyRGB { keys, brightness } => then(
            (pre + zones_steps(io, paths, led, keys@, keys@.len() as int), Ok(())),
            brightness_plan(io, paths, led, brightness),
        ),
        KeyboardMode::Breathe { r, g, b, brightness, speed } => then(
            then(
                then((pre, Ok(())), effect_steps(paths, led, false, effect_id(mode), n)),
                effect_steps(paths, led, true, speed, n),
            ),
            then(
                (zones_steps(io, paths, led, uniform(n, r, g, b), n), Ok(())),
                brightness_plan(io, paths, led, brightness),
            ),
        ),
        KeyboardMode::Flash { r, g, b, brightness, speed } => then(
            then(
                then((pre, Ok(())), effect_steps(paths, led, false, effect_id(mode), n)),
                effect_steps(paths, led, true, speed, n),
            ),
            then(
                (zones_steps(io, paths, led, uniform(n, r, g, b), n), Ok(())),
                brightness_plan(io, paths, led, brightness),
            ),
        ),
        KeyboardMode::Cycle { brightness, speed } => animated(io, paths, led, pre, mode, brightness, speed),
        KeyboardMode::Dance { brightness, speed } => animated(io, paths, led, pre, mode, brightness, speed),
        KeyboardMode::RandomColor { brightness, speed } => animated(io, paths, led, pre, mode, brightness, speed),
        KeyboardMode::Tempo { brightness, speed } => animated(io, paths, led, pre, mode, brightness, speed),
        KeyboardMode::Wave { brightness, speed } => animated(io, paths, led, pre, mode, brightness, speed),
    }
}

/// An animated mode without colors: effect id, speed, brightness.
pub open spec fn animated(
    io: Option<HardwareInterface>,
    paths: Seq<Seq<char>>,
    led: Seq<LedState>,
    pre: Seq<KbdStep>,
    mode: KeyboardMode,
    brightness: u8,
    speed: u8,
) -> (Seq<KbdStep>, Result<(), KbdError>) {
    let n = paths.len() as int;
    then(
        then(
            then((pre, Ok(())), effect_steps(paths, led, false, effect_id(mode), n)),
            effect_steps(paths, led, true, speed, n),
        ),
        brightness_plan(io, paths, led, brightness),
    )
}

/// The effect speed of an animated mode.
pub open spec fn mode_speed(mode: KeyboardMode) -> u8 {
    match mode {
        KeyboardMode::Breathe { speed, .. } => speed,
        KeyboardMode::Cycle { speed, .. } => speed,
        KeyboardMode::Dance { speed, .. } => speed,
        KeyboardMode::Flash { speed, .. } => speed,
        KeyboardMode::RandomColor { speed, .. } => speed,
        KeyboardMode::Tempo { speed, .. } => speed,
        KeyboardMode::Wave { speed, .. } => speed,
        _ => 0,
    }
}

/// The best-effort color steps an animated mode takes between its speed and
/// its brightness writes: a uniform color for Breathe and Flash, none
/// otherwise.
pub open spec fn effect_color_steps(paths: Seq<Seq<char>>, led: Seq<LedState>, mode: KeyboardMode) -> Seq<KbdStep> {
    let n = paths.len() as int;
    match mode {
        KeyboardMode::Breathe { r, g, b, .. } => zones_steps(None, paths, led, uniform(n, r, g, b), n),
        KeyboardMode::Flash { r, g, b, .. } => zones_steps(None, paths, led, uniform(n, r, g, b), n),
        _ => Seq::empty(),
    }
}

/// Is every write among the steps best-effort?
pub open spec fn all_best_effort(s: Seq<KbdStep>) -> bool {
    forall|i: int| 0 <= i < s.len() ==> !(#[trigger] s[i] matches KbdStep::Write(_, _, false))
}

proof fn lemma_zones_steps_best_effort(
    io: Option<HardwareInterface>,
    paths: Seq<Seq<char>>,
    led: Seq<LedState>,
    colors: Seq<ZoneColor>,
    n: int,
)
    ensures
        all_best_effort(zones_steps(io, paths, led, colors, n)),
    decreases n,
{
    if n > 0 {
        lemma_zones_steps_best_effort(io, paths, led, colors, n - 1);
        let prev = zones_steps(io, paths, led, colors, n - 1);
        let c = colors[n - 1];
        let last = best_effort(zone_color_plan(io, paths, led, (n - 1) as usize, c.r, c.g, c.b).0);
        let all = zones_steps(io, paths, led, colors, n);
        assert(all == prev + last);
        assert forall|i: int| 0 <= i < all.len() implies !(#[trigger] all[i] matches KbdStep::Write(
            _,
            _,
            false,
        )) by {
            if i >= prev.len() {
                assert(all[i] == last[i - prev.len()]);
            } else {
                assert(all[i] == prev[i]);
            }
        }
    }
}

/// Every step of an effect write is a write of `value` to the `mode` (or
/// `speed`) attribute of a zone that has one, in zone order.
pub open spec fn effect_write_at(
    paths: Seq<Seq<char>>,
    led: Seq<LedState>,
    speed_attr: bool,
    value: u8,
    s: KbdStep,
) -> bool {
    exists|z: int|
        0 <= z < paths.len() && (if speed_attr {
            led[z].has_speed
        } else {
            led[z].has_mode
        }) && s == KbdStep::Write(
            #[trigger] paths[z] + if speed_attr {
                "/speed"@
            } else {
                "/mode"@
            },
            decimal(value as nat),
            false,
        )
}

proof fn lemma_effect_steps_writes(
    paths: Seq<Seq<char>>,
    led: Seq<LedState>,
    speed_attr: bool,
    value: u8,
    n: int,
)
    requires
        0 <= n <= paths.len(),
    ensures
        forall|i: int|
            0 <= i < effect_steps(paths, led, speed_attr, value, n).0.len() ==> effect_write_at(
                paths,
                led,
                speed_attr,
                value,
                #[trigger] effect_steps(paths, led, speed_attr, value, n).0[i],
            ),
    decreases n,
{
    if n > 0 {
        lemma_effect_steps_writes(paths, led, speed_attr, value, n - 1);
        let prev = effect_steps(paths, led, speed_attr, value, n - 1);
        let cur = effect_steps(paths, led, speed_attr, value, n);
        let suffix = if speed_attr {
            "/speed"@
        } else {
            "/mode"@
        };
        let w = write_step(paths[n - 1] + suffix, decimal(value as nat), None);
        assert forall|i: int| 0 <= i < cur.0.len() implies effect_write_at(
            paths,
            led,
            speed_attr,
            value,
            #[trigger] cur.0[i],
        ) by {
            if i < prev.0.len() {
                assert(cur.0[i] == prev.0[i]);
            } else {
                assert(cur.0[i] == w.0[i - prev.0.len()]);
                assert(cur.0[i] == KbdStep::Write(paths[n - 1] + suffix, decimal(value as nat), false));
                assert(effect_write_at(paths, led, speed_attr, value, cur.0[i])) by {
                    let z = n - 1;
                    assert(0 <= z < paths.len());
                }
            }
        }
    }
}

/// An animated mode without the vendor driver writes its effect id to every
/// zone's `mode`, then its speed to every zone's `speed`, then (Breathe and
/// Flash) best-effort colors, then the brightness of every zone. It stops at
/// the first refused mode or speed write, and otherwise reports exactly what
/// the brightness writes report: a failed color write never fails it.
pub proof fn lemma_effect_mode_writes_mode_then_speed_then_brightness(
    paths: Seq<Seq<char>>,
    led: Seq<LedState>,
    mode: KeyboardMode,
)
    requires
        effect_id(mode) != 0,
    ensures
        ({
            let n = paths.len() as int;
            let m = effect_steps(paths, led, false, effect_id(mode), n);
            let sp = effect_steps(paths, led, true, mode_speed(mode), n);
            let b = brightness_steps(paths, led, mode_brightness(mode), n);
            let plan = mode_plan(None, paths, led, mode);
            &&& (m.1 is Err ==> plan == m)
            &&& (m.1 is Ok && sp.1 is Err ==> plan == (m.0 + sp.0, sp.1))
            &&& (m.1 is Ok && sp.1 is Ok ==> plan == (
                m.0 + sp.0 + effect_color_steps(paths, led, mode) + b.0,
                b.1,
            ))
            &&& forall|i: int|
                0 <= i < m.0.len() ==> effect_write_at(paths, led, false, effect_id(mode), #[trigger] m.0[i])
            &&& forall|i: int|
                0 <= i < sp.0.len() ==> effect_write_at(paths, led, true, mode_speed(mode), #[trigger] sp.0[i])
            &&& all_best_effort(effect_color_steps(paths, led, mode))
        }),
{
    let n = paths.len() as int;
    let m = effect_steps(paths, led, false, effect_id(mode), n);
    let sp = effect_steps(paths, led, true, mode_speed(mode), n);
    let b = brightness_steps(paths, led, mode_brightness(mode), n);
    let pre = clevo_step(None, KbdStep::ClevoMode(clevo_mode_word(mode)));
    assert(pre =~= Seq::<KbdStep>::empty());
    assert(pre + m.0 =~= m.0);
    assert(Seq::<KbdStep>::empty() + b.0 =~= b.0);
    lemma_effect_steps_writes(paths, led, false, effect_id(mode), n);
    lemma_effect_steps_writes(paths, led, true, mode_speed(mode), n);
    let c = effect_color_steps(paths, led, mode);
    match mode {
        KeyboardMode::Breathe { r, g, b: bl, .. } => {
            lemma_zones_steps_best_effort(None, paths, led, uniform(n, r, g, bl), n);
        },
        KeyboardMode::Flash { r, g, b: bl, .. } => {
            lemma_zones_steps_best_effort(None, paths, led, uniform(n, r, g, bl), n);
        },
        _ => {},
    }
    assert(m.0 + sp.0 + c + b.0 =~= m.0 + sp.0 + (c + b.0));
    assert(m.0 + sp.0 + Seq::<KbdStep>::empty() + b.0 =~= m.0 + sp.0 + b.0);
}

/// Does `s` begin with `p`?
pub open spec fn begins_with(s: Seq<KbdStep>, p: Seq<KbdStep>) -> bool {
    p.len() <= s.len() && s.subrange(0, p.len() as int) == p
}

proof fn lemma_then_keeps_beginning(
    a: (Seq<KbdStep>, Result<(), KbdError>),
    b: (Seq<KbdStep>, Result<(), KbdError>),
    p: Seq<KbdStep>,
)
    requires
        begins_with(a.0, p),
    ensures
        begins_with(then(a, b).0, p),
{
    if a.1 is Ok {
        assert((a.0 + b.0).subrange(0, p.len() as int) =~= a.0.subrange(0, p.len() as int));
    }
}

/// Each animated mode writes its own effect id to the `mode` attribute of
/// the zones (Breathe 1, Cycle 2, Dance 3, Flash 4, RandomColor 5, Tempo 6,
/// Wave 7), right after its own vendor mode word on Clevo boards (Breathe
/// 0x1002a000, Cycle 0x33010000, Dance 0x80000000, Flash 0xA0000000,
/// RandomColor 0x70000000, Tempo 0x90000000, Wave 0xB0000000); a refused
/// mode write ends the request there.
pub proof fn lemma_each_animated_mode_writes_its_own_effect_id(
    io: Option<HardwareInterface>,
    paths: Seq<Seq<char>>,
    led: Seq<LedState>,
    mode: KeyboardMode,
)
    requires
        mode is Breathe || mode is Cycle || mode is Dance || mode is Flash || mode is RandomColor
            || mode is Tempo || mode is Wave,
    ensures
        ({
            let id: u8 = match mode {
                KeyboardMode::Breathe { .. } => 1u8,
                KeyboardMode::Cycle { .. } => 2u8,
                KeyboardMode::Dance { .. } => 3u8,
                KeyboardMode::Flash { .. } => 4u8,
                KeyboardMode::RandomColor { .. } => 5u8,
                KeyboardMode::Tempo { .. } => 6u8,
                _ => 7u8,
            };
            let word: u32 = match mode {
                KeyboardMode::Breathe { .. } => 0x1002a000u32,
                KeyboardMode::Cycle { .. } => 0x33010000u32,
                KeyboardMode::Dance { .. } => 0x80000000u32,
                KeyboardMode::Flash { .. } => 0xA0000000u32,
                KeyboardMode::RandomColor { .. } => 0x70000000u32,
                KeyboardMode::Tempo { .. } => 0x90000000u32,
                _ => 0xB0000000u32,
            };
            let pre = clevo_step(io, KbdStep::ClevoMode(word));
            let m = effect_steps(paths, led, false, id, paths.len() as int);
            &&& begins_with(mode_plan(io, paths, led, mode).0, pre + m.0)
            &&& (m.1 is Err ==> mode_plan(io, paths, led, mode) == (pre + m.0, m.1))
            &&& forall|i: int| 0 <= i < m.0.len() ==> effect_write_at(paths, led, false, id, #[trigger] m.0[i])
        }),
{
    let n = paths.len() as int;
    let pre = clevo_step(io, KbdStep::ClevoMode(clevo_mode_word(mode)));
    let m = effect_steps(paths, led, false, effect_id(mode), n);
    let sp = effect_steps(paths, led, true, mode_speed(mode), n);
    let first = then((pre, Ok(())), m);
    assert(first.0 == pre + m.0);
    assert(first.0.subrange(0, (pre + m.0).len() as int) =~= pre + m.0);
    lemma_then_keeps_beginning(first, sp, pre + m.0);
    lemma_effect_steps_writes(paths, led, false, effect_id(mode), n);
    match mode {
        KeyboardMode::Breathe { r, g, b, brightness, .. } => {
            lemma_then_keeps_beginning(
                then(first, sp),
                then(
                    (zones_steps(io, paths, led, uniform(n, r, g, b), n), Ok(())),
                    brightness_plan(io, paths, led, brightness),
                ),
                pre + m.0,
            );
        },
        KeyboardMode::Flash { r, g, b, brightness, .. } => {
            lemma_then_keeps_beginning(
                then(first, sp),
                then(
                    (zones_steps(io, paths, led, uniform(n, r, g, b), n), Ok(())),
                    brightness_plan(io, paths, led, brightness),
                ),
                pre + m.0,
            );
        },
        _ => {
            lemma_then_keeps_beginning(
                then(first, sp),
                brightness_plan(io, paths, led, mode_brightness(mode)),
                pre + m.0,
            );
        },
    }
}

/// No two animated modes share an effect id.
pub proof fn lemma_animated_modes_have_distinct_effect_ids(a: KeyboardMode, b: KeyboardMode)
    requires
        effect_id(a) != 0,
        effect_id(b) != 0,
        effect_id(a) == effect_id(b),
    ensures
        (a is Breathe && b is Breathe) || (a is Cycle && b is Cycle) || (a is Dance && b is Dance) || (
        a is Flash && b is Flash) || (a is RandomColor && b is RandomColor) || (a is Tempo && b is Tempo)
            || (a is Wave && b is Wave),
{
}

proof fn lemma_then_assoc(
    a: (Seq<KbdStep>, Result<(), KbdError>),
    b: (Seq<KbdStep>, Result<(), KbdError>),
    c: (Seq<KbdStep>, Result<(), KbdError>),
)
    ensures
        then(then(a, b), c) == then(a, then(b, c)),
{
    assert(a.0 + b.0 + c.0 =~= a.0 + (b.0 + c.0));
}

proof fn lemma_brightness_steps_stop(paths: Seq<Seq<char>>, led: Seq<LedState>, b: u8, i: int, n: int)
    requires
        0 <= i <= n,
        brightness_steps(paths, led, b, i).1 is Err,
    ensures
        brightness_steps(paths, led, b, n) == brightness_steps(paths, led, b, i),
    decreases n - i,
{
    if n > i {
        lemma_brightness_steps_stop(paths, led, b, i, n - 1);
    }
}

proof fn lemma_effect_steps_stop(
    paths: Seq<Seq<char>>,
    led: Seq<LedState>,
    speed_attr: bool,
    v: u8,
    i: int,
    n: int,
)
    requires
        0 <= i <= n,
        effect_steps(paths, led, speed_attr, v, i).1 is Err,
    ensures
        effect_steps(paths, led, speed_attr, v, n) == effect_steps(paths, led, speed_attr, v, i),
    decreases n - i,
{
    if n > i {
        lemma_effect_steps_stop(paths, led, speed_attr, v, i, n - 1);
    }
}

fn empty_plan() -> (r: KeyboardPlan)
    ensures
        plan_view(r) == (Seq::<KbdStep>::empty(), Ok::<(), KbdError>(())),
{
    let r = KeyboardPlan { actions: Vec::new(), outcome: Ok(()) };
    assert(steps_of(r.actions@) =~= Seq::<KbdStep>::empty());
    r
}

fn push_action(v: &mut Vec<KbdAction>, a: KbdAction)
    ensures
        steps_of(final(v)@) == steps_of(old(v)@).push(a@),
{
    let ghost s = a@;
    v.push(a);
    proof {
        assert(steps_of(v@) =~= steps_of(old(v)@).push(s));
    }
}

/// Appends `q` to `p`, which has not failed.
fn extend(p: &mut KeyboardPlan, q: KeyboardPlan)
    requires
        old(p).outcome is Ok,
    ensures
        plan_view(*final(p)) == then(plan_view(*old(p)), plan_view(q)),
{
    let mut q = q;
    let ghost qa = q.actions@;
    p.actions.append(&mut q.actions);
    p.outcome = q.outcome;
    proof {
        assert(steps_of(p.actions@) =~= steps_of(old(p).actions@) + steps_of(qa));
    }
}

fn write_step_exec(path: String, contents: String, max_brightness: Option<u32>) -> (r: KeyboardPlan)
    ensures
        plan_view(r) == write_step(path@, contents@, max_brightness),
{
    match guard_sysfs_write(path.as_str(), contents.as_str(), None, max_brightness) {
        Ok(()) => {
            let mut actions = Vec::new();
            push_action(
                &mut actions,
                KbdAction::Write { write: SysfsWrite { path, contents }, best_effort: false },
            );
            proof {
                assert(steps_of(actions@) =~= seq![KbdStep::Write(path@, contents@, false)]);
            }
            KeyboardPlan { actions, outcome: Ok(()) }
        },
        Err(e) => {
            let r = KeyboardPlan { actions: Vec::new(), outcome: Err(KbdError::Guard(e)) };
            assert(steps_of(r.actions@) =~= Seq::<KbdStep>::empty());
            r
        },
    }
}

fn rgb_text_exec(r: u8, g: u8, b: u8) -> (t: String)
    ensures
        t@ == rgb_text(r, g, b),
{
    let mut s = String::new();
    push_decimal(&mut s, r as u64);
    s.append(" ");
    push_decimal(&mut s, g as u64);
    s.append(" ");
    push_decimal(&mut s, b as u64);
    assert(s@ =~= rgb_text(r, g, b));
    s
}

fn text_with(base: &String, suffix: &str) -> (r: String)
    ensures
        r@ == base@ + suffix@,
{
    let mut s = base.clone();
    s.append(suffix);
    s
}

fn decimal_string(n: u64) -> (r: String)
    ensures
        r@ == decimal(n as nat),
{
    let mut s = String::new();
    push_decimal(&mut s, n);
    assert(s@ =~= decimal(n as nat));
    s
}

/// The keyboard backlight: its zones' LED directories and the vendor
/// driver's interface, when present.
#[derive(Debug)]
pub struct RgbKeyboardControl {
    paths: Vec<String>,
    tuxedo_io: Option<HardwareInterface>,
}

/// Does every zone's brightness fit the 32-bit arithmetic it is computed
/// in?
pub open spec fn brightness_fits(led: Seq<LedState>, brightness: u8) -> bool {
    forall|i: int|
        0 <= i < led.len() ==> ((#[trigger] led[i]).max_brightness matches Some(m) ==> brightness as nat
            * m <= u32::MAX)
}

impl RgbKeyboardControl {
    /// The zones' LED directories.
    pub closed spec fn zone_paths(&self) -> Seq<Seq<char>> {
        self.paths@.map_values(|s: String| s@)
    }

    /// The vendor driver's interface, when present.
    pub closed spec fn io(&self) -> Option<HardwareInterface> {
        self.tuxedo_io
    }

    /// A keyboard reached through `paths` (the zones' LED directories, in
    /// zone order) and the vendor driver; unavailable when there is neither.
    pub fn new(paths: Vec<String>, tuxedo_io: Option<HardwareInterface>) -> (r: Result<Self, KbdError>)
        ensures
            (paths@.len() == 0 && tuxedo_io is None) ==> r == Err::<Self, KbdError>(
                KbdError::Unavailable,
            ),
            !(paths@.len() == 0 && tuxedo_io is None) ==> (r matches Ok(k) && k.zone_paths()
                == paths@.map_values(|s: String| s@) && k.io() == tuxedo_io),
    {
        if paths.len() == 0 && tuxedo_io.is_none() {
            return Err(KbdError::Unavailable);
        }
        Ok(RgbKeyboardControl { paths, tuxedo_io })
    }

    /// Number of zone directories.
    pub fn zone_count(&self) -> (r: usize)
        ensures
            r == self.zone_paths().len(),
    {
        self.paths.len()
    }

    /// Sets one zone's color (see `zone_color_plan`). `led` describes the
    /// zones' directories.
    pub fn set_zone_color(&self, zone_idx: usize, red: u8, green: u8, blue: u8, led: &[LedState]) -> (r:
        KeyboardPlan)
        requires
            led@.len() == self.zone_paths().len(),
        ensures
            plan_view(r) == zone_color_plan(self.io(), self.zone_paths(), led@, zone_idx, red, green, blue),
    {
        let mut p = empty_plan();
        if self.tuxedo_io == Some(HardwareInterface::Clevo) {
            push_action(
                &mut p.actions,
                KbdAction::ClevoColor { zone: zone_idx as u8, r: red, g: green, b: blue },
            );
            proof {
                assert(steps_of(p.actions@) =~= seq![KbdStep::ClevoColor(zone_idx as u8, red, green, blue)]);
            }
        }
        let ghost zp = self.zone_paths();
        if zone_idx >= self.paths.len() {
            let q = KeyboardPlan { actions: Vec::new(), outcome: Err(KbdError::InvalidZone(zone_idx)) };
            assert(steps_of(q.actions@) =~= Seq::<KbdStep>::empty());
            extend(&mut p, q);
            return p;
        }
        if !led[zone_idx].has_multi_intensity {
            let q = KeyboardPlan { actions: Vec::new(), outcome: Err(KbdError::RgbUnavailable(zone_idx)) };
            assert(steps_of(q.actions@) =~= Seq::<KbdStep>::empty());
            extend(&mut p, q);
            return p;
        }
        proof {
            assert(zp[zone_idx as int] == self.paths@[zone_idx as int]@);
        }
        let path = text_with(&self.paths[zone_idx], "/multi_intensity");
        let q = write_step_exec(path, rgb_text_exec(red, green, blue), None);
        extend(&mut p, q);
        p
    }

    /// Sets the backlight brightness (percent): the vendor command on Clevo
    /// boards, then every zone's `brightness`, scaled to its maximum.
    pub fn set_brightness(&self, brightness: u8, led: &[LedState]) -> (r: KeyboardPlan)
        requires
            led@.len() == self.zone_paths().len(),
            brightness_fits(led@, brightness),
        ensures
            plan_view(r) == brightness_plan(self.io(), self.zone_paths(), led@, brightness),
    {
        let mut p = empty_plan();
        if self.tuxedo_io == Some(HardwareInterface::Clevo) {
            push_action(&mut p.actions, KbdAction::ClevoBrightness(brightness));
            proof {
                assert(steps_of(p.actions@) =~= seq![KbdStep::ClevoBrightness(brightness)]);
            }
        }
        let ghost pre = plan_view(p);
        proof {
            assert(pre == (clevo_step(self.io(), KbdStep::ClevoBrightness(brightness)), Ok::<(), KbdError>(())));
            assert(pre.0 + Seq::<KbdStep>::empty() =~= pre.0);
        }
        let ghost zp = self.zone_paths();
        let n = self.paths.len();
        let mut i: usize = 0;
        while i < n
            invariant
                n == self.paths@.len(),
                zp == self.zone_paths(),
                zp.len() == n,
                led@.len() == n,
                brightness_fits(led@, brightness),
                i <= n,
                pre == (clevo_step(self.io(), KbdStep::ClevoBrightness(brightness)), Ok::<(), KbdError>(())),
                plan_view(p) == then(pre, brightness_steps(zp, led@, brightness, i as int)),
                p.outcome is Ok,
            decreases n - i,
        {
            let max_b: u32 = match led[i].max_brightness {
                Some(m) => m,
                None => 255,
            };
            proof {
                assert(zp[i as int] == self.paths@[i as int]@);
                if led@[i as int].max_brightness is Some {
                    assert(brightness as nat * max_b <= u32::MAX);
                }
            }
            let actual = (brightness as u32) * max_b / 100;
            let path = text_with(&self.paths[i], "/brightness");
            let q = write_step_exec(path, decimal_string(actual as u64), led[i].max_brightness);
            proof {
                lemma_then_assoc(pre, brightness_steps(zp, led@, brightness, i as int), plan_view(q));
            }
            extend(&mut p, q);
            i = i + 1;
            proof {
                assert(plan_view(p) == then(pre, brightness_steps(zp, led@, brightness, i as int)));
            }
            if p.outcome.is_err() {
                proof {
                    lemma_brightness_steps_stop(zp, led@, brightness, i as int, n as int);
                }
                return p;
            }
        }
        p
    }

    /// Writes effect attribute `mode` (or `speed` when `speed_attr`) of every
    /// zone that has it, stopping at the first refusal.
    fn write_effect(&self, speed_attr: bool, value: u8, led: &[LedState]) -> (r: KeyboardPlan)
        requires
            led@.len() == self.zone_paths().len(),
        ensures
            plan_view(r) == effect_steps(self.zone_paths(), led@, speed_attr, value, self.zone_paths().len() as int),
    {
        let mut p = empty_plan();
        let ghost zp = self.zone_paths();
        let n = self.paths.len();
        let mut i: usize = 0;
        while i < n
            invariant
                n == self.paths@.len(),
                zp == self.zone_paths(),
                zp.len() == n,
                led@.len() == n,
                i <= n,
                plan_view(p) == effect_steps(zp, led@, speed_attr, value, i as int),
                p.outcome is Ok,
            decreases n - i,
        {
            let has = if speed_attr {
                led[i].has_speed
            } else {
                led[i].has_mode
            };
            proof {
                assert(zp[i as int] == self.paths@[i as int]@);
            }
            if has {
                let path = if speed_attr {
                    text_with(&self.paths[i], "/speed")
                } else {
                    text_with(&self.paths[i], "/mode")
                };
                let q = write_step_exec(path, decimal_string(value as u64), None);
                extend(&mut p, q);
            }
            i = i + 1;
            if p.outcome.is_err() {
                proof {
                    lemma_effect_steps_stop(zp, led@, speed_attr, value, i as int, n as int);
                }
                return p;
            }
        }
        p
    }

    /// Writes the effect id to the `mode` attribute of every zone that has
    /// one, stopping at the first refusal.
    fn write_effect_mode(&self, mode_value: u8, led: &[LedState]) -> (r: KeyboardPlan)
        requires
            led@.len() == self.zone_paths().len(),
        ensures
            plan_view(r) == effect_steps(self.zone_paths(), led@, false, mode_value, self.zone_paths().len() as int),
    {
        self.write_effect(false, mode_value, led)
    }

    /// Writes the effect speed to the `speed` attribute of every zone that
    /// has one, stopping at the first refusal.
    fn write_effect_speed(&self, speed: u8, led: &[LedState]) -> (r: KeyboardPlan)
        requires
            led@.len() == self.zone_paths().len(),
        ensures
            plan_view(r) == effect_steps(self.zone_paths(), led@, true, speed, self.zone_paths().len() as int),
    {
        self.write_effect(true, speed, led)
    }

    /// Best-effort colors for the zones `0..colors.len()`.
    fn color_zones(&self, colors: &[ZoneColor], led: &[LedState]) -> (r: Vec<KbdAction>)
        requires
            led@.len() == self.zone_paths().len(),
        ensures
            steps_of(r@) == zones_steps(self.io(), self.zone_paths(), led@, colors@, colors@.len() as int),
    {
        let mut out: Vec<KbdAction> = Vec::new();
        let mut i: usize = 0;
        while i < colors.len()
            invariant
                led@.len() == self.zone_paths().len(),
                i <= colors@.len(),
                steps_of(out@) == zones_steps(self.io(), self.zone_paths(), led@, colors@, i as int),
            decreases colors@.len() - i,
        {
            let c = colors[i];
            let q = self.set_zone_color(i, c.r, c.g, c.b, led);
            let mut acts = q.actions;
            let ghost before = steps_of(out@);
            let ghost qa = steps_of(acts@);
            // Every write of a zone color is best-effort.
            let mut k: usize = 0;
            let mut marked: Vec<KbdAction> = Vec::new();
            let ghost src = acts@;
            let total = acts.len();
            while acts.len() > 0
                invariant
                    src.len() == total,
                    k + acts@.len() == src.len(),
                    acts@ == src.subrange(k as int, src.len() as int),
                    steps_of(marked@) == best_effort(steps_of(src.take(k as int))),
                decreases acts@.len(),
            {
                let a = acts.remove(0);
                proof {
                    assert(a == src[k as int]);
                    assert(acts@ =~= src.subrange(k + 1, src.len() as int));
                }
                let m = match a {
                    KbdAction::Write { write, best_effort: _ } => KbdAction::Write { write, best_effort: true },
                    other => other,
                };
                proof {
                    assert(m@ == mark_step(src[k as int]@));
                }
                push_action(&mut marked, m);
                k = k + 1;
                proof {
                    assert(steps_of(src.take(k as int)) =~= steps_of(src.take(k - 1)).push(src[k - 1]@));
                    assert(best_effort(steps_of(src.take(k as int))) =~= best_effort(
                        steps_of(src.take(k - 1)),
                    ).push(mark_step(src[k - 1]@)));
                }
            }
            proof {
                assert(src.take(k as int) =~= src);
            }
            let mut marked = marked;
            out.append(&mut marked);
            i = i + 1;
            proof {
                assert(steps_of(out@) =~= before + best_effort(qa));
            }
        }
        out
    }

    fn clevo_mode_plan(&self, word: u32) -> (r: KeyboardPlan)
        ensures
            plan_view(r) == (clevo_step(self.io(), KbdStep::ClevoMode(word)), Ok::<(), KbdError>(())),
    {
        let mut p = empty_plan();
        if self.tuxedo_io == Some(HardwareInterface::Clevo) {
            push_action(&mut p.actions, KbdAction::ClevoMode(word));
            proof {
                assert(steps_of(p.actions@) =~= seq![KbdStep::ClevoMode(word)]);
            }
        }
        p
    }

    /// `pre`, the best-effort colors of the zones, then the brightness.
    fn colors_then_brightness(
        &self,
        p: KeyboardPlan,
        colors: &[ZoneColor],
        brightness: u8,
        led: &[LedState],
    ) -> (r: KeyboardPlan)
        requires
            led@.len() == self.zone_paths().len(),
            brightness_fits(led@, brightness),
            p.outcome is Ok,
        ensures
            plan_view(r) == then(
                plan_view(p),
                then(
                    (zones_steps(self.io(), self.zone_paths(), led@, colors@, colors@.len() as int), Ok(())),
                    brightness_plan(self.io(), self.zone_paths(), led@, brightness),
                ),
            ),
    {
        let mut p = p;
        let ghost p0 = plan_view(p);
        let zones = self.color_zones(colors, led);
        let zq = KeyboardPlan { actions: zones, outcome: Ok(()) };
        let ghost zv = plan_view(zq);
        extend(&mut p, zq);
        let bq = self.set_brightness(brightness, led);
        proof {
            lemma_then_assoc(p0, zv, plan_view(bq));
        }
        extend(&mut p, bq);
        p
    }

    /// `pre`, the effect id and speed, then `rest` (built by the caller).
    fn effect_then(&self, p: KeyboardPlan, id: u8, speed: u8, led: &[LedState]) -> (r: KeyboardPlan)
        requires
            led@.len() == self.zone_paths().len(),
            p.outcome is Ok,
        ensures
            plan_view(r) == then(
                then(
                    plan_view(p),
                    effect_steps(self.zone_paths(), led@, false, id, self.zone_paths().len() as int),
                ),
                effect_steps(self.zone_paths(), led@, true, speed, self.zone_paths().len() as int),
            ),
    {
        let mut p = p;
        let q = self.write_effect_mode(id, led);
        extend(&mut p, q);
        if p.outcome.is_err() {
            return p;
        }
        let q2 = self.write_effect_speed(speed, led);
        extend(&mut p, q2);
        p
    }

    /// Applies a backlight mode (see `mode_plan`). `led` describes the zones'
    /// directories.
    pub fn set_mode(&self, mode: &KeyboardMode, led: &[LedState]) -> (r: KeyboardPlan)
        requires
            led@.len() == self.zone_paths().len(),
            brightness_fits(led@, mode_brightness(*mode)),
        ensures
            plan_view(r) == mode_plan(self.io(), self.zone_paths(), led@, *mode),
    {
        let ghost zp = self.zone_paths();
        let n = self.paths.len();
        match mode {
            KeyboardMode::SingleColor { r, g, b, brightness } => {
                let pre = self.clevo_mode_plan(0);
                let d: usize = if self.tuxedo_io.is_some() {
                    3
                } else {
                    0
                };
                let z = if n >= d {
                    n
                } else {
                    d
                };
                let colors = uniform_colors(z, *r, *g, *b);
                self.colors_then_brightness(pre, colors.as_slice(), *brightness, led)
            },
            KeyboardMode::MultipleZones { zones, brightness } => {
                let pre = self.clevo_mode_plan(0);
                self.colors_then_brightness(pre, zones.as_slice(), *brightness, led)
            },
            KeyboardMode::PerKeyRGB { keys, brightness } => {
                let pre = self.clevo_mode_plan(0);
                self.colors_then_brightness(pre, keys.as_slice(), *brightness, led)
            },
            KeyboardMode::Breathe { r, g, b, brightness, speed } => {
                let pre = self.clevo_mode_plan(0x1002a000);
                let p = self.effect_then(pre, 1, *speed, led);
                if p.outcome.is_err() {
                    return p;
                }
                let colors = uniform_colors(n, *r, *g, *b);
                self.colors_then_brightness(p, colors.as_slice(), *brightness, led)
            },
            KeyboardMode::Flash { r, g, b, brightness, speed } => {
                let pre = self.clevo_mode_plan(0xA0000000);
                let p = self.effect_then(pre, 4, *speed, led);
                if p.outcome.is_err() {
                    return p;
                }
                let colors = uniform_colors(n, *r, *g, *b);
                self.colors_then_brightness(p, colors.as_slice(), *brightness, led)
            },
            KeyboardMode::Wave { brightness, speed } => self.animated_mode(0xB0000000, 7, *brightness, *speed, led),
            KeyboardMode::Cycle { brightness, speed } => self.animated_mode(0x33010000, 2, *brightness, *speed, led),
            KeyboardMode::Dance { brightness, speed } => self.animated_mode(0x80000000, 3, *brightness, *speed, led),
            KeyboardMode::RandomColor { brightness, speed } => self.animated_mode(0x70000000, 5, *brightness, *speed, led),
            KeyboardMode::Tempo { brightness, speed } => self.animated_mode(0x90000000, 6, *brightness, *speed, led),
        }
    }

    fn animated_mode(&self, word: u32, id: u8, brightness: u8, speed: u8, led: &[LedState]) -> (r: KeyboardPlan)
        requires
            led@.len() == self.zone_paths().len(),
            brightness_fits(led@, brightness),
        ensures
            plan_view(r) == then(
                then(
                    then(
                        (clevo_step(self.io(), KbdStep::ClevoMode(word)), Ok(())),
                        effect_steps(self.zone_paths(), led@, false, id, self.zone_paths().len() as int),
                    ),
                    effect_steps(self.zone_paths(), led@, true, speed, self.zone_paths().len() as int),
                ),
                brightness_plan(self.io(), self.zone_paths(), led@, brightness),
            ),
    {
        let pre = self.clevo_mode_plan(word);
        let mut p = self.effect_then(pre, id, speed, led);
        if p.outcome.is_err() {
            return p;
        }
        let q = self.set_brightness(brightness, led);
        extend(&mut p, q);
        p
    }
}

/// The brightness a mode asks for.
pub open spec fn mode_brightness(mode: KeyboardMode) -> u8 {
    match mode {
        KeyboardMode::SingleColor { brightness, .. } => brightness,
        KeyboardMode::MultipleZones { brightness, .. } => brightness,
        KeyboardMode::PerKeyRGB { brightness, .. } => brightness,
        KeyboardMode::Breathe { brightness, .. } => brightness,
        KeyboardMode::Cycle { brightness, .. } => brightness,
        KeyboardMode::Dance { brightness, .. } => brightness,
        KeyboardMode::Flash { brightness, .. } => brightness,
        KeyboardMode::RandomColor { brightness, .. } => brightness,
        KeyboardMode::Tempo { brightness, .. } => brightness,
        KeyboardMode::Wave { brightness, .. } => brightness,
    }
}

fn uniform_colors(n: usize, r: u8, g: u8, b: u8) -> (v: Vec<ZoneColor>)
    ensures
        v@ == uniform(n as int, r, g, b),
{
    let mut v: Vec<ZoneColor> = Vec::new();
    let mut i: usize = 0;
    while i < n
        invariant
            i <= n,
            v@ == uniform(i as int, r, g, b),
        decreases n - i,
    {
        v.push(ZoneColor { r, g, b });
        i = i + 1;
        proof {
            assert(v@ =~= uniform(i as int, r, g, b));
        }
    }
    v
}

/// The mode applied when keyboard control is switched off: white at half
/// brightness.
pub open spec fn white_mode() -> KeyboardMode {
    KeyboardMode::SingleColor { r: 255, g: 255, b: 255, brightness: 50 }
}

/// Previews a keyboard setting: applies its mode, whether or not control is
/// enabled; `keyboard` is `None` when no backlight control is available.
pub fn preview_keyboard_settings(
    settings: &KeyboardSettings,
    keyboard: Option<&RgbKeyboardControl>,
    led: &[LedState],
) -> (r: KeyboardPlan)
    requires
        keyboard matches Some(k) ==> led@.len() == k.zone_paths().len() && brightness_fits(
            led@,
            mode_brightness(settings.mode),
        ),
    ensures
        match keyboard {
            Some(k) => plan_view(r) == mode_plan(k.io(), k.zone_paths(), led@, settings.mode),
            None => plan_view(r) == (Seq::<KbdStep>::empty(), Err::<(), KbdError>(KbdError::Unavailable)),
        },
{
    match keyboard {
        Some(k) => k.set_mode(&settings.mode, led),
        None => {
            let r = KeyboardPlan { actions: Vec::new(), outcome: Err(KbdError::Unavailable) };
            assert(steps_of(r.actions@) =~= Seq::<KbdStep>::empty());
            r
        },
    }
}

/// Applies the keyboard part of a profile. With control disabled the
/// backlight is reset to white at half brightness, best-effort (its outcome
/// is ignored); with control enabled the profile's mode is applied and its
/// outcome reported, and a missing keyboard is an error.
pub fn apply_keyboard_settings(
    settings: &KeyboardSettings,
    keyboard: Option<&RgbKeyboardControl>,
    led: &[LedState],
) -> (r: KeyboardPlan)
    requires
        keyboard matches Some(k) ==> led@.len() == k.zone_paths().len() && brightness_fits(
            led@,
            mode_brightness(settings.mode),
        ) && brightness_fits(led@, 50),
    ensures
        !settings.control_enabled ==> match keyboard {
            Some(k) => plan_view(r) == (mode_plan(k.io(), k.zone_paths(), led@, white_mode()).0, Ok::<
                (),
                KbdError,
            >(())),
            None => plan_view(r) == (Seq::<KbdStep>::empty(), Ok::<(), KbdError>(())),
        },
        settings.control_enabled ==> match keyboard {
            Some(k) => plan_view(r) == mode_plan(k.io(), k.zone_paths(), led@, settings.mode),
            None => plan_view(r) == (Seq::<KbdStep>::empty(), Err::<(), KbdError>(KbdError::Unavailable)),
        },
{
    if !settings.control_enabled {
        match keyboard {
            Some(k) => {
                let white = KeyboardMode::SingleColor { r: 255, g: 255, b: 255, brightness: 50 };
                let p = k.set_mode(&white, led);
                KeyboardPlan { actions: p.actions, outcome: Ok(()) }
            },
            None => empty_plan(),
        }
    } else {
        preview_keyboard_settings(settings, keyboard, led)
    }
}

} // verus!
