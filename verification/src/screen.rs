//! Screen brightness: which backlight is driven, at which level, and the
//! writes that set it.
use vstd::prelude::*;
use crate::cpu_control::{ControlError, SysfsWrite, WritePlan, write_views};
use crate::sysfs_guard::{guard_sysfs_write, guard_verdict};
use crate::text::{chars_of, decimal, parse_unsigned, parse_unsigned_chars, push_decimal, push_text, trim_ws, trim_ws_chars};
use crate::types::ScreenSettings;

verus! {

/// What exists under one backlight directory.
pub struct BacklightFiles {
    /// `brightness` exists.
    pub brightness: bool,
    /// `actual_brightness` exists.
    pub actual_brightness: bool,
    /// The contents of `max_brightness`, when readable.
    pub max_brightness: Option<String>,
}

/// The backlight directories tried, in order.
pub open spec fn backlight_base(i: int) -> Seq<char> {
    if i == 0 {
        "/sys/class/backlight/intel_backlight"@
    } else if i == 1 {
        "/sys/class/backlight/amdgpu_bl0"@
    } else if i == 2 {
        "/sys/class/backlight/amdgpu_bl1"@
    } else {
        "/sys/class/backlight/acpi_video0"@
    }
}

/// The first backlight (from `i` on) with a `brightness` attribute.
pub open spec fn first_backlight(b: Seq<BacklightFiles>, i: int) -> Option<int>
    decreases 4 - i,
{
    if i < 0 || i >= 4 || i >= b.len() {
        None
    } else if b[i].brightness {
        Some(i)
    } else {
        first_backlight(b, i + 1)
    }
}

/// The maximum as a number, when the file reads as one.
pub open spec fn max_value(m: Option<String>) -> Option<u32> {
    match m {
        Some(s) => match parse_unsigned(trim_ws(s@), u32::MAX as nat) {
            Some(v) => Some(v as u32),
            None => None,
        },
        None => None,
    }
}

/// The level written for a brightness percentage: that share of the
/// maximum (255 when the maximum cannot be read), rounded down.
pub open spec fn level_of(percent: u8, max: Option<u32>) -> int {
    let m: int = match max {
        Some(v) => v as int,
        None => 255,
    };
    percent * m / 100
}

/// The writes of a screen apply and its outcome: nothing when the system
/// controls brightness; otherwise at the first backlight, the level to
/// `actual_brightness` (when it exists and the guard accepts it; a refusal
/// there is ignored) and then to `brightness`, whose refusal is the error;
/// an error when no backlight exists.
pub open spec fn screen_plan_of(s: ScreenSettings, b: Seq<BacklightFiles>) -> (
    Seq<(Seq<char>, Seq<char>)>,
    Result<(), ControlError>,
) {
    if s.system_control {
        (Seq::empty(), Ok(()))
    } else {
        match first_backlight(b, 0) {
            None => (Seq::empty(), Err(ControlError::NoBacklight)),
            Some(i) => {
                let base = backlight_base(i);
                let max = max_value(b[i].max_brightness);
                let v = decimal(level_of(s.brightness, max) as nat);
                let actual = (base + "/actual_brightness"@, v);
                let bright = (base + "/brightness"@, v);
                let first = if b[i].actual_brightness && guard_verdict(actual.0, actual.1, None, max) is Ok {
                    seq![actual]
                } else {
                    Seq::empty()
                };
                match guard_verdict(bright.0, bright.1, None, max) {
                    Ok(_) => (first.push(bright), Ok(())),
                    Err(e) => (first, Err(ControlError::Guard(e))),
                }
            },
        }
    }
}

/// Does the level fit the `u32` it is computed in?
pub open spec fn level_fits(s: ScreenSettings, b: Seq<BacklightFiles>) -> bool {
    match first_backlight(b, 0) {
        Some(i) => s.brightness * match max_value(b[i].max_brightness) {
            Some(v) => v as int,
            None => 255,
        } <= u32::MAX,
        None => true,
    }
}

proof fn lemma_first_backlight_is(b: Seq<BacklightFiles>, from: int, i: int)
    requires
        0 <= from <= i < 4,
        i < b.len(),
        b[i].brightness,
        forall|j: int| from <= j < i ==> !(#[trigger] b[j]).brightness,
    ensures
        first_backlight(b, from) == Some(i),
    decreases i - from,
{
    if from < i {
        lemma_first_backlight_is(b, from + 1, i);
    }
}

proof fn lemma_no_backlight(b: Seq<BacklightFiles>, from: int)
    requires
        0 <= from <= 4,
        b.len() == 4,
        forall|j: int| from <= j < 4 ==> !(#[trigger] b[j]).brightness,
    ensures
        first_backlight(b, from) is None,
    decreases 4 - from,
{
    if from < 4 {
        lemma_no_backlight(b, from + 1);
    }
}

/// The screen is set through the first of intel_backlight, amdgpu_bl0,
/// amdgpu_bl1 and acpi_video0 (under /sys/class/backlight) that has a
/// `brightness` file: every write goes to that directory's `brightness` or
/// `actual_brightness`, the last one that succeeds is `brightness` with the
/// level (the percentage of `max_brightness`, or of 255 when that cannot be
/// read, rounded down), and with no such directory nothing is written and the error is
/// that no backlight exists.
pub proof fn lemma_writes_go_to_the_first_present_backlight(s: ScreenSettings, b: Seq<BacklightFiles>)
    requires
        b.len() == 4,
        !s.system_control,
    ensures
        ({
            let dirs = seq![
                "/sys/class/backlight/intel_backlight"@,
                "/sys/class/backlight/amdgpu_bl0"@,
                "/sys/class/backlight/amdgpu_bl1"@,
                "/sys/class/backlight/acpi_video0"@,
            ];
            let plan = screen_plan_of(s, b);
            &&& forall|i: int|
                0 <= i < 4 && (#[trigger] b[i]).brightness && (forall|j: int|
                    0 <= j < i ==> !(#[trigger] b[j]).brightness) ==> {
                    &&& forall|k: int|
                        0 <= k < plan.0.len() ==> (#[trigger] plan.0[k]).0 == dirs[i] + "/brightness"@
                            || plan.0[k].0 == dirs[i] + "/actual_brightness"@
                    &&& plan.1 is Ok ==> plan.0.len() > 0 && plan.0.last() == (
                        dirs[i] + "/brightness"@,
                        decimal(
                            (s.brightness * match max_value(b[i].max_brightness) {
                                Some(m) => m as int,
                                None => 255int,
                            } / 100) as nat,
                        ),
                    )
                }
            &&& (forall|j: int| 0 <= j < 4 ==> !(#[trigger] b[j]).brightness) ==> plan == (
                Seq::<(Seq<char>, Seq<char>)>::empty(),
                Err::<(), ControlError>(ControlError::NoBacklight),
            )
        }),
{
    let dirs = seq![
        "/sys/class/backlight/intel_backlight"@,
        "/sys/class/backlight/amdgpu_bl0"@,
        "/sys/class/backlight/amdgpu_bl1"@,
        "/sys/class/backlight/acpi_video0"@,
    ];
    let plan = screen_plan_of(s, b);
    assert forall|i: int|
        0 <= i < 4 && (#[trigger] b[i]).brightness && (forall|j: int|
            0 <= j < i ==> !(#[trigger] b[j]).brightness) implies {
            &&& forall|k: int|
                0 <= k < plan.0.len() ==> (#[trigger] plan.0[k]).0 == dirs[i] + "/brightness"@
                    || plan.0[k].0 == dirs[i] + "/actual_brightness"@
            &&& plan.1 is Ok ==> plan.0.len() > 0 && plan.0.last() == (
                dirs[i] + "/brightness"@,
                decimal(
                    (s.brightness * match max_value(b[i].max_brightness) {
                        Some(m) => m as int,
                        None => 255int,
                    } / 100) as nat,
                ),
            )
        } by {
        lemma_first_backlight_is(b, 0, i);
        assert(backlight_base(i) == dirs[i]);
    }
    if forall|j: int| 0 <= j < 4 ==> !(#[trigger] b[j]).brightness {
        lemma_no_backlight(b, 0);
    }
}

fn base_path(i: usize) -> (r: String)
    requires
        i < 4,
    ensures
        r@ == backlight_base(i as int),
{
    let mut s = String::new();
    if i == 0 {
        push_text(&mut s, "/sys/class/backlight/intel_backlight");
    } else if i == 1 {
        push_text(&mut s, "/sys/class/backlight/amdgpu_bl0");
    } else if i == 2 {
        push_text(&mut s, "/sys/class/backlight/amdgpu_bl1");
    } else {
        push_text(&mut s, "/sys/class/backlight/acpi_video0");
    }
    s
}

fn read_max(m: &Option<String>) -> (r: Option<u32>)
    ensures
        r == max_value(*m),
{
    match m {
        Some(s) => {
            let all = chars_of(s.as_str());
            let t = trim_ws_chars(all.as_slice());
            match parse_unsigned_chars(t.as_slice(), 0xffff_ffff) {
                Some(v) => Some(v as u32),
                None => None,
            }
        },
        None => None,
    }
}

/// The writes that set the screen brightness (see `screen_plan_of`);
/// `backlights` describes the four backlight directories in the order
/// `backlight_base` lists them.
pub fn apply_screen_settings(settings: &ScreenSettings, backlights: &[BacklightFiles; 4]) -> (r: WritePlan)
    requires
        !settings.system_control ==> level_fits(*settings, backlights@),
    ensures
        write_views(r.writes@) == screen_plan_of(*settings, backlights@).0,
        r.outcome == screen_plan_of(*settings, backlights@).1,
{
    if settings.system_control {
        let w: Vec<SysfsWrite> = Vec::new();
        proof {
            assert(write_views(w@) =~= Seq::<(Seq<char>, Seq<char>)>::empty());
        }
        return WritePlan { writes: w, outcome: Ok(()) };
    }
    let mut i: usize = 0;
    while i < 4 && !backlights[i].brightness
        invariant
            i <= 4,
            backlights@.len() == 4,
            first_backlight(backlights@, 0) == first_backlight(backlights@, i as int),
        decreases 4 - i,
    {
        i = i + 1;
    }
    if i == 4 {
        let w: Vec<SysfsWrite> = Vec::new();
        proof {
            assert(write_views(w@) =~= Seq::<(Seq<char>, Seq<char>)>::empty());
        }
        return WritePlan { writes: w, outcome: Err(ControlError::NoBacklight) };
    }
    let b = &backlights[i];
    let max = read_max(&b.max_brightness);
    let m: u32 = match max {
        Some(v) => v,
        None => 255,
    };
    let level: u32 = (settings.brightness as u32) * m / 100;
    let mut value = String::new();
    push_decimal(&mut value, level as u64);
    let base = base_path(i);
    let mut actual = String::new();
    push_text(&mut actual, base.as_str());
    push_text(&mut actual, "/actual_brightness");
    let mut bright = String::new();
    push_text(&mut bright, base.as_str());
    push_text(&mut bright, "/brightness");
    let mut writes: Vec<SysfsWrite> = Vec::new();
    if b.actual_brightness && guard_sysfs_write(actual.as_str(), value.as_str(), None, max).is_ok() {
        writes.push(SysfsWrite { path: actual, contents: value.clone() });
    }
    let ghost first = write_views(writes@);
    match guard_sysfs_write(bright.as_str(), value.as_str(), None, max) {
        Ok(_) => {
            writes.push(SysfsWrite { path: bright, contents: value });
            proof {
                assert(write_views(writes@) =~= first.push((bright@, value@)));
            }
            WritePlan { writes, outcome: Ok(()) }
        },
        Err(e) => WritePlan { writes, outcome: Err(ControlError::Guard(e)) },
    }
}

} // verus!
