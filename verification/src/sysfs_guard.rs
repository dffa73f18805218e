//! The guard every daemon write to sysfs passes before any byte reaches disk.
//!
//! Two independent protections apply:
//!   1. a path allowlist: only a fixed set of control attributes may ever be
//!      written, anything else is refused outright;
//!   2. a value check: the payload must belong to the vocabulary of that
//!      attribute (a sanctioned governor, a boolean, a status word, or a
//!      number inside its hardware bounds). Out-of-range values are rejected,
//!      never clamped.
//!
//! The hardware bounds that the value check needs (the CPU's cpuinfo frequency
//! window, a backlight's `max_brightness`) are read by the caller and handed
//! in; `None` means they could not be read, in which case that range check is
//! skipped, as the daemon always did.
use vstd::prelude::*;
use crate::text::{
    chars_of, chars_eq, ends_with, ends_with_chars, parse_unsigned, parse_unsigned_chars,
    string_of, trim_chars, trim_ws, TrimKind,
};

verus! {

/// Why a sysfs write was refused.
#[derive(Debug, Clone, Copy, PartialEq, Eq, Structural)]
pub enum GuardError {
    /// The path matches no allowlist template.
    NotAllowlisted,
    /// `scaling_governor` payload outside the governor allowlist.
    GovernorRejected,
    /// A frequency payload that is not an unsigned integer.
    FrequencyNotNumeric,
    /// A frequency outside the hardware window.
    FrequencyOutOfRange { value: u64, min: u64, max: u64 },
    /// A brightness payload that is not an unsigned 32-bit integer.
    BrightnessNotNumeric,
    /// A brightness above the reported maximum.
    BrightnessTooHigh { brightness: u32, max_brightness: u32 },
    /// A boolean toggle other than "0" or "1".
    BoolToggleRejected,
    /// An Intel p-state status other than "passive" or "active".
    IntelPstateRejected,
    /// An AMD p-state status other than "passive", "active" or "guided".
    AmdPstateRejected,
    /// An SMT control word other than "on" or "off".
    SmtRejected,
    /// An LED mode or speed that is not a byte-sized integer.
    LedValueRejected,
}

// ---------------------------------------------------------------------------
// Path segments
// ---------------------------------------------------------------------------

/// Index of the first '/' at or after `i`, or the length.
pub open spec fn seg_end(s: Seq<char>, i: int) -> int
    decreases s.len() - i,
{
    if i >= s.len() || i < 0 {
        s.len() as int
    } else if s[i] == '/' {
        i
    } else {
        seg_end(s, i + 1)
    }
}

pub proof fn lemma_seg_end_bounds(s: Seq<char>, i: int)
    requires
        0 <= i <= s.len(),
    ensures
        i <= seg_end(s, i) <= s.len(),
        i < s.len() && s[i] != '/' ==> seg_end(s, i) > i,
        forall|k: int| i <= k < seg_end(s, i) ==> s[k] != '/',
        seg_end(s, i) < s.len() ==> s[seg_end(s, i)] == '/',
    decreases s.len() - i,
{
    if i < s.len() && s[i] != '/' {
        lemma_seg_end_bounds(s, i + 1);
    }
}

/// The non-empty '/'-separated segments of `s` from position `i` on.
pub open spec fn segments_from(s: Seq<char>, i: int) -> Seq<Seq<char>>
    decreases s.len() - i,
{
    if i >= s.len() || i < 0 {
        Seq::empty()
    } else if s[i] == '/' {
        segments_from(s, i + 1)
    } else {
        let e = seg_end(s, i);
        proof {
            lemma_seg_end_bounds(s, i);
        }
        seq![s.subrange(i, e)] + segments_from(s, e)
    }
}

/// The path split on '/', with empty segments dropped (so the empty segment
/// before the leading '/' of an absolute path does not count).
pub open spec fn segments(s: Seq<char>) -> Seq<Seq<char>> {
    segments_from(s, 0)
}

/// Does every segment of the path equal the template's segment at the same
/// position, where a template segment "*" stands for any one non-empty
/// segment?
pub open spec fn segments_match(a: Seq<Seq<char>>, t: Seq<Seq<char>>) -> bool {
    &&& a.len() == t.len()
    &&& forall|k: int|
        0 <= k < a.len() ==> t[k] == seq!['*'] || (a[k].len() > 0 && #[trigger] a[k] == t[k])
}

pub open spec fn path_matches(path: Seq<char>, template: Seq<char>) -> bool {
    segments_match(segments(path), segments(template))
}

pub open spec fn views(v: Seq<Vec<char>>) -> Seq<Seq<char>> {
    v.map_values(|x: Vec<char>| x@)
}

fn seg_end_exec(p: &[char], i: usize) -> (e: usize)
    requires
        i <= p@.len(),
    ensures
        e == seg_end(p@, i as int),
{
    let mut j = i;
    while j < p.len() && p[j] != '/'
        invariant
            i <= j <= p@.len(),
            p@.len() == p.len(),
            seg_end(p@, i as int) == seg_end(p@, j as int),
        decreases p@.len() - j,
    {
        j = j + 1;
    }
    j
}

fn split_from(p: &[char], i: usize) -> (r: Vec<Vec<char>>)
    requires
        i <= p@.len(),
    ensures
        views(r@) == segments_from(p@, i as int),
    decreases p@.len() - i,
{
    if i >= p.len() {
        let r: Vec<Vec<char>> = Vec::new();
        assert(views(r@) =~= Seq::<Seq<char>>::empty());
        return r;
    }
    if p[i] == '/' {
        return split_from(p, i + 1);
    }
    let e = seg_end_exec(p, i);
    proof {
        lemma_seg_end_bounds(p@, i as int);
    }
    let mut seg: Vec<char> = Vec::new();
    let mut k = i;
    while k < e
        invariant
            i <= k <= e <= p@.len(),
            seg@ == p@.subrange(i as int, k as int),
        decreases e - k,
    {
        seg.push(p[k]);
        k = k + 1;
    }
    let mut rest = split_from(p, e);
    let ghost rest_view = views(rest@);
    rest.insert(0, seg);
    proof {
        assert(views(rest@) =~= seq![p@.subrange(i as int, e as int)] + rest_view);
    }
    rest
}

/// `path` split into its non-empty '/'-separated segments.
pub fn split_path(path: &str) -> (r: Vec<Vec<char>>)
    ensures
        views(r@) == segments(path@),
{
    let cs = chars_of(path);
    split_from(cs.as_slice(), 0)
}

fn is_star(s: &Vec<char>) -> (r: bool)
    ensures
        r == (s@ == seq!['*']),
{
    if s.len() == 1 && s[0] == '*' {
        assert(s@ =~= seq!['*']);
        true
    } else {
        false
    }
}

/// Does `path` match an allowlist template whose '*' spans one segment?
pub fn matches_template(path: &str, template: &str) -> (r: bool)
    ensures
        r == path_matches(path@, template@),
{
    let a = split_path(path);
    let b = split_path(template);
    proof {
        assert(views(a@).len() == a@.len());
        assert(views(b@).len() == b@.len());
    }
    if a.len() != b.len() {
        return false;
    }
    let mut k: usize = 0;
    while k < a.len()
        invariant
            a@.len() == b@.len(),
            k <= a@.len(),
            views(a@) == segments(path@),
            views(b@) == segments(template@),
            forall|q: int|
                0 <= q < k ==> views(b@)[q] == seq!['*'] || (views(a@)[q].len() > 0 && #[trigger] views(
                    a@,
                )[q] == views(b@)[q]),
        decreases a@.len() - k,
    {
        let star = is_star(&b[k]);
        if !star {
            if a[k].len() == 0 || !chars_eq(a[k].as_slice(), b[k].as_slice()) {
                proof {
                    assert(views(a@)[k as int] == a@[k as int]@);
                    assert(views(b@)[k as int] == b@[k as int]@);
                }
                return false;
            }
        }
        proof {
            assert(views(a@)[k as int] == a@[k as int]@);
            assert(views(b@)[k as int] == b@[k as int]@);
        }
        k = k + 1;
    }
    true
}

// ---------------------------------------------------------------------------
// The allowlist
// ---------------------------------------------------------------------------

/// Number of allowlist templates.
pub const APPROVED_SYSFS_PATH_COUNT: usize = 19;

/// The allowlist ('*' spans exactly one path segment).
pub open spec fn approved_template(i: int) -> Seq<char> {
    if i == 0 {
        "/sys/devices/system/cpu/*/cpufreq/scaling_governor"@
    } else if i == 1 {
        "/sys/devices/system/cpu/*/cpufreq/scaling_min_freq"@
    } else if i == 2 {
        "/sys/devices/system/cpu/*/cpufreq/scaling_max_freq"@
    } else if i == 3 {
        "/sys/devices/system/cpu/*/cpufreq/cpuinfo_min_freq"@
    } else if i == 4 {
        "/sys/devices/system/cpu/*/cpufreq/cpuinfo_max_freq"@
    } else if i == 5 {
        "/sys/devices/system/cpu/*/cpufreq/energy_performance_preference"@
    } else if i == 6 {
        "/sys/devices/system/cpu/*/cpufreq/energy_performance_available_preferences"@
    } else if i == 7 {
        "/sys/devices/system/cpu/cpufreq/boost"@
    } else if i == 8 {
        "/sys/devices/system/cpu/intel_pstate/no_turbo"@
    } else if i == 9 {
        "/sys/devices/system/cpu/amd_pstate/cpb_boost"@
    } else if i == 10 {
        "/sys/devices/system/cpu/smt/control"@
    } else if i == 11 {
        "/sys/devices/system/cpu/amd_pstate/status"@
    } else if i == 12 {
        "/sys/devices/system/cpu/intel_pstate/status"@
    } else if i == 13 {
        "/sys/class/backlight/*/brightness"@
    } else if i == 14 {
        "/sys/class/backlight/*/actual_brightness"@
    } else if i == 15 {
        "/sys/class/leds/*/multi_intensity"@
    } else if i == 16 {
        "/sys/class/leds/*/brightness"@
    } else if i == 17 {
        "/sys/class/leds/*/mode"@
    } else {
        "/sys/class/leds/*/speed"@
    }
}

/// The allowlist template at position `i`.
pub fn approved_sysfs_path(i: usize) -> (r: &'static str)
    requires
        i < APPROVED_SYSFS_PATH_COUNT,
    ensures
        r@ == approved_template(i as int),
{
    if i == 0 {
        "/sys/devices/system/cpu/*/cpufreq/scaling_governor"
    } else if i == 1 {
        "/sys/devices/system/cpu/*/cpufreq/scaling_min_freq"
    } else if i == 2 {
        "/sys/devices/system/cpu/*/cpufreq/scaling_max_freq"
    } else if i == 3 {
        "/sys/devices/system/cpu/*/cpufreq/cpuinfo_min_freq"
    } else if i == 4 {
        "/sys/devices/system/cpu/*/cpufreq/cpuinfo_max_freq"
    } else if i == 5 {
        "/sys/devices/system/cpu/*/cpufreq/energy_performance_preference"
    } else if i == 6 {
        "/sys/devices/system/cpu/*/cpufreq/energy_performance_available_preferences"
    } else if i == 7 {
        "/sys/devices/system/cpu/cpufreq/boost"
    } else if i == 8 {
        "/sys/devices/system/cpu/intel_pstate/no_turbo"
    } else if i == 9 {
        "/sys/devices/system/cpu/amd_pstate/cpb_boost"
    } else if i == 10 {
        "/sys/devices/system/cpu/smt/control"
    } else if i == 11 {
        "/sys/devices/system/cpu/amd_pstate/status"
    } else if i == 12 {
        "/sys/devices/system/cpu/intel_pstate/status"
    } else if i == 13 {
        "/sys/class/backlight/*/brightness"
    } else if i == 14 {
        "/sys/class/backlight/*/actual_brightness"
    } else if i == 15 {
        "/sys/class/leds/*/multi_intensity"
    } else if i == 16 {
        "/sys/class/leds/*/brightness"
    } else if i == 17 {
        "/sys/class/leds/*/mode"
    } else {
        "/sys/class/leds/*/speed"
    }
}

/// Is the path on the allowlist?
pub open spec fn allowed_path(path: Seq<char>) -> bool {
    exists|i: int| 0 <= i < 19 && path_matches(path, #[trigger] approved_template(i))
}

/// Does `path` match any allowlist template?
pub fn is_allowed_sysfs_path(path: &str) -> (r: bool)
    ensures
        r == allowed_path(path@),
{
    let mut i: usize = 0;
    while i < APPROVED_SYSFS_PATH_COUNT
        invariant
            i <= 19,
            forall|q: int| 0 <= q < i ==> !path_matches(path@, #[trigger] approved_template(q)),
        decreases 19 - i,
    {
        if matches_template(path, approved_sysfs_path(i)) {
            return true;
        }
        i = i + 1;
    }
    false
}

// ---------------------------------------------------------------------------
// Attribute kinds
// ---------------------------------------------------------------------------

fn ends_with_str(path: &[char], suffix: &str) -> (r: bool)
    ensures
        r == ends_with(path@, suffix@),
{
    let s = chars_of(suffix);
    ends_with_chars(path, s.as_slice())
}

fn equals_str(text: &[char], word: &str) -> (r: bool)
    ensures
        r == (text@ == word@),
{
    let w = chars_of(word);
    chars_eq(text, w.as_slice())
}

/// cpufreq frequency attributes, checked against the hardware window.
pub open spec fn freq_attribute(p: Seq<char>) -> bool {
    ||| ends_with(p, "scaling_min_freq"@)
    ||| ends_with(p, "scaling_max_freq"@)
    ||| ends_with(p, "cpuinfo_min_freq"@)
    ||| ends_with(p, "cpuinfo_max_freq"@)
}

/// Power-management toggles written as "0"/"1".
pub open spec fn bool_toggle(p: Seq<char>) -> bool {
    ||| ends_with(p, "cpufreq/boost"@)
    ||| ends_with(p, "intel_pstate/no_turbo"@)
    ||| ends_with(p, "amd_pstate/cpb_boost"@)
}

pub open spec fn intel_pstate_status_attr(p: Seq<char>) -> bool {
    ends_with(p, "intel_pstate/status"@)
}

pub open spec fn amd_pstate_status_attr(p: Seq<char>) -> bool {
    ends_with(p, "amd_pstate/status"@)
}

pub open spec fn smt_control_attr(p: Seq<char>) -> bool {
    ends_with(p, "smt/control"@)
}

/// Numeric backlight attributes, bounded by the sibling `max_brightness`.
pub open spec fn brightness_attr(p: Seq<char>) -> bool {
    ends_with(p, "/brightness"@) || ends_with(p, "/actual_brightness"@)
}

/// LED mode and speed attributes: small non-negative byte integers.
pub open spec fn led_mode_or_speed_attr(p: Seq<char>) -> bool {
    ends_with(p, "/mode"@) || ends_with(p, "/speed"@)
}

pub open spec fn governor_attr(p: Seq<char>) -> bool {
    ends_with(p, "scaling_governor"@)
}

/// The governors that may ever be written to `scaling_governor`.
pub open spec fn governor_allowed(c: Seq<char>) -> bool {
    ||| c == "performance"@
    ||| c == "powersave"@
    ||| c == "balanced"@
    ||| c == "ondemand"@
    ||| c == "user"@
    ||| c == "schedutil"@
    ||| c == "userspace"@
    ||| c == "conservative"@
    ||| c == "interactive"@
    ||| c == "scheyonic"@
    ||| c == "energy_perf"@
}

/// Is `path` a cpufreq frequency attribute?
pub fn is_freq_attribute(path: &str) -> (r: bool)
    ensures
        r == freq_attribute(path@),
{
    let p = chars_of(path);
    ends_with_str(&p, "scaling_min_freq") || ends_with_str(&p, "scaling_max_freq")
        || ends_with_str(&p, "cpuinfo_min_freq") || ends_with_str(&p, "cpuinfo_max_freq")
}

/// Is `path` a power-management boolean toggle?
pub fn is_bool_toggle(path: &str) -> (r: bool)
    ensures
        r == bool_toggle(path@),
{
    let p = chars_of(path);
    ends_with_str(&p, "cpufreq/boost") || ends_with_str(&p, "intel_pstate/no_turbo")
        || ends_with_str(&p, "amd_pstate/cpb_boost")
}

/// Is `path` the Intel p-state status word?
pub fn is_intel_pstate_status(path: &str) -> (r: bool)
    ensures
        r == intel_pstate_status_attr(path@),
{
    let p = chars_of(path);
    ends_with_str(&p, "intel_pstate/status")
}

/// Is `path` the AMD p-state status word?
pub fn is_amd_pstate_status(path: &str) -> (r: bool)
    ensures
        r == amd_pstate_status_attr(path@),
{
    let p = chars_of(path);
    ends_with_str(&p, "amd_pstate/status")
}

/// Is `path` the SMT control attribute?
pub fn is_smt_control(path: &str) -> (r: bool)
    ensures
        r == smt_control_attr(path@),
{
    let p = chars_of(path);
    ends_with_str(&p, "smt/control")
}

/// Is `path` a numeric backlight attribute?
pub fn is_brightness_attr(path: &str) -> (r: bool)
    ensures
        r == brightness_attr(path@),
{
    let p = chars_of(path);
    ends_with_str(&p, "/brightness") || ends_with_str(&p, "/actual_brightness")
}

/// Is `path` an LED mode or speed attribute?
pub fn is_led_mode_or_speed(path: &str) -> (r: bool)
    ensures
        r == led_mode_or_speed_attr(path@),
{
    let p = chars_of(path);
    ends_with_str(&p, "/mode") || ends_with_str(&p, "/speed")
}

/// Is `contents` one of the sanctioned governors?
pub fn is_allowed_governor(contents: &str) -> (r: bool)
    ensures
        r == governor_allowed(contents@),
{
    let c = chars_of(contents);
    equals_str(&c, "performance") || equals_str(&c, "powersave") || equals_str(&c, "balanced")
        || equals_str(&c, "ondemand") || equals_str(&c, "user") || equals_str(&c, "schedutil")
        || equals_str(&c, "userspace") || equals_str(&c, "conservative") || equals_str(
        &c,
        "interactive",
    ) || equals_str(&c, "scheyonic") || equals_str(&c, "energy_perf")
}

/// The directory that holds a backlight attribute, where its sibling
/// `max_brightness` lives: the path without its last `/brightness` or
/// `/actual_brightness`.
pub open spec fn brightness_base_spec(p: Seq<char>) -> Option<Seq<char>> {
    if ends_with(p, "/actual_brightness"@) {
        Some(p.subrange(0, p.len() - "/actual_brightness"@.len()))
    } else if ends_with(p, "/brightness"@) {
        Some(p.subrange(0, p.len() - "/brightness"@.len()))
    } else {
        None
    }
}

/// Directory of a backlight attribute (where `max_brightness` is read from).
pub fn brightness_base(path: &str) -> (r: Option<String>)
    ensures
        match brightness_base_spec(path@) {
            Some(b) => r matches Some(s) && s@ == b,
            None => r is None,
        },
{
    let p = chars_of(path);
    let a = chars_of("/actual_brightness");
    let b = chars_of("/brightness");
    let cut = if ends_with_chars(p.as_slice(), a.as_slice()) {
        a.len()
    } else if ends_with_chars(p.as_slice(), b.as_slice()) {
        b.len()
    } else {
        return None;
    };
    let keep = p.len() - cut;
    let mut v: Vec<char> = Vec::new();
    let mut i: usize = 0;
    while i < keep
        invariant
            keep <= p@.len(),
            i <= keep,
            v@ == p@.subrange(0, i as int),
        decreases keep - i,
    {
        v.push(p[i]);
        i = i + 1;
    }
    Some(string_of(v.as_slice()))
}

// ---------------------------------------------------------------------------
// Value checks
// ---------------------------------------------------------------------------

/// `str::trim` followed by `parse::<u64>`.
pub open spec fn parse_u64_spec(c: Seq<char>) -> Option<nat> {
    parse_unsigned(trim_ws(c), u64::MAX as nat)
}

/// `str::trim` followed by `parse::<u32>`.
pub open spec fn parse_u32_spec(c: Seq<char>) -> Option<nat> {
    parse_unsigned(trim_ws(c), u32::MAX as nat)
}

/// Parses an unsigned 64-bit payload, surrounding whitespace ignored.
pub fn parse_u64(contents: &str) -> (r: Option<u64>)
    ensures
        match parse_u64_spec(contents@) {
            Some(v) => r == Some(v as u64),
            None => r is None,
        },
{
    let c = chars_of(contents);
    let t = trim_chars(c.as_slice(), &TrimKind::Whitespace);
    parse_unsigned_chars(t.as_slice(), u64::MAX)
}

pub open spec fn freq_verdict(c: Seq<char>, hw_min: u64, hw_max: u64) -> Result<(), GuardError> {
    match parse_u64_spec(c) {
        None => Err(GuardError::FrequencyNotNumeric),
        Some(v) => if v < hw_min || v > hw_max {
            Err(GuardError::FrequencyOutOfRange { value: v as u64, min: hw_min, max: hw_max })
        } else {
            Ok(())
        },
    }
}

/// Range check of a frequency payload against the hardware window
/// `[hw_min, hw_max]`.
pub fn within_hw_freq(contents: &str, hw_min: u64, hw_max: u64) -> (r: Result<(), GuardError>)
    ensures
        r == freq_verdict(contents@, hw_min, hw_max),
{
    match parse_u64(contents) {
        None => Err(GuardError::FrequencyNotNumeric),
        Some(v) => {
            if v < hw_min || v > hw_max {
                Err(GuardError::FrequencyOutOfRange { value: v, min: hw_min, max: hw_max })
            } else {
                Ok(())
            }
        },
    }
}

pub open spec fn brightness_verdict(c: Seq<char>, max_b: u32) -> Result<(), GuardError> {
    match parse_u32_spec(c) {
        None => Err(GuardError::BrightnessNotNumeric),
        Some(v) => if v > max_b {
            Err(GuardError::BrightnessTooHigh { brightness: v as u32, max_brightness: max_b })
        } else {
            Ok(())
        },
    }
}

/// Range check of a brightness payload against the reported maximum.
pub fn within_brightness(contents: &str, max_b: u32) -> (r: Result<(), GuardError>)
    ensures
        r == brightness_verdict(contents@, max_b),
{
    let c = chars_of(contents);
    let t = trim_chars(c.as_slice(), &TrimKind::Whitespace);
    match parse_unsigned_chars(t.as_slice(), u32::MAX as u64) {
        None => Err(GuardError::BrightnessNotNumeric),
        Some(v) => {
            let v = v as u32;
            if v > max_b {
                Err(GuardError::BrightnessTooHigh { brightness: v, max_brightness: max_b })
            } else {
                Ok(())
            }
        },
    }
}

/// Frequency range check when the hardware window is known.
pub open spec fn freq_check(c: Seq<char>, bounds: Option<(u64, u64)>) -> Result<(), GuardError> {
    match bounds {
        None => Ok(()),
        Some(b) => freq_verdict(c, b.0, b.1),
    }
}

/// Brightness check when the maximum is known.
pub open spec fn brightness_check(c: Seq<char>, max_b: Option<u32>) -> Result<(), GuardError> {
    match max_b {
        None => Ok(()),
        Some(m) => brightness_verdict(c, m),
    }
}

/// The verdict of the guard, check by check in the order the daemon applies
/// them: the first check that fails decides the error.
pub open spec fn guard_verdict(
    p: Seq<char>,
    c: Seq<char>,
    hw_freq_bounds: Option<(u64, u64)>,
    max_brightness: Option<u32>,
) -> Result<(), GuardError> {
    if !allowed_path(p) {
        Err(GuardError::NotAllowlisted)
    } else if governor_attr(p) && !governor_allowed(c) {
        Err(GuardError::GovernorRejected)
    } else if freq_attribute(p) && freq_check(c, hw_freq_bounds) is Err {
        freq_check(c, hw_freq_bounds)
    } else if brightness_attr(p) && brightness_check(c, max_brightness) is Err {
        brightness_check(c, max_brightness)
    } else if bool_toggle(p) && c != "0"@ && c != "1"@ {
        Err(GuardError::BoolToggleRejected)
    } else if intel_pstate_status_attr(p) && c != "passive"@ && c != "active"@ {
        Err(GuardError::IntelPstateRejected)
    } else if amd_pstate_status_attr(p) && c != "passive"@ && c != "active"@ && c != "guided"@ {
        Err(GuardError::AmdPstateRejected)
    } else if smt_control_attr(p) && c != "on"@ && c != "off"@ {
        Err(GuardError::SmtRejected)
    } else if led_mode_or_speed_attr(p) && parse_unsigned(c, 255) is None {
        Err(GuardError::LedValueRejected)
    } else {
        Ok(())
    }
}

/// The sysfs write guard: `Ok(())` when `contents` may be written to `path`.
///
/// `hw_freq_bounds` is the CPU's `(cpuinfo_min_freq, cpuinfo_max_freq)` and
/// `max_brightness` the backlight maximum next to `path`; each is only
/// consulted for the attributes it bounds, and `None` skips that range check.
pub fn guard_sysfs_write(
    path: &str,
    contents: &str,
    hw_freq_bounds: Option<(u64, u64)>,
    max_brightness: Option<u32>,
) -> (r: Result<(), GuardError>)
    ensures
        r == guard_verdict(path@, contents@, hw_freq_bounds, max_brightness),
{
    if !is_allowed_sysfs_path(path) {
        return Err(GuardError::NotAllowlisted);
    }
    let p = chars_of(path);
    let c = chars_of(contents);
    if ends_with_str(&p, "scaling_governor") && !is_allowed_governor(contents) {
        return Err(GuardError::GovernorRejected);
    }
    if is_freq_attribute(path) {
        if let Some((lo, hi)) = hw_freq_bounds {
            let v = within_hw_freq(contents, lo, hi);
            if v.is_err() {
                return v;
            }
        }
    }
    if is_brightness_attr(path) {
        if let Some(m) = max_brightness {
            let v = within_brightness(contents, m);
            if v.is_err() {
                return v;
            }
        }
    }
    if is_bool_toggle(path) && !equals_str(&c, "0") && !equals_str(&c, "1") {
        return Err(GuardError::BoolToggleRejected);
    }
    if is_intel_pstate_status(path) && !equals_str(&c, "passive") && !equals_str(&c, "active") {
        return Err(GuardError::IntelPstateRejected);
    }
    if is_amd_pstate_status(path) && !equals_str(&c, "passive") && !equals_str(&c, "active")
        && !equals_str(&c, "guided") {
        return Err(GuardError::AmdPstateRejected);
    }
    if is_smt_control(path) && !equals_str(&c, "on") && !equals_str(&c, "off") {
        return Err(GuardError::SmtRejected);
    }
    if is_led_mode_or_speed(path) && parse_unsigned_chars(c.as_slice(), 255).is_none() {
        return Err(GuardError::LedValueRejected);
    }
    Ok(())
}

/// The guard lets nothing through that is off the allowlist or outside the
/// vocabulary of its attribute: an accepted write is to an allowlisted path,
/// an accepted governor is sanctioned, an accepted toggle is "0" or "1", an
/// accepted status or SMT word is one of its words, an accepted LED value is a
/// byte, and an accepted frequency or brightness lies inside the bounds that
/// were supplied for it.
pub proof fn lemma_guard_admits_only_sanctioned_writes(
    p: Seq<char>,
    c: Seq<char>,
    hw_freq_bounds: Option<(u64, u64)>,
    max_brightness: Option<u32>,
)
    requires
        guard_verdict(p, c, hw_freq_bounds, max_brightness) is Ok,
    ensures
        allowed_path(p),
        governor_attr(p) ==> governor_allowed(c),
        bool_toggle(p) ==> c == "0"@ || c == "1"@,
        intel_pstate_status_attr(p) ==> c == "passive"@ || c == "active"@,
        amd_pstate_status_attr(p) ==> c == "passive"@ || c == "active"@ || c == "guided"@,
        smt_control_attr(p) ==> c == "on"@ || c == "off"@,
        led_mode_or_speed_attr(p) ==> parse_unsigned(c, 255) is Some,
        freq_attribute(p) ==> freq_check(c, hw_freq_bounds) is Ok,
        brightness_attr(p) ==> brightness_check(c, max_brightness) is Ok,
{
}

proof fn lemma_suffixes_share_last_char(p: Seq<char>, a: Seq<char>, b: Seq<char>)
    requires
        ends_with(p, a),
        ends_with(p, b),
        a.len() > 0,
        b.len() > 0,
    ensures
        a[a.len() - 1] == b[b.len() - 1],
{
    assert(a[a.len() - 1] == p.subrange(p.len() - a.len(), p.len() as int)[a.len() - 1]);
    assert(b[b.len() - 1] == p.subrange(p.len() - b.len(), p.len() as int)[b.len() - 1]);
}

/// On an allowlisted `scaling_governor` path the guard decides by the
/// governor alone: it accepts exactly performance, powersave, balanced,
/// ondemand, user, schedutil, userspace, conservative, interactive,
/// scheyonic and energy_perf, whatever bounds are supplied, and refuses
/// every other word as a rejected governor.
pub proof fn lemma_governor_path_accepts_exactly_the_sanctioned_governors(
    p: Seq<char>,
    g: Seq<char>,
    hw_freq_bounds: Option<(u64, u64)>,
    max_brightness: Option<u32>,
)
    requires
        allowed_path(p),
        ends_with(p, "scaling_governor"@),
    ensures
        guard_verdict(p, g, hw_freq_bounds, max_brightness) == if seq![
            "performance"@,
            "powersave"@,
            "balanced"@,
            "ondemand"@,
            "user"@,
            "schedutil"@,
            "userspace"@,
            "conservative"@,
            "interactive"@,
            "scheyonic"@,
            "energy_perf"@,
        ].contains(g) {
            Ok(())
        } else {
            Err(GuardError::GovernorRejected)
        },
{
    reveal_strlit("scaling_governor");
    reveal_strlit("scaling_min_freq");
    reveal_strlit("scaling_max_freq");
    reveal_strlit("cpuinfo_min_freq");
    reveal_strlit("cpuinfo_max_freq");
    reveal_strlit("cpufreq/boost");
    reveal_strlit("intel_pstate/no_turbo");
    reveal_strlit("amd_pstate/cpb_boost");
    reveal_strlit("intel_pstate/status");
    reveal_strlit("amd_pstate/status");
    reveal_strlit("smt/control");
    reveal_strlit("/brightness");
    reveal_strlit("/actual_brightness");
    reveal_strlit("/mode");
    reveal_strlit("/speed");
    let gov = "scaling_governor"@;
    let others = seq![
        "scaling_min_freq"@,
        "scaling_max_freq"@,
        "cpuinfo_min_freq"@,
        "cpuinfo_max_freq"@,
        "cpufreq/boost"@,
        "intel_pstate/no_turbo"@,
        "amd_pstate/cpb_boost"@,
        "intel_pstate/status"@,
        "amd_pstate/status"@,
        "smt/control"@,
        "/brightness"@,
        "/actual_brightness"@,
        "/mode"@,
        "/speed"@,
    ];
    assert forall|k: int| 0 <= k < others.len() implies !ends_with(p, #[trigger] others[k]) by {
        if ends_with(p, others[k]) {
            lemma_suffixes_share_last_char(p, gov, others[k]);
        }
    }
    assert(!ends_with(p, others[0]));
    assert(!ends_with(p, others[1]));
    assert(!ends_with(p, others[2]));
    assert(!ends_with(p, others[3]));
    assert(!ends_with(p, others[4]));
    assert(!ends_with(p, others[5]));
    assert(!ends_with(p, others[6]));
    assert(!ends_with(p, others[7]));
    assert(!ends_with(p, others[8]));
    assert(!ends_with(p, others[9]));
    assert(!ends_with(p, others[10]));
    assert(!ends_with(p, others[11]));
    assert(!ends_with(p, others[12]));
    assert(!ends_with(p, others[13]));
    let names = seq![
        "performance"@,
        "powersave"@,
        "balanced"@,
        "ondemand"@,
        "user"@,
        "schedutil"@,
        "userspace"@,
        "conservative"@,
        "interactive"@,
        "scheyonic"@,
        "energy_perf"@,
    ];
    if governor_allowed(g) {
        if g == names[0] { assert(names.contains(g)); }
        else if g == names[1] { assert(names.contains(g)); }
        else if g == names[2] { assert(names.contains(g)); }
        else if g == names[3] { assert(names.contains(g)); }
        else if g == names[4] { assert(names.contains(g)); }
        else if g == names[5] { assert(names.contains(g)); }
        else if g == names[6] { assert(names.contains(g)); }
        else if g == names[7] { assert(names.contains(g)); }
        else if g == names[8] { assert(names.contains(g)); }
        else if g == names[9] { assert(names.contains(g)); }
        else { assert(g == names[10]); assert(names.contains(g)); }
    }
    if names.contains(g) {
        assert(governor_allowed(g));
    }
}

} // verus!
