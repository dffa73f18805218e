//! What the machine is, from the files that describe it: the DMI
//! identification, the vendor kernel modules, and the keyboard backlight
//! LEDs.
use vstd::prelude::*;
use crate::text::{
    char_vec_views, chars_of, contains_chars, contains_seq, lines_of, split_ws_chars, string_of,
    text_lines, trim_by, trim_chars, trim_ws, trim_ws_chars, words, TrimKind,
};
use crate::types::{KeyboardCapabilities, KeyboardType, SystemInfo};

verus! {

/// A DMI field: the file's trimmed text, or "Unknown" when it cannot be read.
pub open spec fn dmi_value(content: Option<Seq<char>>) -> Seq<char> {
    match content {
        Some(c) => trim_ws(c),
        None => "Unknown"@,
    }
}

pub fn dmi_field(content: Option<&str>) -> (r: String)
    ensures
        r@ == dmi_value(match content {
            Some(c) => Some(c@),
            None => None,
        }),
{
    match content {
        Some(c) => {
            let all = chars_of(c);
            string_of(trim_ws_chars(all.as_slice()).as_slice())
        },
        None => {
            let u = chars_of("Unknown");
            string_of(u.as_slice())
        },
    }
}

/// The product name: the DMI one, unless that is unknown or empty and the
/// device tree names a model (NUL padding and whitespace trimmed).
pub open spec fn product_name_of(dmi: Option<Seq<char>>, model: Option<Seq<char>>) -> Seq<char> {
    let p = dmi_value(dmi);
    if (p == "Unknown"@ || p.len() == 0) && model is Some {
        trim_ws(trim_by(model->0, TrimKind::Exactly('\0')))
    } else {
        p
    }
}

/// The loaded modules whose line in `/proc/modules` mentions "tuxedo":
/// the first word of each such line among the first `n`.
pub open spec fn tuxedo_modules_upto(lines: Seq<Seq<char>>, n: int) -> Seq<Seq<char>>
    decreases n,
{
    if n <= 0 {
        Seq::empty()
    } else {
        let prev = tuxedo_modules_upto(lines, n - 1);
        if contains_seq(lines[n - 1], "tuxedo"@) {
            let w = words(lines[n - 1]);
            prev.push(if w.len() > 0 { w[0] } else { Seq::empty() })
        } else {
            prev
        }
    }
}

/// The pieces joined with ", ".
pub open spec fn join_comma(pieces: Seq<Seq<char>>) -> Seq<char>
    decreases pieces.len(),
{
    if pieces.len() == 0 {
        Seq::empty()
    } else if pieces.len() == 1 {
        pieces[0]
    } else {
        join_comma(pieces.drop_last()) + ", "@ + pieces.last()
    }
}

/// The vendor modules as the system information lists them: their names
/// joined with ", ", or "Not available" when there are none or the module
/// list cannot be read.
pub open spec fn tuxedo_modules_of(modules: Option<Seq<char>>) -> Seq<char> {
    match modules {
        None => "Not available"@,
        Some(m) => {
            let lines = text_lines(m);
            let names = tuxedo_modules_upto(lines, lines.len() as int);
            if names.len() == 0 {
                "Not available"@
            } else {
                join_comma(names)
            }
        },
    }
}

/// The vendor kernel modules loaded (see `tuxedo_modules_of`).
pub fn tuxedo_kernel_modules(modules: Option<&str>) -> (r: String)
    ensures
        r@ == tuxedo_modules_of(match modules {
            Some(m) => Some(m@),
            None => None,
        }),
{
    let na = chars_of("Not available");
    match modules {
        None => string_of(na.as_slice()),
        Some(m) => {
            let lines = lines_of(m);
            let ghost lv = char_vec_views(lines@);
            let key = chars_of("tuxedo");
            let mut out: Vec<char> = Vec::new();
            let mut count: usize = 0;
            let mut k: usize = 0;
            while k < lines.len()
                invariant
                    lv == char_vec_views(lines@),
                    lv == text_lines(m@),
                    k <= lines@.len(),
                    count <= k,
                    key@ == "tuxedo"@,
                    count == tuxedo_modules_upto(lv, k as int).len(),
                    out@ == join_comma(tuxedo_modules_upto(lv, k as int)),
                decreases lines@.len() - k,
            {
                let line = &lines[k];
                proof {
                    assert(lv[k as int] == line@);
                }
                if contains_chars(line.as_slice(), key.as_slice()) {
                    let ws = split_ws_chars(line.as_slice());
                    let first: Vec<char> = if ws.len() > 0 {
                        let w = &ws[0];
                        proof {
                            assert(char_vec_views(ws@)[0] == w@);
                        }
                        let mut c: Vec<char> = Vec::new();
                        let mut j: usize = 0;
                        while j < w.len()
                            invariant
                                j <= w@.len(),
                                c@ == w@.subrange(0, j as int),
                            decreases w@.len() - j,
                        {
                            c.push(w[j]);
                            j = j + 1;
                        }
                        proof {
                            assert(c@ =~= w@);
                        }
                        c
                    } else {
                        Vec::new()
                    };
                    let ghost prev = tuxedo_modules_upto(lv, k as int);
                    let ghost before = out@;
                    if count > 0 {
                        out.push(',');
                        out.push(' ');
                    }
                    let ghost mid = out@;
                    let mut j: usize = 0;
                    while j < first.len()
                        invariant
                            j <= first@.len(),
                            out@ == mid + first@.subrange(0, j as int),
                        decreases first@.len() - j,
                    {
                        out.push(first[j]);
                        j = j + 1;
                    }
                    proof {
                        let nxt = tuxedo_modules_upto(lv, k + 1);
                        assert(nxt == prev.push(first@));
                        assert(nxt.drop_last() =~= prev);
                        assert(first@.subrange(0, first@.len() as int) =~= first@);
                        if count > 0 {
                            reveal_strlit(", ");
                            assert(mid =~= before + ", "@);
                            assert(out@ =~= join_comma(prev) + ", "@ + first@);
                        } else {
                            assert(prev.len() == 0);
                            assert(mid =~= before);
                            assert(before =~= Seq::<char>::empty());
                            assert(out@ =~= first@);
                        }
                    }
                    count = count + 1;
                }
                k = k + 1;
            }
            if count == 0 {
                string_of(na.as_slice())
            } else {
                string_of(out.as_slice())
            }
        },
    }
}

/// The identification files the system information is made of.
pub struct DmiFiles {
    pub product_name: Option<String>,
    /// `/proc/device-tree/model`, read where the DMI name is unknown.
    pub device_tree_model: Option<String>,
    pub product_sku: Option<String>,
    pub sys_vendor: Option<String>,
    pub board_name: Option<String>,
    pub bios_version: Option<String>,
    /// `/proc/modules`.
    pub modules: Option<String>,
}

pub open spec fn opt_text(o: Option<String>) -> Option<Seq<char>> {
    match o {
        Some(s) => Some(s@),
        None => None,
    }
}

fn opt_str(o: &Option<String>) -> (r: Option<&str>)
    ensures
        match r {
            Some(s) => opt_text(*o) == Some(s@),
            None => opt_text(*o) is None,
        },
{
    match o {
        Some(s) => Some(s.as_str()),
        None => None,
    }
}

/// The system information the files give.
pub fn system_info_from(f: &DmiFiles) -> (r: SystemInfo)
    ensures
        r.product_name@ == product_name_of(opt_text(f.product_name), opt_text(f.device_tree_model)),
        r.product_sku@ == dmi_value(opt_text(f.product_sku)),
        r.manufacturer@ == dmi_value(opt_text(f.sys_vendor)),
        r.board_name@ == dmi_value(opt_text(f.board_name)),
        r.bios_version@ == dmi_value(opt_text(f.bios_version)),
        r.kernel_modules@ == tuxedo_modules_of(opt_text(f.modules)),
{
    let mut product_name = dmi_field(opt_str(&f.product_name));
    let pn = chars_of(product_name.as_str());
    let unknown = chars_of("Unknown");
    if crate::text::chars_eq(pn.as_slice(), unknown.as_slice()) || pn.len() == 0 {
        match &f.device_tree_model {
            Some(m) => {
                let all = chars_of(m.as_str());
                let no_nul = trim_chars(all.as_slice(), &TrimKind::Exactly('\0'));
                product_name = string_of(trim_ws_chars(no_nul.as_slice()).as_slice());
            },
            None => {},
        }
    }
    SystemInfo {
        product_name,
        product_sku: dmi_field(opt_str(&f.product_sku)),
        manufacturer: dmi_field(opt_str(&f.sys_vendor)),
        board_name: dmi_field(opt_str(&f.board_name)),
        bios_version: dmi_field(opt_str(&f.bios_version)),
        kernel_modules: tuxedo_kernel_modules(opt_str(&f.modules)),
    }
}

/// Does a HID device's `uevent` name an ITE keyboard controller (USB
/// vendor 048D)?
pub fn is_ite_keyboard_uevent(uevent: &str) -> (r: bool)
    ensures
        r == contains_seq(uevent@, "HID_ID=0003:0000048D:"@),
{
    let all = chars_of(uevent);
    let key = chars_of("HID_ID=0003:0000048D:");
    contains_chars(all.as_slice(), key.as_slice())
}

/// An entry of `/sys/class/leds`.
pub struct LedEntry {
    pub name: String,
    /// Whether it has a `mode` file (effects).
    pub has_mode: bool,
}

/// Which keyboard backlight files exist.
pub struct KeyboardLedFiles {
    /// `/sys/devices/platform/tuxedo_keyboard/leds` exists.
    pub vendor_leds: bool,
    /// Its `left:`, `rgb:`, `center:` and `right:kbd_backlight` entries exist.
    pub vendor_left: bool,
    pub vendor_rgb: bool,
    pub vendor_center: bool,
    pub vendor_right: bool,
    /// The `mode` file of its `left:` and of its `rgb:kbd_backlight` entry.
    pub vendor_left_mode: bool,
    pub vendor_rgb_mode: bool,
    /// The entries of `/sys/class/leds`, when it can be listed.
    pub class_leds: Option<Vec<LedEntry>>,
    /// A HID device is an ITE keyboard controller.
    pub ite_keyboard: bool,
}

/// The `kbd_backlight` entries among the first `n` LEDs, in order.
pub open spec fn kbd_leds_upto(leds: Seq<LedEntry>, n: int) -> Seq<LedEntry>
    decreases n,
{
    if n <= 0 {
        Seq::empty()
    } else if contains_seq(leds[n - 1].name@, "kbd_backlight"@) {
        kbd_leds_upto(leds, n - 1).push(leds[n - 1])
    } else {
        kbd_leds_upto(leds, n - 1)
    }
}

pub open spec fn any_named(leds: Seq<LedEntry>, part: Seq<char>) -> bool {
    exists|i: int| 0 <= i < leds.len() && contains_seq((#[trigger] leds[i]).name@, part)
}

pub open spec fn no_backlight() -> KeyboardCapabilities {
    KeyboardCapabilities {
        keyboard_type: KeyboardType::NoBacklight,
        supports_brightness: false,
        supports_color: false,
        supports_effects: false,
        num_zones: 0,
    }
}

/// What the generic LED class shows: white-only when no keyboard LED is an
/// RGB one; otherwise one zone per LED (1, 3 and 4 zones have their own
/// types), effects when the first has a `mode` file.
pub open spec fn class_caps(leds: Seq<LedEntry>) -> KeyboardCapabilities {
    let kbd = kbd_leds_upto(leds, leds.len() as int);
    if kbd.len() == 0 {
        no_backlight()
    } else if any_named(kbd, "rgb:"@) || any_named(kbd, "tuxedo:"@) {
        let zones = kbd.len() as u32;
        KeyboardCapabilities {
            keyboard_type: if zones == 3 {
                KeyboardType::ThreeZoneRGB
            } else if zones == 4 {
                KeyboardType::FourZoneRGB
            } else {
                KeyboardType::SingleZoneRGB
            },
            supports_brightness: true,
            supports_color: true,
            supports_effects: kbd[0].has_mode,
            num_zones: zones,
        }
    } else {
        KeyboardCapabilities {
            keyboard_type: KeyboardType::WhiteOnly,
            supports_brightness: true,
            supports_color: false,
            supports_effects: false,
            num_zones: 1,
        }
    }
}

/// More than ten zones, or an ITE controller with nothing found, is a
/// per-key keyboard (which, with no zones known, still takes brightness and
/// color).
pub open spec fn with_per_key(c: KeyboardCapabilities, ite: bool) -> KeyboardCapabilities {
    if c.num_zones > 10 || (c.keyboard_type == KeyboardType::NoBacklight && ite) {
        KeyboardCapabilities {
            keyboard_type: KeyboardType::PerKeyRGB,
            supports_brightness: if c.num_zones == 0 { true } else { c.supports_brightness },
            supports_color: if c.num_zones == 0 { true } else { c.supports_color },
            ..c
        }
    } else {
        c
    }
}

/// The keyboard's capabilities: the vendor driver's LEDs when it has the
/// `left:` or `rgb:` one (three zones with `center:` and `right:` too);
/// otherwise what the LED class shows, checked for a per-key keyboard.
pub open spec fn keyboard_caps_of(f: KeyboardLedFiles) -> KeyboardCapabilities {
    if f.vendor_leds && (f.vendor_left || f.vendor_rgb) {
        let three = f.vendor_center && f.vendor_right;
        KeyboardCapabilities {
            keyboard_type: if three {
                KeyboardType::ThreeZoneRGB
            } else {
                KeyboardType::SingleZoneRGB
            },
            supports_brightness: true,
            supports_color: true,
            supports_effects: if three {
                f.vendor_left_mode
            } else {
                f.vendor_rgb_mode
            },
            num_zones: if three {
                3
            } else {
                1
            },
        }
    } else {
        let c = match f.class_leds {
            Some(v) => class_caps(v@),
            None => no_backlight(),
        };
        with_per_key(c, f.ite_keyboard)
    }
}

fn name_has(e: &LedEntry, part: &str) -> (r: bool)
    ensures
        r == contains_seq(e.name@, part@),
{
    let n = chars_of(e.name.as_str());
    let p = chars_of(part);
    contains_chars(n.as_slice(), p.as_slice())
}

fn class_capabilities(leds: &Vec<LedEntry>) -> (r: KeyboardCapabilities)
    ensures
        r == class_caps(leds@),
{
    let mut count: usize = 0;
    let mut first_mode = false;
    let mut rgb = false;
    let mut k: usize = 0;
    while k < leds.len()
        invariant
            k <= leds@.len(),
            count <= k,
            count == kbd_leds_upto(leds@, k as int).len(),
            count > 0 ==> first_mode == kbd_leds_upto(leds@, k as int)[0].has_mode,
            rgb == (any_named(kbd_leds_upto(leds@, k as int), "rgb:"@) || any_named(
                kbd_leds_upto(leds@, k as int),
                "tuxedo:"@,
            )),
        decreases leds@.len() - k,
    {
        let e = &leds[k];
        let ghost prev = kbd_leds_upto(leds@, k as int);
        if name_has(e, "kbd_backlight") {
            let ghost nxt = prev.push(*e);
            assert(kbd_leds_upto(leds@, k + 1) == nxt);
            if count == 0 {
                first_mode = e.has_mode;
            }
            let is_rgb = name_has(e, "rgb:");
            let is_vendor = name_has(e, "tuxedo:");
            proof {
                if any_named(prev, "rgb:"@) {
                    let i = choose|i: int| 0 <= i < prev.len() && contains_seq(prev[i].name@, "rgb:"@);
                    assert(nxt[i] == prev[i]);
                }
                if any_named(prev, "tuxedo:"@) {
                    let i = choose|i: int| 0 <= i < prev.len() && contains_seq(prev[i].name@, "tuxedo:"@);
                    assert(nxt[i] == prev[i]);
                }
                if any_named(nxt, "rgb:"@) && !is_rgb {
                    let i = choose|i: int| 0 <= i < nxt.len() && contains_seq(nxt[i].name@, "rgb:"@);
                    assert(i < prev.len());
                    assert(nxt[i] == prev[i]);
                }
                if any_named(nxt, "tuxedo:"@) && !is_vendor {
                    let i = choose|i: int| 0 <= i < nxt.len() && contains_seq(nxt[i].name@, "tuxedo:"@);
                    assert(i < prev.len());
                    assert(nxt[i] == prev[i]);
                }
                if is_rgb {
                    assert(nxt[prev.len() as int] == *e);
                }
                if is_vendor {
                    assert(nxt[prev.len() as int] == *e);
                }
                if count > 0 {
                    assert(nxt[0] == prev[0]);
                }
            }
            rgb = rgb || is_rgb || is_vendor;
            count = count + 1;
        }
        k = k + 1;
    }
    if count == 0 {
        KeyboardCapabilities {
            keyboard_type: KeyboardType::NoBacklight,
            supports_brightness: false,
            supports_color: false,
            supports_effects: false,
            num_zones: 0,
        }
    } else if rgb {
        let zones = count as u32;
        KeyboardCapabilities {
            keyboard_type: if zones == 3 {
                KeyboardType::ThreeZoneRGB
            } else if zones == 4 {
                KeyboardType::FourZoneRGB
            } else {
                KeyboardType::SingleZoneRGB
            },
            supports_brightness: true,
            supports_color: true,
            supports_effects: first_mode,
            num_zones: zones,
        }
    } else {
        KeyboardCapabilities {
            keyboard_type: KeyboardType::WhiteOnly,
            supports_brightness: true,
            supports_color: false,
            supports_effects: false,
            num_zones: 1,
        }
    }
}

/// The keyboard's backlight capabilities (see `keyboard_caps_of`).
pub fn keyboard_capabilities(f: &KeyboardLedFiles) -> (r: KeyboardCapabilities)
    ensures
        r == keyboard_caps_of(*f),
{
    if f.vendor_leds && (f.vendor_left || f.vendor_rgb) {
        let three = f.vendor_center && f.vendor_right;
        return KeyboardCapabilities {
            keyboard_type: if three {
                KeyboardType::ThreeZoneRGB
            } else {
                KeyboardType::SingleZoneRGB
            },
            supports_brightness: true,
            supports_color: true,
            supports_effects: if three {
                f.vendor_left_mode
            } else {
                f.vendor_rgb_mode
            },
            num_zones: if three {
                3
            } else {
                1
            },
        };
    }
    let mut c = match &f.class_leds {
        Some(v) => class_capabilities(v),
        None => KeyboardCapabilities {
            keyboard_type: KeyboardType::NoBacklight,
            supports_brightness: false,
            supports_color: false,
            supports_effects: false,
            num_zones: 0,
        },
    };
    if c.num_zones > 10 || (c.keyboard_type == KeyboardType::NoBacklight && f.ite_keyboard) {
        c.keyboard_type = KeyboardType::PerKeyRGB;
        if c.num_zones == 0 {
            c.supports_brightness = true;
            c.supports_color = true;
        }
    }
    c
}

} // verus!
