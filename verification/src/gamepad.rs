//! Recognising game controllers among the kernel's input devices: the udev
//! database entries of their event nodes, their names, their unique ids and
//! bus types, and the batteries they report.
use vstd::prelude::*;
use crate::text::{
    chars_eq, chars_of, contains_chars, contains_seq, last_value, lines_of, lowercase_of, parse_hex,
    parse_hex_chars, parse_unsigned, parse_unsigned_chars, starts_with, starts_with_chars, string_of,
    text_lines, to_lowercase, trim_ws, trim_ws_chars, value_of,
};
use crate::device_text::{normalize_uid, normalized_uid};
use crate::types::{ConnectionType, GamepadInfo, GamepadStatus, PowerStatus};

verus! {

/// The value of `key` in a `KEY=value` text: the last line that sets it wins.
pub open spec fn field_of(text: Seq<char>, key: Seq<char>) -> Option<Seq<char>> {
    let lines = text_lines(text);
    last_value(lines, lines.len() as int, key)
}

/// Where udev keeps the database entry of the character device that a
/// `uevent` text names by `MAJOR=` and `MINOR=`.
pub open spec fn udev_data_path_of(uevent: Seq<char>) -> Option<Seq<char>> {
    match (field_of(uevent, "MAJOR="@), field_of(uevent, "MINOR="@)) {
        (Some(major), Some(minor)) => Some("/run/udev/data/c"@ + major + ":"@ + minor),
        _ => None,
    }
}

/// Does a udev database entry mark the device as a joystick?
pub open spec fn udev_says_joystick(data: Seq<char>) -> bool {
    contains_seq(data, "E:ID_INPUT_JOYSTICK=1"@)
}

/// The stable id a udev database entry gives: its short serial, else its
/// serial, else its `ID_PATH`, normalised.
pub open spec fn udev_uid_of(data: Seq<char>) -> Option<Seq<char>> {
    match field_of(data, "E:ID_SERIAL_SHORT="@) {
        Some(v) => Some(normalized_uid(v)),
        None => match field_of(data, "E:ID_SERIAL="@) {
            Some(v) => Some(normalized_uid(v)),
            None => match field_of(data, "E:ID_PATH="@) {
                Some(v) => Some(normalized_uid(v)),
                None => None,
            },
        },
    }
}

pub open spec fn opt_views(v: Seq<Option<String>>) -> Seq<Option<Seq<char>>> {
    v.map_values(|o: Option<String>| opt_view(o))
}

pub open spec fn opt_view(o: Option<String>) -> Option<Seq<char>> {
    match o {
        Some(s) => Some(s@),
        None => None,
    }
}

/// The udev verdict over the first `n` event nodes of a device: whether
/// one of them is a joystick (the scan stops at the first that is), and
/// the id of the last entry read.
pub open spec fn udev_scan(records: Seq<Option<Seq<char>>>, n: int) -> (bool, Option<Seq<char>>)
    decreases n,
{
    if n <= 0 {
        (false, None)
    } else {
        let prev = udev_scan(records, n - 1);
        if prev.0 {
            prev
        } else {
            match records[n - 1] {
                None => prev,
                Some(data) => (udev_says_joystick(data), udev_uid_of(data)),
            }
        }
    }
}

/// A lower-cased device name that says "controller", "gamepad" or
/// "joystick" and not "keyboard".
pub open spec fn name_suggests_gamepad(lower: Seq<char>) -> bool {
    (contains_seq(lower, "controller"@) || contains_seq(lower, "gamepad"@) || contains_seq(
        lower,
        "joystick"@,
    )) && !contains_seq(lower, "keyboard"@)
}

/// Lower-cased names of the extra input devices that controllers expose
/// beside the pad itself.
pub open spec fn name_excludes_gamepad(lower: Seq<char>) -> bool {
    contains_seq(lower, "touchpad"@) || contains_seq(lower, "motion sensors"@) || contains_seq(
        lower,
        "consumer control"@,
    ) || contains_seq(lower, "system control"@)
}

/// What is read for one `/sys/class/input/input*` entry.
pub struct InputDeviceFiles {
    /// The entry's name, such as "input7".
    pub input_name: String,
    /// The entry's sysfs path.
    pub path: String,
    /// For each `event*` child, in directory order, the udev database entry
    /// at `udev_data_path` of its `uevent`, when both could be read.
    pub udev_records: Vec<Option<String>>,
    /// The `name` file.
    pub name: Option<String>,
    /// The `device/uniq` file (a MAC address for Bluetooth pads).
    pub uniq: Option<String>,
    /// The `id/bustype` file (hexadecimal).
    pub bustype: Option<String>,
    /// The battery found for the device (see `battery_reading`).
    pub battery_level: Option<u8>,
    pub power_status: PowerStatus,
}

/// Is the device a game controller: udev marks one of its event nodes as
/// a joystick, or its name suggests one; and its name is not one of the
/// extra devices. A device whose name cannot be read is none.
pub open spec fn is_gamepad_device(d: InputDeviceFiles) -> bool {
    match d.name {
        None => false,
        Some(name) => {
            let lower = lowercase_of(name@);
            (udev_scan(opt_views(d.udev_records@), d.udev_records@.len() as int).0
                || name_suggests_gamepad(lower)) && !name_excludes_gamepad(lower)
        },
    }
}

/// The id a controller is remembered by: its normalised `uniq` when that
/// is set and not all zeros; else the udev id; else (volatile across
/// reconnects) its sysfs path.
pub open spec fn gamepad_uid(d: InputDeviceFiles) -> Seq<char> {
    let base = match udev_scan(opt_views(d.udev_records@), d.udev_records@.len() as int).1 {
        Some(u) => u,
        None => d.path@,
    };
    match d.uniq {
        Some(u) => {
            let t = trim_ws(u@);
            if t.len() > 0 && t != "00:00:00:00:00:00"@ {
                normalized_uid(t)
            } else {
                base
            }
        },
        None => base,
    }
}

/// USB (0x03) is wired, Bluetooth (0x05) wireless; an unreadable bus type
/// counts as 0.
pub open spec fn connection_of(bustype: Option<Seq<char>>) -> ConnectionType {
    let bus = match bustype {
        Some(b) => match parse_hex(trim_ws(b), 0xffff) {
            Some(v) => v,
            None => 0,
        },
        None => 0,
    };
    if bus == 3 {
        ConnectionType::Wired
    } else if bus == 5 {
        ConnectionType::Wireless
    } else {
        ConnectionType::Unknown
    }
}

/// A controller as reported: trimmed name, input name, uid, status,
/// battery level, connection and power status.
pub type GamepadView = (Seq<char>, Seq<char>, Seq<char>, GamepadStatus, Option<u8>, ConnectionType, PowerStatus);

pub open spec fn gamepad_view(g: GamepadInfo) -> GamepadView {
    (g.name@, g.id@, g.uid@, g.status, g.battery_level, g.connection_type, g.power_status)
}

pub open spec fn gamepad_views(v: Seq<GamepadInfo>) -> Seq<GamepadView> {
    v.map_values(|g: GamepadInfo| gamepad_view(g))
}

/// The controller an input entry is, if it is one.
pub open spec fn gamepad_of(d: InputDeviceFiles) -> Option<GamepadView> {
    if starts_with(d.input_name@, "input"@) && is_gamepad_device(d) {
        Some(
            (
                trim_ws(d.name->0@),
                d.input_name@,
                gamepad_uid(d),
                GamepadStatus::Connected,
                d.battery_level,
                connection_of(opt_view(d.bustype)),
                d.power_status,
            ),
        )
    } else {
        None
    }
}

pub open spec fn has_uid(v: Seq<GamepadView>, uid: Seq<char>) -> bool {
    exists|i: int| 0 <= i < v.len() && (#[trigger] v[i]).2 == uid
}

/// The controllers among the first `n` entries, each id reported once
/// (the first entry with it wins).
pub open spec fn gamepads_upto(devices: Seq<InputDeviceFiles>, n: int) -> Seq<GamepadView>
    decreases n,
{
    if n <= 0 {
        Seq::empty()
    } else {
        let prev = gamepads_upto(devices, n - 1);
        match gamepad_of(devices[n - 1]) {
            Some(g) => if has_uid(prev, g.2) {
                prev
            } else {
                prev.push(g)
            },
            None => prev,
        }
    }
}

/// No two controllers the scan reports share an id: a device that comes
/// back under another input number is reported once.
pub proof fn lemma_gamepad_ids_are_unique(devices: Seq<InputDeviceFiles>, n: int)
    ensures
        forall|i: int, j: int|
            0 <= i < j < gamepads_upto(devices, n).len() ==> (#[trigger] gamepads_upto(
                devices,
                n,
            )[i]).2 != (#[trigger] gamepads_upto(devices, n)[j]).2,
    decreases n,
{
    if n > 0 {
        lemma_gamepad_ids_are_unique(devices, n - 1);
        let prev = gamepads_upto(devices, n - 1);
        match gamepad_of(devices[n - 1]) {
            Some(g) => {
                if !has_uid(prev, g.2) {
                    let cur = prev.push(g);
                    assert forall|i: int, j: int| 0 <= i < j < cur.len() implies (
                    #[trigger] cur[i]).2 != (#[trigger] cur[j]).2 by {
                        if j == prev.len() {
                            assert(cur[i] == prev[i]);
                            if cur[i].2 == g.2 {
                                assert(has_uid(prev, g.2));
                            }
                        } else {
                            assert(cur[i] == prev[i] && cur[j] == prev[j]);
                        }
                    }
                }
            },
            None => {},
        }
    }
}

/// The path of the udev database entry a `uevent` text points to.
pub fn udev_data_path(uevent: &str) -> (r: Option<String>)
    ensures
        opt_view(r) == udev_data_path_of(uevent@),
{
    let lines = lines_of(uevent);
    let major_key = chars_of("MAJOR=");
    let minor_key = chars_of("MINOR=");
    let major = value_of(&lines, major_key.as_slice());
    let minor = value_of(&lines, minor_key.as_slice());
    match (major, minor) {
        (Some(a), Some(b)) => {
            let mut p = chars_of("/run/udev/data/c");
            let ghost p0 = p@;
            let mut i: usize = 0;
            while i < a.len()
                invariant
                    i <= a@.len(),
                    p@ == p0 + a@.subrange(0, i as int),
                decreases a@.len() - i,
            {
                p.push(a[i]);
                i = i + 1;
            }
            p.push(':');
            let ghost p1 = p@;
            let mut j: usize = 0;
            while j < b.len()
                invariant
                    j <= b@.len(),
                    p@ == p1 + b@.subrange(0, j as int),
                decreases b@.len() - j,
            {
                p.push(b[j]);
                j = j + 1;
            }
            proof {
                reveal_strlit(":");
                assert(a@.subrange(0, a@.len() as int) =~= a@);
                assert(b@.subrange(0, b@.len() as int) =~= b@);
                assert(p@ =~= "/run/udev/data/c"@ + a@ + ":"@ + b@);
            }
            Some(string_of(p.as_slice()))
        },
        _ => None,
    }
}

fn normalized_value(v: Option<Vec<char>>) -> (r: Option<String>)
    ensures
        opt_view(r) == match v {
            Some(x) => Some(normalized_uid(x@)),
            None => None,
        },
{
    match v {
        Some(x) => Some(normalize_uid(string_of(x.as_slice()))),
        None => None,
    }
}

/// Whether a udev database entry marks a joystick, and the id it gives.
pub fn udev_entry(data: &str) -> (r: (bool, Option<String>))
    ensures
        r.0 == udev_says_joystick(data@),
        opt_view(r.1) == udev_uid_of(data@),
{
    let cs = chars_of(data);
    let joy = chars_of("E:ID_INPUT_JOYSTICK=1");
    let is_joystick = contains_chars(cs.as_slice(), joy.as_slice());
    let lines = lines_of(data);
    let k_short = chars_of("E:ID_SERIAL_SHORT=");
    let k_serial = chars_of("E:ID_SERIAL=");
    let k_path = chars_of("E:ID_PATH=");
    let short = value_of(&lines, k_short.as_slice());
    let uid = if short.is_some() {
        normalized_value(short)
    } else {
        let serial = value_of(&lines, k_serial.as_slice());
        if serial.is_some() {
            normalized_value(serial)
        } else {
            normalized_value(value_of(&lines, k_path.as_slice()))
        }
    };
    (is_joystick, uid)
}

/// The udev verdict over a device's event nodes (see `udev_scan`).
pub fn scan_udev_records(records: &Vec<Option<String>>) -> (r: (bool, Option<String>))
    ensures
        (r.0, opt_view(r.1)) == udev_scan(opt_views(records@), records@.len() as int),
{
    let ghost rv = opt_views(records@);
    let mut is_gamepad = false;
    let mut uid: Option<String> = None;
    let mut k: usize = 0;
    while k < records.len()
        invariant_except_break
            rv == opt_views(records@),
            k <= records@.len(),
            (is_gamepad, opt_view(uid)) == udev_scan(rv, k as int),
            !is_gamepad,
        ensures
            (is_gamepad, opt_view(uid)) == udev_scan(rv, records@.len() as int),
        decreases records@.len() - k,
    {
        proof {
            assert(rv[k as int] == opt_view(records@[k as int]));
        }
        match &records[k] {
            Some(data) => {
                let (joy, u) = udev_entry(data.as_str());
                is_gamepad = joy;
                uid = u;
                if is_gamepad {
                    proof {
                        lemma_udev_scan_settles(rv, k + 1, records@.len() as int);
                    }
                    break;
                }
            },
            None => {},
        }
        k = k + 1;
    }
    (is_gamepad, uid)
}

/// Once an event node is a joystick, later ones change nothing.
proof fn lemma_udev_scan_settles(records: Seq<Option<Seq<char>>>, i: int, n: int)
    requires
        0 <= i <= n,
        udev_scan(records, i).0,
    ensures
        udev_scan(records, n) == udev_scan(records, i),
    decreases n - i,
{
    if i < n {
        lemma_udev_scan_settles(records, i, n - 1);
    }
}

fn lower_contains(lower: &[char], word: &str) -> (r: bool)
    ensures
        r == contains_seq(lower@, word@),
{
    let w = chars_of(word);
    contains_chars(lower, w.as_slice())
}

/// Is the input entry a game controller (see `is_gamepad_device`)?
pub fn is_gamepad(d: &InputDeviceFiles) -> (r: bool)
    ensures
        r == is_gamepad_device(*d),
{
    match &d.name {
        None => false,
        Some(name) => {
            let (udev_gp, _) = scan_udev_records(&d.udev_records);
            let lower_s = to_lowercase(name.as_str());
            let lower = chars_of(lower_s.as_str());
            let l = lower.as_slice();
            let suggests = (lower_contains(l, "controller") || lower_contains(l, "gamepad")
                || lower_contains(l, "joystick")) && !lower_contains(l, "keyboard");
            let excluded = lower_contains(l, "touchpad") || lower_contains(l, "motion sensors")
                || lower_contains(l, "consumer control") || lower_contains(l, "system control");
            (udev_gp || suggests) && !excluded
        },
    }
}

/// The id a controller is remembered by (see `gamepad_uid`).
pub fn remembered_uid(d: &InputDeviceFiles) -> (r: String)
    ensures
        r@ == gamepad_uid(*d),
{
    let (_, udev_uid) = scan_udev_records(&d.udev_records);
    let base = match udev_uid {
        Some(u) => u,
        None => string_of(chars_of(d.path.as_str()).as_slice()),
    };
    match &d.uniq {
        Some(u) => {
            let all = chars_of(u.as_str());
            let t = trim_ws_chars(all.as_slice());
            let zeros = chars_of("00:00:00:00:00:00");
            if t.len() > 0 && !chars_eq(t.as_slice(), zeros.as_slice()) {
                normalize_uid(string_of(t.as_slice()))
            } else {
                base
            }
        },
        None => base,
    }
}

/// How a controller is connected, from its `id/bustype` file.
pub fn connection_type(bustype: Option<&str>) -> (r: ConnectionType)
    ensures
        r == connection_of(match bustype {
            Some(b) => Some(b@),
            None => None,
        }),
{
    let bus: u64 = match bustype {
        Some(b) => {
            let all = chars_of(b);
            let t = trim_ws_chars(all.as_slice());
            match parse_hex_chars(t.as_slice(), 0xffff) {
                Some(v) => v,
                None => 0,
            }
        },
        None => 0,
    };
    if bus == 3 {
        ConnectionType::Wired
    } else if bus == 5 {
        ConnectionType::Wireless
    } else {
        ConnectionType::Unknown
    }
}

fn uid_seen(found: &Vec<GamepadInfo>, uid: &String) -> (r: bool)
    ensures
        r == has_uid(gamepad_views(found@), uid@),
{
    let u = chars_of(uid.as_str());
    let ghost gv = gamepad_views(found@);
    let mut i: usize = 0;
    while i < found.len()
        invariant
            gv == gamepad_views(found@),
            u@ == uid@,
            i <= found@.len(),
            forall|q: int| 0 <= q < i ==> (#[trigger] gv[q]).2 != uid@,
        decreases found@.len() - i,
    {
        let other = chars_of(found[i].uid.as_str());
        proof {
            assert(gv[i as int] == gamepad_view(found@[i as int]));
        }
        if chars_eq(other.as_slice(), u.as_slice()) {
            proof {
                assert(has_uid(gv, uid@));
            }
            return true;
        }
        i = i + 1;
    }
    false
}

/// The game controllers among the kernel's input devices, in the order the
/// entries come, each id once.
pub fn gamepads_from_devices(devices: &Vec<InputDeviceFiles>) -> (r: Vec<GamepadInfo>)
    ensures
        gamepad_views(r@) == gamepads_upto(devices@, devices@.len() as int),
{
    let mut found: Vec<GamepadInfo> = Vec::new();
    let mut k: usize = 0;
    let prefix = chars_of("input");
    while k < devices.len()
        invariant
            k <= devices@.len(),
            prefix@ == "input"@,
            gamepad_views(found@) == gamepads_upto(devices@, k as int),
        decreases devices@.len() - k,
    {
        let d = &devices[k];
        let name_chars = chars_of(d.input_name.as_str());
        if starts_with_chars(name_chars.as_slice(), prefix.as_slice()) && is_gamepad(d) {
            let uid = remembered_uid(d);
            let seen = uid_seen(&found, &uid);
            if !seen {
                let name_all = match &d.name {
                    Some(n) => chars_of(n.as_str()),
                    None => Vec::new(),
                };
                let name = string_of(trim_ws_chars(name_all.as_slice()).as_slice());
                let bus = match &d.bustype {
                    Some(b) => Some(b.as_str()),
                    None => None,
                };
                let g = GamepadInfo {
                    name,
                    id: string_of(name_chars.as_slice()),
                    uid,
                    status: GamepadStatus::Connected,
                    battery_level: d.battery_level,
                    connection_type: connection_type(bus),
                    power_status: d.power_status,
                };
                let ghost before = gamepad_views(found@);
                found.push(g);
                proof {
                    assert(gamepad_views(found@) =~= before.push(gamepad_view(g)));
                    assert(bus matches Some(b) ==> b@ == d.bustype->0@);
                    assert(opt_view(d.bustype) == match bus {
                        Some(b) => Some(b@),
                        None => None::<Seq<char>>,
                    });
                }
            }
        }
        k = k + 1;
    }
    found
}

/// What a power supply's `status` word means.
pub open spec fn power_status_of(status: Seq<char>) -> PowerStatus {
    let w = lowercase_of(trim_ws(status));
    if w == "charging"@ {
        PowerStatus::Charging
    } else if w == "discharging"@ {
        PowerStatus::Discharging
    } else if w == "full"@ {
        PowerStatus::Full
    } else {
        PowerStatus::Unknown
    }
}

/// A battery as its `capacity` and `status` files report it: the level
/// when the trimmed capacity parses as a `u8`, and the status word's
/// meaning (unknown when the file is missing).
pub fn battery_reading(capacity: Option<&str>, status: Option<&str>) -> (r: (Option<u8>, PowerStatus))
    ensures
        r.0 == match capacity {
            Some(c) => match parse_unsigned(trim_ws(c@), 255) {
                Some(v) => Some(v as u8),
                None => None,
            },
            None => None::<u8>,
        },
        r.1 == match status {
            Some(s) => power_status_of(s@),
            None => PowerStatus::Unknown,
        },
{
    let level: Option<u8> = match capacity {
        Some(c) => {
            let all = chars_of(c);
            let t = trim_ws_chars(all.as_slice());
            match parse_unsigned_chars(t.as_slice(), 255) {
                Some(v) => Some(v as u8),
                None => None,
            }
        },
        None => None,
    };
    let power = match status {
        Some(s) => {
            let all = chars_of(s);
            let t = string_of(trim_ws_chars(all.as_slice()).as_slice());
            let w_s = to_lowercase(t.as_str());
            let w = chars_of(w_s.as_str());
            if chars_eq(w.as_slice(), chars_of("charging").as_slice()) {
                PowerStatus::Charging
            } else if chars_eq(w.as_slice(), chars_of("discharging").as_slice()) {
                PowerStatus::Discharging
            } else if chars_eq(w.as_slice(), chars_of("full").as_slice()) {
                PowerStatus::Full
            } else {
                PowerStatus::Unknown
            }
        },
        None => PowerStatus::Unknown,
    };
    (level, power)
}

/// Does a power supply's name mark it as a controller's battery (the
/// fallback when none hangs below the input device)?
pub fn is_controller_supply(name: &str) -> (r: bool)
    ensures
        r == (contains_seq(lowercase_of(name@), "controller"@) || contains_seq(
            lowercase_of(name@),
            "gamepad"@,
        )),
{
    let lower_s = to_lowercase(name);
    let lower = chars_of(lower_s.as_str());
    lower_contains(lower.as_slice(), "controller") || lower_contains(lower.as_slice(), "gamepad")
}

} // verus!
