//! Facts about the processor and its graphics neighbours from what procfs,
//! `lscpu` and DRM report: the model name, the core counts, the vendor, the
//! number of discrete AMD GPUs and the scheduler.
use vstd::prelude::*;
use crate::cpu_info::{get_cpu_count, processor_lines};
use crate::text::{
    char_vec_views, chars_eq, chars_of, contains_chars, contains_seq, lines_of, parse_unsigned,
    parse_unsigned_chars, split_chars, split_on, starts_with, starts_with_chars, string_of, text_lines,
    trim_ws, trim_ws_chars,
};

verus! {

/// The piece after the first ':' and before any second one, as
/// `split(':').nth(1)` gives it.
pub open spec fn colon_value(line: Seq<char>) -> Option<Seq<char>> {
    let p = split_on(line, ':');
    if p.len() > 1 {
        Some(p[1])
    } else {
        None
    }
}

fn colon_value_of(line: &[char]) -> (r: Option<Vec<char>>)
    ensures
        match r {
            Some(v) => colon_value(line@) == Some(v@),
            None => colon_value(line@) is None,
        },
{
    let pieces = split_chars(line, ':');
    let ghost pv = char_vec_views(pieces@);
    if pieces.len() > 1 {
        proof {
            assert(pv[1] == pieces@[1]@);
        }
        let p = &pieces[1];
        let mut c: Vec<char> = Vec::new();
        let mut j: usize = 0;
        while j < p.len()
            invariant
                j <= p@.len(),
                c@ == p@.subrange(0, j as int),
            decreases p@.len() - j,
        {
            c.push(p[j]);
            j = j + 1;
        }
        proof {
            assert(c@ =~= p@);
        }
        Some(c)
    } else {
        None
    }
}

/// The model name on the first "model name" line (from line `i` on) that
/// has a value.
pub open spec fn model_name_from(lines: Seq<Seq<char>>, i: int) -> Option<Seq<char>>
    decreases lines.len() - i,
{
    if i < 0 || i >= lines.len() {
        None
    } else if starts_with(lines[i], "model name"@) && colon_value(lines[i]) is Some {
        Some(trim_ws(colon_value(lines[i])->0))
    } else {
        model_name_from(lines, i + 1)
    }
}

/// The processor's name from /proc/cpuinfo, or "Unknown CPU".
pub open spec fn cpu_name_of(cpuinfo: Option<Seq<char>>) -> Seq<char> {
    match cpuinfo {
        Some(c) => match model_name_from(text_lines(c), 0) {
            Some(n) => n,
            None => "Unknown CPU"@,
        },
        None => "Unknown CPU"@,
    }
}

pub fn cpu_name(cpuinfo: Option<&str>) -> (r: String)
    ensures
        r@ == cpu_name_of(match cpuinfo {
            Some(c) => Some(c@),
            None => None,
        }),
{
    let unknown = string_of(chars_of("Unknown CPU").as_slice());
    match cpuinfo {
        None => unknown,
        Some(c) => {
            let lines = lines_of(c);
            let ghost lv = char_vec_views(lines@);
            let key = chars_of("model name");
            let mut k: usize = 0;
            while k < lines.len()
                invariant
                    lv == char_vec_views(lines@),
                    lv == text_lines(c@),
                    cpuinfo == Some(c),
                    key@ == "model name"@,
                    k <= lines@.len(),
                    model_name_from(lv, 0) == model_name_from(lv, k as int),
                decreases lines@.len() - k,
            {
                proof {
                    assert(lv[k as int] == lines@[k as int]@);
                }
                if starts_with_chars(lines[k].as_slice(), key.as_slice()) {
                    match colon_value_of(lines[k].as_slice()) {
                        Some(v) => {
                            return string_of(trim_ws_chars(v.as_slice()).as_slice());
                        },
                        None => {},
                    }
                }
                k = k + 1;
            }
            unknown
        },
    }
}

/// A numeric `lscpu` field: the trimmed value as a `u32`, or `default`.
pub open spec fn lscpu_number(line: Seq<char>, default: u32) -> u32 {
    match colon_value(line) {
        Some(v) => match parse_unsigned(trim_ws(v), u32::MAX as nat) {
            Some(n) => n as u32,
            None => default,
        },
        None => default,
    }
}

/// CPUs, cores per socket and sockets after the first `n` lines of
/// `lscpu` (the last line of each kind wins; a value that does not parse
/// counts as 0, sockets as 1).
pub open spec fn lscpu_upto(lines: Seq<Seq<char>>, n: int) -> (u32, u32, u32)
    decreases n,
{
    if n <= 0 {
        (0, 0, 0)
    } else {
        let prev = lscpu_upto(lines, n - 1);
        let t = trim_ws(lines[n - 1]);
        if starts_with(t, "CPU(s):"@) {
            (lscpu_number(t, 0), prev.1, prev.2)
        } else if starts_with(t, "Thread(s) per core:"@) {
            prev
        } else if starts_with(t, "Core(s) per socket:"@) {
            (prev.0, lscpu_number(t, 0), prev.2)
        } else if starts_with(t, "Socket(s):"@) {
            (prev.0, prev.1, lscpu_number(t, 1))
        } else {
            prev
        }
    }
}

pub open spec fn lscpu_of(out: Seq<char>) -> (u32, u32, u32) {
    let lines = text_lines(out);
    lscpu_upto(lines, lines.len() as int)
}

/// Physical and logical core counts: `lscpu`'s CPUs and cores per socket
/// times sockets; without a CPU count, the processors /proc/cpuinfo lists
/// (1 if it cannot be read); without a physical count, the logical one.
pub open spec fn topology_of(lscpu: Option<Seq<char>>, cpuinfo: Option<Seq<char>>) -> (u32, u32) {
    let (l0, p0) = match lscpu {
        Some(s) => (lscpu_of(s).0, (lscpu_of(s).1 * lscpu_of(s).2) as u32),
        None => (0u32, 0u32),
    };
    let logical: u32 = if l0 == 0 {
        match cpuinfo {
            Some(c) => (processor_lines(split_on(c, '\n'), split_on(c, '\n').len() as int)
                % 0x1_0000_0000) as u32,
            None => 1,
        }
    } else {
        l0
    };
    (if p0 == 0 {
        logical
    } else {
        p0
    }, logical)
}

fn lscpu_value(t: &[char], default: u32) -> (r: u32)
    ensures
        r == lscpu_number(t@, default),
{
    match colon_value_of(t) {
        Some(v) => {
            let tv = trim_ws_chars(v.as_slice());
            match parse_unsigned_chars(tv.as_slice(), 0xffff_ffff) {
                Some(n) => n as u32,
                None => default,
            }
        },
        None => default,
    }
}

fn parse_lscpu(out: &str) -> (r: (u32, u32, u32))
    ensures
        r == lscpu_of(out@),
{
    let lines = lines_of(out);
    let ghost lv = char_vec_views(lines@);
    let k_cpus = chars_of("CPU(s):");
    let k_threads = chars_of("Thread(s) per core:");
    let k_cores = chars_of("Core(s) per socket:");
    let k_sockets = chars_of("Socket(s):");
    let mut r: (u32, u32, u32) = (0, 0, 0);
    let mut k: usize = 0;
    while k < lines.len()
        invariant
            lv == char_vec_views(lines@),
            lv == text_lines(out@),
            k_cpus@ == "CPU(s):"@,
            k_threads@ == "Thread(s) per core:"@,
            k_cores@ == "Core(s) per socket:"@,
            k_sockets@ == "Socket(s):"@,
            k <= lines@.len(),
            r == lscpu_upto(lv, k as int),
        decreases lines@.len() - k,
    {
        proof {
            assert(lv[k as int] == lines@[k as int]@);
        }
        let t = trim_ws_chars(lines[k].as_slice());
        if starts_with_chars(t.as_slice(), k_cpus.as_slice()) {
            r = (lscpu_value(t.as_slice(), 0), r.1, r.2);
        } else if starts_with_chars(t.as_slice(), k_threads.as_slice()) {
        } else if starts_with_chars(t.as_slice(), k_cores.as_slice()) {
            r = (r.0, lscpu_value(t.as_slice(), 0), r.2);
        } else if starts_with_chars(t.as_slice(), k_sockets.as_slice()) {
            r = (r.0, r.1, lscpu_value(t.as_slice(), 1));
        }
        k = k + 1;
    }
    r
}

/// Physical and logical core counts (see `topology_of`).
pub fn cpu_topology(lscpu: Option<&str>, cpuinfo: Option<&str>) -> (r: (u32, u32))
    requires
        match lscpu {
            Some(s) => lscpu_of(s@).1 * lscpu_of(s@).2 <= u32::MAX,
            None => true,
        },
    ensures
        r == topology_of(
            match lscpu {
                Some(s) => Some(s@),
                None => None,
            },
            match cpuinfo {
                Some(c) => Some(c@),
                None => None,
            },
        ),
{
    let (l0, p0): (u32, u32) = match lscpu {
        Some(s) => {
            let (l, c, so) = parse_lscpu(s);
            (l, c * so)
        },
        None => (0, 0),
    };
    let logical: u32 = if l0 == 0 {
        match cpuinfo {
            Some(c) => get_cpu_count(c),
            None => 1,
        }
    } else {
        l0
    };
    (if p0 == 0 {
        logical
    } else {
        p0
    }, logical)
}

/// Does the first "vendor_id" line (from line `i` on) name AMD?
pub open spec fn amd_vendor_from(lines: Seq<Seq<char>>, i: int) -> bool
    decreases lines.len() - i,
{
    if i < 0 || i >= lines.len() {
        false
    } else if starts_with(lines[i], "vendor_id"@) {
        contains_seq(lines[i], "AuthenticAMD"@)
    } else {
        amd_vendor_from(lines, i + 1)
    }
}

/// Is the processor an AMD one, by the first "vendor_id" line of
/// /proc/cpuinfo?
pub fn is_amd_cpu(cpuinfo: Option<&str>) -> (r: bool)
    ensures
        r == match cpuinfo {
            Some(c) => amd_vendor_from(text_lines(c@), 0),
            None => false,
        },
{
    match cpuinfo {
        None => false,
        Some(c) => {
            let lines = lines_of(c);
            let ghost lv = char_vec_views(lines@);
            let key = chars_of("vendor_id");
            let amd = chars_of("AuthenticAMD");
            let mut k: usize = 0;
            while k < lines.len()
                invariant
                    lv == char_vec_views(lines@),
                    lv == text_lines(c@),
                    cpuinfo == Some(c),
                    key@ == "vendor_id"@,
                    amd@ == "AuthenticAMD"@,
                    k <= lines@.len(),
                    amd_vendor_from(lv, 0) == amd_vendor_from(lv, k as int),
                decreases lines@.len() - k,
            {
                proof {
                    assert(lv[k as int] == lines@[k as int]@);
                }
                if starts_with_chars(lines[k].as_slice(), key.as_slice()) {
                    return contains_chars(lines[k].as_slice(), amd.as_slice());
                }
                k = k + 1;
            }
            false
        },
    }
}

/// A `/sys/class/drm` entry: its name and its device's `vendor` file.
pub struct DrmEntry {
    pub name: String,
    pub vendor: Option<String>,
}

pub open spec fn is_amd_card(e: DrmEntry) -> bool {
    starts_with(e.name@, "card"@) && !e.name@.contains('-') && e.vendor is Some && trim_ws(
        e.vendor->0@,
    ) == "0x1002"@
}

/// The AMD cards among the first `n` entries (connectors such as
/// "card1-eDP-1" are not cards).
pub open spec fn amd_cards_upto(entries: Seq<DrmEntry>, n: int) -> nat
    decreases n,
{
    if n <= 0 {
        0
    } else {
        amd_cards_upto(entries, n - 1) + if is_amd_card(entries[n - 1]) {
            1nat
        } else {
            0nat
        }
    }
}

/// Discrete AMD GPUs: all AMD cards but one (the integrated one).
pub fn amd_dgpu_count(entries: &Vec<DrmEntry>) -> (r: u64)
    ensures
        r == (if amd_cards_upto(entries@, entries@.len() as int) > 1 {
            amd_cards_upto(entries@, entries@.len() as int) - 1
        } else {
            0
        }),
{
    let card = chars_of("card");
    let amd = chars_of("0x1002");
    let mut count: u64 = 0;
    let mut k: usize = 0;
    while k < entries.len()
        invariant
            card@ == "card"@,
            amd@ == "0x1002"@,
            k <= entries@.len(),
            count == amd_cards_upto(entries@, k as int),
            count <= k,
        decreases entries@.len() - k,
    {
        let e = &entries[k];
        let name = chars_of(e.name.as_str());
        let mut dash = false;
        let mut j: usize = 0;
        while j < name.len()
            invariant
                j <= name@.len(),
                dash == exists|q: int| 0 <= q < j && name@[q] == '-',
            decreases name@.len() - j,
        {
            if name[j] == '-' {
                dash = true;
            }
            j = j + 1;
        }
        proof {
            if name@.contains('-') {
                let q = choose|q: int| 0 <= q < name@.len() && name@[q] == '-';
                assert(dash);
            }
        }
        let mut is_card = false;
        if starts_with_chars(name.as_slice(), card.as_slice()) && !dash {
            match &e.vendor {
                Some(v) => {
                    let vc = chars_of(v.as_str());
                    let t = trim_ws_chars(vc.as_slice());
                    is_card = chars_eq(t.as_slice(), amd.as_slice());
                },
                None => {},
            }
        }
        if is_card {
            count = count + 1;
        }
        k = k + 1;
    }
    if count > 1 {
        count - 1
    } else {
        0
    }
}

/// The scheduler the kernel runs: EEVDF when its feature list mentions it,
/// otherwise (or when no feature list can be read) CFS.
pub fn scheduler_name(features: Option<&str>) -> (r: String)
    ensures
        r@ == (match features {
            Some(f) => if contains_seq(f@, "EEVDF"@) {
                "EEVDF"@
            } else {
                "CFS"@
            },
            None => "CFS"@,
        }),
{
    let eevdf = match features {
        Some(f) => contains_chars(chars_of(f).as_slice(), chars_of("EEVDF").as_slice()),
        None => false,
    };
    if eevdf {
        string_of(chars_of("EEVDF").as_slice())
    } else {
        string_of(chars_of("CFS").as_slice())
    }
}

} // verus!
