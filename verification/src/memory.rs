//! Memory module type and speed from `dmidecode -t memory`.
use vstd::prelude::*;
use crate::cpu_facts::colon_value;
use crate::text::{
    char_vec_views, chars_of, contains_chars, contains_seq, lines_of, lowercase_of, parse_unsigned,
    parse_unsigned_chars, split_chars, split_ws_chars, starts_with, starts_with_chars, string_of,
    text_lines, to_lowercase, trim_ws, trim_ws_chars, words,
};

verus! {

/// The value after the first ':' (empty when there is none), trimmed.
pub open spec fn field_text(line: Seq<char>) -> Seq<char> {
    match colon_value(line) {
        Some(v) => trim_ws(v),
        None => Seq::empty(),
    }
}

pub open spec fn is_type_line(t: Seq<char>) -> bool {
    contains_seq(t, "Type: DDR"@) || contains_seq(t, "Type: LPDDR"@)
}

pub open spec fn is_speed_line(t: Seq<char>) -> bool {
    starts_with(t, "Speed:"@) || starts_with(t, "Configured Memory Speed:"@) || starts_with(
        t,
        "Configured Clock Speed:"@,
    )
}

/// A speed value such as "3200 MT/s": its first word as a number, unless
/// it is empty or says "unknown".
pub open spec fn speed_of(v: Seq<char>) -> Option<u64> {
    if contains_seq(lowercase_of(v), "unknown"@) || v.len() == 0 {
        None
    } else {
        let w = words(v);
        if w.len() > 0 {
            match parse_unsigned(w[0], u64::MAX as nat) {
                Some(n) => Some(n as u64),
                None => None,
            }
        } else {
            None
        }
    }
}

/// Memory type and speed after the first `n` lines: the last DDR/LPDDR
/// type line gives the type; the first speed line with a number gives the
/// speed.
pub open spec fn dmidecode_upto(lines: Seq<Seq<char>>, n: int) -> (Option<Seq<char>>, Option<u64>)
    decreases n,
{
    if n <= 0 {
        (None, None)
    } else {
        let prev = dmidecode_upto(lines, n - 1);
        let t = trim_ws(lines[n - 1]);
        let ty = if is_type_line(t) {
            Some(field_text(t))
        } else {
            prev.0
        };
        let speed = if is_speed_line(t) && prev.1 is None {
            speed_of(field_text(t))
        } else {
            prev.1
        };
        (ty, speed)
    }
}

pub open spec fn dmidecode_of(out: Seq<char>) -> (Option<Seq<char>>, Option<u64>) {
    let lines = text_lines(out);
    dmidecode_upto(lines, lines.len() as int)
}

fn field_text_of(t: &[char]) -> (r: Vec<char>)
    ensures
        r@ == field_text(t@),
{
    let pieces = split_chars(t, ':');
    let ghost pv = char_vec_views(pieces@);
    if pieces.len() > 1 {
        proof {
            assert(pv[1] == pieces@[1]@);
        }
        trim_ws_chars(pieces[1].as_slice())
    } else {
        Vec::new()
    }
}

fn speed_value(v: &[char]) -> (r: Option<u64>)
    ensures
        r == speed_of(v@),
{
    let s = string_of(v);
    let lower_s = to_lowercase(s.as_str());
    let lower = chars_of(lower_s.as_str());
    if contains_chars(lower.as_slice(), chars_of("unknown").as_slice()) || v.len() == 0 {
        return None;
    }
    let w = split_ws_chars(v);
    let ghost wv = char_vec_views(w@);
    if w.len() > 0 {
        proof {
            assert(wv[0] == w@[0]@);
        }
        parse_unsigned_chars(w[0].as_slice(), u64::MAX)
    } else {
        None
    }
}

/// The memory type and speed `dmidecode -t memory` reports (see
/// `dmidecode_upto`).
pub fn parse_dmidecode_memory(out: &str) -> (r: (Option<String>, Option<u64>))
    ensures
        (match r.0 {
            Some(s) => Some(s@),
            None => None,
        }, r.1) == dmidecode_of(out@),
{
    let lines = lines_of(out);
    let ghost lv = char_vec_views(lines@);
    let k_ddr = chars_of("Type: DDR");
    let k_lpddr = chars_of("Type: LPDDR");
    let k_speed = chars_of("Speed:");
    let k_conf_mem = chars_of("Configured Memory Speed:");
    let k_conf_clock = chars_of("Configured Clock Speed:");
    let mut ty: Option<String> = None;
    let mut speed: Option<u64> = None;
    let mut k: usize = 0;
    while k < lines.len()
        invariant
            lv == char_vec_views(lines@),
            lv == text_lines(out@),
            k_ddr@ == "Type: DDR"@,
            k_lpddr@ == "Type: LPDDR"@,
            k_speed@ == "Speed:"@,
            k_conf_mem@ == "Configured Memory Speed:"@,
            k_conf_clock@ == "Configured Clock Speed:"@,
            k <= lines@.len(),
            (match ty {
                Some(s) => Some(s@),
                None => None,
            }, speed) == dmidecode_upto(lv, k as int),
        decreases lines@.len() - k,
    {
        proof {
            assert(lv[k as int] == lines@[k as int]@);
        }
        let t = trim_ws_chars(lines[k].as_slice());
        let ts = t.as_slice();
        if contains_chars(ts, k_ddr.as_slice()) || contains_chars(ts, k_lpddr.as_slice()) {
            let f = field_text_of(ts);
            ty = Some(string_of(f.as_slice()));
        }
        if (starts_with_chars(ts, k_speed.as_slice()) || starts_with_chars(ts, k_conf_mem.as_slice())
            || starts_with_chars(ts, k_conf_clock.as_slice())) && speed.is_none() {
            let f = field_text_of(ts);
            speed = speed_value(f.as_slice());
        }
        k = k + 1;
    }
    (ty, speed)
}

} // verus!
