//! Parsers for what device tools and sysfs report as text: SSIDs and version
//! words, `ethtool -i` output, and device unique ids.
use vstd::prelude::*;
use crate::text::{
    chars_eq, chars_of, is_first_of, char_vec_views, find_char, first_index_of, lowercase_of, slice_chars,
    split_chars, split_on, string_of, to_lowercase, trim_by, trim_chars, trim_ws, trim_ws_chars,
    utf8_len, utf8_len_is, is_hex_digit, TrimKind,
};

verus! {

/// An SSID or version word as tools print it: surrounding whitespace and
/// quotes removed; empty text and iwconfig's "off/any" mean "none".
pub open spec fn normalized_word(v: Seq<char>) -> Option<Seq<char>> {
    let t = trim_by(trim_ws(v), TrimKind::Exactly('"'));
    if t.len() == 0 || t == "off/any"@ {
        None
    } else {
        Some(t)
    }
}

pub fn normalize_chars(v: &[char]) -> (r: Option<String>)
    ensures
        opt_string_view(r) == normalized_word(v@),
{
    let a = trim_ws_chars(v);
    let t = trim_chars(a.as_slice(), &TrimKind::Exactly('"'));
    let off = chars_of("off/any");
    if t.len() == 0 || chars_eq(t.as_slice(), off.as_slice()) {
        None
    } else {
        Some(string_of(t.as_slice()))
    }
}

pub open spec fn opt_string_view(o: Option<String>) -> Option<Seq<char>> {
    match o {
        Some(s) => Some(s@),
        None => None,
    }
}

/// Normalises an SSID (or a version word) as tools print it.
pub fn normalize_ssid(value: &str) -> (r: Option<String>)
    ensures
        opt_string_view(r) == normalized_word(value@),
{
    let v = chars_of(value);
    normalize_chars(v.as_slice())
}

/// Driver and firmware versions from `ethtool -i` lines `0..n`: for each
/// line with a ':', the key before it (trimmed, lower-cased) selects the
/// field, and the last such line wins.
pub open spec fn driver_info_upto(lines: Seq<Seq<char>>, n: int) -> (Option<Seq<char>>, Option<
    Seq<char>,
>)
    decreases n,
{
    if n <= 0 {
        (None, None)
    } else {
        let prev = driver_info_upto(lines, n - 1);
        let line = trim_ws(lines[n - 1]);
        match first_index_of(line, ':') {
            None => prev,
            Some(i) => {
                let key = lowercase_of(trim_ws(line.subrange(0, i)));
                let value = trim_ws(line.subrange(i + 1, line.len() as int));
                if key == "version"@ {
                    (normalized_word(value), prev.1)
                } else if key == "firmware-version"@ {
                    (prev.0, normalized_word(value))
                } else {
                    prev
                }
            },
        }
    }
}

pub open spec fn driver_info(output: Seq<char>) -> (Option<Seq<char>>, Option<Seq<char>>) {
    let lines = split_on(output, '\n');
    driver_info_upto(lines, lines.len() as int)
}

/// Driver version and firmware version from the output of `ethtool -i`.
pub fn parse_driver_info(output: &str) -> (r: (Option<String>, Option<String>))
    ensures
        (opt_string_view(r.0), opt_string_view(r.1)) == driver_info(output@),
{
    let cs = chars_of(output);
    let lines = split_chars(cs.as_slice(), '\n');
    let ghost lv = char_vec_views(lines@);
    let version = chars_of("version");
    let firmware = chars_of("firmware-version");
    let mut driver_version: Option<String> = None;
    let mut firmware_version: Option<String> = None;
    let mut k: usize = 0;
    while k < lines.len()
        invariant
            lv == char_vec_views(lines@),
            lv == split_on(output@, '\n'),
            version@ == "version"@,
            firmware@ == "firmware-version"@,
            k <= lines@.len(),
            (opt_string_view(driver_version), opt_string_view(firmware_version))
                == driver_info_upto(lv, k as int),
        decreases lines@.len() - k,
    {
        let line = trim_ws_chars(lines[k].as_slice());
        proof {
            assert(lv[k as int] == lines@[k as int]@);
        }
        let found = find_char(line.as_slice(), ':');
        match found {
            Some(i) => {
                let n = line.len();
                assert(is_first_of(line@, ':', i as int));
                let before = slice_chars(line.as_slice(), 0, i);
                let key_raw = trim_ws_chars(before.as_slice());
                let key_text = string_of(key_raw.as_slice());
                let key_lower = to_lowercase(key_text.as_str());
                let key = chars_of(key_lower.as_str());
                let after = slice_chars(line.as_slice(), i + 1, n);
                let value = trim_ws_chars(after.as_slice());
                if chars_eq(key.as_slice(), version.as_slice()) {
                    driver_version = normalize_chars(value.as_slice());
                } else if chars_eq(key.as_slice(), firmware.as_slice()) {
                    firmware_version = normalize_chars(value.as_slice());
                }
            },
            None => {},
        }
        k = k + 1;
    }
    (driver_version, firmware_version)
}

/// Does the text look like a MAC address: 17 bytes with ':' or '-'
/// separators, or exactly twelve hex digits?
pub open spec fn looks_like_mac(t: Seq<char>) -> bool {
    ||| utf8_len(t) == 17 && (t.contains(':') || t.contains('-'))
    ||| utf8_len(t) == 12 && forall|i: int| 0 <= i < t.len() ==> is_hex_digit(#[trigger] t[i])
}

/// The text without any ':' or '-'.
pub open spec fn without_separators(t: Seq<char>) -> Seq<char>
    decreases t.len(),
{
    if t.len() == 0 {
        t
    } else {
        let rest = without_separators(t.drop_last());
        if t.last() == ':' || t.last() == '-' {
            rest
        } else {
            rest.push(t.last())
        }
    }
}

/// A device unique id: trimmed, and when it looks like a MAC address, with
/// the separators removed and lower-cased, so the same device reported in
/// different notations gets one id.
pub open spec fn normalized_uid(uid: Seq<char>) -> Seq<char> {
    let t = trim_ws(uid);
    if looks_like_mac(t) {
        lowercase_of(without_separators(t))
    } else {
        t
    }
}

fn is_hex_digit_char(c: char) -> (r: bool)
    ensures
        r == is_hex_digit(c),
{
    ('0' <= c && c <= '9') || ('a' <= c && c <= 'f') || ('A' <= c && c <= 'F')
}

/// Normalises a device unique id (see `normalized_uid`).
pub fn normalize_uid(uid: String) -> (r: String)
    ensures
        r@ == normalized_uid(uid@),
{
    let all = chars_of(uid.as_str());
    let t = trim_ws_chars(all.as_slice());
    let mut has_sep = false;
    let mut all_hex = true;
    let mut i: usize = 0;
    while i < t.len()
        invariant
            i <= t@.len(),
            has_sep <==> exists|q: int| 0 <= q < i && (t@[q] == ':' || t@[q] == '-'),
            all_hex <==> forall|q: int| 0 <= q < i ==> is_hex_digit(#[trigger] t@[q]),
        decreases t@.len() - i,
    {
        if t[i] == ':' || t[i] == '-' {
            has_sep = true;
        }
        if !is_hex_digit_char(t[i]) {
            all_hex = false;
        }
        i = i + 1;
    }
    proof {
        if has_sep {
            let q = choose|q: int| 0 <= q < t@.len() && (t@[q] == ':' || t@[q] == '-');
            if t@[q] == ':' {
                assert(t@.contains(':'));
            } else {
                assert(t@.contains('-'));
            }
        }
        if t@.contains(':') {
            let q = choose|q: int| 0 <= q < t@.len() && t@[q] == ':';
            assert(has_sep);
        }
        if t@.contains('-') {
            let q = choose|q: int| 0 <= q < t@.len() && t@[q] == '-';
            assert(has_sep);
        }
    }
    let is_mac = (utf8_len_is(t.as_slice(), 17) && has_sep) || (utf8_len_is(t.as_slice(), 12)
        && all_hex);
    if is_mac {
        let mut kept: Vec<char> = Vec::new();
        let mut j: usize = 0;
        while j < t.len()
            invariant
                j <= t@.len(),
                kept@ == without_separators(t@.subrange(0, j as int)),
            decreases t@.len() - j,
        {
            proof {
                assert(t@.subrange(0, j + 1).drop_last() =~= t@.subrange(0, j as int));
            }
            if t[j] != ':' && t[j] != '-' {
                kept.push(t[j]);
            }
            j = j + 1;
        }
        proof {
            assert(t@.subrange(0, t@.len() as int) =~= t@);
        }
        let joined = string_of(kept.as_slice());
        to_lowercase(joined.as_str())
    } else {
        string_of(t.as_slice())
    }
}

} // verus!
