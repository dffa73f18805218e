//! What the wireless tools print about an interface: the channel and its
//! width (`iw dev <if> info`) and the network name (`iwconfig <if>`).
use vstd::prelude::*;
use crate::text::{
    char_vec_views, chars_of, contains_chars, contains_seq, find_seq, find_text, lines_of,
    parse_i32_chars, parse_signed, parse_unsigned, parse_unsigned_chars, split_ws_chars, starts_with,
    starts_with_chars, string_of, text_lines, trim_by, trim_chars, trim_end_by, trim_end_char, trim_ws,
    trim_ws_chars, words, TrimKind,
};
use crate::device_text::{normalize_chars, normalized_word, opt_string_view};

verus! {

/// A word as a `u32`, when it parses as one.
pub open spec fn word_u32(w: Seq<char>) -> Option<u32> {
    match parse_unsigned(w, u32::MAX as nat) {
        Some(v) => Some(v as u32),
        None => None,
    }
}

/// Channel and width after the first `n` lines of `iw dev <if> info`: a
/// trimmed line starting with "channel" gives the channel in its second
/// word and the width in the first word after "width:"; a value that does
/// not parse leaves the earlier one.
pub open spec fn iw_info_upto(lines: Seq<Seq<char>>, n: int) -> (Option<u32>, Option<u32>)
    decreases n,
{
    if n <= 0 {
        (None, None)
    } else {
        let prev = iw_info_upto(lines, n - 1);
        let t = trim_ws(lines[n - 1]);
        if starts_with(t, "channel"@) {
            let w = words(t);
            let channel = if w.len() > 1 && word_u32(w[1]) is Some {
                word_u32(w[1])
            } else {
                prev.0
            };
            let width = match find_seq(t, "width:"@) {
                Some(p) => {
                    let rest = words(t.subrange(p + 6, t.len() as int));
                    if rest.len() > 0 && word_u32(rest[0]) is Some {
                        word_u32(rest[0])
                    } else {
                        prev.1
                    }
                },
                None => prev.1,
            };
            (channel, width)
        } else {
            prev
        }
    }
}

pub open spec fn iw_info_of(output: Seq<char>) -> (Option<u32>, Option<u32>) {
    let lines = text_lines(output);
    iw_info_upto(lines, lines.len() as int)
}

fn word_value(w: &Vec<char>) -> (r: Option<u32>)
    ensures
        r == word_u32(w@),
{
    match parse_unsigned_chars(w.as_slice(), 0xffff_ffff) {
        Some(v) => Some(v as u32),
        None => None,
    }
}

/// The channel number and width that `iw dev <if> info` reports.
pub fn parse_iw_info(output: &str) -> (r: (Option<u32>, Option<u32>))
    ensures
        r == iw_info_of(output@),
{
    let lines = lines_of(output);
    let ghost lv = char_vec_views(lines@);
    let key = chars_of("channel");
    let width_key = chars_of("width:");
    let mut channel: Option<u32> = None;
    let mut width: Option<u32> = None;
    let mut k: usize = 0;
    while k < lines.len()
        invariant
            lv == char_vec_views(lines@),
            lv == text_lines(output@),
            key@ == "channel"@,
            width_key@ == "width:"@,
            k <= lines@.len(),
            (channel, width) == iw_info_upto(lv, k as int),
        decreases lines@.len() - k,
    {
        proof {
            assert(lv[k as int] == lines@[k as int]@);
        }
        let t = trim_ws_chars(lines[k].as_slice());
        if starts_with_chars(t.as_slice(), key.as_slice()) {
            let w = split_ws_chars(t.as_slice());
            let ghost wv = char_vec_views(w@);
            if w.len() > 1 {
                proof {
                    assert(wv[1] == w@[1]@);
                }
                let c = word_value(&w[1]);
                if c.is_some() {
                    channel = c;
                }
            }
            match find_text(t.as_slice(), width_key.as_slice()) {
                Some(p) => {
                    proof {
                        crate::text::lemma_find_seq(t@, width_key@);
                        reveal_strlit("width:");
                        assert(t@.len() == t.len());
                    }
                    let mut rest: Vec<char> = Vec::new();
                    let mut j: usize = p + 6;
                    while j < t.len()
                        invariant
                            p + 6 <= j <= t@.len(),
                            rest@ == t@.subrange(p + 6, j as int),
                        decreases t@.len() - j,
                    {
                        rest.push(t[j]);
                        j = j + 1;
                    }
                    let rw = split_ws_chars(rest.as_slice());
                    let ghost rv = char_vec_views(rw@);
                    if rw.len() > 0 {
                        proof {
                            assert(rv[0] == rw@[0]@);
                        }
                        let v = word_value(&rw[0]);
                        if v.is_some() {
                            width = v;
                        }
                    }
                },
                None => {},
            }
        }
        k = k + 1;
    }
    (channel, width)
}

/// The network name in the first line of `iwconfig` output (from line `i`
/// on) that holds "ESSID:": the text after it, trimmed and unquoted, as a
/// normalised word.
pub open spec fn essid_from(lines: Seq<Seq<char>>, i: int) -> Option<Seq<char>>
    decreases lines.len() - i,
{
    if i < 0 || i >= lines.len() {
        None
    } else {
        match find_seq(lines[i], "ESSID:"@) {
            Some(p) => normalized_word(
                trim_by(trim_ws(lines[i].subrange(p + 6, lines[i].len() as int)), TrimKind::Exactly('"')),
            ),
            None => essid_from(lines, i + 1),
        }
    }
}

pub open spec fn essid_of(output: Seq<char>) -> Option<Seq<char>> {
    essid_from(text_lines(output), 0)
}

/// The network name `iwconfig <if>` reports.
pub fn essid_from_iwconfig(output: &str) -> (r: Option<String>)
    ensures
        opt_string_view(r) == essid_of(output@),
{
    let lines = lines_of(output);
    let ghost lv = char_vec_views(lines@);
    let key = chars_of("ESSID:");
    let mut k: usize = 0;
    while k < lines.len()
        invariant
            lv == char_vec_views(lines@),
            lv == text_lines(output@),
            key@ == "ESSID:"@,
            k <= lines@.len(),
            essid_from(lv, 0) == essid_from(lv, k as int),
        decreases lines@.len() - k,
    {
        let l = &lines[k];
        proof {
            assert(lv[k as int] == l@);
        }
        match find_text(l.as_slice(), key.as_slice()) {
            Some(p) => {
                proof {
                    crate::text::lemma_find_seq(l@, key@);
                    reveal_strlit("ESSID:");
                }
                let mut rest: Vec<char> = Vec::new();
                let mut j: usize = p + 6;
                while j < l.len()
                    invariant
                        p + 6 <= j <= l@.len(),
                        rest@ == l@.subrange(p + 6, j as int),
                    decreases l@.len() - j,
                {
                    rest.push(l[j]);
                    j = j + 1;
                }
                let t = trim_ws_chars(rest.as_slice());
                let unquoted = trim_chars(t.as_slice(), &TrimKind::Exactly('"'));
                return normalize_chars(unquoted.as_slice());
            },
            None => {},
        }
        k = k + 1;
    }
    None
}

/// The signal level `/proc/net/wireless` gives for `iface`, from line `i`
/// on: the first trimmed line that starts with the interface name and whose
/// fourth word, without trailing dots, is a number.
pub open spec fn wireless_signal_from(lines: Seq<Seq<char>>, iface: Seq<char>, i: int) -> Option<i32>
    decreases lines.len() - i,
{
    if i < 0 || i >= lines.len() {
        None
    } else {
        let t = trim_ws(lines[i]);
        let w = words(t);
        if starts_with(t, iface) && w.len() >= 4 && parse_signed(
            trim_end_by(w[3], TrimKind::Exactly('.')),
            i32::MIN as int,
            i32::MAX as int,
        ) is Some {
            Some(
                parse_signed(trim_end_by(w[3], TrimKind::Exactly('.')), i32::MIN as int, i32::MAX as int)->0
                    as i32,
            )
        } else {
            wireless_signal_from(lines, iface, i + 1)
        }
    }
}

/// The signal level of `iface` in `/proc/net/wireless` (the first two
/// lines are headers).
pub fn wireless_signal(wireless: &str, iface: &str) -> (r: Option<i32>)
    ensures
        r == wireless_signal_from(text_lines(wireless@), iface@, 2),
{
    let lines = lines_of(wireless);
    let ghost lv = char_vec_views(lines@);
    let name = chars_of(iface);
    let mut k: usize = 2;
    while k < lines.len()
        invariant
            lv == char_vec_views(lines@),
            lv == text_lines(wireless@),
            name@ == iface@,
            2 <= k,
            k <= lines@.len() || lines@.len() < 2,
            wireless_signal_from(lv, iface@, 2) == wireless_signal_from(lv, iface@, k as int),
        decreases lines@.len() - k,
    {
        proof {
            assert(lv[k as int] == lines@[k as int]@);
        }
        let t = trim_ws_chars(lines[k].as_slice());
        if starts_with_chars(t.as_slice(), name.as_slice()) {
            let w = split_ws_chars(t.as_slice());
            let ghost wv = char_vec_views(w@);
            if w.len() >= 4 {
                proof {
                    assert(wv[3] == w@[3]@);
                }
                let v = trim_end_char(w[3].as_slice(), '.');
                match parse_i32_chars(v.as_slice()) {
                    Some(s) => {
                        return Some(s);
                    },
                    None => {},
                }
            }
        }
        k = k + 1;
    }
    None
}

/// The piece `split(sep).nth(1)` gives: the text between the first
/// occurrence of `sep` and the next one (or the end).
pub open spec fn second_piece(s: Seq<char>, sep: Seq<char>) -> Option<Seq<char>> {
    match find_seq(s, sep) {
        None => None,
        Some(p) => {
            let rest = s.subrange(p + sep.len(), s.len() as int);
            Some(
                match find_seq(rest, sep) {
                    Some(q) => rest.subrange(0, q),
                    None => rest,
                },
            )
        },
    }
}

fn second_piece_of(s: &[char], sep: &[char]) -> (r: Option<Vec<char>>)
    ensures
        match r {
            Some(v) => second_piece(s@, sep@) == Some(v@),
            None => second_piece(s@, sep@) is None,
        },
{
    match find_text(s, sep) {
        None => None,
        Some(p) => {
            proof {
                crate::text::lemma_find_seq(s@, sep@);
                assert(s@.len() == s.len());
            }
            let mut rest: Vec<char> = Vec::new();
            let mut j: usize = p + sep.len();
            while j < s.len()
                invariant
                    p + sep@.len() <= j <= s@.len(),
                    rest@ == s@.subrange(p + sep@.len(), j as int),
                decreases s@.len() - j,
            {
                rest.push(s[j]);
                j = j + 1;
            }
            match find_text(rest.as_slice(), sep) {
                None => Some(rest),
                Some(q) => {
                    proof {
                        crate::text::lemma_find_seq(rest@, sep@);
                    }
                    let mut piece: Vec<char> = Vec::new();
                    let mut i: usize = 0;
                    while i < q
                        invariant
                            i <= q <= rest@.len(),
                            piece@ == rest@.subrange(0, i as int),
                        decreases q - i,
                    {
                        piece.push(rest[i]);
                        i = i + 1;
                    }
                    Some(piece)
                },
            }
        },
    }
}

/// The network controller and subsystem names after the first `n` lines
/// of `lspci -k`: the text after "Network controller:" on a line that has
/// it, and after "Subsystem:" on a line that starts with it (trimmed; the
/// last such line wins).
pub open spec fn lspci_upto(lines: Seq<Seq<char>>, n: int) -> (Option<Seq<char>>, Option<Seq<char>>)
    decreases n,
{
    if n <= 0 {
        (None, None)
    } else {
        let prev = lspci_upto(lines, n - 1);
        let l = lines[n - 1];
        let t = trim_ws(l);
        if contains_seq(l, "Network controller:"@) {
            (
                match second_piece(l, "Network controller:"@) {
                    Some(v) => Some(trim_ws(v)),
                    None => None,
                },
                prev.1,
            )
        } else if starts_with(t, "Subsystem:"@) {
            (
                prev.0,
                match second_piece(t, "Subsystem:"@) {
                    Some(v) => Some(trim_ws(v)),
                    None => None,
                },
            )
        } else {
            prev
        }
    }
}

pub open spec fn lspci_of(out: Seq<char>) -> (Option<Seq<char>>, Option<Seq<char>>) {
    let lines = text_lines(out);
    lspci_upto(lines, lines.len() as int)
}

fn trimmed_piece(v: Option<Vec<char>>) -> (r: Option<String>)
    ensures
        opt_string_view(r) == match v {
            Some(x) => Some(trim_ws(x@)),
            None => None,
        },
{
    match v {
        Some(x) => Some(string_of(trim_ws_chars(x.as_slice()).as_slice())),
        None => None,
    }
}

/// The network controller and its subsystem as `lspci -s <addr> -k`
/// names them.
pub fn parse_lspci(out: &str) -> (r: (Option<String>, Option<String>))
    ensures
        (opt_string_view(r.0), opt_string_view(r.1)) == lspci_of(out@),
{
    let lines = lines_of(out);
    let ghost lv = char_vec_views(lines@);
    let k_net = chars_of("Network controller:");
    let k_sub = chars_of("Subsystem:");
    let mut controller: Option<String> = None;
    let mut subsystem: Option<String> = None;
    let mut k: usize = 0;
    while k < lines.len()
        invariant
            lv == char_vec_views(lines@),
            lv == text_lines(out@),
            k_net@ == "Network controller:"@,
            k_sub@ == "Subsystem:"@,
            k <= lines@.len(),
            (opt_string_view(controller), opt_string_view(subsystem)) == lspci_upto(lv, k as int),
        decreases lines@.len() - k,
    {
        let l = &lines[k];
        proof {
            assert(lv[k as int] == l@);
        }
        let t = trim_ws_chars(l.as_slice());
        if contains_chars(l.as_slice(), k_net.as_slice()) {
            controller = trimmed_piece(second_piece_of(l.as_slice(), k_net.as_slice()));
        } else if starts_with_chars(t.as_slice(), k_sub.as_slice()) {
            subsystem = trimmed_piece(second_piece_of(t.as_slice(), k_sub.as_slice()));
        }
        k = k + 1;
    }
    (controller, subsystem)
}

/// The byte counters to use: `iw`'s when it gave both, else the sysfs
/// ones, else zeros.
pub fn choose_byte_counters(iw_tx: Option<u64>, iw_rx: Option<u64>, sysfs: Option<(u64, u64)>) -> (r: (
    u64,
    u64,
))
    ensures
        r == match (iw_tx, iw_rx) {
            (Some(tx), Some(rx)) => (tx, rx),
            _ => match sysfs {
                Some(p) => p,
                None => (0u64, 0u64),
            },
        },
{
    match (iw_tx, iw_rx) {
        (Some(tx), Some(rx)) => (tx, rx),
        _ => match sysfs {
            Some(p) => p,
            None => (0, 0),
        },
    }
}

} // verus!
