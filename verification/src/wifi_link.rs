//! What `iw dev <if> link` reports about the current connection: network
//! name, frequency, bitrate lines, byte counters and signal.
//!
//! Each trimmed line is searched in its lower-cased form, and the value is
//! cut from the original line at the byte position found there. Where
//! lower-casing changed the byte length of the text before the key, that
//! position may not fall on a character of the original line, and such a
//! line cannot be read; `parse_iw_link_checked` reports it.
use vstd::prelude::*;
use crate::device_text::{normalize_chars, normalized_word, opt_string_view};
use crate::text::{
    char_vec_views, chars_of, contains_chars, contains_seq, find_seq, find_text, lemma_find_seq, lines_of,
    lowercase_of, parse_i32_chars, parse_signed, parse_unsigned, parse_unsigned_chars, split_ws_chars,
    string_of, text_lines, to_lowercase, trim_ws, trim_ws_chars, utf8_len, utf8_width, words,
};

verus! {

/// The character position of `s` where its first `b` bytes end, from
/// position `j` on (none when `b` is not at a character boundary).
pub open spec fn char_at_byte_from(s: Seq<char>, b: int, j: int) -> Option<int>
    decreases s.len() + 1 - j,
{
    if j < 0 || j > s.len() {
        None
    } else if utf8_len(s.subrange(0, j)) == b {
        Some(j)
    } else {
        char_at_byte_from(s, b, j + 1)
    }
}

/// Cutting the line after `key` (of `key_bytes` bytes), found in the
/// lower-cased line: the rest of the original line, no key, or an
/// impossible cut.
pub enum Cut {
    Absent,
    At(Seq<char>),
    Impossible,
}

pub open spec fn cut_after(line: Seq<char>, lower: Seq<char>, key: Seq<char>) -> Cut {
    match find_seq(lower, key) {
        None => Cut::Absent,
        Some(i) => match char_at_byte_from(line, (utf8_len(lower.subrange(0, i)) + key.len()) as int, 0) {
            Some(j) => Cut::At(line.subrange(j, line.len() as int)),
            None => Cut::Impossible,
        },
    }
}

/// What one line of `iw link` output sets.
pub enum LinkLine {
    Ssid(Option<Seq<char>>),
    Freq(Option<u32>),
    RxBitrate(Seq<char>),
    TxBitrate(Seq<char>),
    RxBytes(Option<u64>),
    TxBytes(Option<u64>),
    Signal(Option<i32>),
    Nothing,
    Unreadable,
}

pub open spec fn first_word_u32(v: Seq<char>) -> Option<u32> {
    let w = words(v);
    if w.len() > 0 && parse_unsigned(w[0], u32::MAX as nat) is Some {
        Some(parse_unsigned(w[0], u32::MAX as nat)->0 as u32)
    } else {
        None
    }
}

pub open spec fn first_word_u64(v: Seq<char>) -> Option<u64> {
    let w = words(v);
    if w.len() > 0 && parse_unsigned(w[0], u64::MAX as nat) is Some {
        Some(parse_unsigned(w[0], u64::MAX as nat)->0 as u64)
    } else {
        None
    }
}

pub open spec fn first_word_i32(v: Seq<char>) -> Option<i32> {
    let w = words(v);
    if w.len() > 0 && parse_signed(w[0], i32::MIN as int, i32::MAX as int) is Some {
        Some(parse_signed(w[0], i32::MIN as int, i32::MAX as int)->0 as i32)
    } else {
        None
    }
}

/// The effect of one line, keys tried in order: "ssid:", "freq:", the two
/// bitrates (whose whole line is kept), "rx:", "tx:", "signal:".
pub open spec fn link_line(raw: Seq<char>) -> LinkLine {
    let t = trim_ws(raw);
    let l = lowercase_of(t);
    match cut_after(t, l, "ssid:"@) {
        Cut::Impossible => LinkLine::Unreadable,
        Cut::At(rest) => LinkLine::Ssid(normalized_word(trim_ws(rest))),
        Cut::Absent => match cut_after(t, l, "freq:"@) {
            Cut::Impossible => LinkLine::Unreadable,
            Cut::At(rest) => LinkLine::Freq(first_word_u32(trim_ws(rest))),
            Cut::Absent => if contains_seq(l, "rx bitrate:"@) {
                LinkLine::RxBitrate(t)
            } else if contains_seq(l, "tx bitrate:"@) {
                LinkLine::TxBitrate(t)
            } else {
                match cut_after(t, l, "rx:"@) {
                    Cut::Impossible => LinkLine::Unreadable,
                    Cut::At(rest) => LinkLine::RxBytes(first_word_u64(trim_ws(rest))),
                    Cut::Absent => match cut_after(t, l, "tx:"@) {
                        Cut::Impossible => LinkLine::Unreadable,
                        Cut::At(rest) => LinkLine::TxBytes(first_word_u64(trim_ws(rest))),
                        Cut::Absent => match cut_after(t, l, "signal:"@) {
                            Cut::Impossible => LinkLine::Unreadable,
                            Cut::At(rest) => LinkLine::Signal(first_word_i32(trim_ws(rest))),
                            Cut::Absent => LinkLine::Nothing,
                        },
                    },
                }
            },
        },
    }
}

/// The connection as reported: network name, frequency (MHz), the last
/// RX and TX bitrate lines, RX and TX byte counters, signal (dBm).
pub type LinkView = (
    Option<Seq<char>>,
    Option<u32>,
    Option<Seq<char>>,
    Option<Seq<char>>,
    Option<u64>,
    Option<u64>,
    Option<i32>,
);

/// The values after the first `n` lines (each value from the last line
/// that sets it).
pub open spec fn link_upto(lines: Seq<Seq<char>>, n: int) -> LinkView
    decreases n,
{
    if n <= 0 {
        (None, None, None, None, None, None, None)
    } else {
        let p = link_upto(lines, n - 1);
        match link_line(lines[n - 1]) {
            LinkLine::Ssid(v) => (v, p.1, p.2, p.3, p.4, p.5, p.6),
            LinkLine::Freq(v) => (p.0, v, p.2, p.3, p.4, p.5, p.6),
            LinkLine::RxBitrate(t) => (p.0, p.1, Some(t), p.3, p.4, p.5, p.6),
            LinkLine::TxBitrate(t) => (p.0, p.1, p.2, Some(t), p.4, p.5, p.6),
            LinkLine::RxBytes(v) => (p.0, p.1, p.2, p.3, v, p.5, p.6),
            LinkLine::TxBytes(v) => (p.0, p.1, p.2, p.3, p.4, v, p.6),
            LinkLine::Signal(v) => (p.0, p.1, p.2, p.3, p.4, p.5, v),
            _ => p,
        }
    }
}

pub open spec fn link_of(output: Seq<char>) -> LinkView {
    let lines = text_lines(output);
    link_upto(lines, lines.len() as int)
}

/// Can every line of the output be read?
pub open spec fn link_readable(output: Seq<char>) -> bool {
    let lines = text_lines(output);
    forall|k: int| 0 <= k < lines.len() ==> !(#[trigger] link_line(lines[k]) is Unreadable)
}

/// The connection `iw link` reports; the bitrate lines are handed on whole.
#[derive(Debug)]
pub struct IwLink {
    pub ssid: Option<String>,
    pub freq: Option<u32>,
    pub rx_bitrate_line: Option<String>,
    pub tx_bitrate_line: Option<String>,
    pub rx_bytes: Option<u64>,
    pub tx_bytes: Option<u64>,
    pub signal: Option<i32>,
}

pub open spec fn link_view(x: IwLink) -> LinkView {
    (
        opt_string_view(x.ssid),
        x.freq,
        opt_string_view(x.rx_bitrate_line),
        opt_string_view(x.tx_bitrate_line),
        x.rx_bytes,
        x.tx_bytes,
        x.signal,
    )
}

proof fn lemma_utf8_step(s: Seq<char>, j: int)
    requires
        0 <= j < s.len(),
    ensures
        utf8_len(s.subrange(0, j + 1)) == utf8_len(s.subrange(0, j)) + utf8_width(s[j]),
        utf8_width(s[j]) >= 1,
{
    assert(s.subrange(0, j + 1).drop_last() =~= s.subrange(0, j));
}

proof fn lemma_utf8_grows(s: Seq<char>, j: int, k: int)
    requires
        0 <= j <= k <= s.len(),
    ensures
        utf8_len(s.subrange(0, j)) + (k - j) <= utf8_len(s.subrange(0, k)),
    decreases k - j,
{
    if j < k {
        lemma_utf8_grows(s, j, k - 1);
        lemma_utf8_step(s, k - 1);
    }
}

proof fn lemma_no_char_at_byte(s: Seq<char>, b: int, j: int)
    requires
        0 <= j <= s.len(),
        utf8_len(s.subrange(0, j)) > b,
    ensures
        char_at_byte_from(s, b, j) is None,
    decreases s.len() + 1 - j,
{
    if j < s.len() {
        lemma_utf8_step(s, j);
        lemma_no_char_at_byte(s, b, j + 1);
    } else {
        assert(char_at_byte_from(s, b, j + 1) is None);
    }
}

fn width_of(c: char) -> (r: u128)
    ensures
        r == utf8_width(c),
{
    let u = c as u32;
    if u < 0x80 {
        1
    } else if u < 0x800 {
        2
    } else if u < 0x10000 {
        3
    } else {
        4
    }
}

/// Where the first `b` bytes of `s` end, as a character position.
fn char_at_byte(s: &[char], b: u128) -> (r: Option<usize>)
    ensures
        match r {
            Some(j) => char_at_byte_from(s@, b as int, 0) == Some(j as int),
            None => char_at_byte_from(s@, b as int, 0) is None,
        },
{
    let mut acc: u128 = 0;
    let mut j: usize = 0;
    proof {
        assert(s@.subrange(0, 0) =~= Seq::<char>::empty());
    }
    while j < s.len()
        invariant
            j <= s@.len(),
            acc == utf8_len(s@.subrange(0, j as int)),
            acc <= b,
            acc <= 4 * j,
            char_at_byte_from(s@, b as int, 0) == char_at_byte_from(s@, b as int, j as int),
        decreases s@.len() - j,
    {
        if acc == b {
            return Some(j);
        }
        let w = width_of(s[j]);
        proof {
            lemma_utf8_step(s@, j as int);
        }
        if acc + w > b {
            proof {
                lemma_no_char_at_byte(s@, b as int, j + 1);
            }
            return None;
        }
        acc = acc + w;
        j = j + 1;
    }
    if acc == b {
        Some(j)
    } else {
        proof {
            assert(char_at_byte_from(s@, b as int, j + 1) is None);
        }
        None
    }
}

/// The exec form of `Cut`.
enum CutExec {
    Absent,
    At(Vec<char>),
    Impossible,
}

spec fn cut_matches(c: CutExec, spec_cut: Cut) -> bool {
    match c {
        CutExec::Absent => spec_cut is Absent,
        CutExec::At(v) => spec_cut == Cut::At(v@),
        CutExec::Impossible => spec_cut is Impossible,
    }
}

fn utf8_prefix_len(s: &[char], n: usize) -> (r: u128)
    requires
        n <= s@.len(),
    ensures
        r == utf8_len(s@.subrange(0, n as int)),
        r <= 4 * n,
{
    let mut acc: u128 = 0;
    let mut i: usize = 0;
    proof {
        assert(s@.subrange(0, 0) =~= Seq::<char>::empty());
    }
    while i < n
        invariant
            i <= n <= s@.len(),
            acc == utf8_len(s@.subrange(0, i as int)),
            acc <= 4 * i,
        decreases n - i,
    {
        let w = width_of(s[i]);
        proof {
            lemma_utf8_step(s@, i as int);
        }
        acc = acc + w;
        i = i + 1;
    }
    acc
}

fn cut_after_exec(line: &[char], lower: &[char], key: &[char]) -> (r: CutExec)
    ensures
        cut_matches(r, cut_after(line@, lower@, key@)),
{
    match find_text(lower, key) {
        None => CutExec::Absent,
        Some(i) => {
            proof {
                lemma_find_seq(lower@, key@);
            }
            let b = utf8_prefix_len(lower, i) + key.len() as u128;
            match char_at_byte(line, b) {
                None => CutExec::Impossible,
                Some(j) => {
                    proof {
                        lemma_char_at_byte_in_range(line@, b as int, 0);
                    }
                    let mut rest: Vec<char> = Vec::new();
                    let mut k: usize = j;
                    while k < line.len()
                        invariant
                            j <= k <= line@.len(),
                            rest@ == line@.subrange(j as int, k as int),
                        decreases line@.len() - k,
                    {
                        rest.push(line[k]);
                        k = k + 1;
                    }
                    CutExec::At(rest)
                },
            }
        },
    }
}

proof fn lemma_char_at_byte_in_range(s: Seq<char>, b: int, j: int)
    ensures
        char_at_byte_from(s, b, j) matches Some(x) ==> 0 <= x <= s.len(),
    decreases s.len() + 1 - j,
{
    if 0 <= j <= s.len() && utf8_len(s.subrange(0, j)) != b {
        lemma_char_at_byte_in_range(s, b, j + 1);
    }
}

fn first_word_u32_exec(v: &[char]) -> (r: Option<u32>)
    ensures
        r == first_word_u32(v@),
{
    let w = split_ws_chars(v);
    let ghost wv = char_vec_views(w@);
    if w.len() > 0 {
        proof {
            assert(wv[0] == w@[0]@);
        }
        match parse_unsigned_chars(w[0].as_slice(), 0xffff_ffff) {
            Some(x) => Some(x as u32),
            None => None,
        }
    } else {
        None
    }
}

fn first_word_u64_exec(v: &[char]) -> (r: Option<u64>)
    ensures
        r == first_word_u64(v@),
{
    let w = split_ws_chars(v);
    let ghost wv = char_vec_views(w@);
    if w.len() > 0 {
        proof {
            assert(wv[0] == w@[0]@);
        }
        parse_unsigned_chars(w[0].as_slice(), u64::MAX)
    } else {
        None
    }
}

fn first_word_i32_exec(v: &[char]) -> (r: Option<i32>)
    ensures
        r == first_word_i32(v@),
{
    let w = split_ws_chars(v);
    let ghost wv = char_vec_views(w@);
    if w.len() > 0 {
        proof {
            assert(wv[0] == w@[0]@);
        }
        parse_i32_chars(w[0].as_slice())
    } else {
        None
    }
}

/// The exec form of `LinkLine`.
enum LineExec {
    Ssid(Option<String>),
    Freq(Option<u32>),
    RxBitrate(String),
    TxBitrate(String),
    RxBytes(Option<u64>),
    TxBytes(Option<u64>),
    Signal(Option<i32>),
    Nothing,
    Unreadable,
}

spec fn line_matches(e: LineExec, s: LinkLine) -> bool {
    match e {
        LineExec::Ssid(v) => s == LinkLine::Ssid(opt_string_view(v)),
        LineExec::Freq(v) => s == LinkLine::Freq(v),
        LineExec::RxBitrate(t) => s == LinkLine::RxBitrate(t@),
        LineExec::TxBitrate(t) => s == LinkLine::TxBitrate(t@),
        LineExec::RxBytes(v) => s == LinkLine::RxBytes(v),
        LineExec::TxBytes(v) => s == LinkLine::TxBytes(v),
        LineExec::Signal(v) => s == LinkLine::Signal(v),
        LineExec::Nothing => s is Nothing,
        LineExec::Unreadable => s is Unreadable,
    }
}

fn read_line(raw: &[char]) -> (r: LineExec)
    ensures
        line_matches(r, link_line(raw@)),
{
    let t = trim_ws_chars(raw);
    let lower_s = to_lowercase(string_of(t.as_slice()).as_str());
    let l = chars_of(lower_s.as_str());
    let ts = t.as_slice();
    let ls = l.as_slice();
    match cut_after_exec(ts, ls, chars_of("ssid:").as_slice()) {
        CutExec::Impossible => return LineExec::Unreadable,
        CutExec::At(rest) => {
            let v = trim_ws_chars(rest.as_slice());
            return LineExec::Ssid(normalize_chars(v.as_slice()));
        },
        CutExec::Absent => {},
    }
    match cut_after_exec(ts, ls, chars_of("freq:").as_slice()) {
        CutExec::Impossible => return LineExec::Unreadable,
        CutExec::At(rest) => {
            let v = trim_ws_chars(rest.as_slice());
            return LineExec::Freq(first_word_u32_exec(v.as_slice()));
        },
        CutExec::Absent => {},
    }
    if contains_chars(ls, chars_of("rx bitrate:").as_slice()) {
        return LineExec::RxBitrate(string_of(ts));
    }
    if contains_chars(ls, chars_of("tx bitrate:").as_slice()) {
        return LineExec::TxBitrate(string_of(ts));
    }
    match cut_after_exec(ts, ls, chars_of("rx:").as_slice()) {
        CutExec::Impossible => return LineExec::Unreadable,
        CutExec::At(rest) => {
            let v = trim_ws_chars(rest.as_slice());
            return LineExec::RxBytes(first_word_u64_exec(v.as_slice()));
        },
        CutExec::Absent => {},
    }
    match cut_after_exec(ts, ls, chars_of("tx:").as_slice()) {
        CutExec::Impossible => return LineExec::Unreadable,
        CutExec::At(rest) => {
            let v = trim_ws_chars(rest.as_slice());
            return LineExec::TxBytes(first_word_u64_exec(v.as_slice()));
        },
        CutExec::Absent => {},
    }
    match cut_after_exec(ts, ls, chars_of("signal:").as_slice()) {
        CutExec::Impossible => LineExec::Unreadable,
        CutExec::At(rest) => {
            let v = trim_ws_chars(rest.as_slice());
            LineExec::Signal(first_word_i32_exec(v.as_slice()))
        },
        CutExec::Absent => LineExec::Nothing,
    }
}

/// Are all lines of `iw link` output readable (see `link_readable`)?
pub fn iw_link_readable(output: &str) -> (r: bool)
    ensures
        r == link_readable(output@),
{
    let lines = lines_of(output);
    let ghost lv = char_vec_views(lines@);
    let mut k: usize = 0;
    while k < lines.len()
        invariant
            lv == char_vec_views(lines@),
            lv == text_lines(output@),
            k <= lines@.len(),
            forall|q: int| 0 <= q < k ==> !(#[trigger] link_line(lv[q]) is Unreadable),
        decreases lines@.len() - k,
    {
        proof {
            assert(lv[k as int] == lines@[k as int]@);
        }
        match read_line(lines[k].as_slice()) {
            LineExec::Unreadable => {
                return false;
            },
            _ => {},
        }
        k = k + 1;
    }
    true
}

/// The connection `iw dev <if> link` reports (see `link_upto`), for output
/// whose lines are all readable.
pub fn parse_iw_link(output: &str) -> (r: IwLink)
    requires
        link_readable(output@),
    ensures
        link_view(r) == link_of(output@),
{
    let lines = lines_of(output);
    let ghost lv = char_vec_views(lines@);
    let mut r = IwLink {
        ssid: None,
        freq: None,
        rx_bitrate_line: None,
        tx_bitrate_line: None,
        rx_bytes: None,
        tx_bytes: None,
        signal: None,
    };
    let mut k: usize = 0;
    while k < lines.len()
        invariant
            lv == char_vec_views(lines@),
            lv == text_lines(output@),
            link_readable(output@),
            k <= lines@.len(),
            link_view(r) == link_upto(lv, k as int),
        decreases lines@.len() - k,
    {
        proof {
            assert(lv[k as int] == lines@[k as int]@);
        }
        match read_line(lines[k].as_slice()) {
            LineExec::Ssid(v) => {
                r.ssid = v;
            },
            LineExec::Freq(v) => {
                r.freq = v;
            },
            LineExec::RxBitrate(t) => {
                r.rx_bitrate_line = Some(t);
            },
            LineExec::TxBitrate(t) => {
                r.tx_bitrate_line = Some(t);
            },
            LineExec::RxBytes(v) => {
                r.rx_bytes = v;
            },
            LineExec::TxBytes(v) => {
                r.tx_bytes = v;
            },
            LineExec::Signal(v) => {
                r.signal = v;
            },
            LineExec::Nothing => {},
            LineExec::Unreadable => {
                proof {
                    assert(link_line(lv[k as int]) is Unreadable);
                }
            },
        }
        k = k + 1;
    }
    r
}

/// The connection `iw dev <if> link` reports, or `None` when a line of it
/// cannot be read.
pub fn parse_iw_link_checked(output: &str) -> (r: Option<IwLink>)
    ensures
        r is None <==> !link_readable(output@),
        r matches Some(x) ==> link_view(x) == link_of(output@),
{
    if iw_link_readable(output) {
        Some(parse_iw_link(output))
    } else {
        None
    }
}

} // verus!
