//! Block devices as sysfs describes them: which are listed, their model,
//! size and sector size, and their I/O counters.
use vstd::prelude::*;
use crate::text::{
    char_vec_views, chars_of, parse_unsigned, parse_unsigned_chars, push_text, split_ws_chars,
    starts_with, starts_with_chars, string_of, trim_ws, trim_ws_chars, words,
};

verus! {

/// Loop and RAM disks are not storage devices.
pub open spec fn listed_block(name: Seq<char>) -> bool {
    !starts_with(name, "loop"@) && !starts_with(name, "ram"@)
}

pub fn is_storage_block(name: &str) -> (r: bool)
    ensures
        r == listed_block(name@),
{
    let n = chars_of(name);
    !starts_with_chars(n.as_slice(), chars_of("loop").as_slice()) && !starts_with_chars(
        n.as_slice(),
        chars_of("ram").as_slice(),
    )
}

/// The trimmed text of a file as an unsigned number no larger than `max`.
pub open spec fn file_number(content: Option<Seq<char>>, max: nat) -> Option<nat> {
    match content {
        Some(c) => parse_unsigned(trim_ws(c), max),
        None => None,
    }
}

fn read_number(content: Option<&str>, max: u64) -> (r: Option<u64>)
    ensures
        match file_number(
            match content {
                Some(c) => Some(c@),
                None => None,
            },
            max as nat,
        ) {
            Some(v) => r == Some(v as u64),
            None => r is None,
        },
{
    match content {
        Some(c) => {
            let all = chars_of(c);
            let t = trim_ws_chars(all.as_slice());
            parse_unsigned_chars(t.as_slice(), max)
        },
        None => None,
    }
}

/// The logical sector size (`queue/hw_sector_size`), 512 when unreadable.
pub fn sector_size(content: Option<&str>) -> (r: u64)
    ensures
        r == match file_number(
            match content {
                Some(c) => Some(c@),
                None => None,
            },
            u64::MAX as nat,
        ) {
            Some(v) => v,
            None => 512,
        },
{
    match read_number(content, u64::MAX) {
        Some(v) => v,
        None => 512,
    }
}

/// The size in (decimal) gigabytes from the `size` file (in 512-byte
/// sectors), rounded down; 0 when unreadable.
pub fn disk_size_gb(content: Option<&str>) -> (r: u64)
    requires
        match file_number(
            match content {
                Some(c) => Some(c@),
                None => None,
            },
            u64::MAX as nat,
        ) {
            Some(v) => v * 512 <= u64::MAX,
            None => true,
        },
    ensures
        r == match file_number(
            match content {
                Some(c) => Some(c@),
                None => None,
            },
            u64::MAX as nat,
        ) {
            Some(v) => v * 512 / 1_000_000_000,
            None => 0,
        },
{
    match read_number(content, u64::MAX) {
        Some(sectors) => (sectors * 512) / 1_000_000_000,
        None => 0,
    }
}

/// The model name (`device/model`, trimmed), or the device's own name.
pub fn storage_model(model: Option<&str>, dev_name: &str) -> (r: String)
    ensures
        r@ == trim_ws(match model {
            Some(m) => m@,
            None => dev_name@,
        }),
{
    let all = match model {
        Some(m) => chars_of(m),
        None => chars_of(dev_name),
    };
    string_of(trim_ws_chars(all.as_slice()).as_slice())
}

/// "/dev/<name>".
pub fn device_path(dev_name: &str) -> (r: String)
    ensures
        r@ == "/dev/"@ + dev_name@,
{
    let mut s = String::new();
    push_text(&mut s, "/dev/");
    push_text(&mut s, dev_name);
    s
}

pub open spec fn stat_field(w: Seq<Seq<char>>, i: int) -> Option<nat> {
    parse_unsigned(w[i], u64::MAX as nat)
}

/// The block `stat` counters: reads completed, sectors read, writes
/// completed, sectors written (fields 1, 3, 5 and 7), when the file has at
/// least seven fields and those four are numbers.
pub open spec fn block_stat_of(stat: Seq<char>) -> Option<(u64, u64, u64, u64)> {
    let w = words(stat);
    if w.len() < 7 {
        None
    } else if stat_field(w, 0) is Some && stat_field(w, 2) is Some && stat_field(w, 4) is Some
        && stat_field(w, 6) is Some {
        Some(
            (
                stat_field(w, 0)->0 as u64,
                stat_field(w, 2)->0 as u64,
                stat_field(w, 4)->0 as u64,
                stat_field(w, 6)->0 as u64,
            ),
        )
    } else {
        None
    }
}

pub fn parse_block_stat(stat: &str) -> (r: Option<(u64, u64, u64, u64)>)
    ensures
        r == block_stat_of(stat@),
{
    let cs = chars_of(stat);
    let w = split_ws_chars(cs.as_slice());
    let ghost wv = char_vec_views(w@);
    if w.len() < 7 {
        return None;
    }
    proof {
        assert(wv[0] == w@[0]@);
        assert(wv[2] == w@[2]@);
        assert(wv[4] == w@[4]@);
        assert(wv[6] == w@[6]@);
    }
    let a = parse_unsigned_chars(w[0].as_slice(), u64::MAX);
    let b = parse_unsigned_chars(w[2].as_slice(), u64::MAX);
    let c = parse_unsigned_chars(w[4].as_slice(), u64::MAX);
    let d = parse_unsigned_chars(w[6].as_slice(), u64::MAX);
    match (a, b, c, d) {
        (Some(a), Some(b), Some(c), Some(d)) => Some((a, b, c, d)),
        _ => None,
    }
}

} // verus!
