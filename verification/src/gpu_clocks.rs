//! Integrated GPU clocks from sysfs: the active DPM level of AMD GPUs and
//! Intel's current frequency.
use vstd::prelude::*;
use crate::text::{
    char_vec_views, chars_of, ends_with, ends_with_chars, lines_of, parse_unsigned, parse_unsigned_chars,
    split_ws_chars, text_lines, trim_ws, trim_ws_chars, words,
};

verus! {

/// `s` with every trailing copy of `p` removed (`trim_end_matches(p)`).
pub open spec fn strip_suffixes(s: Seq<char>, p: Seq<char>) -> Seq<char>
    decreases s.len(),
{
    if p.len() > 0 && ends_with(s, p) {
        strip_suffixes(s.subrange(0, s.len() - p.len()), p)
    } else {
        s
    }
}

fn strip_suffixes_exec(s: &[char], p: &[char]) -> (r: Vec<char>)
    ensures
        r@ == strip_suffixes(s@, p@),
{
    let mut n = s.len();
    proof {
        assert(s@.subrange(0, s@.len() as int) =~= s@);
    }
    loop
        invariant
            n <= s@.len(),
            strip_suffixes(s@, p@) == strip_suffixes(s@.subrange(0, n as int), p@),
        decreases n,
    {
        let mut cur: Vec<char> = Vec::new();
        let mut i: usize = 0;
        while i < n
            invariant
                i <= n <= s@.len(),
                cur@ == s@.subrange(0, i as int),
            decreases n - i,
        {
            cur.push(s[i]);
            i = i + 1;
        }
        if p.len() > 0 && ends_with_chars(cur.as_slice(), p) {
            proof {
                assert(cur@.subrange(0, cur@.len() - p@.len()) =~= s@.subrange(0, n - p@.len()));
            }
            n = n - p.len();
        } else {
            return cur;
        }
    }
}

/// The clock (MHz) of the active level in a `pp_dpm_*` table, from line
/// `i` on: the first line marked '*' whose second word, without its "Mhz"
/// or "MHz" unit, is a number.
pub open spec fn dpm_active_from(lines: Seq<Seq<char>>, i: int) -> Option<u64>
    decreases lines.len() - i,
{
    if i < 0 || i >= lines.len() {
        None
    } else {
        let w = words(lines[i]);
        if lines[i].contains('*') && w.len() >= 2 && parse_unsigned(
            strip_suffixes(strip_suffixes(w[1], "Mhz"@), "MHz"@),
            u64::MAX as nat,
        ) is Some {
            Some(
                parse_unsigned(strip_suffixes(strip_suffixes(w[1], "Mhz"@), "MHz"@), u64::MAX as nat)->0
                    as u64,
            )
        } else {
            dpm_active_from(lines, i + 1)
        }
    }
}

/// The active clock of a `pp_dpm_sclk`/`pp_dpm_mclk` table.
pub fn dpm_active_clock(table: &str) -> (r: Option<u64>)
    ensures
        r == dpm_active_from(text_lines(table@), 0),
{
    let lines = lines_of(table);
    let ghost lv = char_vec_views(lines@);
    let mhz_lower = chars_of("Mhz");
    let mhz = chars_of("MHz");
    let mut k: usize = 0;
    while k < lines.len()
        invariant
            lv == char_vec_views(lines@),
            lv == text_lines(table@),
            mhz_lower@ == "Mhz"@,
            mhz@ == "MHz"@,
            k <= lines@.len(),
            dpm_active_from(lv, 0) == dpm_active_from(lv, k as int),
        decreases lines@.len() - k,
    {
        let l = &lines[k];
        proof {
            assert(lv[k as int] == l@);
        }
        let mut star = false;
        let mut j: usize = 0;
        while j < l.len()
            invariant
                j <= l@.len(),
                star == exists|q: int| 0 <= q < j && l@[q] == '*',
            decreases l@.len() - j,
        {
            if l[j] == '*' {
                star = true;
            }
            j = j + 1;
        }
        proof {
            if l@.contains('*') {
                let q = choose|q: int| 0 <= q < l@.len() && l@[q] == '*';
                assert(star);
            }
        }
        if star {
            let w = split_ws_chars(l.as_slice());
            let ghost wv = char_vec_views(w@);
            if w.len() >= 2 {
                proof {
                    assert(wv[1] == w@[1]@);
                }
                let a = strip_suffixes_exec(w[1].as_slice(), mhz_lower.as_slice());
                let b = strip_suffixes_exec(a.as_slice(), mhz.as_slice());
                match parse_unsigned_chars(b.as_slice(), u64::MAX) {
                    Some(v) => {
                        return Some(v);
                    },
                    None => {},
                }
            }
        }
        k = k + 1;
    }
    None
}

/// The trimmed text of a file as a number.
pub open spec fn file_u64(content: Option<Seq<char>>) -> Option<u64> {
    match content {
        Some(c) => match parse_unsigned(trim_ws(c), u64::MAX as nat) {
            Some(v) => Some(v as u64),
            None => None,
        },
        None => None,
    }
}

/// An integrated GPU's clock (MHz): AMD's active `pp_dpm_sclk` level, else
/// Intel's `gt_cur_freq_mhz`.
pub fn igpu_frequency(pp_dpm_sclk: Option<&str>, gt_cur_freq_mhz: Option<&str>) -> (r: Option<u64>)
    ensures
        r == match match pp_dpm_sclk {
            Some(t) => dpm_active_from(text_lines(t@), 0),
            None => None,
        } {
            Some(v) => Some(v),
            None => file_u64(
                match gt_cur_freq_mhz {
                    Some(c) => Some(c@),
                    None => None,
                },
            ),
        },
{
    let amd = match pp_dpm_sclk {
        Some(t) => dpm_active_clock(t),
        None => None,
    };
    match amd {
        Some(v) => Some(v),
        None => match gt_cur_freq_mhz {
            Some(c) => {
                let all = chars_of(c);
                let t = trim_ws_chars(all.as_slice());
                parse_unsigned_chars(t.as_slice(), u64::MAX)
            },
            None => None,
        },
    }
}

} // verus!
