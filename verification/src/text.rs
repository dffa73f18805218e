//! Character-level helpers shared by the parsers and the path checks.
//!
//! Text is handled as sequences of `char`, which is what `str`'s view is.
//! The specifications below follow the behaviour of the corresponding
//! `str` methods of std (`trim`, `trim_matches`, `parse::<u64>`,
//! `ends_with`, `contains`, `eq_ignore_ascii_case`).
use vstd::prelude::*;

verus! {

/// Unicode `White_Space` characters: exactly the ones `char::is_whitespace`
/// (and therefore `str::trim`) treats as whitespace.
pub open spec fn is_ws(c: char) -> bool {
    let u = c as u32;
    ||| u == 0x09 || u == 0x0A || u == 0x0B || u == 0x0C || u == 0x0D || u == 0x20
    ||| u == 0x85 || u == 0xA0 || u == 0x1680
    ||| (0x2000 <= u && u <= 0x200A)
    ||| u == 0x2028 || u == 0x2029 || u == 0x202F || u == 0x205F || u == 0x3000
}

/// What a trim removes from either end of a text.
pub enum TrimKind {
    /// Unicode whitespace, as `str::trim`.
    Whitespace,
    /// One given character, as `str::trim_matches(c)`.
    Exactly(char),
}

pub open spec fn trims(k: TrimKind, c: char) -> bool {
    match k {
        TrimKind::Whitespace => is_ws(c),
        TrimKind::Exactly(x) => c == x,
    }
}

pub open spec fn trim_start_by(s: Seq<char>, k: TrimKind) -> Seq<char>
    decreases s.len(),
{
    if s.len() > 0 && trims(k, s[0]) {
        trim_start_by(s.drop_first(), k)
    } else {
        s
    }
}

pub open spec fn trim_end_by(s: Seq<char>, k: TrimKind) -> Seq<char>
    decreases s.len(),
{
    if s.len() > 0 && trims(k, s.last()) {
        trim_end_by(s.drop_last(), k)
    } else {
        s
    }
}

/// Both ends trimmed.
pub open spec fn trim_by(s: Seq<char>, k: TrimKind) -> Seq<char> {
    trim_end_by(trim_start_by(s, k), k)
}

/// `str::trim`.
pub open spec fn trim_ws(s: Seq<char>) -> Seq<char> {
    trim_by(s, TrimKind::Whitespace)
}

pub open spec fn is_digit(c: char) -> bool {
    '0' <= c && c <= '9'
}

pub open spec fn digit_value(c: char) -> nat {
    (c as u32 - '0' as u32) as nat
}

pub open spec fn all_digits(s: Seq<char>) -> bool {
    forall|i: int| 0 <= i < s.len() ==> is_digit(#[trigger] s[i])
}

/// Value of a string of decimal digits.
pub open spec fn decimal_value(s: Seq<char>) -> nat
    decreases s.len(),
{
    if s.len() == 0 {
        0
    } else {
        decimal_value(s.drop_last()) * 10 + digit_value(s.last())
    }
}

/// The digits that `parse` of an unsigned integer reads: an optional
/// leading `+` is skipped.
pub open spec fn unsigned_body(s: Seq<char>) -> Seq<char> {
    if s.len() > 0 && s[0] == '+' {
        s.drop_first()
    } else {
        s
    }
}

/// `str::parse` for an unsigned integer type whose largest value is `max`:
/// an optional `+`, then at least one ASCII digit and nothing else, and a
/// value that fits.
pub open spec fn parse_unsigned(s: Seq<char>, max: nat) -> Option<nat> {
    let b = unsigned_body(s);
    if b.len() > 0 && all_digits(b) && decimal_value(b) <= max {
        Some(decimal_value(b))
    } else {
        None
    }
}

pub open spec fn ends_with(s: Seq<char>, suffix: Seq<char>) -> bool {
    suffix.len() <= s.len() && s.subrange(s.len() - suffix.len(), s.len() as int) == suffix
}

pub open spec fn starts_with(s: Seq<char>, prefix: Seq<char>) -> bool {
    prefix.len() <= s.len() && s.subrange(0, prefix.len() as int) == prefix
}

pub open spec fn occurs_at(s: Seq<char>, needle: Seq<char>, i: int) -> bool {
    0 <= i && i + needle.len() <= s.len() && s.subrange(i, i + needle.len()) == needle
}

pub open spec fn contains_seq(s: Seq<char>, needle: Seq<char>) -> bool {
    exists|i: int| occurs_at(s, needle, i)
}

/// ASCII lower-casing of one character; other characters are unchanged.
pub open spec fn ascii_lower(c: char) -> char {
    if 'A' <= c && c <= 'Z' {
        ((c as u32) + 32) as char
    } else {
        c
    }
}

/// `str::eq_ignore_ascii_case`.
pub open spec fn eq_ignore_ascii_case(a: Seq<char>, b: Seq<char>) -> bool {
    a.len() == b.len() && forall|i: int| 0 <= i < a.len() ==> ascii_lower(#[trigger] a[i])
        == ascii_lower(b[i])
}

/// Equality ignoring ASCII case is symmetric and transitive.
pub proof fn lemma_eq_ignore_ascii_case_equiv(a: Seq<char>, b: Seq<char>, c: Seq<char>)
    ensures
        eq_ignore_ascii_case(a, b) ==> eq_ignore_ascii_case(b, a),
        eq_ignore_ascii_case(a, b) && eq_ignore_ascii_case(c, b) ==> eq_ignore_ascii_case(a, c),
{
    if eq_ignore_ascii_case(a, b) && eq_ignore_ascii_case(c, b) {
        assert forall|i: int| 0 <= i < a.len() implies ascii_lower(#[trigger] a[i]) == ascii_lower(
            c[i],
        ) by {
            assert(ascii_lower(a[i]) == ascii_lower(b[i]));
            assert(ascii_lower(c[i]) == ascii_lower(b[i]));
        }
    }
    if eq_ignore_ascii_case(a, b) {
        assert forall|i: int| 0 <= i < b.len() implies ascii_lower(#[trigger] b[i]) == ascii_lower(
            a[i],
        ) by {
            assert(ascii_lower(a[i]) == ascii_lower(b[i]));
        }
    }
}

pub open spec fn digit_char(d: nat) -> char {
    (('0' as u32) + d) as char
}

/// Decimal rendering of a number, as `Display` for the integer types.
pub open spec fn decimal(n: nat) -> Seq<char>
    decreases n,
{
    if n < 10 {
        seq![digit_char(n)]
    } else {
        decimal(n / 10).push(digit_char(n % 10))
    }
}

pub open spec fn hex_char(d: nat) -> char {
    if d < 10 {
        (('0' as u32) + d) as char
    } else {
        (('a' as u32) + (d - 10)) as char
    }
}

/// Lower-case hexadecimal rendering of a number, without a prefix.
pub open spec fn hex(n: nat) -> Seq<char>
    decreases n,
{
    if n < 16 {
        seq![hex_char(n)]
    } else {
        hex(n / 16).push(hex_char(n % 16))
    }
}

/// `format!("{:04x}", n)`: at least four hex digits, zero padded on the left.
pub open spec fn hex4(n: nat) -> Seq<char> {
    let h = hex(n);
    if h.len() < 4 {
        Seq::new((4 - h.len()) as nat, |i: int| '0') + h
    } else {
        h
    }
}

/// Appends one character to a string.
///
/// Trusted: calls `String::push`, which appends the given `char` to the end
/// of the string and changes nothing else.
#[verifier::external_body]
pub(crate) fn push_char(s: &mut String, c: char)
    ensures
        final(s)@ == old(s)@.push(c),
{
    s.push(c);
}

/// What `str::to_lowercase` returns for a text: the Unicode lower-case
/// mapping of every character, which can change the length of the text.
pub uninterp spec fn lowercase_of(s: Seq<char>) -> Seq<char>;

/// Lower-cases a text.
///
/// Trusted: calls `str::to_lowercase`, whose result depends on the text
/// alone; nothing more is claimed of it than that it is `lowercase_of` of the
/// argument.
#[verifier::external_body]
pub(crate) fn to_lowercase(s: &str) -> (r: String)
    ensures
        r@ == lowercase_of(s@),
{
    s.to_lowercase()
}

/// The characters of a string slice.
pub fn chars_of(s: &str) -> (r: Vec<char>)
    ensures
        r@ == s@,
{
    let n = s.unicode_len();
    let mut r: Vec<char> = Vec::new();
    let mut i: usize = 0;
    while i < n
        invariant
            n == s@.len(),
            i <= n,
            r@ == s@.subrange(0, i as int),
        decreases n - i,
    {
        let c = s.get_char(i);
        r.push(c);
        i = i + 1;
    }
    r
}

/// A string made of the given characters.
pub fn string_of(cs: &[char]) -> (r: String)
    ensures
        r@ == cs@,
{
    let mut r = String::new();
    let mut i: usize = 0;
    while i < cs.len()
        invariant
            i <= cs@.len(),
            r@ == cs@.subrange(0, i as int),
        decreases cs@.len() - i,
    {
        push_char(&mut r, cs[i]);
        i = i + 1;
    }
    r
}

pub fn is_whitespace(c: char) -> (r: bool)
    ensures
        r == is_ws(c),
{
    let u = c as u32;
    u == 0x09 || u == 0x0A || u == 0x0B || u == 0x0C || u == 0x0D || u == 0x20 || u == 0x85 || u
        == 0xA0 || u == 0x1680 || (0x2000 <= u && u <= 0x200A) || u == 0x2028 || u == 0x2029 || u
        == 0x202F || u == 0x205F || u == 0x3000
}

fn trims_exec(k: &TrimKind, c: char) -> (r: bool)
    ensures
        r == trims(*k, c),
{
    match k {
        TrimKind::Whitespace => is_whitespace(c),
        TrimKind::Exactly(x) => c == *x,
    }
}

proof fn lemma_trim_start_step(s: Seq<char>, i: int, k: TrimKind)
    requires
        0 <= i < s.len(),
        trims(k, s[i]),
    ensures
        trim_start_by(s.subrange(i, s.len() as int), k) == trim_start_by(
            s.subrange(i + 1, s.len() as int),
            k,
        ),
{
    assert(s.subrange(i, s.len() as int).drop_first() =~= s.subrange(i + 1, s.len() as int));
}

proof fn lemma_trim_end_step(s: Seq<char>, j: int, k: TrimKind)
    requires
        0 < j <= s.len(),
        trims(k, s[j - 1]),
    ensures
        trim_end_by(s.subrange(0, j), k) == trim_end_by(s.subrange(0, j - 1), k),
{
    assert(s.subrange(0, j).drop_last() =~= s.subrange(0, j - 1));
}

/// The text with the characters of kind `k` removed from both ends.
pub fn trim_chars(s: &[char], k: &TrimKind) -> (r: Vec<char>)
    ensures
        r@ == trim_by(s@, *k),
{
    let n = s.len();
    let mut i: usize = 0;
    assert(s@.subrange(0, n as int) =~= s@);
    while i < n && trims_exec(k, s[i])
        invariant
            n == s@.len(),
            i <= n,
            trim_start_by(s@, *k) == trim_start_by(s@.subrange(i as int, n as int), *k),
        decreases n - i,
    {
        proof {
            lemma_trim_start_step(s@, i as int, *k);
        }
        i = i + 1;
    }
    let ghost start = s@.subrange(i as int, n as int);
    assert(trim_start_by(s@, *k) == start) by {
        if i < n {
            assert(start[0] == s@[i as int]);
        } else {
            assert(start.len() == 0);
        }
    }
    let mut j: usize = n;
    assert(start.subrange(0, n - i) =~= start);
    while j > i && trims_exec(k, s[j - 1])
        invariant
            n == s@.len(),
            i <= j <= n,
            start == s@.subrange(i as int, n as int),
            trim_end_by(start, *k) == trim_end_by(start.subrange(0, j - i), *k),
        decreases j,
    {
        proof {
            assert(start[j - i - 1] == s@[j - 1]);
            lemma_trim_end_step(start, (j - i) as int, *k);
        }
        j = j - 1;
    }
    let mut r: Vec<char> = Vec::new();
    let mut p: usize = i;
    while p < j
        invariant
            i <= p <= j <= n,
            n == s@.len(),
            r@ == s@.subrange(i as int, p as int),
        decreases j - p,
    {
        r.push(s[p]);
        p = p + 1;
    }
    proof {
        let fin = start.subrange(0, j - i);
        assert(fin =~= s@.subrange(i as int, j as int));
        if j > i {
            assert(fin.last() == s@[j - 1]);
        }
        assert(trim_end_by(fin, *k) == fin);
        assert(r@ =~= fin);
    }
    r
}

proof fn lemma_decimal_value_prefix(s: Seq<char>, i: int)
    requires
        0 <= i < s.len(),
    ensures
        decimal_value(s.subrange(0, i + 1)) == decimal_value(s.subrange(0, i)) * 10 + digit_value(
            s[i],
        ),
{
    assert(s.subrange(0, i + 1).drop_last() =~= s.subrange(0, i));
}

proof fn lemma_decimal_value_grows(s: Seq<char>, i: int, j: int)
    requires
        0 <= i <= j <= s.len(),
    ensures
        decimal_value(s.subrange(0, i)) <= decimal_value(s.subrange(0, j)),
    decreases j - i,
{
    if i < j {
        lemma_decimal_value_grows(s, i, j - 1);
        lemma_decimal_value_prefix(s, j - 1);
    }
}

/// `str::parse` of an unsigned integer no larger than `max`, on the
/// untrimmed text.
pub fn parse_unsigned_chars(s: &[char], max: u64) -> (r: Option<u64>)
    ensures
        match parse_unsigned(s@, max as nat) {
            Some(v) => r == Some(v as u64),
            None => r is None,
        },
{
    let n = s.len();
    let mut i: usize = 0;
    if n > 0 && s[0] == '+' {
        i = 1;
    }
    let ghost b = unsigned_body(s@);
    assert(b =~= s@.subrange(i as int, n as int));
    if i == n {
        return None;
    }
    let mut acc: u64 = 0;
    let mut k: usize = i;
    while k < n
        invariant
            n == s@.len(),
            i <= k <= n,
            b =~= s@.subrange(i as int, n as int),
            b == unsigned_body(s@),
            all_digits(s@.subrange(i as int, k as int)),
            acc as nat == decimal_value(s@.subrange(i as int, k as int)),
            acc <= max,
        decreases n - k,
    {
        let c = s[k];
        if !('0' <= c && c <= '9') {
            proof {
                assert(b[k - i] == c);
                assert(!is_digit(b[(k - i) as int]));
                assert(!all_digits(b));
                assert(parse_unsigned(s@, max as nat) is None);
            }
            return None;
        }
        let d = (c as u32 - '0' as u32) as u64;
        proof {
            lemma_decimal_value_prefix(b, (k - i) as int);
            assert(b.subrange(0, (k - i) as int) =~= s@.subrange(i as int, k as int));
            assert(b.subrange(0, (k - i + 1) as int) =~= s@.subrange(i as int, k + 1));
        }
        if d > max || acc > (max - d) / 10 {
            proof {
                if d <= max {
                    assert(acc * 10 + d > max) by (nonlinear_arith)
                        requires
                            acc > (max - d) / 10,
                            d <= max,
                    ;
                }
                lemma_decimal_value_grows(b, (k - i + 1) as int, b.len() as int);
                assert(b.subrange(0, b.len() as int) =~= b);
                assert(digit_value(c) == d);
                assert(decimal_value(b.subrange(0, (k - i + 1) as int)) == acc * 10 + d);
                assert(decimal_value(b) > max);
                assert(parse_unsigned(s@, max as nat) is None);
            }
            return None;
        }
        proof {
            assert(acc * 10 + d <= max) by (nonlinear_arith)
                requires
                    acc <= (max - d) / 10,
                    d <= max,
            ;
        }
        acc = acc * 10 + d;
        k = k + 1;
        proof {
            assert(all_digits(s@.subrange(i as int, k as int))) by {
                assert forall|q: int| 0 <= q < k - i implies is_digit(
                    #[trigger] s@.subrange(i as int, k as int)[q],
                ) by {
                    if q < k - 1 - i {
                        assert(s@.subrange(i as int, (k - 1) as int)[q] == s@.subrange(
                            i as int,
                            k as int,
                        )[q]);
                    }
                }
            }
        }
    }
    Some(acc)
}

/// Does `s` end with `suffix`?
pub fn ends_with_chars(s: &[char], suffix: &[char]) -> (r: bool)
    ensures
        r == ends_with(s@, suffix@),
{
    if suffix.len() > s.len() {
        return false;
    }
    let off = s.len() - suffix.len();
    let mut i: usize = 0;
    while i < suffix.len()
        invariant
            off == s@.len() - suffix@.len(),
            s@.len() == s.len(),
            i <= suffix@.len(),
            forall|q: int| 0 <= q < i ==> s@[off + q] == suffix@[q],
        decreases suffix@.len() - i,
    {
        assert(off + i < s@.len());
        if s[off + i] != suffix[i] {
            proof {
                assert(s@.subrange(off as int, s@.len() as int)[i as int] != suffix@[i as int]);
            }
            return false;
        }
        i = i + 1;
    }
    assert(s@.subrange(off as int, s@.len() as int) =~= suffix@);
    true
}

/// Does `s` start with `prefix`?
pub fn starts_with_chars(s: &[char], prefix: &[char]) -> (r: bool)
    ensures
        r == starts_with(s@, prefix@),
{
    if prefix.len() > s.len() {
        return false;
    }
    let mut i: usize = 0;
    while i < prefix.len()
        invariant
            prefix@.len() <= s@.len(),
            i <= prefix@.len(),
            forall|q: int| 0 <= q < i ==> s@[q] == prefix@[q],
        decreases prefix@.len() - i,
    {
        if s[i] != prefix[i] {
            proof {
                assert(s@.subrange(0, prefix@.len() as int)[i as int] != prefix@[i as int]);
            }
            return false;
        }
        i = i + 1;
    }
    assert(s@.subrange(0, prefix@.len() as int) =~= prefix@);
    true
}

/// Does `needle` occur at position `at` of `s`?
pub fn occurs_at_exec(s: &[char], needle: &[char], at: usize) -> (r: bool)
    ensures
        r == occurs_at(s@, needle@, at as int),
{
    if at > s.len() || needle.len() > s.len() - at {
        return false;
    }
    let mut i: usize = 0;
    while i < needle.len()
        invariant
            at + needle@.len() <= s@.len(),
            s@.len() == s.len(),
            i <= needle@.len(),
            forall|q: int| 0 <= q < i ==> s@[at + q] == needle@[q],
        decreases needle@.len() - i,
    {
        assert(at + i < s@.len());
        if s[at + i] != needle[i] {
            proof {
                assert(s@.subrange(at as int, at + needle@.len())[i as int] != needle@[i as int]);
            }
            return false;
        }
        i = i + 1;
    }
    assert(s@.subrange(at as int, at + needle@.len()) =~= needle@);
    true
}

/// Position of the first occurrence of `needle` in `s`, if any.
pub fn find_chars(s: &[char], needle: &[char]) -> (r: Option<usize>)
    ensures
        match r {
            Some(p) => occurs_at(s@, needle@, p as int) && forall|q: int|
                0 <= q < p ==> !occurs_at(s@, needle@, q),
            None => !contains_seq(s@, needle@),
        },
{
    let mut p: usize = 0;
    while p < s.len()
        invariant
            p <= s@.len(),
            s@.len() == s.len(),
            forall|q: int| 0 <= q < p ==> !occurs_at(s@, needle@, q),
        decreases s@.len() - p,
    {
        if occurs_at_exec(s, needle, p) {
            return Some(p);
        }
        p = p + 1;
    }
    if occurs_at_exec(s, needle, p) {
        return Some(p);
    }
    assert forall|q: int| !occurs_at(s@, needle@, q) by {
        if 0 <= q <= p {
        }
    }
    None
}

/// Does `needle` occur anywhere in `s`?
pub fn contains_chars(s: &[char], needle: &[char]) -> (r: bool)
    ensures
        r == contains_seq(s@, needle@),
{
    match find_chars(s, needle) {
        Some(_) => true,
        None => false,
    }
}

pub fn ascii_lower_char(c: char) -> (r: char)
    ensures
        r == ascii_lower(c),
{
    if 'A' <= c && c <= 'Z' {
        ((c as u8) + 32) as char
    } else {
        c
    }
}

/// `str::eq_ignore_ascii_case`.
pub fn eq_ignore_ascii_case_chars(a: &[char], b: &[char]) -> (r: bool)
    ensures
        r == eq_ignore_ascii_case(a@, b@),
{
    if a.len() != b.len() {
        return false;
    }
    let mut i: usize = 0;
    while i < a.len()
        invariant
            a@.len() == b@.len(),
            i <= a@.len(),
            forall|q: int| 0 <= q < i ==> ascii_lower(#[trigger] a@[q]) == ascii_lower(b@[q]),
        decreases a@.len() - i,
    {
        if ascii_lower_char(a[i]) != ascii_lower_char(b[i]) {
            return false;
        }
        i = i + 1;
    }
    true
}

/// Text equality.
pub fn chars_eq(a: &[char], b: &[char]) -> (r: bool)
    ensures
        r == (a@ == b@),
{
    if a.len() != b.len() {
        return false;
    }
    let mut i: usize = 0;
    while i < a.len()
        invariant
            a@.len() == b@.len(),
            i <= a@.len(),
            forall|q: int| 0 <= q < i ==> a@[q] == b@[q],
        decreases a@.len() - i,
    {
        if a[i] != b[i] {
            return false;
        }
        i = i + 1;
    }
    assert(a@ =~= b@);
    true
}

/// Appends the decimal rendering of `n` to `s`.
pub fn push_decimal(s: &mut String, n: u64)
    ensures
        final(s)@ == old(s)@ + decimal(n as nat),
    decreases n,
{
    if n >= 10 {
        push_decimal(s, n / 10);
    }
    let d = n % 10;
    let c = (48u8 + (d as u8)) as char;
    push_char(s, c);
    proof {
        if n < 10 {
            assert(old(s)@ + decimal(n as nat) =~= old(s)@.push(c));
        } else {
            assert(old(s)@ + decimal(n as nat) =~= (old(s)@ + decimal((n / 10) as nat)).push(c));
        }
    }
}

/// Appends the lower-case hexadecimal rendering of `n` to `s`.
fn push_hex(s: &mut String, n: u64)
    ensures
        final(s)@ == old(s)@ + hex(n as nat),
    decreases n,
{
    if n >= 16 {
        push_hex(s, n / 16);
    }
    let d = n % 16;
    let c = if d < 10 {
        (48u8 + (d as u8)) as char
    } else {
        (97u8 + ((d - 10) as u8)) as char
    };
    push_char(s, c);
    proof {
        if n < 16 {
            assert(old(s)@ + hex(n as nat) =~= old(s)@.push(c));
        } else {
            assert(old(s)@ + hex(n as nat) =~= (old(s)@ + hex((n / 16) as nat)).push(c));
        }
    }
}

proof fn lemma_hex_len(n: nat)
    ensures
        hex(n).len() >= 1,
        n < 0x10000 ==> hex(n).len() <= 4,
        n < 0x1000 ==> hex(n).len() <= 3,
        n < 0x100 ==> hex(n).len() <= 2,
        n < 0x10 ==> hex(n).len() == 1,
    decreases n,
{
    if n >= 16 {
        lemma_hex_len(n / 16);
    }
}

/// Appends `format!("{:04x}", n)` to `s`.
pub fn push_hex4(s: &mut String, n: u32)
    ensures
        final(s)@ == old(s)@ + hex4(n as nat),
{
    let mut t = String::new();
    push_hex(&mut t, n as u64);
    proof {
        assert(t@ =~= hex(n as nat));
        lemma_hex_len(n as nat);
    }
    let digits: usize = if n < 0x10 {
        1
    } else if n < 0x100 {
        2
    } else if n < 0x1000 {
        3
    } else {
        4
    };
    proof {
        if n >= 0x10 {
            assert(hex(n as nat) == hex((n / 16) as nat).push(hex_char((n % 16) as nat)));
            lemma_hex_len((n / 16) as nat);
        }
        if n >= 0x100 {
            assert(hex((n / 16) as nat) == hex((n / 256) as nat).push(
                hex_char(((n / 16) % 16) as nat),
            ));
            lemma_hex_len((n / 256) as nat);
        }
        if n >= 0x1000 {
            assert(hex((n / 256) as nat) == hex((n / 4096) as nat).push(
                hex_char(((n / 256) % 16) as nat),
            ));
            lemma_hex_len((n / 4096) as nat);
        }
        assert(digits < 4 ==> hex(n as nat).len() == digits);
    }
    let ghost s0 = s@;
    let mut pad: usize = digits;
    while pad < 4
        invariant
            digits <= pad <= 4,
            s@ == s0 + Seq::new((pad - digits) as nat, |i: int| '0'),
        decreases 4 - pad,
    {
        push_char(s, '0');
        pad = pad + 1;
        proof {
            assert(s@ =~= s0 + Seq::new((pad - digits) as nat, |i: int| '0'));
        }
    }
    s.append(t.as_str());
    proof {
        if digits < 4 {
            assert(hex(n as nat).len() < 4);
            assert(s@ =~= s0 + hex4(n as nat));
        } else {
            assert(s@ =~= s0 + hex4(n as nat));
        }
    }
}

/// Index of the last `sep` in `s`, or -1.
pub open spec fn last_index_of(s: Seq<char>, sep: char) -> int
    decreases s.len(),
{
    if s.len() == 0 {
        -1
    } else if s.last() == sep {
        s.len() - 1
    } else {
        last_index_of(s.drop_last(), sep)
    }
}

pub proof fn lemma_last_index_of(s: Seq<char>, sep: char)
    ensures
        -1 <= last_index_of(s, sep) < s.len(),
        last_index_of(s, sep) >= 0 ==> s[last_index_of(s, sep)] == sep,
        forall|q: int| last_index_of(s, sep) < q < s.len() ==> s[q] != sep,
    decreases s.len(),
{
    if s.len() > 0 && s.last() != sep {
        lemma_last_index_of(s.drop_last(), sep);
        assert forall|q: int| last_index_of(s, sep) < q < s.len() implies s[q] != sep by {
            if q < s.len() - 1 {
                assert(s[q] == s.drop_last()[q]);
            }
        }
    }
}

/// The pieces of `s` between the occurrences of `sep`, as `str::split`
/// gives them (an empty text gives one empty piece).
pub open spec fn split_on(s: Seq<char>, sep: char) -> Seq<Seq<char>>
    decreases s.len(),
{
    let j = last_index_of(s, sep);
    if j < 0 || j >= s.len() {
        seq![s]
    } else {
        split_on(s.subrange(0, j), sep).push(s.subrange(j + 1, s.len() as int))
    }
}

pub open spec fn char_vec_views(v: Seq<Vec<char>>) -> Seq<Seq<char>> {
    v.map_values(|x: Vec<char>| x@)
}

/// `str::split(sep)`, on characters.
pub fn split_chars(s: &[char], sep: char) -> (r: Vec<Vec<char>>)
    ensures
        char_vec_views(r@) == split_on(s@, sep),
{
    let mut done: Vec<Vec<char>> = Vec::new();
    let mut cur: Vec<char> = Vec::new();
    let mut start: usize = 0;
    let mut i: usize = 0;
    proof {
        assert(s@.subrange(0, 0) =~= Seq::<char>::empty());
        assert(last_index_of(Seq::<char>::empty(), sep) == -1);
        assert(char_vec_views(done@).push(cur@) =~= split_on(s@.subrange(0, 0), sep));
    }
    while i < s.len()
        invariant
            start <= i <= s@.len(),
            cur@ == s@.subrange(start as int, i as int),
            start > 0 ==> s@[start - 1] == sep,
            forall|q: int| start <= q < i ==> s@[q] != sep,
            char_vec_views(done@).push(cur@) == split_on(s@.subrange(0, i as int), sep),
        decreases s@.len() - i,
    {
        let c = s[i];
        let ghost pre = s@.subrange(0, i as int);
        let ghost nxt = s@.subrange(0, i + 1);
        proof {
            assert(nxt.drop_last() =~= pre);
            assert(nxt.last() == c);
            lemma_last_index_of(pre, sep);
        }
        if c == sep {
            let ghost dv = char_vec_views(done@);
            let piece = cur;
            done.push(piece);
            cur = Vec::new();
            i = i + 1;
            start = i;
            proof {
                assert(last_index_of(nxt, sep) == i - 1);
                assert(nxt.subrange(0, i - 1) =~= pre);
                assert(nxt.subrange(i as int, i as int) =~= Seq::<char>::empty());
                assert(char_vec_views(done@) =~= dv.push(piece@));
                assert(char_vec_views(done@).push(cur@) =~= split_on(nxt, sep));
            }
        } else {
            let ghost dv = char_vec_views(done@);
            let ghost old_cur = cur@;
            cur.push(c);
            i = i + 1;
            proof {
                let j = last_index_of(pre, sep);
                let sp = split_on(pre, sep);
                assert(dv.push(old_cur) == sp);
                assert(dv =~= sp.drop_last());
                assert(last_index_of(nxt, sep) == j);
                if j >= 0 {
                    // The last separator before `i` is the one before `start`.
                    assert(j == start - 1) by {
                        if j < start - 1 {
                            assert(s@[start - 1] == sep);
                            assert(pre[start - 1] == sep);
                        }
                        if j >= start {
                            assert(pre[j] == sep);
                        }
                    }
                    assert(nxt.subrange(0, j) =~= pre.subrange(0, j));
                    assert(nxt.subrange(j + 1, nxt.len() as int) =~= cur@);
                    assert(pre.subrange(j + 1, pre.len() as int) =~= s@.subrange(
                        start as int,
                        i - 1,
                    ));
                    assert(sp == split_on(pre.subrange(0, j), sep).push(
                        pre.subrange(j + 1, pre.len() as int),
                    ));
                    assert(char_vec_views(done@) =~= dv);
                    assert(char_vec_views(done@).push(cur@) =~= split_on(nxt, sep));
                } else {
                    assert(start == 0) by {
                        if start > 0 {
                            assert(pre[start - 1] == sep);
                        }
                    }
                    assert(nxt =~= cur@);
                    assert(sp == seq![pre]);
                    assert(dv.len() == 0);
                    assert(char_vec_views(done@) =~= dv);
                    assert(char_vec_views(done@).push(cur@) =~= split_on(nxt, sep));
                }
            }
        }
    }
    proof {
        assert(s@.subrange(0, s@.len() as int) =~= s@);
    }
    let ghost dv = char_vec_views(done@);
    done.push(cur);
    proof {
        assert(char_vec_views(done@) =~= dv.push(cur@));
    }
    done
}

/// `str::trim`, on characters.
pub fn trim_ws_chars(s: &[char]) -> (r: Vec<char>)
    ensures
        r@ == trim_ws(s@),
{
    trim_chars(s, &TrimKind::Whitespace)
}

pub open spec fn is_first_of(s: Seq<char>, c: char, i: int) -> bool {
    0 <= i < s.len() && s[i] == c && forall|q: int| 0 <= q < i ==> s[q] != c
}

/// Index of the first `c` in `s`, as `str::find(c)` gives it (in characters).
pub open spec fn first_index_of(s: Seq<char>, c: char) -> Option<int> {
    if exists|i: int| is_first_of(s, c, i) {
        Some(choose|i: int| is_first_of(s, c, i))
    } else {
        None
    }
}

/// The first `c` in `s`.
pub fn find_char(s: &[char], c: char) -> (r: Option<usize>)
    ensures
        match r {
            Some(i) => first_index_of(s@, c) == Some(i as int),
            None => first_index_of(s@, c) is None,
        },
        r is None <==> forall|q: int| 0 <= q < s@.len() ==> s@[q] != c,
        r matches Some(i) ==> is_first_of(s@, c, i as int),
{
    let mut i: usize = 0;
    while i < s.len()
        invariant
            i <= s@.len(),
            forall|q: int| 0 <= q < i ==> s@[q] != c,
        decreases s@.len() - i,
    {
        if s[i] == c {
            proof {
                assert(is_first_of(s@, c, i as int));
                let k = choose|k: int| is_first_of(s@, c, k);
                if k < i {
                    assert(s@[k] != c);
                } else if k > i {
                    assert(s@[i as int] != c);
                }
            }
            return Some(i);
        }
        i = i + 1;
    }
    None
}

/// The characters `s[from..to]`.
pub fn slice_chars(s: &[char], from: usize, to: usize) -> (r: Vec<char>)
    requires
        from <= to <= s@.len(),
    ensures
        r@ == s@.subrange(from as int, to as int),
{
    let mut r: Vec<char> = Vec::new();
    let mut i = from;
    while i < to
        invariant
            from <= i <= to <= s@.len(),
            r@ == s@.subrange(from as int, i as int),
        decreases to - i,
    {
        r.push(s[i]);
        i = i + 1;
    }
    r
}

/// Number of bytes of the UTF-8 encoding of `c`.
pub open spec fn utf8_width(c: char) -> nat {
    if (c as u32) < 0x80 {
        1
    } else if (c as u32) < 0x800 {
        2
    } else if (c as u32) < 0x10000 {
        3
    } else {
        4
    }
}

/// `str::len`: the number of bytes of the UTF-8 encoding of the text.
pub open spec fn utf8_len(s: Seq<char>) -> nat
    decreases s.len(),
{
    if s.len() == 0 {
        0
    } else {
        utf8_len(s.drop_last()) + utf8_width(s.last())
    }
}

/// Index of the last whitespace character in `s`, or -1.
pub open spec fn last_ws_index(s: Seq<char>) -> int
    decreases s.len(),
{
    if s.len() == 0 {
        -1
    } else if is_ws(s.last()) {
        s.len() - 1
    } else {
        last_ws_index(s.drop_last())
    }
}

pub proof fn lemma_last_ws_index(s: Seq<char>)
    ensures
        -1 <= last_ws_index(s) < s.len(),
        last_ws_index(s) >= 0 ==> is_ws(s[last_ws_index(s)]),
        forall|q: int| last_ws_index(s) < q < s.len() ==> !is_ws(s[q]),
    decreases s.len(),
{
    if s.len() > 0 && !is_ws(s.last()) {
        lemma_last_ws_index(s.drop_last());
        assert forall|q: int| last_ws_index(s) < q < s.len() implies !is_ws(s[q]) by {
            if q < s.len() - 1 {
                assert(s[q] == s.drop_last()[q]);
            }
        }
    }
}

/// `str::split_whitespace`: the maximal runs of non-whitespace characters.
pub open spec fn words(s: Seq<char>) -> Seq<Seq<char>>
    decreases s.len(),
{
    if s.len() == 0 {
        Seq::empty()
    } else if is_ws(s.last()) {
        words(s.drop_last())
    } else {
        let j = last_ws_index(s);
        if j < 0 || j >= s.len() - 1 {
            seq![s]
        } else {
            words(s.subrange(0, j + 1)).push(s.subrange(j + 1, s.len() as int))
        }
    }
}

/// `str::split_whitespace`, on characters.
pub fn split_ws_chars(s: &[char]) -> (r: Vec<Vec<char>>)
    ensures
        char_vec_views(r@) == words(s@),
{
    let mut done: Vec<Vec<char>> = Vec::new();
    let mut cur: Vec<char> = Vec::new();
    let mut start: usize = 0;
    let mut i: usize = 0;
    proof {
        assert(s@.subrange(0, 0) =~= Seq::<char>::empty());
        assert(char_vec_views(done@) =~= Seq::<Seq<char>>::empty());
    }
    while i < s.len()
        invariant
            start <= i <= s@.len(),
            cur@ == s@.subrange(start as int, i as int),
            start > 0 ==> is_ws(s@[start - 1]),
            forall|q: int| start <= q < i ==> !is_ws(s@[q]),
            cur@.len() == 0 ==> char_vec_views(done@) == words(s@.subrange(0, i as int)),
            cur@.len() > 0 ==> char_vec_views(done@).push(cur@) == words(s@.subrange(0, i as int)),
        decreases s@.len() - i,
    {
        let c = s[i];
        let ghost pre = s@.subrange(0, i as int);
        let ghost nxt = s@.subrange(0, i + 1);
        let ghost dv = char_vec_views(done@);
        let ghost old_cur = cur@;
        proof {
            assert(nxt.drop_last() =~= pre);
            assert(nxt.last() == c);
            lemma_last_ws_index(pre);
            lemma_last_ws_index(nxt);
        }
        if is_whitespace(c) {
            if cur.len() > 0 {
                let piece = cur;
                done.push(piece);
                proof {
                    assert(char_vec_views(done@) =~= dv.push(old_cur));
                }
            }
            cur = Vec::new();
            i = i + 1;
            start = i;
            proof {
                assert(words(nxt) == words(pre));
            }
        } else {
            cur.push(c);
            i = i + 1;
            proof {
                let j = last_ws_index(pre);
                assert(last_ws_index(nxt) == j);
                if old_cur.len() > 0 {
                    // `pre` ends inside the current word, which starts after
                    // the last whitespace.
                    assert(j == start - 1) by {
                        if j < start - 1 {
                            assert(is_ws(pre[start - 1]));
                        }
                        if j >= start {
                            assert(is_ws(pre[j]));
                        }
                    }
                    assert(!is_ws(pre.last()));
                    assert(pre.len() > 0);
                    if j >= 0 {
                        assert(words(pre) == words(pre.subrange(0, j + 1)).push(
                            pre.subrange(j + 1, pre.len() as int),
                        ));
                        assert(dv.push(old_cur) == words(pre));
                        assert(dv =~= words(pre).drop_last());
                        assert(nxt.subrange(0, j + 1) =~= pre.subrange(0, j + 1));
                        assert(nxt.subrange(j + 1, nxt.len() as int) =~= cur@);
                    } else {
                        assert(words(pre) == seq![pre]);
                        assert(dv.len() == 0);
                        assert(nxt =~= cur@);
                    }
                    assert(char_vec_views(done@).push(cur@) =~= words(nxt));
                } else {
                    if pre.len() > 0 {
                        assert(is_ws(pre.last())) by {
                            if !is_ws(pre.last()) {
                                assert(start == i - 1);
                                assert(old_cur.len() > 0);
                            }
                        }
                        assert(j == pre.len() - 1);
                        assert(nxt.subrange(0, j + 1) =~= pre);
                        assert(nxt.subrange(j + 1, nxt.len() as int) =~= cur@);
                    } else {
                        assert(nxt =~= cur@);
                        assert(dv.len() == 0);
                    }
                    assert(char_vec_views(done@).push(cur@) =~= words(nxt));
                }
            }
        }
    }
    proof {
        assert(s@.subrange(0, s@.len() as int) =~= s@);
    }
    if cur.len() > 0 {
        let ghost dv = char_vec_views(done@);
        let ghost cv = cur@;
        done.push(cur);
        proof {
            assert(char_vec_views(done@) =~= dv.push(cv));
        }
    }
    done
}

proof fn lemma_utf8_len_prefix(s: Seq<char>, i: int)
    requires
        0 <= i <= s.len(),
    ensures
        utf8_len(s.subrange(0, i)) <= utf8_len(s),
    decreases s.len() - i,
{
    if i < s.len() {
        lemma_utf8_len_prefix(s, i + 1);
        assert(s.subrange(0, i + 1).drop_last() =~= s.subrange(0, i));
    } else {
        assert(s.subrange(0, i) =~= s);
    }
}

/// Is the UTF-8 encoding of the text exactly `target` bytes long?
pub fn utf8_len_is(s: &[char], target: usize) -> (r: bool)
    requires
        target <= 1024,
    ensures
        r == (utf8_len(s@) == target),
{
    let mut n: usize = 0;
    let mut i: usize = 0;
    while i < s.len()
        invariant
            i <= s@.len(),
            target <= 1024,
            n == utf8_len(s@.subrange(0, i as int)),
            n <= target,
        decreases s@.len() - i,
    {
        let u = s[i] as u32;
        let w: usize = if u < 0x80 {
            1
        } else if u < 0x800 {
            2
        } else if u < 0x10000 {
            3
        } else {
            4
        };
        proof {
            assert(s@.subrange(0, i + 1).drop_last() =~= s@.subrange(0, i as int));
        }
        if n + w > target {
            proof {
                lemma_utf8_len_prefix(s@, i + 1);
            }
            return false;
        }
        n = n + w;
        i = i + 1;
    }
    proof {
        assert(s@.subrange(0, s@.len() as int) =~= s@);
    }
    n == target
}

pub open spec fn hex_digit_value(c: char) -> nat {
    if '0' <= c && c <= '9' {
        (c as u32 - '0' as u32) as nat
    } else if 'a' <= c && c <= 'f' {
        (c as u32 - 'a' as u32 + 10) as nat
    } else {
        (c as u32 - 'A' as u32 + 10) as nat
    }
}

pub open spec fn is_hex_digit(c: char) -> bool {
    ('0' <= c && c <= '9') || ('a' <= c && c <= 'f') || ('A' <= c && c <= 'F')
}

/// Value of a string of hexadecimal digits.
pub open spec fn hex_value(s: Seq<char>) -> nat
    decreases s.len(),
{
    if s.len() == 0 {
        0
    } else {
        hex_value(s.drop_last()) * 16 + hex_digit_value(s.last())
    }
}

/// `from_str_radix(s, 16)` for an unsigned integer type whose largest value
/// is `max`: an optional `+`, then at least one hexadecimal digit and
/// nothing else, and a value that fits.
pub open spec fn parse_hex(s: Seq<char>, max: nat) -> Option<nat> {
    let b = unsigned_body(s);
    if b.len() > 0 && (forall|i: int| 0 <= i < b.len() ==> is_hex_digit(#[trigger] b[i]))
        && hex_value(b) <= max {
        Some(hex_value(b))
    } else {
        None
    }
}

proof fn lemma_hex_value_grows(s: Seq<char>, i: int, j: int)
    requires
        0 <= i <= j <= s.len(),
    ensures
        hex_value(s.subrange(0, i)) <= hex_value(s.subrange(0, j)),
    decreases j - i,
{
    if i < j {
        lemma_hex_value_grows(s, i, j - 1);
        assert(s.subrange(0, j).drop_last() =~= s.subrange(0, j - 1));
    }
}

/// `from_str_radix(s, 16)` of an unsigned integer no larger than `max`.
pub fn parse_hex_chars(s: &[char], max: u64) -> (r: Option<u64>)
    ensures
        match parse_hex(s@, max as nat) {
            Some(v) => r == Some(v as u64),
            None => r is None,
        },
{
    let n = s.len();
    let mut i: usize = 0;
    if n > 0 && s[0] == '+' {
        i = 1;
    }
    let ghost b = unsigned_body(s@);
    assert(b =~= s@.subrange(i as int, n as int));
    if i == n {
        return None;
    }
    let mut acc: u64 = 0;
    let mut k: usize = i;
    while k < n
        invariant
            n == s@.len(),
            i <= k <= n,
            b =~= s@.subrange(i as int, n as int),
            b == unsigned_body(s@),
            forall|q: int| 0 <= q < k - i ==> is_hex_digit(#[trigger] b[q]),
            acc as nat == hex_value(b.subrange(0, k - i)),
            acc <= max,
        decreases n - k,
    {
        let c = s[k];
        proof {
            assert(b[k - i] == c);
        }
        let d: u64 = if '0' <= c && c <= '9' {
            (c as u32 - '0' as u32) as u64
        } else if 'a' <= c && c <= 'f' {
            (c as u32 - 'a' as u32 + 10) as u64
        } else if 'A' <= c && c <= 'F' {
            (c as u32 - 'A' as u32 + 10) as u64
        } else {
            proof {
                assert(!is_hex_digit(b[(k - i) as int]));
            }
            return None;
        };
        proof {
            assert(b.subrange(0, (k - i + 1) as int).drop_last() =~= b.subrange(0, (k - i) as int));
            assert(hex_digit_value(c) == d);
        }
        if d > max || acc > (max - d) / 16 {
            proof {
                if d <= max {
                    assert(acc * 16 + d > max) by (nonlinear_arith)
                        requires
                            acc > (max - d) / 16,
                            d <= max,
                    ;
                }
                lemma_hex_value_grows(b, (k - i + 1) as int, b.len() as int);
                assert(b.subrange(0, b.len() as int) =~= b);
            }
            return None;
        }
        proof {
            assert(acc * 16 + d <= max) by (nonlinear_arith)
                requires
                    acc <= (max - d) / 16,
                    d <= max,
            ;
        }
        acc = acc * 16 + d;
        k = k + 1;
    }
    proof {
        assert(b.subrange(0, b.len() as int) =~= b);
    }
    Some(acc)
}

/// A line as `str::lines` yields it: a '\r' that stood before the newline
/// is not part of it.
pub open spec fn line_body(l: Seq<char>) -> Seq<char> {
    if l.len() > 0 && l.last() == '\r' {
        l.drop_last()
    } else {
        l
    }
}

/// The lines of a text: the pieces between newlines, each without the
/// '\r' of a "\r\n" ending. (Where the text ends with a newline, one empty
/// piece follows, which no key below matches.)
pub open spec fn text_lines(text: Seq<char>) -> Seq<Seq<char>> {
    let p = split_on(text, '\n');
    Seq::new(p.len(), |i: int| if i + 1 < p.len() { line_body(p[i]) } else { p[i] })
}

/// The value after `key` on the last of the first `n` lines that start
/// with `key`.
pub open spec fn last_value(lines: Seq<Seq<char>>, n: int, key: Seq<char>) -> Option<Seq<char>>
    decreases n,
{
    if n <= 0 {
        None
    } else if starts_with(lines[n - 1], key) {
        Some(lines[n - 1].subrange(key.len() as int, lines[n - 1].len() as int))
    } else {
        last_value(lines, n - 1, key)
    }
}

/// `str::lines`-style lines of a text (see `text_lines`).
pub fn lines_of(text: &str) -> (r: Vec<Vec<char>>)
    ensures
        char_vec_views(r@) == text_lines(text@),
{
    let cs = chars_of(text);
    let pieces = split_chars(cs.as_slice(), '\n');
    let ghost pv = char_vec_views(pieces@);
    let n = pieces.len();
    let mut out: Vec<Vec<char>> = Vec::new();
    let mut i: usize = 0;
    while i < n
        invariant
            n == pieces@.len(),
            pv == char_vec_views(pieces@),
            pv == split_on(text@, '\n'),
            i <= n,
            out@.len() == i,
            forall|q: int| 0 <= q < i ==> #[trigger] out@[q]@ == text_lines(text@)[q],
        decreases n - i,
    {
        let p = &pieces[i];
        proof {
            assert(pv[i as int] == p@);
        }
        if i + 1 < n && p.len() > 0 && p[p.len() - 1] == '\r' {
            let mut body: Vec<char> = Vec::new();
            let mut j: usize = 0;
            while j < p.len() - 1
                invariant
                    0 < p@.len(),
                    j < p@.len(),
                    body@ == p@.subrange(0, j as int),
                decreases p@.len() - j,
            {
                body.push(p[j]);
                j = j + 1;
            }
            proof {
                assert(body@ =~= p@.drop_last());
            }
            out.push(body);
        } else {
            let mut copy: Vec<char> = Vec::new();
            let mut j: usize = 0;
            while j < p.len()
                invariant
                    j <= p@.len(),
                    copy@ == p@.subrange(0, j as int),
                decreases p@.len() - j,
            {
                copy.push(p[j]);
                j = j + 1;
            }
            proof {
                assert(copy@ =~= p@);
            }
            out.push(copy);
        }
        i = i + 1;
    }
    proof {
        assert(char_vec_views(out@) =~= text_lines(text@));
    }
    out
}

/// The value of `key` on the last line that starts with it.
pub fn value_of(lines: &Vec<Vec<char>>, key: &[char]) -> (r: Option<Vec<char>>)
    ensures
        match r {
            Some(v) => last_value(char_vec_views(lines@), lines@.len() as int, key@) == Some(v@),
            None => last_value(char_vec_views(lines@), lines@.len() as int, key@) is None,
        },
{
    let ghost lv = char_vec_views(lines@);
    let mut found: Option<Vec<char>> = None;
    let mut k: usize = 0;
    while k < lines.len()
        invariant
            lv == char_vec_views(lines@),
            k <= lines@.len(),
            match found {
                Some(v) => last_value(lv, k as int, key@) == Some(v@),
                None => last_value(lv, k as int, key@) is None,
            },
        decreases lines@.len() - k,
    {
        let l = &lines[k];
        proof {
            assert(lv[k as int] == l@);
        }
        if starts_with_chars(l.as_slice(), key) {
            let mut v: Vec<char> = Vec::new();
            let mut j: usize = key.len();
            while j < l.len()
                invariant
                    key@.len() <= j <= l@.len(),
                    v@ == l@.subrange(key@.len() as int, j as int),
                decreases l@.len() - j,
            {
                v.push(l[j]);
                j = j + 1;
            }
            found = Some(v);
        }
        k = k + 1;
    }
    found
}

/// Position of the first occurrence of `needle` at or after `i`.
pub open spec fn find_from(s: Seq<char>, needle: Seq<char>, i: int) -> Option<int>
    decreases s.len() + 1 - i,
{
    if i < 0 || i > s.len() {
        None
    } else if occurs_at(s, needle, i) {
        Some(i)
    } else {
        find_from(s, needle, i + 1)
    }
}

/// `str::find`, as a character position.
pub open spec fn find_seq(s: Seq<char>, needle: Seq<char>) -> Option<int> {
    find_from(s, needle, 0)
}

proof fn lemma_find_from(s: Seq<char>, needle: Seq<char>, i: int)
    requires
        0 <= i,
    ensures
        match find_from(s, needle, i) {
            Some(p) => i <= p && occurs_at(s, needle, p) && forall|q: int|
                i <= q < p ==> !occurs_at(s, needle, q),
            None => forall|q: int| i <= q ==> !occurs_at(s, needle, q),
        },
    decreases s.len() + 1 - i,
{
    if i <= s.len() && !occurs_at(s, needle, i) {
        lemma_find_from(s, needle, i + 1);
    }
}

pub proof fn lemma_find_seq(s: Seq<char>, needle: Seq<char>)
    ensures
        match find_seq(s, needle) {
            Some(p) => occurs_at(s, needle, p) && forall|q: int|
                0 <= q < p ==> !occurs_at(s, needle, q),
            None => !contains_seq(s, needle),
        },
{
    lemma_find_from(s, needle, 0);
    if find_seq(s, needle) is None {
        assert forall|q: int| !occurs_at(s, needle, q) by {
            if q >= 0 {
            }
        }
    }
}

/// `str::find`: the character position of the first occurrence.
pub fn find_text(s: &[char], needle: &[char]) -> (r: Option<usize>)
    ensures
        match r {
            Some(p) => find_seq(s@, needle@) == Some(p as int),
            None => find_seq(s@, needle@) is None,
        },
{
    let r = find_chars(s, needle);
    proof {
        lemma_find_seq(s@, needle@);
        match find_seq(s@, needle@) {
            Some(q) => {
                if let Some(p) = r {
                    if q < p {
                        assert(!occurs_at(s@, needle@, q));
                    }
                    if p < q {
                        assert(!occurs_at(s@, needle@, p as int));
                    }
                } else {
                    assert(contains_seq(s@, needle@));
                }
            },
            None => {
                if let Some(p) = r {
                    assert(occurs_at(s@, needle@, p as int));
                }
            },
        }
    }
    r
}

/// Appends the text `t` to `s`.
pub fn push_text(s: &mut String, t: &str)
    ensures
        final(s)@ == old(s)@ + t@,
{
    let cs = chars_of(t);
    let mut i: usize = 0;
    while i < cs.len()
        invariant
            i <= cs@.len(),
            cs@ == t@,
            s@ == old(s)@ + cs@.subrange(0, i as int),
        decreases cs@.len() - i,
    {
        push_char(s, cs[i]);
        i = i + 1;
        proof {
            assert(s@ =~= old(s)@ + cs@.subrange(0, i as int));
        }
    }
    proof {
        assert(cs@.subrange(0, cs@.len() as int) =~= cs@);
    }
}

/// `str::parse` for a signed integer type with range `[min, max]`: an
/// optional sign, then at least one ASCII digit and nothing else, and a
/// value in range.
pub open spec fn parse_signed(s: Seq<char>, min: int, max: int) -> Option<int> {
    if s.len() > 0 && s[0] == '-' {
        let b = s.drop_first();
        if b.len() > 0 && all_digits(b) && -(decimal_value(b) as int) >= min {
            Some(-(decimal_value(b) as int))
        } else {
            None
        }
    } else {
        match parse_unsigned(s, if max >= 0 { max as nat } else { 0 }) {
            Some(v) => Some(v as int),
            None => None,
        }
    }
}

/// `str::parse::<i32>()`.
pub fn parse_i32_chars(s: &[char]) -> (r: Option<i32>)
    ensures
        match parse_signed(s@, i32::MIN as int, i32::MAX as int) {
            Some(v) => r == Some(v as i32),
            None => r is None,
        },
{
    if s.len() > 0 && s[0] == '-' {
        let mut rest: Vec<char> = Vec::new();
        let mut j: usize = 1;
        while j < s.len()
            invariant
                1 <= j <= s@.len(),
                rest@ == s@.subrange(1, j as int),
            decreases s@.len() - j,
        {
            rest.push(s[j]);
            j = j + 1;
        }
        proof {
            assert(rest@ =~= s@.drop_first());
        }
        if rest.len() > 0 && rest[0] == '+' {
            proof {
                assert(!is_digit(rest@[0]));
            }
            return None;
        }
        match parse_unsigned_chars(rest.as_slice(), 2147483648) {
            Some(v) => {
                proof {
                    assert(unsigned_body(rest@) == rest@);
                }
                Some((0 - (v as i64)) as i32)
            },
            None => {
                proof {
                    assert(unsigned_body(rest@) == rest@);
                }
                None
            },
        }
    } else {
        match parse_unsigned_chars(s, 2147483647) {
            Some(v) => Some(v as i32),
            None => None,
        }
    }
}

/// `str::parse::<i64>()`.
pub fn parse_i64_chars(s: &[char]) -> (r: Option<i64>)
    ensures
        match parse_signed(s@, i64::MIN as int, i64::MAX as int) {
            Some(v) => r == Some(v as i64),
            None => r is None,
        },
{
    if s.len() > 0 && s[0] == '-' {
        let mut rest: Vec<char> = Vec::new();
        let mut j: usize = 1;
        while j < s.len()
            invariant
                1 <= j <= s@.len(),
                rest@ == s@.subrange(1, j as int),
            decreases s@.len() - j,
        {
            rest.push(s[j]);
            j = j + 1;
        }
        proof {
            assert(rest@ =~= s@.drop_first());
        }
        if rest.len() > 0 && rest[0] == '+' {
            proof {
                assert(!is_digit(rest@[0]));
            }
            return None;
        }
        match parse_unsigned_chars(rest.as_slice(), 9223372036854775808) {
            Some(v) => {
                proof {
                    assert(unsigned_body(rest@) == rest@);
                }
                Some((0 - (v as i128)) as i64)
            },
            None => {
                proof {
                    assert(unsigned_body(rest@) == rest@);
                }
                None
            },
        }
    } else {
        match parse_unsigned_chars(s, 9223372036854775807) {
            Some(v) => Some(v as i64),
            None => None,
        }
    }
}

/// `str::trim_end_matches(c)`.
pub fn trim_end_char(s: &[char], c: char) -> (r: Vec<char>)
    ensures
        r@ == trim_end_by(s@, TrimKind::Exactly(c)),
{
    let mut n = s.len();
    proof {
        assert(s@.subrange(0, s@.len() as int) =~= s@);
    }
    while n > 0 && s[n - 1] == c
        invariant
            n <= s@.len(),
            trim_end_by(s@, TrimKind::Exactly(c)) == trim_end_by(s@.subrange(0, n as int), TrimKind::Exactly(c)),
        decreases n,
    {
        proof {
            assert(s@.subrange(0, n as int).drop_last() =~= s@.subrange(0, n - 1));
        }
        n = n - 1;
    }
    proof {
        assert(s@.subrange(0, s@.len() as int) =~= s@);
    }
    let mut r: Vec<char> = Vec::new();
    let mut i: usize = 0;
    while i < n
        invariant
            i <= n <= s@.len(),
            r@ == s@.subrange(0, i as int),
        decreases n - i,
    {
        r.push(s[i]);
        i = i + 1;
    }
    r
}

} // verus!
