//! Where the keyboard backlight LEDs are: the vendor driver's zones first,
//! then the generic LED class, in name order.
use vstd::prelude::*;
use crate::text::{chars_of, contains_chars, contains_seq, string_of};

verus! {

/// Lexicographic order of texts by code point, which is the order `String`
/// sorts in (UTF-8 keeps the order of code points).
pub open spec fn lex_le(a: Seq<char>, b: Seq<char>) -> bool
    decreases a.len(),
{
    if a.len() == 0 {
        true
    } else if b.len() == 0 {
        false
    } else if a[0] != b[0] {
        a[0] < b[0]
    } else {
        lex_le(a.drop_first(), b.drop_first())
    }
}

fn lex_le_exec(a: &[char], b: &[char]) -> (r: bool)
    ensures
        r == lex_le(a@, b@),
{
    let mut i: usize = 0;
    proof {
        assert(a@.subrange(0, a@.len() as int) =~= a@);
        assert(b@.subrange(0, b@.len() as int) =~= b@);
    }
    while i < a.len()
        invariant
            i <= a@.len(),
            i <= b@.len(),
            forall|q: int| 0 <= q < i ==> a@[q] == b@[q],
            lex_le(a@, b@) == lex_le(a@.subrange(i as int, a@.len() as int), b@.subrange(
                i as int,
                b@.len() as int,
            )),
        decreases a@.len() - i,
    {
        if i == b.len() {
            return false;
        }
        if a[i] != b[i] {
            return a[i] < b[i];
        }
        proof {
            let sa = a@.subrange(i as int, a@.len() as int);
            let sb = b@.subrange(i as int, b@.len() as int);
            assert(sa.drop_first() =~= a@.subrange(i + 1, a@.len() as int));
            assert(sb.drop_first() =~= b@.subrange(i + 1, b@.len() as int));
        }
        i = i + 1;
    }
    true
}

/// `a` is not above `b` in `String` order.
pub fn lex_le_text(a: &str, b: &str) -> (r: bool)
    ensures
        r == lex_le(a@, b@),
{
    let x = chars_of(a);
    let y = chars_of(b);
    lex_le_exec(x.as_slice(), y.as_slice())
}

/// `x` inserted into `s` after every text not above it.
pub open spec fn insert_lex(s: Seq<Seq<char>>, x: Seq<char>) -> Seq<Seq<char>>
    decreases s.len(),
{
    if s.len() == 0 {
        seq![x]
    } else if lex_le(s.last(), x) {
        s.push(x)
    } else {
        insert_lex(s.drop_last(), x).push(s.last())
    }
}

/// The texts in `String` sort order (insertion sort, as `sort` leaves
/// them).
pub open spec fn sort_lex(s: Seq<Seq<char>>) -> Seq<Seq<char>>
    decreases s.len(),
{
    if s.len() == 0 {
        s
    } else {
        insert_lex(sort_lex(s.drop_last()), s.last())
    }
}

proof fn lemma_insert_lex_at(s: Seq<Seq<char>>, x: Seq<char>, j: int)
    requires
        0 <= j <= s.len(),
        forall|k: int| j <= k < s.len() ==> !lex_le(#[trigger] s[k], x),
        j == 0 || lex_le(s[j - 1], x),
    ensures
        insert_lex(s, x) == s.subrange(0, j).push(x) + s.subrange(j, s.len() as int),
    decreases s.len(),
{
    if s.len() == 0 {
        assert(s.subrange(0, j).push(x) + s.subrange(j, s.len() as int) =~= seq![x]);
    } else if lex_le(s.last(), x) {
        assert(j == s.len());
        assert(s.subrange(0, j).push(x) + s.subrange(j, s.len() as int) =~= s.push(x));
    } else {
        let d = s.drop_last();
        assert forall|k: int| j <= k < d.len() implies !lex_le(#[trigger] d[k], x) by {
            assert(d[k] == s[k]);
        }
        lemma_insert_lex_at(d, x, j);
        assert(s.subrange(0, j).push(x) + s.subrange(j, s.len() as int) =~= (d.subrange(0, j).push(
            x,
        ) + d.subrange(j, d.len() as int)).push(s.last()));
    }
}

pub proof fn lemma_lex_total(a: Seq<char>, b: Seq<char>)
    ensures
        lex_le(a, b) || lex_le(b, a),
    decreases a.len(),
{
    if a.len() > 0 && b.len() > 0 {
        if a[0] == b[0] {
            lemma_lex_total(a.drop_first(), b.drop_first());
        }
    }
}

pub proof fn lemma_lex_trans(a: Seq<char>, b: Seq<char>, c: Seq<char>)
    requires
        lex_le(a, b),
        lex_le(b, c),
    ensures
        lex_le(a, c),
    decreases a.len(),
{
    if a.len() > 0 && b.len() > 0 && c.len() > 0 && a[0] == b[0] && b[0] == c[0] {
        lemma_lex_trans(a.drop_first(), b.drop_first(), c.drop_first());
    }
}

pub proof fn lemma_lex_antisym(a: Seq<char>, b: Seq<char>)
    requires
        lex_le(a, b),
        lex_le(b, a),
    ensures
        a == b,
    decreases a.len(),
{
    if a.len() > 0 && b.len() > 0 && a[0] == b[0] {
        lemma_lex_antisym(a.drop_first(), b.drop_first());
        assert(a =~= seq![a[0]] + a.drop_first());
        assert(b =~= seq![b[0]] + b.drop_first());
    }
}

pub open spec fn sorted_lex(s: Seq<Seq<char>>) -> bool {
    forall|i: int, j: int| 0 <= i <= j < s.len() ==> lex_le(#[trigger] s[i], #[trigger] s[j])
}

pub proof fn lemma_lex_refl(a: Seq<char>)
    ensures
        lex_le(a, a),
    decreases a.len(),
{
    if a.len() > 0 {
        lemma_lex_refl(a.drop_first());
    }
}

proof fn lemma_insert_lex_props(s: Seq<Seq<char>>, x: Seq<char>)
    requires
        sorted_lex(s),
    ensures
        sorted_lex(insert_lex(s, x)),
        insert_lex(s, x).to_multiset() == s.to_multiset().insert(x),
    decreases s.len(),
{
    broadcast use vstd::seq_lib::group_to_multiset_ensures, vstd::multiset::group_multiset_axioms;

    if s.len() == 0 {
        lemma_lex_refl(x);
        assert(Seq::<Seq<char>>::empty().push(x) =~= seq![x]);
        assert(seq![x].to_multiset() =~= s.to_multiset().insert(x));
    } else if lex_le(s.last(), x) {
        let r = s.push(x);
        lemma_lex_refl(x);
        assert forall|i: int, j: int| 0 <= i <= j < r.len() implies lex_le(
            #[trigger] r[i],
            #[trigger] r[j],
        ) by {
            if j == s.len() {
                if i < s.len() {
                    assert(lex_le(s[i], s[s.len() - 1]));
                    lemma_lex_trans(s[i], s[s.len() - 1], x);
                }
            } else {
                assert(r[i] == s[i] && r[j] == s[j]);
            }
        }
    } else {
        let d = s.drop_last();
        let l = s.last();
        assert(sorted_lex(d)) by {
            assert forall|i: int, j: int| 0 <= i <= j < d.len() implies lex_le(
                #[trigger] d[i],
                #[trigger] d[j],
            ) by {
                assert(d[i] == s[i] && d[j] == s[j]);
            }
        }
        lemma_insert_lex_props(d, x);
        let r = insert_lex(d, x);
        lemma_lex_total(l, x);
        lemma_lex_refl(l);
        assert forall|i: int| 0 <= i < r.len() implies lex_le(#[trigger] r[i], l) by {
            assert(r.to_multiset().count(r[i]) > 0);
            if r[i] != x {
                assert(d.to_multiset().insert(x).count(r[i]) > 0);
                assert(d.to_multiset().count(r[i]) > 0);
                assert(d.contains(r[i]));
                let k = choose|k: int| 0 <= k < d.len() && d[k] == r[i];
                assert(s[k] == d[k]);
                assert(lex_le(s[k], s[s.len() - 1]));
            }
        }
        let q = r.push(l);
        assert(insert_lex(s, x) == q);
        assert forall|i: int, j: int| 0 <= i <= j < q.len() implies lex_le(
            #[trigger] q[i],
            #[trigger] q[j],
        ) by {
            if j == r.len() {
                if i < r.len() {
                    assert(lex_le(r[i], l));
                }
            } else {
                assert(q[i] == r[i]);
                assert(q[j] == r[j]);
            }
        }
        assert(s =~= d.push(l));
        assert(q.to_multiset() =~= r.to_multiset().insert(l));
        assert(s.to_multiset() =~= d.to_multiset().insert(l));
        assert(q.to_multiset() =~= s.to_multiset().insert(x));
    }
}

/// The LED paths come out in name order, and every path found is driven
/// exactly once.
pub proof fn lemma_sorted_paths_are_an_ordering_of_the_found_ones(s: Seq<Seq<char>>)
    ensures
        sorted_lex(sort_lex(s)),
        sort_lex(s).to_multiset() == s.to_multiset(),
    decreases s.len(),
{
    if s.len() == 0 {
        broadcast use vstd::seq_lib::group_to_multiset_ensures, vstd::multiset::group_multiset_axioms;
    } else {
        lemma_sorted_paths_are_an_ordering_of_the_found_ones(s.drop_last());
        lemma_insert_lex_props(sort_lex(s.drop_last()), s.last());
        broadcast use vstd::seq_lib::group_to_multiset_ensures, vstd::multiset::group_multiset_axioms;
        assert(s =~= s.drop_last().push(s.last()));
    }
}

pub open spec fn text_views(v: Seq<String>) -> Seq<Seq<char>> {
    v.map_values(|s: String| s@)
}

/// Strings sorted as `sort` sorts them.
pub fn sort_texts(v: Vec<String>) -> (r: Vec<String>)
    ensures
        text_views(r@) == sort_lex(text_views(v@)),
{
    let ghost tv = text_views(v@);
    let mut out: Vec<String> = Vec::new();
    let mut i: usize = 0;
    while i < v.len()
        invariant
            tv == text_views(v@),
            i <= v@.len(),
            text_views(out@) == sort_lex(tv.subrange(0, i as int)),
        decreases v@.len() - i,
    {
        let x = string_of(chars_of(v[i].as_str()).as_slice());
        let xc = chars_of(x.as_str());
        let ghost ov = text_views(out@);
        let mut j: usize = out.len();
        while j > 0 && !lex_le_exec(chars_of(out[j - 1].as_str()).as_slice(), xc.as_slice())
            invariant
                ov == text_views(out@),
                xc@ == x@,
                j <= out@.len(),
                forall|k: int| j <= k < out@.len() ==> !lex_le(#[trigger] ov[k], x@),
            decreases j,
        {
            proof {
                assert(ov[j - 1] == out@[j - 1]@);
            }
            j = j - 1;
        }
        proof {
            if j > 0 {
                assert(ov[j - 1] == out@[j - 1]@);
            }
            lemma_insert_lex_at(ov, x@, j as int);
            assert(tv.subrange(0, i + 1).drop_last() =~= tv.subrange(0, i as int));
            assert(tv.subrange(0, i + 1).last() == x@);
        }
        out.insert(j, x);
        proof {
            assert(text_views(out@) =~= ov.subrange(0, j as int).push(x@) + ov.subrange(
                j as int,
                ov.len() as int,
            ));
        }
        i = i + 1;
    }
    proof {
        assert(tv.subrange(0, v@.len() as int) =~= tv);
    }
    out
}

/// Which keyboard LED files exist.
pub struct KeyboardLedPaths {
    /// `/sys/devices/platform/tuxedo_keyboard/leds` exists.
    pub vendor_leds: bool,
    /// Its `left:`, `center:`, `right:` and `rgb:kbd_backlight` entries exist.
    pub left: bool,
    pub center: bool,
    pub right: bool,
    pub rgb: bool,
    /// The entries of `/sys/class/leds`, when it can be listed.
    pub class_leds: Option<Vec<String>>,
}

pub open spec fn vendor_zone(zone: Seq<char>) -> Seq<char> {
    "/sys/devices/platform/tuxedo_keyboard/leds/"@ + zone + ":kbd_backlight"@
}

/// The vendor zones that exist, left to right.
pub open spec fn vendor_zones(f: KeyboardLedPaths) -> Seq<Seq<char>> {
    (if f.left {
        seq![vendor_zone("left"@)]
    } else {
        Seq::empty()
    }) + (if f.center {
        seq![vendor_zone("center"@)]
    } else {
        Seq::empty()
    }) + (if f.right {
        seq![vendor_zone("right"@)]
    } else {
        Seq::empty()
    })
}

/// The class LEDs among the first `n` names that are keyboard backlights,
/// as paths.
pub open spec fn class_kbd_paths(names: Seq<String>, n: int) -> Seq<Seq<char>>
    decreases n,
{
    if n <= 0 {
        Seq::empty()
    } else if contains_seq(names[n - 1]@, "kbd_backlight"@) {
        class_kbd_paths(names, n - 1).push("/sys/class/leds/"@ + names[n - 1]@)
    } else {
        class_kbd_paths(names, n - 1)
    }
}

/// The keyboard backlight LEDs to drive: the vendor driver's left, center
/// and right zones that exist, else its single RGB zone; otherwise the
/// class LEDs named `kbd_backlight`, sorted; otherwise none.
pub open spec fn keyboard_paths_of(f: KeyboardLedPaths) -> Seq<Seq<char>> {
    if f.vendor_leds && vendor_zones(f).len() > 0 {
        vendor_zones(f)
    } else if f.vendor_leds && f.rgb {
        seq![vendor_zone("rgb"@)]
    } else {
        match f.class_leds {
            Some(names) => sort_lex(class_kbd_paths(names@, names@.len() as int)),
            None => Seq::empty(),
        }
    }
}

fn zone_path(zone: &str) -> (r: String)
    ensures
        r@ == vendor_zone(zone@),
{
    let mut s = String::new();
    crate::text::push_text(&mut s, "/sys/devices/platform/tuxedo_keyboard/leds/");
    crate::text::push_text(&mut s, zone);
    crate::text::push_text(&mut s, ":kbd_backlight");
    s
}

/// The keyboard backlight LED directories (see `keyboard_paths_of`).
pub fn keyboard_backlight_paths(f: &KeyboardLedPaths) -> (r: Vec<String>)
    ensures
        text_views(r@) == keyboard_paths_of(*f),
{
    if f.vendor_leds {
        let mut zones: Vec<String> = Vec::new();
        if f.left {
            zones.push(zone_path("left"));
        }
        let ghost z1 = text_views(zones@);
        if f.center {
            zones.push(zone_path("center"));
        }
        let ghost z2 = text_views(zones@);
        if f.right {
            zones.push(zone_path("right"));
        }
        proof {
            assert(z1 =~= (if f.left {
                seq![vendor_zone("left"@)]
            } else {
                Seq::empty()
            }));
            assert(z2 =~= z1 + (if f.center {
                seq![vendor_zone("center"@)]
            } else {
                Seq::empty()
            }));
            assert(text_views(zones@) =~= vendor_zones(*f));
        }
        if zones.len() > 0 {
            return zones;
        }
        if f.rgb {
            let mut v: Vec<String> = Vec::new();
            v.push(zone_path("rgb"));
            proof {
                assert(text_views(v@) =~= seq![vendor_zone("rgb"@)]);
            }
            return v;
        }
    }
    match &f.class_leds {
        None => {
            let v: Vec<String> = Vec::new();
            proof {
                assert(text_views(v@) =~= Seq::<Seq<char>>::empty());
            }
            v
        },
        Some(names) => {
            let key = chars_of("kbd_backlight");
            let mut paths: Vec<String> = Vec::new();
            let mut k: usize = 0;
            while k < names.len()
                invariant
                    key@ == "kbd_backlight"@,
                    k <= names@.len(),
                    text_views(paths@) == class_kbd_paths(names@, k as int),
                decreases names@.len() - k,
            {
                let n = chars_of(names[k].as_str());
                if contains_chars(n.as_slice(), key.as_slice()) {
                    let mut p = String::new();
                    crate::text::push_text(&mut p, "/sys/class/leds/");
                    crate::text::push_text(&mut p, names[k].as_str());
                    let ghost before = text_views(paths@);
                    paths.push(p);
                    proof {
                        assert(text_views(paths@) =~= before.push(p@));
                    }
                }
                k = k + 1;
            }
            sort_texts(paths)
        },
    }
}

} // verus!
