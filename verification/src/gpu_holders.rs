//! Which processes hold a GPU's device nodes open, from the symbolic links
//! under `/proc/<pid>/fd`, without opening any device.
use vstd::prelude::*;
use crate::keyboard_paths::{lex_le, text_views};
use crate::text::{
    char_vec_views, chars_eq, chars_of, contains_chars, lines_of, parse_unsigned, parse_unsigned_chars,
    push_decimal, push_text, starts_with, starts_with_chars, string_of, text_lines, trim_ws,
    trim_ws_chars, decimal,
};

verus! {

/// A process that holds some of the GPU's device nodes open.
#[derive(Debug, Clone)]
pub struct GpuProcess {
    pub pid: u32,
    pub name: String,
    /// The nodes it holds, in name order, each once.
    pub device_nodes: Vec<String>,
}

/// The holders of a GPU at one moment.
#[derive(Debug, Clone)]
pub struct GpuProcessSnapshot {
    pub sampled_at_unix_secs: u64,
    /// Every process could be inspected (a process that exited meanwhile
    /// does not count against this).
    pub complete: bool,
    /// In pid order.
    pub processes: Vec<GpuProcess>,
}

impl Default for GpuProcessSnapshot {
    fn default() -> (r: Self)
        ensures
            r.sampled_at_unix_secs == 0 && !r.complete && r.processes@.len() == 0,
    {
        GpuProcessSnapshot { sampled_at_unix_secs: 0, complete: false, processes: Vec::new() }
    }
}

/// Reading one `fd` link.
pub enum LinkRead {
    /// Its target.
    Target(String),
    /// The descriptor was closed meanwhile.
    Vanished,
    /// It could not be read.
    Failed,
}

/// Listing a process's `fd` directory.
pub enum FdDir {
    /// The process exited meanwhile.
    Missing,
    /// It could not be listed.
    Failed,
    /// Its entries (`None` for an entry that could not be read).
    Entries(Vec<Option<LinkRead>>),
}

/// One entry of `/proc`.
pub struct ProcDir {
    /// Its name (a pid for processes).
    pub name: String,
    pub fds: FdDir,
    /// Its `comm` file.
    pub comm: Option<String>,
}

/// `x` added to the strictly ordered `s` (nothing when it is there).
pub open spec fn insert_unique(s: Seq<Seq<char>>, x: Seq<char>) -> Seq<Seq<char>>
    decreases s.len(),
{
    if s.len() == 0 {
        seq![x]
    } else if s.last() == x {
        s
    } else if lex_le(s.last(), x) {
        s.push(x)
    } else {
        insert_unique(s.drop_last(), x).push(s.last())
    }
}

/// The held nodes among the first `n` descriptors: targets that are one of
/// `nodes`, in name order, each once.
pub open spec fn held_upto(fds: Seq<Option<LinkRead>>, nodes: Seq<Seq<char>>, n: int) -> Seq<Seq<char>>
    decreases n,
{
    if n <= 0 {
        Seq::empty()
    } else {
        let prev = held_upto(fds, nodes, n - 1);
        match fds[n - 1] {
            Some(LinkRead::Target(t)) => if nodes.contains(t@) {
                insert_unique(prev, t@)
            } else {
                prev
            },
            _ => prev,
        }
    }
}

/// Did a descriptor among the first `n` fail to be read?
pub open spec fn fd_failed_upto(fds: Seq<Option<LinkRead>>, n: int) -> bool
    decreases n,
{
    if n <= 0 {
        false
    } else {
        fd_failed_upto(fds, n - 1) || match fds[n - 1] {
            None => true,
            Some(LinkRead::Failed) => true,
            _ => false,
        }
    }
}

/// A holder as reported: pid, name, held nodes.
pub type HolderView = (u32, Seq<char>, Seq<Seq<char>>);

/// The holder a `/proc` entry is, and whether inspecting it failed.
pub open spec fn holder_of(e: ProcDir, nodes: Seq<Seq<char>>) -> (Option<HolderView>, bool) {
    match parse_unsigned(e.name@, u32::MAX as nat) {
        None => (None, false),
        Some(pid) => match e.fds {
            FdDir::Missing => (None, false),
            FdDir::Failed => (None, true),
            FdDir::Entries(v) => {
                let held = held_upto(v@, nodes, v@.len() as int);
                let failed = fd_failed_upto(v@, v@.len() as int);
                if held.len() > 0 {
                    (
                        Some(
                            (
                                pid as u32,
                                trim_ws(
                                    match e.comm {
                                        Some(c) => c@,
                                        None => "<exited or inaccessible>"@,
                                    },
                                ),
                                held,
                            ),
                        ),
                        failed,
                    )
                } else {
                    (None, failed)
                }
            },
        },
    }
}

/// The holders among the first `n` entries, in `/proc` order, and whether
/// any inspection failed.
pub open spec fn holders_upto(entries: Seq<Option<ProcDir>>, nodes: Seq<Seq<char>>, n: int) -> (
    Seq<HolderView>,
    bool,
)
    decreases n,
{
    if n <= 0 {
        (Seq::empty(), false)
    } else {
        let prev = holders_upto(entries, nodes, n - 1);
        match entries[n - 1] {
            None => (prev.0, true),
            Some(e) => {
                let h = holder_of(e, nodes);
                (
                    match h.0 {
                        Some(x) => prev.0.push(x),
                        None => prev.0,
                    },
                    prev.1 || h.1,
                )
            },
        }
    }
}

/// `x` inserted after every holder whose pid is not above its own.
pub open spec fn insert_by_pid(s: Seq<HolderView>, x: HolderView) -> Seq<HolderView>
    decreases s.len(),
{
    if s.len() == 0 {
        seq![x]
    } else if s.last().0 <= x.0 {
        s.push(x)
    } else {
        insert_by_pid(s.drop_last(), x).push(s.last())
    }
}

/// The holders in pid order (stable).
pub open spec fn sort_by_pid(s: Seq<HolderView>) -> Seq<HolderView>
    decreases s.len(),
{
    if s.len() == 0 {
        s
    } else {
        insert_by_pid(sort_by_pid(s.drop_last()), s.last())
    }
}

pub open spec fn sorted_by_pid(s: Seq<HolderView>) -> bool {
    forall|i: int, j: int| 0 <= i <= j < s.len() ==> (#[trigger] s[i]).0 <= (#[trigger] s[j]).0
}

proof fn lemma_insert_by_pid_props(s: Seq<HolderView>, x: HolderView)
    requires
        sorted_by_pid(s),
    ensures
        sorted_by_pid(insert_by_pid(s, x)),
        insert_by_pid(s, x).to_multiset() == s.to_multiset().insert(x),
    decreases s.len(),
{
    broadcast use vstd::seq_lib::group_to_multiset_ensures, vstd::multiset::group_multiset_axioms;

    if s.len() == 0 {
        assert(Seq::<HolderView>::empty().push(x) =~= seq![x]);
        assert(seq![x].to_multiset() =~= s.to_multiset().insert(x));
    } else if s.last().0 <= x.0 {
        let r = s.push(x);
        assert forall|i: int, j: int| 0 <= i <= j < r.len() implies (#[trigger] r[i]).0 <= (
        #[trigger] r[j]).0 by {
            if j == s.len() {
                if i < s.len() {
                    assert(s[i].0 <= s[s.len() - 1].0);
                }
            } else {
                assert(r[i] == s[i] && r[j] == s[j]);
            }
        }
    } else {
        let d = s.drop_last();
        let l = s.last();
        assert(sorted_by_pid(d)) by {
            assert forall|i: int, j: int| 0 <= i <= j < d.len() implies (#[trigger] d[i]).0 <= (
            #[trigger] d[j]).0 by {
                assert(d[i] == s[i] && d[j] == s[j]);
            }
        }
        lemma_insert_by_pid_props(d, x);
        let r = insert_by_pid(d, x);
        assert forall|i: int| 0 <= i < r.len() implies (#[trigger] r[i]).0 <= l.0 by {
            assert(r.to_multiset().count(r[i]) > 0);
            if r[i] != x {
                assert(d.to_multiset().insert(x).count(r[i]) > 0);
                assert(d.to_multiset().count(r[i]) > 0);
                assert(d.contains(r[i]));
                let k = choose|k: int| 0 <= k < d.len() && d[k] == r[i];
                assert(s[k] == d[k]);
                assert(s[k].0 <= s[s.len() - 1].0);
            }
        }
        let q = r.push(l);
        assert(insert_by_pid(s, x) == q);
        assert forall|i: int, j: int| 0 <= i <= j < q.len() implies (#[trigger] q[i]).0 <= (
        #[trigger] q[j]).0 by {
            if j == r.len() {
                if i < r.len() {
                    assert(q[i] == r[i]);
                }
            } else {
                assert(q[i] == r[i]);
                assert(q[j] == r[j]);
            }
        }
        assert(s =~= d.push(l));
        assert(q.to_multiset() =~= r.to_multiset().insert(l));
        assert(s.to_multiset() =~= d.to_multiset().insert(l));
        assert(q.to_multiset() =~= s.to_multiset().insert(x));
    }
}

/// The holders come in pid order, and every holder found is listed exactly
/// once.
pub proof fn lemma_holders_are_listed_in_pid_order(s: Seq<HolderView>)
    ensures
        sorted_by_pid(sort_by_pid(s)),
        sort_by_pid(s).to_multiset() == s.to_multiset(),
    decreases s.len(),
{
    if s.len() == 0 {
        broadcast use vstd::seq_lib::group_to_multiset_ensures, vstd::multiset::group_multiset_axioms;
    } else {
        lemma_holders_are_listed_in_pid_order(s.drop_last());
        lemma_insert_by_pid_props(sort_by_pid(s.drop_last()), s.last());
        broadcast use vstd::seq_lib::group_to_multiset_ensures, vstd::multiset::group_multiset_axioms;
        assert(s =~= s.drop_last().push(s.last()));
    }
}

pub open spec fn process_view(p: GpuProcess) -> HolderView {
    (p.pid, p.name@, text_views(p.device_nodes@))
}

pub open spec fn process_views(v: Seq<GpuProcess>) -> Seq<HolderView> {
    v.map_values(|p: GpuProcess| process_view(p))
}

/// The snapshot of a `/proc` listing (`None`: `/proc` could not be listed)
/// for the device nodes `nodes`: the holders in pid order, complete when
/// nothing failed.
pub open spec fn snapshot_of(proc_entries: Option<Seq<Option<ProcDir>>>, nodes: Seq<Seq<char>>) -> (
    bool,
    Seq<HolderView>,
) {
    match proc_entries {
        None => (false, Seq::empty()),
        Some(es) => {
            let h = holders_upto(es, nodes, es.len() as int);
            (!h.1, sort_by_pid(h.0))
        },
    }
}

proof fn lemma_insert_unique_at(s: Seq<Seq<char>>, x: Seq<char>, j: int)
    requires
        0 <= j <= s.len(),
        forall|k: int| j <= k < s.len() ==> !lex_le(#[trigger] s[k], x),
        j == 0 || lex_le(s[j - 1], x),
        j == 0 || s[j - 1] != x,
    ensures
        insert_unique(s, x) == s.subrange(0, j).push(x) + s.subrange(j, s.len() as int),
    decreases s.len(),
{
    if s.len() == 0 {
        assert(s.subrange(0, j).push(x) + s.subrange(j, s.len() as int) =~= seq![x]);
    } else if s.last() == x {
        crate::keyboard_paths::lemma_lex_refl(x);
        assert(j == s.len());
    } else if lex_le(s.last(), x) {
        assert(j == s.len());
        assert(s.subrange(0, j).push(x) + s.subrange(j, s.len() as int) =~= s.push(x));
    } else {
        let d = s.drop_last();
        assert forall|k: int| j <= k < d.len() implies !lex_le(#[trigger] d[k], x) by {
            assert(d[k] == s[k]);
        }
        lemma_insert_unique_at(d, x, j);
        assert(s.subrange(0, j).push(x) + s.subrange(j, s.len() as int) =~= (d.subrange(0, j).push(
            x,
        ) + d.subrange(j, d.len() as int)).push(s.last()));
    }
}

proof fn lemma_insert_unique_present(s: Seq<Seq<char>>, x: Seq<char>, j: int)
    requires
        0 <= j < s.len(),
        s[j] == x,
        forall|k: int| j < k < s.len() ==> !lex_le(#[trigger] s[k], x),
    ensures
        insert_unique(s, x) == s,
    decreases s.len(),
{
    if j < s.len() - 1 {
        let d = s.drop_last();
        assert(s.last() != x) by {
            crate::keyboard_paths::lemma_lex_refl(x);
            assert(!lex_le(s[s.len() - 1], x));
        }
        assert forall|k: int| j < k < d.len() implies !lex_le(#[trigger] d[k], x) by {
            assert(d[k] == s[k]);
        }
        lemma_insert_unique_present(d, x, j);
        assert(d.push(s.last()) =~= s);
    }
}

pub open spec fn strictly_sorted(s: Seq<Seq<char>>) -> bool {
    forall|i: int, j: int|
        0 <= i < j < s.len() ==> lex_le(#[trigger] s[i], #[trigger] s[j]) && s[i] != s[j]
}

proof fn lemma_insert_unique_props(s: Seq<Seq<char>>, x: Seq<char>)
    requires
        strictly_sorted(s),
    ensures
        strictly_sorted(insert_unique(s, x)),
        forall|y: Seq<char>| #[trigger] insert_unique(s, x).contains(y) <==> (s.contains(y) || y == x),
    decreases s.len(),
{
    if s.len() == 0 {
        assert(insert_unique(s, x) =~= seq![x]);
        assert forall|y: Seq<char>| #[trigger] insert_unique(s, x).contains(y) <==> (s.contains(y)
            || y == x) by {
            if y == x {
                assert(insert_unique(s, x)[0] == x);
            }
        }
    } else if s.last() == x {
        assert forall|y: Seq<char>| #[trigger] insert_unique(s, x).contains(y) <==> (s.contains(y)
            || y == x) by {
            if y == x {
                assert(s[s.len() - 1] == x);
            }
        }
    } else if lex_le(s.last(), x) {
        let r = s.push(x);
        assert forall|i: int, j: int| 0 <= i < j < r.len() implies lex_le(
            #[trigger] r[i],
            #[trigger] r[j],
        ) && r[i] != r[j] by {
            if j == s.len() {
                if i < s.len() - 1 {
                    assert(lex_le(s[i], s[s.len() - 1]) && s[i] != s[s.len() - 1]);
                    crate::keyboard_paths::lemma_lex_trans(s[i], s[s.len() - 1], x);
                    if s[i] == x {
                        crate::keyboard_paths::lemma_lex_antisym(s[s.len() - 1], x);
                    }
                }
            } else {
                assert(r[i] == s[i] && r[j] == s[j]);
            }
        }
        assert forall|y: Seq<char>| #[trigger] r.contains(y) <==> (s.contains(y) || y == x) by {
            if r.contains(y) {
                let k = choose|k: int| 0 <= k < r.len() && r[k] == y;
                if k < s.len() {
                    assert(s[k] == y);
                }
            }
            if s.contains(y) {
                let k = choose|k: int| 0 <= k < s.len() && s[k] == y;
                assert(r[k] == y);
            }
            if y == x {
                assert(r[s.len() as int] == x);
            }
        }
    } else {
        let d = s.drop_last();
        let l = s.last();
        assert(strictly_sorted(d)) by {
            assert forall|i: int, j: int| 0 <= i < j < d.len() implies lex_le(
                #[trigger] d[i],
                #[trigger] d[j],
            ) && d[i] != d[j] by {
                assert(d[i] == s[i] && d[j] == s[j]);
            }
        }
        lemma_insert_unique_props(d, x);
        let r = insert_unique(d, x);
        crate::keyboard_paths::lemma_lex_total(l, x);
        crate::keyboard_paths::lemma_lex_refl(l);
        assert forall|i: int| 0 <= i < r.len() implies lex_le(#[trigger] r[i], l) && r[i] != l by {
            assert(r.contains(r[i]));
            if r[i] != x {
                assert(d.contains(r[i]));
                let k = choose|k: int| 0 <= k < d.len() && d[k] == r[i];
                assert(s[k] == d[k]);
                assert(lex_le(s[k], s[s.len() - 1]) && s[k] != s[s.len() - 1]);
            }
        }
        let q = r.push(l);
        assert(insert_unique(s, x) == q);
        assert forall|i: int, j: int| 0 <= i < j < q.len() implies lex_le(
            #[trigger] q[i],
            #[trigger] q[j],
        ) && q[i] != q[j] by {
            if j == r.len() {
                assert(q[i] == r[i]);
            } else {
                assert(q[i] == r[i]);
                assert(q[j] == r[j]);
            }
        }
        assert forall|y: Seq<char>| #[trigger] q.contains(y) <==> (s.contains(y) || y == x) by {
            if q.contains(y) {
                let k = choose|k: int| 0 <= k < q.len() && q[k] == y;
                if k < r.len() {
                    assert(r[k] == y);
                    assert(r.contains(y));
                    if y != x {
                        assert(d.contains(y));
                        let m = choose|m: int| 0 <= m < d.len() && d[m] == y;
                        assert(s[m] == y);
                    }
                } else {
                    assert(s[s.len() - 1] == y);
                }
            }
            if s.contains(y) {
                let k = choose|k: int| 0 <= k < s.len() && s[k] == y;
                if k < s.len() - 1 {
                    assert(d[k] == y);
                    assert(d.contains(y));
                    assert(r.contains(y));
                    let m = choose|m: int| 0 <= m < r.len() && r[m] == y;
                    assert(q[m] == y);
                } else {
                    assert(q[r.len() as int] == y);
                }
            }
            if y == x {
                assert(r.contains(x));
                let m = choose|m: int| 0 <= m < r.len() && r[m] == x;
                assert(q[m] == x);
            }
        }
    }
}

/// Is the descriptor a link to `y`?
pub open spec fn link_to(r: Option<LinkRead>, y: Seq<char>) -> bool {
    match r {
        Some(LinkRead::Target(t)) => t@ == y,
        _ => false,
    }
}

/// The nodes listed for a holder come in name order, each once, and are
/// exactly the descriptor targets that are among the GPU's nodes.
pub proof fn lemma_held_nodes_are_the_sorted_set_of_matches(
    fds: Seq<Option<LinkRead>>,
    nodes: Seq<Seq<char>>,
    n: int,
)
    requires
        0 <= n <= fds.len(),
    ensures
        strictly_sorted(held_upto(fds, nodes, n)),
        forall|y: Seq<char>|
            #[trigger] held_upto(fds, nodes, n).contains(y) <==> (nodes.contains(y) && exists|k: int|
                0 <= k < n && #[trigger] link_to(fds[k], y)),
    decreases n,
{
    if n > 0 {
        lemma_held_nodes_are_the_sorted_set_of_matches(fds, nodes, n - 1);
        let prev = held_upto(fds, nodes, n - 1);
        match fds[n - 1] {
            Some(LinkRead::Target(t)) => {
                if nodes.contains(t@) {
                    lemma_insert_unique_props(prev, t@);
                }
            },
            _ => {},
        }
        let held = held_upto(fds, nodes, n);
        assert forall|y: Seq<char>| #[trigger] held.contains(y) <==> (nodes.contains(y) && exists|k: int|
            0 <= k < n && #[trigger] link_to(fds[k], y)) by {
            if held.contains(y) {
                if prev.contains(y) {
                    let k = choose|k: int| 0 <= k < n - 1 && #[trigger] link_to(fds[k], y);
                    assert(0 <= k < n && link_to(fds[k], y));
                } else {
                    match fds[n - 1] {
                        Some(LinkRead::Target(t)) => {
                            assert(nodes.contains(t@));
                            assert(insert_unique(prev, t@).contains(y));
                            assert(y == t@);
                            assert(link_to(fds[n - 1], y));
                        },
                        _ => {},
                    }
                }
            }
            if nodes.contains(y) && exists|k: int| 0 <= k < n && #[trigger] link_to(fds[k], y) {
                let k = choose|k: int| 0 <= k < n && #[trigger] link_to(fds[k], y);
                if k < n - 1 {
                    assert(prev.contains(y));
                    match fds[n - 1] {
                        Some(LinkRead::Target(t)) => {
                            if nodes.contains(t@) {
                                assert(insert_unique(prev, t@).contains(y));
                            }
                        },
                        _ => {},
                    }
                } else {
                    match fds[n - 1] {
                        Some(LinkRead::Target(t)) => {
                            assert(t@ == y);
                            assert(insert_unique(prev, t@).contains(y));
                        },
                        _ => {},
                    }
                }
            }
        }
    }
}

/// Does this `/proc` entry, a process, hold one of the nodes: a link among
/// its descriptors targets one of them?
pub open spec fn holds_a_node(e: ProcDir, nodes: Seq<Seq<char>>) -> bool {
    &&& parse_unsigned(e.name@, u32::MAX as nat) is Some
    &&& e.fds matches FdDir::Entries(v) && exists|k: int, y: Seq<char>|
        0 <= k < v@.len() && nodes.contains(y) && #[trigger] link_to(v@[k], y)
}

/// Did inspecting this `/proc` entry fail: it could not be read, or it is a
/// process whose descriptors could not be listed, or one of whose
/// descriptors could not be read (a process or descriptor that vanished
/// meanwhile is no failure)?
pub open spec fn inspection_failed(e: Option<ProcDir>) -> bool {
    match e {
        None => true,
        Some(d) => parse_unsigned(d.name@, u32::MAX as nat) is Some && match d.fds {
            FdDir::Failed => true,
            FdDir::Entries(v) => exists|k: int|
                0 <= k < v@.len() && (#[trigger] v@[k] matches None || v@[k] matches Some(
                    LinkRead::Failed,
                )),
            FdDir::Missing => false,
        },
    }
}

proof fn lemma_fd_failed_upto(fds: Seq<Option<LinkRead>>, n: int)
    requires
        0 <= n <= fds.len(),
    ensures
        fd_failed_upto(fds, n) <==> exists|k: int|
            0 <= k < n && (#[trigger] fds[k] matches None || fds[k] matches Some(LinkRead::Failed)),
    decreases n,
{
    if n > 0 {
        lemma_fd_failed_upto(fds, n - 1);
    }
}

proof fn lemma_holder_of(e: ProcDir, nodes: Seq<Seq<char>>)
    ensures
        holder_of(e, nodes).0 is Some <==> holds_a_node(e, nodes),
        holder_of(e, nodes).1 <==> inspection_failed(Some(e)),
{
    if let FdDir::Entries(v) = e.fds {
        lemma_held_nodes_are_the_sorted_set_of_matches(v@, nodes, v@.len() as int);
        lemma_fd_failed_upto(v@, v@.len() as int);
        let held = held_upto(v@, nodes, v@.len() as int);
        if held.len() > 0 {
            assert(held.contains(held[0]));
        }
        if exists|k: int, y: Seq<char>| 0 <= k < v@.len() && nodes.contains(y) && #[trigger] link_to(v@[k], y) {
            let (k, y) = choose|k: int, y: Seq<char>|
                0 <= k < v@.len() && nodes.contains(y) && #[trigger] link_to(v@[k], y);
            assert(held.contains(y));
        }
    }
}

proof fn lemma_holders_upto(es: Seq<Option<ProcDir>>, nodes: Seq<Seq<char>>, n: int)
    requires
        0 <= n <= es.len(),
    ensures
        holders_upto(es, nodes, n).1 <==> exists|k: int| 0 <= k < n && inspection_failed(#[trigger] es[k]),
        forall|k: int|
            0 <= k < n && (#[trigger] es[k] matches Some(d) && holds_a_node(d, nodes)) ==> holders_upto(
                es,
                nodes,
                n,
            ).0.contains(holder_of(es[k]->0, nodes).0->0),
        forall|h: HolderView|
            #[trigger] holders_upto(es, nodes, n).0.contains(h) ==> exists|k: int|
                0 <= k < n && (#[trigger] es[k] matches Some(d) && holds_a_node(d, nodes) && holder_of(
                    d,
                    nodes,
                ).0 == Some(h)),
    decreases n,
{
    if n > 0 {
        lemma_holders_upto(es, nodes, n - 1);
        let prev = holders_upto(es, nodes, n - 1);
        let cur = holders_upto(es, nodes, n);
        if let Some(d) = es[n - 1] {
            lemma_holder_of(d, nodes);
        }
        assert forall|k: int|
            0 <= k < n && (#[trigger] es[k] matches Some(d) && holds_a_node(d, nodes)) implies cur.0.contains(
            holder_of(es[k]->0, nodes).0->0,
        ) by {
            if k < n - 1 {
                assert(prev.0.contains(holder_of(es[k]->0, nodes).0->0));
                let i = choose|i: int| 0 <= i < prev.0.len() && prev.0[i] == holder_of(es[k]->0, nodes).0->0;
                if let Some(d) = es[n - 1] {
                    if let Some(x) = holder_of(d, nodes).0 {
                        assert(cur.0[i] == prev.0[i]);
                    }
                }
            } else {
                let x = holder_of(es[k]->0, nodes).0->0;
                assert(cur.0 == prev.0.push(x));
                assert(cur.0[prev.0.len() as int] == x);
            }
        }
        assert forall|h: HolderView| #[trigger] cur.0.contains(h) implies exists|k: int|
            0 <= k < n && (#[trigger] es[k] matches Some(d) && holds_a_node(d, nodes) && holder_of(
                d,
                nodes,
            ).0 == Some(h)) by {
            let i = choose|i: int| 0 <= i < cur.0.len() && cur.0[i] == h;
            if i < prev.0.len() {
                if let Some(d) = es[n - 1] {
                    if let Some(x) = holder_of(d, nodes).0 {
                        assert(cur.0[i] == prev.0[i]);
                    }
                }
                assert(prev.0.contains(h));
                let k = choose|k: int|
                    0 <= k < n - 1 && (#[trigger] es[k] matches Some(d) && holds_a_node(d, nodes)
                        && holder_of(d, nodes).0 == Some(h));
                assert(0 <= k < n);
            } else {
                assert(es[n - 1] is Some);
                assert(holder_of(es[n - 1]->0, nodes).0 == Some(h));
            }
        }
        if cur.1 {
            if prev.1 {
                let k = choose|k: int| 0 <= k < n - 1 && inspection_failed(#[trigger] es[k]);
                assert(0 <= k < n);
            } else {
                assert(inspection_failed(es[n - 1]));
            }
        }
        if exists|k: int| 0 <= k < n && inspection_failed(#[trigger] es[k]) {
            let k = choose|k: int| 0 <= k < n && inspection_failed(#[trigger] es[k]);
            if k < n - 1 {
                assert(prev.1);
            }
        }
    }
}

/// The scan of a listed `/proc`: it is complete exactly when no inspection
/// failed, and it lists a holder for exactly the processes that hold one of
/// the nodes, each the holder that process is.
pub proof fn lemma_scan_lists_exactly_the_holding_processes(es: Seq<Option<ProcDir>>, nodes: Seq<Seq<char>>)
    ensures
        snapshot_of(Some(es), nodes).0 <==> !exists|k: int|
            0 <= k < es.len() && inspection_failed(#[trigger] es[k]),
        forall|k: int|
            0 <= k < es.len() && (#[trigger] es[k] matches Some(d) && holds_a_node(d, nodes))
                ==> snapshot_of(Some(es), nodes).1.contains(holder_of(es[k]->0, nodes).0->0),
        forall|h: HolderView|
            #[trigger] snapshot_of(Some(es), nodes).1.contains(h) ==> exists|k: int|
                0 <= k < es.len() && (#[trigger] es[k] matches Some(d) && holds_a_node(d, nodes)
                    && holder_of(d, nodes).0 == Some(h)),
{
    broadcast use vstd::seq_lib::group_to_multiset_ensures;

    let h = holders_upto(es, nodes, es.len() as int);
    lemma_holders_upto(es, nodes, es.len() as int);
    lemma_holders_are_listed_in_pid_order(h.0);
    let sorted = sort_by_pid(h.0);
    assert forall|x: HolderView| #[trigger] sorted.contains(x) <==> h.0.contains(x) by {
        assert(sorted.to_multiset().count(x) == h.0.to_multiset().count(x));
    }
}

/// Strings, compared as `String` orders them.
fn text_le(a: &String, b: &String) -> (r: bool)
    ensures
        r == lex_le(a@, b@),
{
    crate::keyboard_paths::lex_le_text(a.as_str(), b.as_str())
}

fn add_held(held: &mut Vec<String>, t: &String)
    ensures
        text_views(final(held)@) == insert_unique(text_views(old(held)@), t@),
{
    let ghost hv = text_views(held@);
    let mut j: usize = held.len();
    while j > 0 && !text_le(&held[j - 1], t)
        invariant
            hv == text_views(held@),
            j <= held@.len(),
            forall|k: int| j <= k < held@.len() ==> !lex_le(#[trigger] hv[k], t@),
        decreases j,
    {
        proof {
            assert(hv[j - 1] == held@[j - 1]@);
        }
        j = j - 1;
    }
    if j > 0 {
        proof {
            assert(hv[j - 1] == held@[j - 1]@);
        }
        let same = chars_eq(chars_of(held[j - 1].as_str()).as_slice(), chars_of(t.as_str()).as_slice());
        if same {
            proof {
                lemma_insert_unique_present(hv, t@, j - 1);
            }
            return;
        }
    }
    proof {
        lemma_insert_unique_at(hv, t@, j as int);
    }
    let c = string_of(chars_of(t.as_str()).as_slice());
    held.insert(j, c);
    proof {
        assert(text_views(held@) =~= hv.subrange(0, j as int).push(t@) + hv.subrange(
            j as int,
            hv.len() as int,
        ));
    }
}

fn is_node(nodes: &Vec<String>, t: &String) -> (r: bool)
    ensures
        r == text_views(nodes@).contains(t@),
{
    let ghost nv = text_views(nodes@);
    let tc = chars_of(t.as_str());
    let mut i: usize = 0;
    while i < nodes.len()
        invariant
            nv == text_views(nodes@),
            tc@ == t@,
            i <= nodes@.len(),
            forall|q: int| 0 <= q < i ==> nv[q] != t@,
        decreases nodes@.len() - i,
    {
        proof {
            assert(nv[i as int] == nodes@[i as int]@);
        }
        if chars_eq(chars_of(nodes[i].as_str()).as_slice(), tc.as_slice()) {
            return true;
        }
        i = i + 1;
    }
    false
}

fn inspect(e: &ProcDir, nodes: &Vec<String>) -> (r: (Option<GpuProcess>, bool))
    ensures
        (match r.0 {
            Some(p) => Some(process_view(p)),
            None => None,
        }, r.1) == holder_of(*e, text_views(nodes@)),
{
    let name = chars_of(e.name.as_str());
    let pid = match parse_unsigned_chars(name.as_slice(), 0xffff_ffff) {
        None => return (None, false),
        Some(p) => p as u32,
    };
    match &e.fds {
        FdDir::Missing => (None, false),
        FdDir::Failed => (None, true),
        FdDir::Entries(v) => {
            let ghost nv = text_views(nodes@);
            let mut held: Vec<String> = Vec::new();
            let mut failed = false;
            let mut k: usize = 0;
            while k < v.len()
                invariant
                    nv == text_views(nodes@),
                    k <= v@.len(),
                    text_views(held@) == held_upto(v@, nv, k as int),
                    failed == fd_failed_upto(v@, k as int),
                decreases v@.len() - k,
            {
                match &v[k] {
                    None => {
                        failed = true;
                    },
                    Some(LinkRead::Failed) => {
                        failed = true;
                    },
                    Some(LinkRead::Vanished) => {},
                    Some(LinkRead::Target(t)) => {
                        if is_node(nodes, t) {
                            add_held(&mut held, t);
                        }
                    },
                }
                k = k + 1;
            }
            if held.len() > 0 {
                let comm = match &e.comm {
                    Some(c) => chars_of(c.as_str()),
                    None => chars_of("<exited or inaccessible>"),
                };
                let n = string_of(trim_ws_chars(comm.as_slice()).as_slice());
                (Some(GpuProcess { pid, name: n, device_nodes: held }), failed)
            } else {
                (None, failed)
            }
        },
    }
}

proof fn lemma_insert_by_pid_at(s: Seq<HolderView>, x: HolderView, j: int)
    requires
        0 <= j <= s.len(),
        forall|k: int| j <= k < s.len() ==> (#[trigger] s[k]).0 > x.0,
        j == 0 || s[j - 1].0 <= x.0,
    ensures
        insert_by_pid(s, x) == s.subrange(0, j).push(x) + s.subrange(j, s.len() as int),
    decreases s.len(),
{
    if s.len() == 0 {
        assert(s.subrange(0, j).push(x) + s.subrange(j, s.len() as int) =~= seq![x]);
    } else if s.last().0 <= x.0 {
        assert(j == s.len());
        assert(s.subrange(0, j).push(x) + s.subrange(j, s.len() as int) =~= s.push(x));
    } else {
        let d = s.drop_last();
        assert forall|k: int| j <= k < d.len() implies (#[trigger] d[k]).0 > x.0 by {
            assert(d[k] == s[k]);
        }
        lemma_insert_by_pid_at(d, x, j);
        assert(s.subrange(0, j).push(x) + s.subrange(j, s.len() as int) =~= (d.subrange(0, j).push(
            x,
        ) + d.subrange(j, d.len() as int)).push(s.last()));
    }
}

fn sort_processes(v: Vec<GpuProcess>) -> (r: Vec<GpuProcess>)
    ensures
        process_views(r@) == sort_by_pid(process_views(v@)),
{
    let ghost pv = process_views(v@);
    let mut out: Vec<GpuProcess> = Vec::new();
    let mut rest = v;
    let ghost all = rest@;
    let mut i: usize = 0;
    let n = rest.len();
    let mut items: Vec<GpuProcess> = Vec::new();
    while rest.len() > 0
        invariant
            rest@.len() + items@.len() == all.len(),
            forall|q: int| 0 <= q < items@.len() ==> #[trigger] items@[q] == all[all.len() - 1 - q],
            forall|q: int| 0 <= q < rest@.len() ==> #[trigger] rest@[q] == all[q],
        decreases rest@.len(),
    {
        let p = rest.pop().unwrap();
        items.push(p);
    }
    while i < n
        invariant
            n == all.len(),
            pv == process_views(all),
            i <= n,
            items@.len() == n - i,
            forall|q: int| 0 <= q < n - i ==> #[trigger] items@[q] == all[all.len() - 1 - q],
            process_views(out@) == sort_by_pid(pv.subrange(0, i as int)),
        decreases n - i,
    {
        let x = items.pop().unwrap();
        proof {
            assert(x == all[i as int]);
            assert(pv[i as int] == process_view(x));
        }
        let ghost ov = process_views(out@);
        let mut j: usize = out.len();
        while j > 0 && out[j - 1].pid > x.pid
            invariant
                ov == process_views(out@),
                j <= out@.len(),
                forall|k: int| j <= k < out@.len() ==> (#[trigger] ov[k]).0 > x.pid,
            decreases j,
        {
            proof {
                assert(ov[j - 1] == process_view(out@[j - 1]));
            }
            j = j - 1;
        }
        proof {
            if j > 0 {
                assert(ov[j - 1] == process_view(out@[j - 1]));
            }
            lemma_insert_by_pid_at(ov, process_view(x), j as int);
            assert(pv.subrange(0, i + 1).drop_last() =~= pv.subrange(0, i as int));
        }
        out.insert(j, x);
        proof {
            assert(process_views(out@) =~= ov.subrange(0, j as int).push(process_view(x)) + ov.subrange(
                j as int,
                ov.len() as int,
            ));
        }
        i = i + 1;
    }
    proof {
        assert(pv.subrange(0, n as int) =~= pv);
    }
    out
}

/// Who holds the device nodes `nodes` open, from a `/proc` listing taken at
/// `at` (see `snapshot_of`).
pub fn holders_snapshot(proc_entries: Option<&Vec<Option<ProcDir>>>, nodes: &Vec<String>, at: u64) -> (r:
    GpuProcessSnapshot)
    ensures
        r.sampled_at_unix_secs == at,
        (r.complete, process_views(r.processes@)) == snapshot_of(
            match proc_entries {
                Some(v) => Some(v@),
                None => None,
            },
            text_views(nodes@),
        ),
{
    match proc_entries {
        None => {
            let p: Vec<GpuProcess> = Vec::new();
            proof {
                assert(process_views(p@) =~= Seq::<HolderView>::empty());
            }
            GpuProcessSnapshot { sampled_at_unix_secs: at, complete: false, processes: p }
        },
        Some(entries) => {
            let ghost nv = text_views(nodes@);
            let mut found: Vec<GpuProcess> = Vec::new();
            let mut failed = false;
            let mut k: usize = 0;
            while k < entries.len()
                invariant
                    nv == text_views(nodes@),
                    proc_entries == Some(entries),
                    k <= entries@.len(),
                    (process_views(found@), failed) == holders_upto(entries@, nv, k as int),
                decreases entries@.len() - k,
            {
                match &entries[k] {
                    None => {
                        failed = true;
                    },
                    Some(e) => {
                        let (h, f) = inspect(e, nodes);
                        match h {
                            Some(p) => {
                                let ghost before = process_views(found@);
                                found.push(p);
                                proof {
                                    assert(process_views(found@) =~= before.push(process_view(p)));
                                }
                            },
                            None => {},
                        }
                        failed = failed || f;
                    },
                }
                k = k + 1;
            }
            let processes = sort_processes(found);
            GpuProcessSnapshot { sampled_at_unix_secs: at, complete: !failed, processes }
        },
    }
}

/// A DRM entry of the adapter that is a device node: a `card*` or
/// `renderD*` name that is not a connector (no '-').
pub open spec fn is_drm_node(name: Seq<char>) -> bool {
    (starts_with(name, "card"@) || starts_with(name, "renderD"@)) && !name.contains('-')
}

/// The NVIDIA minors named on "Device Minor:" lines among the first `n`.
pub open spec fn nvidia_minors_upto(lines: Seq<Seq<char>>, n: int) -> Seq<Seq<char>>
    decreases n,
{
    if n <= 0 {
        Seq::empty()
    } else {
        let prev = nvidia_minors_upto(lines, n - 1);
        let l = lines[n - 1];
        if starts_with(l, "Device Minor:"@) {
            match parse_unsigned(trim_ws(l.subrange(13, l.len() as int)), u32::MAX as nat) {
                Some(m) => prev.push("/dev/nvidia"@ + decimal(m)),
                None => prev,
            }
        } else {
            prev
        }
    }
}

pub open spec fn drm_nodes_upto(names: Seq<String>, n: int) -> Seq<Seq<char>>
    decreases n,
{
    if n <= 0 {
        Seq::empty()
    } else if is_drm_node(names[n - 1]@) {
        drm_nodes_upto(names, n - 1).push("/dev/dri/"@ + names[n - 1]@)
    } else {
        drm_nodes_upto(names, n - 1)
    }
}

/// The device nodes of an adapter: its DRM nodes (`/dev/dri/<name>`, from
/// the names under its `drm` directory) and its NVIDIA nodes
/// (`/dev/nvidia<minor>`, from the driver's information file).
pub open spec fn device_nodes_of(drm: Option<Seq<String>>, nvidia_info: Option<Seq<char>>) -> Seq<Seq<char>> {
    (match drm {
        Some(names) => drm_nodes_upto(names, names.len() as int),
        None => Seq::empty(),
    }) + match nvidia_info {
        Some(info) => nvidia_minors_upto(text_lines(info), text_lines(info).len() as int),
        None => Seq::empty(),
    }
}

pub fn device_nodes(drm: Option<&Vec<String>>, nvidia_info: Option<&str>) -> (r: Vec<String>)
    ensures
        text_views(r@) == device_nodes_of(
            match drm {
                Some(v) => Some(v@),
                None => None,
            },
            match nvidia_info {
                Some(i) => Some(i@),
                None => None,
            },
        ),
{
    let mut nodes: Vec<String> = Vec::new();
    match drm {
        Some(names) => {
            let card = chars_of("card");
            let render = chars_of("renderD");
            let mut k: usize = 0;
            while k < names.len()
                invariant
                    card@ == "card"@,
                    render@ == "renderD"@,
                    k <= names@.len(),
                    text_views(nodes@) == drm_nodes_upto(names@, k as int),
                decreases names@.len() - k,
            {
                let n = chars_of(names[k].as_str());
                let mut dash = false;
                let mut j: usize = 0;
                while j < n.len()
                    invariant
                        j <= n@.len(),
                        dash == exists|q: int| 0 <= q < j && n@[q] == '-',
                    decreases n@.len() - j,
                {
                    if n[j] == '-' {
                        dash = true;
                    }
                    j = j + 1;
                }
                proof {
                    if n@.contains('-') {
                        let q = choose|q: int| 0 <= q < n@.len() && n@[q] == '-';
                        assert(dash);
                    }
                }
                if (starts_with_chars(n.as_slice(), card.as_slice()) || starts_with_chars(
                    n.as_slice(),
                    render.as_slice(),
                )) && !dash {
                    let mut p = String::new();
                    push_text(&mut p, "/dev/dri/");
                    push_text(&mut p, names[k].as_str());
                    let ghost before = text_views(nodes@);
                    nodes.push(p);
                    proof {
                        assert(text_views(nodes@) =~= before.push(p@));
                    }
                }
                k = k + 1;
            }
        },
        None => {},
    }
    let ghost drm_part = text_views(nodes@);
    match nvidia_info {
        Some(info) => {
            let lines = lines_of(info);
            let ghost lv = char_vec_views(lines@);
            let key = chars_of("Device Minor:");
            let mut k: usize = 0;
            proof {
                reveal_strlit("Device Minor:");
            }
            while k < lines.len()
                invariant
                    lv == char_vec_views(lines@),
                    lv == text_lines(info@),
                    key@ == "Device Minor:"@,
                    key@.len() == 13,
                    k <= lines@.len(),
                    text_views(nodes@) == drm_part + nvidia_minors_upto(lv, k as int),
                decreases lines@.len() - k,
            {
                let l = &lines[k];
                proof {
                    assert(lv[k as int] == l@);
                }
                if starts_with_chars(l.as_slice(), key.as_slice()) {
                    let mut rest: Vec<char> = Vec::new();
                    let mut j: usize = 13;
                    while j < l.len()
                        invariant
                            13 <= j <= l@.len(),
                            rest@ == l@.subrange(13, j as int),
                        decreases l@.len() - j,
                    {
                        rest.push(l[j]);
                        j = j + 1;
                    }
                    let t = trim_ws_chars(rest.as_slice());
                    match parse_unsigned_chars(t.as_slice(), 0xffff_ffff) {
                        Some(m) => {
                            let mut p = String::new();
                            push_text(&mut p, "/dev/nvidia");
                            push_decimal(&mut p, m);
                            let ghost before = text_views(nodes@);
                            nodes.push(p);
                            proof {
                                assert(text_views(nodes@) =~= before.push(p@));
                            }
                        },
                        None => {},
                    }
                }
                k = k + 1;
            }
        },
        None => {},
    }
    proof {
        assert(text_views(nodes@) =~= device_nodes_of(
            match drm {
                Some(v) => Some(v@),
                None => None,
            },
            match nvidia_info {
                Some(i) => Some(i@),
                None => None,
            },
        ));
    }
    nodes
}


/// How long a holder snapshot is reused, in seconds.
pub const HOLDER_CACHE_SECS: u64 = 5;

/// Must the holders be scanned again: nothing cached, or the cached
/// snapshot (taken at `cached_at_ms` on a monotonic clock) is at least five
/// whole seconds old?
pub fn holders_stale(cached_at_ms: Option<u64>, now_ms: u64) -> (r: bool)
    ensures
        r == match cached_at_ms {
            None => true,
            Some(t) => now_ms >= t && (now_ms - t) / 1000 >= HOLDER_CACHE_SECS,
        },
{
    match cached_at_ms {
        None => true,
        Some(t) => now_ms >= t && (now_ms - t) / 1000 >= HOLDER_CACHE_SECS,
    }
}

} // verus!
