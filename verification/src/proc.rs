//! The process and capability table. A process is kernel bookkeeping: a
//! pid, a name and the capabilities it holds.

use vstd::prelude::*;
use crate::abi::{Capability, Pid, caps_view};
use crate::text::{chars_of, dec, pad_left, pad_right, push_dec, push_str, push_all, push_spaces, string_of};

verus! {

/// The number of the shell's pid: the first process registered.
pub const SHELL_PID: u32 = 1;

/// A registered process.
pub struct Process {
    pub name: String,
    pub caps: Vec<Capability>,
}

/// What the table knows of a process: its name and its capabilities.
pub type ProcView = (Seq<char>, Seq<(u8, Seq<char>)>);

/// The view of a process.
pub open spec fn proc_view(p: Process) -> ProcView {
    (p.name@, caps_view(p.caps@))
}

/// The minimal grant of a newly registered process: its own windows.
pub fn default_caps() -> (r: Vec<Capability>)
    ensures
        caps_view(r@) == seq![(0u8, Seq::<char>::empty())],
{
    let r = vec![Capability::WinOwn];
    assert(caps_view(r@) =~= seq![(0u8, Seq::<char>::empty())]);
    r
}

/// The root scope `/`.
pub open spec fn root_scope() -> Seq<char> {
    seq!['/']
}

/// The shell's grant, listed explicitly.
pub open spec fn shell_caps_spec() -> Seq<(u8, Seq<char>)> {
    seq![
        (0u8, Seq::empty()),
        (11u8, Seq::empty()),
        (12u8, Seq::empty()),
        (3u8, Seq::empty()),
        (9u8, Seq::empty()),
        (10u8, Seq::empty()),
        (8u8, Seq::empty()),
        (6u8, Seq::empty()),
        (7u8, Seq::empty()),
        (1u8, root_scope()),
        (2u8, root_scope()),
    ]
}

/// Everything the shell needs: windows, system queries, app spawning,
/// notes, raw hands, voice, physics, the network for the LLM, prompting,
/// and read and write access to the whole file tree.
pub fn shell_caps() -> (r: Vec<Capability>)
    ensures
        caps_view(r@) == shell_caps_spec(),
{
    proof {
        reveal_strlit("/");
    }
    let r = vec![
        Capability::WinOwn,
        Capability::SysQuery,
        Capability::ProcSpawnApp,
        Capability::NotesRead,
        Capability::InputRawHands,
        Capability::VoiceInput,
        Capability::PhysSpawn,
        Capability::NetLlm,
        Capability::AiPrompt,
        Capability::FsRead(String::from_str("/")),
        Capability::FsWrite(String::from_str("/")),
    ];
    assert("/"@ =~= root_scope());
    assert(caps_view(r@) =~= shell_caps_spec());
    r
}

/// `s` without its trailing slashes.
pub open spec fn trim_end_slashes(s: Seq<char>) -> Seq<char>
    decreases s.len(),
{
    if s.len() > 0 && s.last() == '/' {
        trim_end_slashes(s.drop_last())
    } else {
        s
    }
}

/// A scope grants a path when, without trailing slashes, it is empty, or
/// equals the path, or is followed in the path by a `/`.
pub open spec fn scope_matches_spec(scope: Seq<char>, path: Seq<char>) -> bool {
    let t = trim_end_slashes(scope);
    t.len() == 0 || path == t || t.push('/').is_prefix_of(path)
}

proof fn lemma_trim_is(s: Seq<char>, n: int)
    requires
        0 <= n <= s.len(),
        n == 0 || s[n - 1] != '/',
        forall|k: int| n <= k < s.len() ==> s[k] == '/',
    ensures
        trim_end_slashes(s) == s.take(n),
    decreases s.len(),
{
    if s.len() > 0 && s.last() == '/' {
        assert(n < s.len());
        lemma_trim_is(s.drop_last(), n);
        assert(s.drop_last().take(n) =~= s.take(n));
    } else {
        assert(n == s.len());
        assert(s.take(n) =~= s);
    }
}

/// What trimming keeps: a prefix, followed only by slashes, that is empty
/// or ends in something else.
proof fn lemma_trim_shape(s: Seq<char>)
    ensures
        trim_end_slashes(s).len() <= s.len(),
        trim_end_slashes(s) == s.take(trim_end_slashes(s).len() as int),
        forall|k: int| trim_end_slashes(s).len() <= k < s.len() ==> s[k] == '/',
        trim_end_slashes(s).len() == 0 || trim_end_slashes(s).last() != '/',
    decreases s.len(),
{
    if s.len() > 0 && s.last() == '/' {
        let t = s.drop_last();
        lemma_trim_shape(t);
        assert(t.take(trim_end_slashes(t).len() as int) =~= s.take(trim_end_slashes(t).len() as int));
        assert forall|k: int| trim_end_slashes(s).len() <= k < s.len() implies s[k] == '/' by {
            if k < s.len() - 1 {
                assert(t[k] == s[k]);
            }
        }
    } else {
        assert(s.take(s.len() as int) =~= s);
    }
}

/// Scopes nest: a scope that grants another scope's path grants every
/// path that the other scope grants.
pub(crate) proof fn lemma_scope_trans(outer: Seq<char>, inner: Seq<char>, path: Seq<char>)
    requires
        scope_matches_spec(outer, inner),
        scope_matches_spec(inner, path),
    ensures
        scope_matches_spec(outer, path),
{
    let t = trim_end_slashes(outer);
    let s = trim_end_slashes(inner);
    lemma_trim_shape(outer);
    lemma_trim_shape(inner);
    if t.len() > 0 {
        let n = t.len() as int;
        assert(inner.len() >= n && inner.take(n) =~= t) by {
            if inner != t {
                assert(t.push('/').is_prefix_of(inner));
                assert forall|k: int| 0 <= k < n implies inner[k] == t[k] by {
                    assert(t.push('/')[k] == t[k]);
                }
            }
        }
        assert(inner[n - 1] == t.last());
        assert(s.len() >= n);
        assert(s.take(n) =~= t) by {
            assert forall|k: int| 0 <= k < n implies s[k] == t[k] by {
                assert(s[k] == inner.take(s.len() as int)[k]);
                assert(inner.take(n)[k] == inner[k]);
            }
        }
        if s.len() > n {
            assert(inner != t);
            assert(t.push('/').is_prefix_of(inner));
            assert(inner[n] == t.push('/')[n]);
            assert(s[n] == '/') by {
                assert(s[n] == inner.take(s.len() as int)[n]);
            }
            assert(t.push('/').is_prefix_of(s)) by {
                assert forall|k: int| 0 <= k < n + 1 implies t.push('/')[k] == s[k] by {
                    if k < n {
                        assert(s.take(n)[k] == s[k]);
                    }
                }
                assert(s.subrange(0, n + 1) =~= t.push('/'));
            }
            if path == s {
                assert(path.subrange(0, n + 1) =~= s.subrange(0, n + 1));
            } else {
                assert(s.push('/').is_prefix_of(path));
                assert(path.subrange(0, n + 1) =~= t.push('/')) by {
                    assert forall|k: int| 0 <= k < n + 1 implies path[k] == t.push('/')[k] by {
                        assert(s.push('/')[k] == s[k]);
                        assert(path.subrange(0, s.len() as int + 1)[k] == path[k]);
                    }
                }
            }
        } else {
            assert(s =~= t);
        }
    }
}

/// Whether `scope` grants `path` (see [`scope_matches_spec`]).
pub fn scope_matches(scope: &str, path: &str) -> (r: bool)
    ensures
        r == scope_matches_spec(scope@, path@),
{
    let s = chars_of(scope);
    let p = chars_of(path);
    let mut n: usize = s.len();
    while n > 0 && s[n - 1] == '/'
        invariant
            n <= s.len(),
            forall|k: int| n <= k < s.len() ==> s@[k] == '/',
        decreases n,
    {
        n -= 1;
    }
    proof {
        lemma_trim_is(s@, n as int);
    }
    let ghost t = s@.take(n as int);
    if n == 0 {
        return true;
    }
    // path == t ?
    if p.len() == n {
        let mut i: usize = 0;
        let mut same = true;
        while i < n
            invariant
                t == s@.take(n as int),
                i <= n,
                n <= s.len(),
                p.len() == n,
                same == (forall|j: int| 0 <= j < i ==> p@[j] == s@[j]),
            decreases n - i,
        {
            if p[i] != s[i] {
                same = false;
            }
            i += 1;
        }
        if same {
            assert(p@ =~= t);
            return true;
        }
        assert(p@ != t) by {
            if p@ == t {
                assert(forall|j: int| 0 <= j < n ==> p@[j] == s@[j]);
            }
        }
        assert(!t.push('/').is_prefix_of(p@));
        return false;
    }
    if p.len() <= n {
        assert(!t.push('/').is_prefix_of(p@));
        return false;
    }
    if p[n] != '/' {
        assert(t.push('/')[n as int] == '/');
        return false;
    }
    let mut i: usize = 0;
    while i < n
        invariant
            t == s@.take(n as int),
            i <= n,
            n <= s.len(),
            n < p.len(),
            n > 0,
            s@ == scope@,
            p@ == path@,
            trim_end_slashes(scope@) == t,
            forall|j: int| 0 <= j < i ==> p@[j] == s@[j],
        decreases n - i,
    {
        if p[i] != s[i] {
            assert(t[i as int] == s@[i as int]);
            assert(t.push('/')[i as int] == s@[i as int]);
            assert(p@.len() != t.len());
            assert(!t.push('/').is_prefix_of(p@));
            return false;
        }
        i += 1;
    }
    assert(t.push('/').is_prefix_of(p@)) by {
        assert forall|j: int| 0 <= j < t.push('/').len() implies t.push('/')[j] == p@[j] by {
            if j < n {
            } else {
            }
        }
    }
    true
}

/// The process table.
pub struct ProcessTable {
    next: u32,
    procs: Vec<(Pid, Process)>,
}

/// The views of a sequence of table entries, in order.
pub open spec fn entries_view(s: Seq<(Pid, Process)>) -> Seq<(u32, ProcView)> {
    s.map_values(|e: (Pid, Process)| (e.0.0, proc_view(e.1)))
}

/// A sequence of keyed entries whose keys strictly increase.
pub open spec fn keys_increasing(s: Seq<(u32, ProcView)>) -> bool {
    forall|i: int, j: int| 0 <= i < j < s.len() ==> s[i].0 < s[j].0
}

/// The map from the keys of an entry sequence to their values.
pub open spec fn entries_map(s: Seq<(u32, ProcView)>) -> Map<u32, ProcView> {
    Map::new(
        |k: u32| exists|i: int| 0 <= i < s.len() && s[i].0 == k,
        |k: u32| s[choose|i: int| 0 <= i < s.len() && s[i].0 == k].1,
    )
}

/// Whether process `pid` holds `cap` in a table view.
pub open spec fn holds(m: Map<u32, ProcView>, pid: u32, cap: (u8, Seq<char>)) -> bool {
    m.contains_key(pid) && m[pid].1.contains(cap)
}

/// Whether a capability view grants access to `path`: an `FsWrite` whose
/// scope matches, or, for reads, an `FsRead` whose scope matches.
pub open spec fn fs_grants(c: (u8, Seq<char>), path: Seq<char>, write: bool) -> bool {
    (c.0 == 2 || (c.0 == 1 && !write)) && scope_matches_spec(c.1, path)
}

/// Whether process `pid` may read (or write) `path` in a table view.
pub open spec fn fs_allowed(m: Map<u32, ProcView>, pid: u32, path: Seq<char>, write: bool) -> bool {
    m.contains_key(pid) && exists|j: int|
        0 <= j < m[pid].1.len() && #[trigger] fs_grants(m[pid].1[j], path, write)
}

/// The capability list after granting `new` in order: each one not yet
/// held is appended.
pub open spec fn grant_spec(held: Seq<(u8, Seq<char>)>, new: Seq<(u8, Seq<char>)>) -> Seq<(u8, Seq<char>)>
    decreases new.len(),
{
    if new.len() == 0 {
        held
    } else {
        let g = grant_spec(held, new.drop_last());
        if g.contains(new.last()) {
            g
        } else {
            g.push(new.last())
        }
    }
}

/// The header of the process listing.
pub open spec fn listing_header() -> Seq<char> {
    " PID  NAME           GRANTS\n"@
}

/// One row of the process listing: the pid right-aligned in 4 columns,
/// two spaces, the name left-aligned in 14, a space and the grant count.
pub open spec fn row_text(pid: nat, name: Seq<char>, ncaps: nat) -> Seq<char> {
    pad_left(dec(pid), 4) + "  "@ + pad_right(name, 14) + " "@ + dec(ncaps) + " caps"@ + seq!['\n']
}

/// The listing row of an entry.
pub open spec fn listing_row(e: (u32, ProcView)) -> Seq<char> {
    row_text(e.0 as nat, e.1.0, e.1.1.len())
}

fn push_row(out: &mut Vec<char>, pid: u32, name: &str, ncaps: usize)
    ensures
        final(out)@ == old(out)@ + row_text(pid as nat, name@, ncaps as nat),
{
    let ghost before = out@;
    let mut num: Vec<char> = Vec::new();
    push_dec(&mut num, pid as u64);
    if num.len() < 4 {
        push_spaces(out, 4 - num.len());
    }
    push_all(out, &num);
    push_str(out, "  ");
    let name_chars = chars_of(name);
    push_all(out, &name_chars);
    if name_chars.len() < 14 {
        push_spaces(out, 14 - name_chars.len());
    }
    push_str(out, " ");
    push_dec(out, ncaps as u64);
    push_str(out, " caps");
    out.push('\n');
    assert(out@ =~= before + row_text(pid as nat, name@, ncaps as nat));
}

/// The rows of a sequence of entries, concatenated.
pub open spec fn listing_rows(s: Seq<(u32, ProcView)>) -> Seq<char>
    decreases s.len(),
{
    if s.len() == 0 {
        Seq::empty()
    } else {
        listing_rows(s.drop_last()) + listing_row(s.last())
    }
}

/// In an entry sequence with increasing keys, the entry at `i` is the one
/// the map finds for its key.
pub proof fn lemma_entries_map_index(s: Seq<(u32, ProcView)>, i: int)
    requires
        keys_increasing(s),
        0 <= i < s.len(),
    ensures
        entries_map(s).contains_key(s[i].0),
        entries_map(s)[s[i].0] == s[i].1,
{
    let k = s[i].0;
    assert(0 <= i < s.len() && s[i].0 == k);
    let j = choose|j: int| 0 <= j < s.len() && s[j].0 == k;
    if j < i {
    } else if j > i {
    }
}

/// An entry sequence in increasing key order is determined by the map it
/// gives: two such sequences with the same map are equal, so the rows of
/// the process listing are fixed by the table's view, in ascending pid
/// order.
pub proof fn law_entries_unique(a: Seq<(u32, ProcView)>, b: Seq<(u32, ProcView)>)
    requires
        keys_increasing(a),
        keys_increasing(b),
        entries_map(a) == entries_map(b),
    ensures
        a == b,
    decreases a.len() + b.len(),
{
    if a.len() == 0 || b.len() == 0 {
        if b.len() > 0 {
            lemma_entries_map_index(b, 0);
        }
        if a.len() > 0 {
            lemma_entries_map_index(a, 0);
        }
        assert(a =~= b);
    } else {
        let la = a.last();
        let lb = b.last();
        lemma_entries_map_index(a, a.len() - 1);
        lemma_entries_map_index(b, b.len() - 1);
        let i = choose|i: int| 0 <= i < b.len() && b[i].0 == la.0;
        let j = choose|j: int| 0 <= j < a.len() && a[j].0 == lb.0;
        assert(la.0 <= lb.0) by {
            if i < b.len() - 1 {
            }
        }
        assert(lb.0 <= la.0) by {
            if j < a.len() - 1 {
            }
        }
        let a0 = a.drop_last();
        let b0 = b.drop_last();
        assert(a =~= a0.push(la));
        assert(b =~= b0.push(lb));
        lemma_entries_map_push(a0, la);
        lemma_entries_map_push(b0, lb);
        assert(entries_map(a0) =~= entries_map(a).remove(la.0));
        assert(entries_map(b0) =~= entries_map(b).remove(lb.0));
        law_entries_unique(a0, b0);
    }
}

/// Appending an entry with a key above all others inserts it in the map.
pub proof fn lemma_entries_map_push(s: Seq<(u32, ProcView)>, e: (u32, ProcView))
    requires
        keys_increasing(s),
        forall|i: int| 0 <= i < s.len() ==> s[i].0 < e.0,
    ensures
        keys_increasing(s.push(e)),
        !entries_map(s).contains_key(e.0),
        entries_map(s.push(e)) == entries_map(s).insert(e.0, e.1),
{
    let t = s.push(e);
    let m = entries_map(s).insert(e.0, e.1);
    assert forall|k: u32| #[trigger] entries_map(t).contains_key(k) == m.contains_key(k) by {
        if entries_map(t).contains_key(k) && k != e.0 {
            let i = choose|i: int| 0 <= i < t.len() && t[i].0 == k;
            assert(s[i].0 == k);
        }
        if entries_map(s).contains_key(k) {
            let i = choose|i: int| 0 <= i < s.len() && s[i].0 == k;
            assert(t[i].0 == k);
        }
        if k == e.0 {
            assert(t[s.len() as int].0 == k);
        }
    }
    assert forall|k: u32| #[trigger] entries_map(t).contains_key(k) implies entries_map(t)[k] == m[k] by {
        let i = choose|i: int| 0 <= i < t.len() && t[i].0 == k;
        lemma_entries_map_index(t, i);
        if i < s.len() {
            lemma_entries_map_index(s, i);
        }
    }
    assert(entries_map(t) =~= m);
}

/// Removing the entry at `idx` removes its key from the map.
pub proof fn lemma_entries_map_remove(s: Seq<(u32, ProcView)>, idx: int)
    requires
        keys_increasing(s),
        0 <= idx < s.len(),
    ensures
        keys_increasing(s.remove(idx)),
        entries_map(s.remove(idx)) == entries_map(s).remove(s[idx].0),
{
    let t = s.remove(idx);
    let m = entries_map(s).remove(s[idx].0);
    assert forall|a: int, b: int| 0 <= a < b < t.len() implies t[a].0 < t[b].0 by {
        if a < idx && b >= idx {
            assert(t[b] == s[b + 1]);
        }
    }
    assert forall|k: u32| #[trigger] entries_map(t).contains_key(k) == m.contains_key(k) by {
        if entries_map(t).contains_key(k) {
            let i = choose|i: int| 0 <= i < t.len() && t[i].0 == k;
            if i < idx {
                assert(s[i].0 == k);
            } else {
                assert(s[i + 1].0 == k);
            }
        }
        if m.contains_key(k) {
            let i = choose|i: int| 0 <= i < s.len() && s[i].0 == k;
            assert(i != idx);
            if i < idx {
                assert(t[i].0 == k);
            } else {
                assert(t[i - 1].0 == k);
            }
        }
    }
    assert forall|k: u32| #[trigger] entries_map(t).contains_key(k) implies entries_map(t)[k] == m[k] by {
        let i = choose|i: int| 0 <= i < t.len() && t[i].0 == k;
        lemma_entries_map_index(t, i);
        if i < idx {
            lemma_entries_map_index(s, i);
        } else {
            lemma_entries_map_index(s, i + 1);
        }
    }
    assert(entries_map(t) =~= m);
}

/// Replacing the value of the entry at `idx` updates its key in the map.
pub proof fn lemma_entries_map_update(s: Seq<(u32, ProcView)>, idx: int, v: ProcView)
    requires
        keys_increasing(s),
        0 <= idx < s.len(),
    ensures
        keys_increasing(s.update(idx, (s[idx].0, v))),
        entries_map(s.update(idx, (s[idx].0, v))) == entries_map(s).insert(s[idx].0, v),
{
    let t = s.update(idx, (s[idx].0, v));
    let m = entries_map(s).insert(s[idx].0, v);
    assert forall|k: u32| #[trigger] entries_map(t).contains_key(k) == m.contains_key(k) by {
        if entries_map(t).contains_key(k) {
            let i = choose|i: int| 0 <= i < t.len() && t[i].0 == k;
            assert(s[i].0 == k);
        }
        if entries_map(s).contains_key(k) {
            let i = choose|i: int| 0 <= i < s.len() && s[i].0 == k;
            assert(t[i].0 == k);
        }
        assert(t[idx].0 == s[idx].0);
    }
    assert forall|k: u32| #[trigger] entries_map(t).contains_key(k) implies entries_map(t)[k] == m[k] by {
        let i = choose|i: int| 0 <= i < t.len() && t[i].0 == k;
        lemma_entries_map_index(t, i);
        lemma_entries_map_index(s, i);
    }
    assert(entries_map(t) =~= m);
}

impl ProcessTable {
    /// The table's entries in increasing pid order.
    pub closed spec fn entries(&self) -> Seq<(u32, ProcView)> {
        entries_view(self.procs@)
    }

    /// The table as a map from pid numbers to processes.
    pub open spec fn view(&self) -> Map<u32, ProcView> {
        entries_map(self.entries())
    }

    /// The pid number the next registration receives.
    pub closed spec fn next_pid(&self) -> u32 {
        self.next
    }

    /// The table's invariant: pids strictly increase along the entries,
    /// and every one is below the next pid, which is at least 1.
    pub closed spec fn wf(&self) -> bool {
        &&& self.next >= 1
        &&& keys_increasing(self.entries())
        &&& forall|i: int| 0 <= i < self.procs@.len() ==> self.procs@[i].0.0 < self.next
    }

    proof fn lemma_index(&self, i: int)
        requires
            self.wf(),
            0 <= i < self.procs@.len(),
        ensures
            self@.contains_key(self.procs@[i].0.0),
            self@[self.procs@[i].0.0] == proc_view(self.procs@[i].1),
    {
        lemma_entries_map_index(self.entries(), i);
    }

    pub fn new() -> (r: Self)
        ensures
            r.wf(),
            r@ == Map::<u32, ProcView>::empty(),
            r.next_pid() == 1,
    {
        let r = ProcessTable { next: 1, procs: Vec::new() };
        assert(r@ =~= Map::<u32, ProcView>::empty());
        r
    }

    /// The pid number the next registration receives.
    pub fn next_pid_exec(&self) -> (r: u32)
        ensures
            r == self.next_pid(),
    {
        self.next
    }

    /// Whether no process is registered.
    pub fn is_empty(&self) -> (r: bool)
        requires
            self.wf(),
        ensures
            r == (self@.dom() =~= Set::<u32>::empty()),
    {
        let r = self.procs.len() == 0;
        if !r {
            proof {
                self.lemma_index(0);
            }
        }
        r
    }

    /// Registers a process; it receives the next pid.
    pub fn register(&mut self, name: &str, caps: Vec<Capability>) -> (r: Pid)
        requires
            old(self).wf(),
            old(self).next_pid() < u32::MAX,
        ensures
            final(self).wf(),
            r.0 == old(self).next_pid(),
            !old(self)@.contains_key(r.0),
            final(self).next_pid() == old(self).next_pid() + 1,
            final(self)@ == old(self)@.insert(r.0, (name@, caps_view(caps@))),
    {
        let pid = Pid(self.next);
        self.next = self.next + 1;
        let ghost old_s = self.entries();
        let p = Process { name: String::from_str(name), caps };
        self.procs.push((pid, p));
        proof {
            let s = self.entries();
            assert(s =~= old_s.push((pid.0, (name@, caps_view(caps@)))));
            lemma_entries_map_push(old_s, (pid.0, (name@, caps_view(caps@))));
        }
        pid
    }

    fn find(&self, pid: Pid) -> (r: Option<usize>)
        requires
            self.wf(),
        ensures
            match r {
                Some(i) => i < self.procs@.len() && self.procs@[i as int].0.0 == pid.0,
                None => !self@.contains_key(pid.0),
            },
    {
        let mut i: usize = 0;
        while i < self.procs.len()
            invariant
                i <= self.procs@.len(),
                forall|j: int| 0 <= j < i ==> self.procs@[j].0.0 != pid.0,
            decreases self.procs.len() - i,
        {
            if self.procs[i].0.0 == pid.0 {
                return Some(i);
            }
            i += 1;
        }
        proof {
            if self@.contains_key(pid.0) {
                let s = self.entries();
                let j = choose|j: int| 0 <= j < s.len() && s[j].0 == pid.0;
                assert(self.procs@[j].0.0 == pid.0);
            }
        }
        None
    }

    /// Removes a process, if registered.
    pub fn kill(&mut self, pid: Pid)
        requires
            old(self).wf(),
        ensures
            final(self).wf(),
            final(self).next_pid() == old(self).next_pid(),
            final(self)@ == old(self)@.remove(pid.0),
    {
        match self.find(pid) {
            None => {
                assert(old(self)@.remove(pid.0) =~= old(self)@);
            },
            Some(idx) => {
                let ghost old_s = self.entries();
                let _removed = self.procs.remove(idx);
                proof {
                    assert(self.entries() =~= old_s.remove(idx as int));
                    lemma_entries_map_remove(old_s, idx as int);
                }
            },
        }
    }

    /// One line per process, in increasing pid order, under a header.
    pub fn listing(&self) -> (r: String)
        requires
            self.wf(),
        ensures
            r@ == listing_header() + listing_rows(self.entries()),
            keys_increasing(self.entries()),
            entries_map(self.entries()) == self@,
    {
        let mut out: Vec<char> = Vec::new();
        push_str(&mut out, " PID  NAME           GRANTS\n");
        let mut i: usize = 0;
        while i < self.procs.len()
            invariant
                i <= self.procs@.len(),
                out@ == listing_header() + listing_rows(self.entries().take(i as int)),
            decreases self.procs.len() - i,
        {
            let ghost before = out@;
            push_row(&mut out, self.procs[i].0.0, self.procs[i].1.name.as_str(), self.procs[i].1.caps.len());
            proof {
                let e = self.entries()[i as int];
                assert(self.entries().take(i + 1).drop_last() =~= self.entries().take(i as int));
                assert(self.entries().take(i + 1).last() == e);
                assert(e.1.1.len() == self.procs@[i as int].1.caps@.len());
                assert(out@ =~= before + listing_row(e));
            }
            i += 1;
        }
        assert(self.entries().take(self.procs.len() as int) =~= self.entries());
        string_of(&out)
    }

    /// Whether process `pid` holds `cap` (exactly).
    pub fn has_cap(&self, pid: Pid, cap: &Capability) -> (r: bool)
        requires
            self.wf(),
        ensures
            r == holds(self@, pid.0, cap@),
    {
        match self.find(pid) {
            None => false,
            Some(idx) => {
                proof {
                    self.lemma_index(idx as int);
                }
                let caps = &self.procs[idx].1.caps;
                let mut j: usize = 0;
                while j < caps.len()
                    invariant
                        j <= caps@.len(),
                        self@.contains_key(pid.0),
                        self@[pid.0].1 == caps_view(caps@),
                        forall|k: int| 0 <= k < j ==> caps@[k]@ != cap@,
                    decreases caps.len() - j,
                {
                    if caps[j] == *cap {
                        assert(caps_view(caps@)[j as int] == cap@);
                        return true;
                    }
                    j += 1;
                }
                assert(!caps_view(caps@).contains(cap@)) by {
                    if caps_view(caps@).contains(cap@) {
                        let k = choose|k: int| 0 <= k < caps_view(caps@).len() && caps_view(caps@)[k] == cap@;
                        assert(caps@[k]@ == cap@);
                    }
                }
                false
            },
        }
    }

    /// Scoped filesystem check: any held `FsWrite` whose scope matches
    /// `path` grants access, and for reads any matching `FsRead` too
    /// (write implies read).
    pub fn has_fs_cap(&self, pid: Pid, path: &str, write: bool) -> (r: bool)
        requires
            self.wf(),
        ensures
            r == fs_allowed(self@, pid.0, path@, write),
    {
        match self.find(pid) {
            None => false,
            Some(idx) => {
                proof {
                    self.lemma_index(idx as int);
                }
                let caps = &self.procs[idx].1.caps;
                let ghost cv = caps_view(caps@);
                let mut j: usize = 0;
                while j < caps.len()
                    invariant
                        j <= caps@.len(),
                        cv == caps_view(caps@),
                        self@.contains_key(pid.0),
                        self@[pid.0].1 == cv,
                        forall|k: int| 0 <= k < j ==> !fs_grants(#[trigger] cv[k], path@, write),
                    decreases caps.len() - j,
                {
                    let ok = match &caps[j] {
                        Capability::FsWrite(scope) => scope_matches(scope.as_str(), path),
                        Capability::FsRead(scope) => !write && scope_matches(scope.as_str(), path),
                        _ => false,
                    };
                    assert(ok == fs_grants(cv[j as int], path@, write));
                    if ok {
                        return true;
                    }
                    j += 1;
                }
                false
            },
        }
    }

    /// Adds each of `caps` that the process does not hold yet, in order.
    pub fn grant(&mut self, pid: Pid, caps: Vec<Capability>)
        requires
            old(self).wf(),
        ensures
            final(self).wf(),
            final(self).next_pid() == old(self).next_pid(),
            final(self)@ == if old(self)@.contains_key(pid.0) {
                old(self)@.insert(pid.0, (old(self)@[pid.0].0, grant_spec(old(self)@[pid.0].1, caps_view(caps@))))
            } else {
                old(self)@
            },
    {
        match self.find(pid) {
            None => {},
            Some(idx) => {
                proof {
                    self.lemma_index(idx as int);
                }
                let ghost old_s = self.entries();
                let (p, mut proc_) = self.procs.remove(idx);
                let ghost held = caps_view(proc_.caps@);
                let ghost name_v = proc_.name@;
                assert(held == old(self)@[pid.0].1 && name_v == old(self)@[pid.0].0);
                let mut i: usize = 0;
                while i < caps.len()
                    invariant
                        i <= caps@.len(),
                        proc_.name@ == name_v,
                        caps_view(proc_.caps@) == grant_spec(held, caps_view(caps@).take(i as int)),
                    decreases caps.len() - i,
                {
                    let c = &caps[i];
                    let mut found = false;
                    let mut j: usize = 0;
                    while j < proc_.caps.len()
                        invariant
                            j <= proc_.caps@.len(),
                            found == (exists|k: int| 0 <= k < j && proc_.caps@[k]@ == c@),
                        decreases proc_.caps.len() - j,
                    {
                        if proc_.caps[j] == *c {
                            found = true;
                        }
                        j += 1;
                    }
                    let ghost g = caps_view(proc_.caps@);
                    proof {
                        assert(caps_view(caps@).take(i + 1).drop_last() =~= caps_view(caps@).take(i as int));
                        assert(caps_view(caps@).take(i + 1).last() == c@);
                        if found {
                            let k = choose|k: int| 0 <= k < j && proc_.caps@[k]@ == c@;
                            assert(g[k] == c@);
                        } else {
                            assert(!g.contains(c@)) by {
                                if g.contains(c@) {
                                    let k = choose|k: int| 0 <= k < g.len() && g[k] == c@;
                                    assert(proc_.caps@[k]@ == c@);
                                }
                            }
                        }
                    }
                    if !found {
                        proc_.caps.push(c.clone());
                        assert(caps_view(proc_.caps@) =~= g.push(c@));
                    }
                    i += 1;
                }
                assert(caps_view(caps@).take(caps.len() as int) =~= caps_view(caps@));
                let ghost nv = proc_view(proc_);
                self.procs.insert(idx, (p, proc_));
                proof {
                    assert(self.entries() =~= old_s.update(idx as int, (pid.0, nv)));
                    lemma_entries_map_update(old_s, idx as int, nv);
                }
            },
        }
    }
}


proof fn lemma_grant_covers(held: Seq<(u8, Seq<char>)>, new: Seq<(u8, Seq<char>)>)
    ensures
        held.is_prefix_of(grant_spec(held, new)),
        forall|x: (u8, Seq<char>)| new.contains(x) ==> #[trigger] grant_spec(held, new).contains(x),
        forall|x: (u8, Seq<char>)| held.contains(x) ==> #[trigger] grant_spec(held, new).contains(x),
    decreases new.len(),
{
    if new.len() > 0 {
        let g = grant_spec(held, new.drop_last());
        lemma_grant_covers(held, new.drop_last());
        assert forall|x: (u8, Seq<char>)| new.contains(x) implies #[trigger] grant_spec(held, new).contains(x) by {
            let i = choose|i: int| 0 <= i < new.len() && new[i] == x;
            if i < new.len() - 1 {
                assert(new.drop_last()[i] == x);
                assert(new.drop_last().contains(x));
                assert(grant_spec(held, new.drop_last()).contains(x));
                assert(g.contains(x));
                if !g.contains(new.last()) {
                    let j = choose|j: int| 0 <= j < g.len() && g[j] == x;
                    assert(g.push(new.last())[j] == x);
                }
            } else {
                if !g.contains(new.last()) {
                    assert(g.push(new.last())[g.len() as int] == x);
                }
            }
        }
        assert forall|x: (u8, Seq<char>)| held.contains(x) implies #[trigger] grant_spec(held, new).contains(x) by {
            let j = choose|j: int| 0 <= j < g.len() && g[j] == x;
            if !g.contains(new.last()) {
                assert(g.push(new.last())[j] == x);
            }
        }
    }
}

proof fn lemma_grant_noop(g: Seq<(u8, Seq<char>)>, new: Seq<(u8, Seq<char>)>)
    requires
        forall|x: (u8, Seq<char>)| new.contains(x) ==> #[trigger] g.contains(x),
    ensures
        grant_spec(g, new) == g,
    decreases new.len(),
{
    if new.len() > 0 {
        assert forall|x: (u8, Seq<char>)| new.drop_last().contains(x) implies #[trigger] g.contains(x) by {
            let i = choose|i: int| 0 <= i < new.drop_last().len() && new.drop_last()[i] == x;
            assert(new[i] == x);
        }
        lemma_grant_noop(g, new.drop_last());
        assert(new[new.len() - 1] == new.last());
        assert(new.contains(new.last()));
    }
}

/// Granting is idempotent: granting the same capabilities a second time
/// changes nothing.
pub proof fn law_grant_idempotent(held: Seq<(u8, Seq<char>)>, new: Seq<(u8, Seq<char>)>)
    ensures
        grant_spec(grant_spec(held, new), new) == grant_spec(held, new),
{
    lemma_grant_covers(held, new);
    lemma_grant_noop(grant_spec(held, new), new);
}

/// Granting never takes a capability away, and afterwards every granted
/// capability is held.
pub proof fn law_grant_holds(held: Seq<(u8, Seq<char>)>, new: Seq<(u8, Seq<char>)>, c: (u8, Seq<char>))
    ensures
        held.contains(c) ==> grant_spec(held, new).contains(c),
        new.contains(c) ==> grant_spec(held, new).contains(c),
{
    lemma_grant_covers(held, new);
}

/// Write access implies read access: any path a process may write, it
/// may also read.
pub proof fn law_write_implies_read(m: Map<u32, ProcView>, pid: u32, path: Seq<char>)
    ensures
        fs_allowed(m, pid, path, true) ==> fs_allowed(m, pid, path, false),
{
    if fs_allowed(m, pid, path, true) {
        let j = choose|j: int| 0 <= j < m[pid].1.len() && #[trigger] fs_grants(m[pid].1[j], path, true);
        assert(fs_grants(m[pid].1[j], path, false));
    }
}

/// The root scope `/` grants every path.
pub proof fn law_root_scope_grants_all(path: Seq<char>)
    ensures
        scope_matches_spec(root_scope(), path),
{
    assert(root_scope().drop_last() =~= Seq::<char>::empty());
    assert(trim_end_slashes(root_scope()) == trim_end_slashes(Seq::<char>::empty()));
}

/// A freshly registered process holds exactly the capabilities it was
/// registered with, and registering leaves every other process as it was.
pub proof fn law_register_holds(
    m: Map<u32, ProcView>,
    pid: u32,
    name: Seq<char>,
    caps: Seq<(u8, Seq<char>)>,
    q: u32,
    c: (u8, Seq<char>),
)
    ensures
        holds(m.insert(pid, (name, caps)), pid, c) == caps.contains(c),
        q != pid ==> holds(m.insert(pid, (name, caps)), q, c) == holds(m, q, c),
{
}

/// A killed process holds nothing and may access no path; the other
/// processes keep their grants.
pub proof fn law_kill_revokes(
    m: Map<u32, ProcView>,
    pid: u32,
    q: u32,
    c: (u8, Seq<char>),
    path: Seq<char>,
    write: bool,
)
    ensures
        !holds(m.remove(pid), pid, c),
        !fs_allowed(m.remove(pid), pid, path, write),
        q != pid ==> holds(m.remove(pid), q, c) == holds(m, q, c),
        q != pid ==> fs_allowed(m.remove(pid), q, path, write) == fs_allowed(m, q, path, write),
{
}

} // verus!
