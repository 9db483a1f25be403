//! The virtual file system: a POSIX-like tree held in kernel memory and
//! persisted write-through by the platform, which drains the pending
//! [`VfsOp`]s. `/sys` is synthetic: kernel state exposed as read-only
//! files. Paths are normalized before use (see [`crate::path::norm`]).

use vstd::prelude::*;
use crate::abi::DirEntry;
use crate::path::{
    abs_path, good_seg, lemma_norm_good, lex_lt, lemma_lex_prefix, norm, norm_segs, normalize_segs, segs_view,
    slash_join, sorted_keys, sorted_set, key_map, lemma_key_map_index,
};
use crate::store::{
    dir_slot, file_slot, fview, lemma_key_map_insert_at, lemma_key_map_remove_at, lemma_key_map_update_at,
    lemma_set_insert_at, lemma_set_remove_at, Slot,
};
use crate::text::{
    ascii_bytes, bytes_copy, chars_copy, chars_eq, chars_of, dec, push_all, push_dec, push_str, starts_with,
    string_of, to_ascii_bytes,
};

verus! {

/// A persistence operation for the platform to mirror into storage.
#[derive(Debug)]
pub enum VfsOp {
    Write(String, Vec<u8>),
    Delete(String),
    Mkdir(String),
}

/// The view of an operation: 0 = write, 1 = delete, 2 = mkdir; the path;
/// and, for a write, the bytes.
pub type OpView = (u8, Seq<char>, Seq<u8>);

/// The view of an operation.
pub open spec fn op_view(op: VfsOp) -> OpView {
    match op {
        VfsOp::Write(p, b) => (0u8, p@, b@),
        VfsOp::Delete(p) => (1u8, p@, Seq::empty()),
        VfsOp::Mkdir(p) => (2u8, p@, Seq::empty()),
    }
}

/// The views of a list of operations.
pub open spec fn ops_view(s: Seq<VfsOp>) -> Seq<OpView> {
    s.map_values(|o: VfsOp| op_view(o))
}

/// The mkdir operations for a list of paths.
pub open spec fn mkdir_ops(paths: Seq<Seq<char>>) -> Seq<OpView> {
    paths.map_values(|p: Seq<char>| (2u8, p, Seq::<u8>::empty()))
}

/// The paths of the first `1..=n` segments of `segs`: `/a`, `/a/b`, …
pub open spec fn ancestors(segs: Seq<Seq<char>>, n: nat) -> Seq<Seq<char>> {
    Seq::new(n, |i: int| abs_path(segs.take(i + 1)))
}

/// The paths among `a` that are neither in `set` nor earlier in `a`:
/// the directories that creating `a` in order adds.
pub open spec fn new_dirs(set: Set<Seq<char>>, a: Seq<Seq<char>>) -> Seq<Seq<char>>
    decreases a.len(),
{
    if a.len() == 0 {
        Seq::empty()
    } else {
        let r = new_dirs(set, a.drop_last());
        if set.contains(a.last()) || a.drop_last().contains(a.last()) {
            r
        } else {
            r.push(a.last())
        }
    }
}

/// The path `/sys`, the directory of the synthetic files.
pub open spec fn sys_path() -> Seq<char> {
    seq!['/', 's', 'y', 's']
}

/// Whether the normalized path `key` is `/sys` itself or lies under it.
pub open spec fn in_sys(key: Seq<char>) -> bool {
    key == sys_path() || sys_path().push('/').is_prefix_of(key)
}

/// The largest file the file system accepts: 4 MiB.
pub const MAX_FILE_BYTES: usize = 4194304;

/// The error for writes, deletes and mkdirs under `/sys`.
pub open spec fn err_readonly() -> Seq<char> {
    "/sys is read-only"@
}

/// The error for files over the size limit.
pub open spec fn err_too_large() -> Seq<char> {
    "file too large (max 4 MB)"@
}

/// The error for deleting a directory that still holds something.
pub open spec fn err_not_empty() -> Seq<char> {
    "directory not empty"@
}

/// The error for deleting a path that does not exist.
pub open spec fn err_not_found() -> Seq<char> {
    "not found"@
}

/// The view of a result with a static error message.
pub open spec fn res_view(r: Result<(), &'static str>) -> Result<(), Seq<char>> {
    match r {
        Ok(()) => Ok(()),
        Err(e) => Err(e@),
    }
}

/// The view of an optional byte vector.
pub open spec fn bytes_opt(r: Option<Vec<u8>>) -> Option<Seq<u8>> {
    match r {
        Some(b) => Some(b@),
        None => None,
    }
}

/// The synthetic file at `/sys/fps`: frames per second with one decimal.
pub open spec fn fps_text(tenths: u32) -> Seq<char> {
    dec((tenths / 10) as nat) + seq!['.'] + dec((tenths % 10) as nat) + seq!['\n']
}

/// The synthetic file at `/sys/abi`: the ABI version pair.
pub open spec fn abi_text() -> Seq<char> {
    "(1, 1)\n"@
}

/// The synthetic file at `/sys/llm_tier`.
pub open spec fn tier_text(tier: u8) -> Seq<char> {
    dec(tier as nat) + seq!['\n']
}

/// `/sys/fps`.
pub open spec fn sys_fps_path() -> Seq<char> {
    "/sys/fps"@
}

/// `/sys/abi`.
pub open spec fn sys_abi_path() -> Seq<char> {
    "/sys/abi"@
}

/// `/sys/llm_tier`.
pub open spec fn sys_tier_path() -> Seq<char> {
    "/sys/llm_tier"@
}

/// The view of a directory entry: name, whether a directory, size.
pub type EntryView = (Seq<char>, bool, u64);

/// The view of a directory entry.
pub open spec fn entry_view(e: DirEntry) -> EntryView {
    (e.name@, e.dir, e.size)
}

/// The views of a list of directory entries.
pub open spec fn entries_view(s: Seq<DirEntry>) -> Seq<EntryView> {
    s.map_values(|e: DirEntry| entry_view(e))
}

/// The views of an optional listing.
pub open spec fn entries_opt(r: Option<Vec<DirEntry>>) -> Option<Seq<EntryView>> {
    match r {
        Some(v) => Some(entries_view(v@)),
        None => None,
    }
}

/// The name of `x` directly under the directory prefix `p`, if `x` is a
/// direct child (non-empty, without a further `/`).
pub open spec fn child_name(p: Seq<char>, x: Seq<char>) -> Option<Seq<char>> {
    if p.is_prefix_of(x) && x.len() > p.len() && !x.skip(p.len() as int).contains('/') {
        Some(x.skip(p.len() as int))
    } else {
        None
    }
}

/// The directory entries of the direct child directories among `s`.
pub open spec fn dir_children(s: Seq<Seq<char>>, p: Seq<char>) -> Seq<EntryView>
    decreases s.len(),
{
    if s.len() == 0 {
        Seq::empty()
    } else {
        let r = dir_children(s.drop_last(), p);
        match child_name(p, s.last()) {
            Some(n) => r.push((n, true, 0u64)),
            None => r,
        }
    }
}

/// The directory entries of the direct child files among `s`.
pub open spec fn file_children(s: Seq<(Seq<char>, Seq<u8>)>, p: Seq<char>) -> Seq<EntryView>
    decreases s.len(),
{
    if s.len() == 0 {
        Seq::empty()
    } else {
        let r = file_children(s.drop_last(), p);
        match child_name(p, s.last().0) {
            Some(n) => r.push((n, false, s.last().1.len() as u64)),
            None => r,
        }
    }
}

/// The paths among the keys of `s` that start with `p`.
pub open spec fn keys_under(s: Seq<(Seq<char>, Seq<u8>)>, p: Seq<char>) -> Seq<Seq<char>>
    decreases s.len(),
{
    if s.len() == 0 {
        Seq::empty()
    } else {
        let r = keys_under(s.drop_last(), p);
        if p.is_prefix_of(s.last().0) {
            r.push(s.last().0)
        } else {
            r
        }
    }
}

/// The prefix of the direct children of directory `key`: `/` for the
/// root, `key/` otherwise.
pub open spec fn child_prefix(key: Seq<char>) -> Seq<char> {
    if key == seq!['/'] {
        key
    } else {
        key.push('/')
    }
}

/// The listing of `/sys`: its three synthetic files.
pub open spec fn sys_listing() -> Seq<EntryView> {
    seq![("fps"@, false, 0u64), ("abi"@, false, 0u64), ("llm_tier"@, false, 0u64)]
}

/// The directories a mkdir of the normalized segments `segs` creates in
/// order: the root for no segments, else each ancestor and the path.
pub open spec fn mkdir_targets(segs: Seq<Seq<char>>) -> Seq<Seq<char>> {
    if segs.len() == 0 {
        seq![seq!['/']]
    } else {
        ancestors(segs, segs.len())
    }
}

/// The proper ancestors of a normalized path's segments.
pub open spec fn parents_of(segs: Seq<Seq<char>>) -> Seq<Seq<char>> {
    ancestors(segs, if segs.len() > 0 { (segs.len() - 1) as nat } else { 0 })
}

/// What reading the normalized path `key` gives, given the files and
/// the system values: the synthetic `/sys` files, else the file's bytes.
pub open spec fn read_view(files: Map<Seq<char>, Seq<u8>>, fps_tenths: u32, tier: u8, key: Seq<char>) -> Option<Seq<u8>> {
    if key == sys_fps_path() {
        Some(ascii_bytes(fps_text(fps_tenths)))
    } else if key == sys_abi_path() {
        Some(ascii_bytes(abi_text()))
    } else if key == sys_tier_path() {
        Some(ascii_bytes(tier_text(tier)))
    } else if files.contains_key(key) {
        Some(files[key])
    } else {
        None
    }
}

/// Whether something is stored below the directory `key`: a file or a
/// directory whose path starts with its child prefix.
pub open spec fn has_descendant(files: Map<Seq<char>, Seq<u8>>, dirs: Set<Seq<char>>, key: Seq<char>) -> bool {
    (exists|f: Seq<char>| #[trigger] files.contains_key(f) && child_prefix(key).is_prefix_of(f))
    || (exists|d: Seq<char>| #[trigger] dirs.contains(d) && child_prefix(key).is_prefix_of(d))
}

/// The in-memory file tree.
pub struct Vfs {
    files: Vec<(Vec<char>, Vec<u8>)>,
    dirs: Vec<Vec<char>>,
    /// Operations awaiting persistence (drained by the platform).
    dirty: Vec<VfsOp>,
    /// Set once the platform finished loading persisted state.
    ready: bool,
    /// Frames per second surfaced at `/sys/fps`, in tenths.
    sys_fps_tenths: u32,
    /// The in-browser LLM tier this machine handles (0 Fast, 1 Balanced,
    /// 2 Quality), surfaced at `/sys/llm_tier`.
    sys_llm_tier: u8,
}

impl Vfs {
    /// The files, by path, in increasing path order.
    pub closed spec fn file_seq(&self) -> Seq<(Seq<char>, Seq<u8>)> {
        fview(self.files@)
    }

    /// The directories, in increasing path order.
    pub closed spec fn dir_seq(&self) -> Seq<Seq<char>> {
        segs_view(self.dirs@)
    }

    /// The files as a map from paths to contents.
    pub closed spec fn files(&self) -> Map<Seq<char>, Seq<u8>> {
        key_map(self.file_seq())
    }

    /// The set of directories.
    pub closed spec fn dirs(&self) -> Set<Seq<char>> {
        self.dir_seq().to_set()
    }

    /// The operations awaiting persistence, oldest first.
    pub closed spec fn ops(&self) -> Seq<OpView> {
        ops_view(self.dirty@)
    }

    /// Whether the platform finished loading persisted state.
    pub closed spec fn is_ready(&self) -> bool {
        self.ready
    }

    /// The frames per second shown at `/sys/fps`, in tenths.
    pub closed spec fn fps(&self) -> u32 {
        self.sys_fps_tenths
    }

    /// The LLM tier shown at `/sys/llm_tier`.
    pub closed spec fn tier(&self) -> u8 {
        self.sys_llm_tier
    }

    /// The invariant: both stores are in strictly increasing path order.
    pub closed spec fn wf(&self) -> bool {
        sorted_keys(self.file_seq()) && sorted_set(self.dir_seq())
    }

    /// What a write of `len` bytes at `path` answers: refused under
    /// `/sys` and above the size limit.
    pub open spec fn write_outcome(path: Seq<char>, len: nat) -> Result<(), Seq<char>> {
        if in_sys(norm(path)) {
            Err(err_readonly())
        } else if len > MAX_FILE_BYTES {
            Err(err_too_large())
        } else {
            Ok(())
        }
    }

    /// `self` is `prev` after storing `bytes` at `path`: the file, its
    /// missing parents, and the operations that persist both.
    pub open spec fn wrote(&self, prev: Vfs, path: Seq<char>, bytes: Seq<u8>) -> bool {
        &&& self.wf()
        &&& self.files() == prev.files().insert(norm(path), bytes)
        &&& self.dirs() == prev.dirs() + parents_of(norm_segs(path)).to_set()
        &&& self.ops() == prev.ops() + mkdir_ops(new_dirs(prev.dirs(), parents_of(norm_segs(path))))
            + seq![(0u8, norm(path), bytes)]
        &&& self.fps() == prev.fps()
        &&& self.tier() == prev.tier()
        &&& self.is_ready() == prev.is_ready()
    }

    /// What deleting `path` answers.
    pub open spec fn delete_outcome(&self, path: Seq<char>) -> Result<(), Seq<char>> {
        let key = norm(path);
        if in_sys(key) {
            Err(err_readonly())
        } else if self.files().contains_key(key) {
            Ok(())
        } else if !self.dirs().contains(key) {
            Err(err_not_found())
        } else if has_descendant(self.files(), self.dirs(), key) {
            Err(err_not_empty())
        } else {
            Ok(())
        }
    }

    /// `self` is `prev` after deleting `path`: the file, or else the
    /// directory, is gone and the deletion is queued.
    pub open spec fn deleted(&self, prev: Vfs, path: Seq<char>) -> bool {
        let key = norm(path);
        &&& self.wf()
        &&& if prev.files().contains_key(key) {
            self.files() == prev.files().remove(key) && self.dirs() == prev.dirs()
        } else {
            self.files() == prev.files() && self.dirs() == prev.dirs().remove(key)
        }
        &&& self.ops() == prev.ops().push((1u8, key, Seq::<u8>::empty()))
        &&& self.fps() == prev.fps()
        &&& self.tier() == prev.tier()
        &&& self.is_ready() == prev.is_ready()
    }

    /// What a mkdir of `path` answers: refused under `/sys`.
    pub open spec fn mkdir_outcome(path: Seq<char>) -> Result<(), Seq<char>> {
        if in_sys(norm(path)) {
            Err(err_readonly())
        } else {
            Ok(())
        }
    }

    /// `self` is `prev` after creating the directory `path` and its
    /// missing parents.
    pub open spec fn made_dir(&self, prev: Vfs, path: Seq<char>) -> bool {
        &&& self.wf()
        &&& self.files() == prev.files()
        &&& self.dirs() == prev.dirs() + mkdir_targets(norm_segs(path)).to_set()
        &&& self.ops() == prev.ops() + mkdir_ops(new_dirs(prev.dirs(), mkdir_targets(norm_segs(path))))
        &&& self.fps() == prev.fps()
        &&& self.tier() == prev.tier()
        &&& self.is_ready() == prev.is_ready()
    }

    /// What listing `path` gives: the synthetic `/sys` files, nothing for
    /// a path that is no directory, else the child directories then the
    /// child files, each in name order.
    pub open spec fn list_spec(&self, path: Seq<char>) -> Option<Seq<EntryView>> {
        let key = norm(path);
        if key == sys_path() {
            Some(sys_listing())
        } else if !self.dirs().contains(key) {
            None
        } else {
            Some(dir_children(self.dir_seq(), child_prefix(key)) + file_children(self.file_seq(), child_prefix(key)))
        }
    }

    /// What reading `path` gives.
    pub open spec fn read_spec(&self, path: Seq<char>) -> Option<Seq<u8>> {
        read_view(self.files(), self.fps(), self.tier(), norm(path))
    }

    /// In a well-formed tree the stores are in strictly increasing path
    /// order, the file map is the map of the file store, and the directory
    /// set is the set of the directory store.
    pub proof fn lemma_sorted(&self)
        requires
            self.wf(),
        ensures
            sorted_keys(self.file_seq()),
            sorted_set(self.dir_seq()),
            self.files() == key_map(self.file_seq()),
            self.dirs() == self.dir_seq().to_set(),
    {
    }

    fn dir_insert(&mut self, key: Vec<char>) -> (r: bool)
        requires
            old(self).wf(),
        ensures
            final(self).wf(),
            final(self).dirs() == old(self).dirs().insert(key@),
            r == !old(self).dirs().contains(key@),
            final(self).files() == old(self).files(),
            final(self).file_seq() == old(self).file_seq(),
            final(self).ops() == old(self).ops(),
            final(self).fps() == old(self).fps(),
            final(self).tier() == old(self).tier(),
            final(self).is_ready() == old(self).is_ready(),
    {
        match dir_slot(&self.dirs, &key) {
            Slot::Found(i) => {
                assert(self.dir_seq()[i as int] == key@);
                assert(self.dirs().contains(key@));
                assert(self.dirs().insert(key@) =~= self.dirs());
                false
            },
            Slot::Absent(p) => {
                let ghost old_s = self.dir_seq();
                let ghost k = key@;
                self.dirs.insert(p, key);
                proof {
                    assert(self.dir_seq() =~= old_s.insert(p as int, k));
                    lemma_set_insert_at(old_s, p as int, k);
                }
                true
            },
        }
    }

    fn dir_remove_at(&mut self, i: usize)
        requires
            old(self).wf(),
            i < old(self).dir_seq().len(),
        ensures
            final(self).wf(),
            final(self).dirs() == old(self).dirs().remove(old(self).dir_seq()[i as int]),
            final(self).files() == old(self).files(),
            final(self).file_seq() == old(self).file_seq(),
            final(self).ops() == old(self).ops(),
            final(self).fps() == old(self).fps(),
            final(self).tier() == old(self).tier(),
            final(self).is_ready() == old(self).is_ready(),
    {
        let ghost old_s = self.dir_seq();
        let _ = self.dirs.remove(i);
        proof {
            assert(self.dir_seq() =~= old_s.remove(i as int));
            lemma_set_remove_at(old_s, i as int);
        }
    }

    fn file_insert(&mut self, key: Vec<char>, bytes: Vec<u8>)
        requires
            old(self).wf(),
        ensures
            final(self).wf(),
            final(self).files() == old(self).files().insert(key@, bytes@),
            final(self).dirs() == old(self).dirs(),
            final(self).dir_seq() == old(self).dir_seq(),
            final(self).ops() == old(self).ops(),
            final(self).fps() == old(self).fps(),
            final(self).tier() == old(self).tier(),
            final(self).is_ready() == old(self).is_ready(),
    {
        let ghost old_s = self.file_seq();
        let ghost k = key@;
        let ghost v = bytes@;
        match file_slot(&self.files, &key) {
            Slot::Found(i) => {
                self.files.set(i, (key, bytes));
                proof {
                    assert(self.file_seq() =~= old_s.update(i as int, (old_s[i as int].0, v)));
                    lemma_key_map_update_at(old_s, i as int, v);
                }
            },
            Slot::Absent(p) => {
                self.files.insert(p, (key, bytes));
                proof {
                    assert(self.file_seq() =~= old_s.insert(p as int, (k, v)));
                    lemma_key_map_insert_at(old_s, p as int, k, v);
                }
            },
        }
    }

    /// Creates the directories of the first `1..=n` segments that do not
    /// exist yet, recording a mkdir operation for each when `persist`.
    fn ensure_parents(&mut self, segs: &Vec<Vec<char>>, n: usize, persist: bool)
        requires
            old(self).wf(),
            n <= segs@.len(),
        ensures
            final(self).wf(),
            final(self).dirs() == old(self).dirs() + ancestors(segs_view(segs@), n as nat).to_set(),
            final(self).ops() == old(self).ops() + if persist {
                mkdir_ops(new_dirs(old(self).dirs(), ancestors(segs_view(segs@), n as nat)))
            } else {
                Seq::empty()
            },
            final(self).files() == old(self).files(),
            final(self).file_seq() == old(self).file_seq(),
            final(self).fps() == old(self).fps(),
            final(self).tier() == old(self).tier(),
            final(self).is_ready() == old(self).is_ready(),
    {
        let ghost sv = segs_view(segs@);
        let ghost d0 = self.dirs();
        let ghost o0 = self.ops();
        let mut cur: Vec<char> = Vec::new();
        let mut i: usize = 0;
        assert(ancestors(sv, 0).to_set() =~= Set::empty());
        assert(d0 + Set::empty() =~= d0);
        assert(new_dirs(d0, ancestors(sv, 0)) =~= Seq::empty());
        assert(mkdir_ops(Seq::empty()) =~= Seq::empty());
        assert(o0 + Seq::<OpView>::empty() =~= o0);
        assert(sv.take(0) =~= Seq::<Seq<char>>::empty());
        while i < n
            invariant
                sv == segs_view(segs@),
                n <= segs@.len(),
                i <= n,
                self.wf(),
                cur@ == slash_join(sv.take(i as int)),
                self.dirs() == d0 + ancestors(sv, i as nat).to_set(),
                self.ops() == o0 + if persist { mkdir_ops(new_dirs(d0, ancestors(sv, i as nat))) } else { Seq::empty() },
                self.files() == old(self).files(),
                self.file_seq() == old(self).file_seq(),
                self.fps() == old(self).fps(),
                self.tier() == old(self).tier(),
                self.is_ready() == old(self).is_ready(),
            decreases n - i,
        {
            cur.push('/');
            push_all(&mut cur, &segs[i]);
            let ghost a = ancestors(sv, (i + 1) as nat);
            proof {
                assert(sv.take(i + 1).drop_last() =~= sv.take(i as int));
                assert(sv.take(i + 1).last() == sv[i as int]);
                assert(a.last() == abs_path(sv.take(i + 1)));
                assert(cur@ == a.last());
                assert(a.drop_last() =~= ancestors(sv, i as nat));
                assert(a.to_set() =~= ancestors(sv, i as nat).to_set().insert(cur@)) by {
                    assert forall|x: Seq<char>| a.to_set().contains(x) == ancestors(sv, i as nat).to_set().insert(cur@).contains(x) by {
                        if a.contains(x) {
                            let j = choose|j: int| 0 <= j < a.len() && a[j] == x;
                            if j < i {
                                assert(ancestors(sv, i as nat)[j] == x);
                            }
                        }
                        if ancestors(sv, i as nat).contains(x) {
                            let j = choose|j: int| 0 <= j < i && ancestors(sv, i as nat)[j] == x;
                            assert(a[j] == x);
                        }
                    }
                }
            }
            let newly = self.dir_insert(chars_copy(&cur));
            proof {
                assert(self.dirs() =~= d0 + a.to_set());
                assert(newly == !(d0.contains(a.last()) || a.drop_last().contains(a.last())));
            }
            if newly && persist {
                let ghost before = self.ops();
                self.dirty.push(VfsOp::Mkdir(string_of(&cur)));
                proof {
                    assert(self.ops() =~= before.push((2u8, cur@, Seq::<u8>::empty())));
                    assert(new_dirs(d0, a) == new_dirs(d0, ancestors(sv, i as nat)).push(cur@));
                    assert(mkdir_ops(new_dirs(d0, a)) =~= mkdir_ops(new_dirs(d0, ancestors(sv, i as nat))).push((2u8, cur@, Seq::<u8>::empty())));
                }
            } else {
                proof {
                    if persist {
                        assert(new_dirs(d0, a) == new_dirs(d0, ancestors(sv, i as nat)));
                    }
                }
            }
            i += 1;
        }
    }

    /// An empty tree with the standard directories `/`, `/apps`, `/home`,
    /// `/notes`, `/notes/daily`, `/notes/inbox` and `/sys`; not ready, no
    /// pending operations, 0 fps and LLM tier 1.
    pub fn new() -> (r: Self)
        ensures
            r.wf(),
            r.files() == Map::<Seq<char>, Seq<u8>>::empty(),
            r.dirs() == set!["/"@, "/home"@, "/apps"@, "/notes"@, "/notes/inbox"@, "/notes/daily"@, "/sys"@],
            r.ops().len() == 0,
            !r.is_ready(),
            r.fps() == 0,
            r.tier() == 1,
    {
        let mut v = Vfs {
            files: Vec::new(),
            dirs: Vec::new(),
            dirty: Vec::new(),
            ready: false,
            sys_fps_tenths: 0,
            sys_llm_tier: 1,
        };
        assert(v.files() =~= Map::<Seq<char>, Seq<u8>>::empty());
        assert(v.dirs() =~= Set::<Seq<char>>::empty());
        v.dir_insert(chars_of("/"));
        v.dir_insert(chars_of("/home"));
        v.dir_insert(chars_of("/apps"));
        v.dir_insert(chars_of("/notes"));
        v.dir_insert(chars_of("/notes/inbox"));
        v.dir_insert(chars_of("/notes/daily"));
        v.dir_insert(chars_of("/sys"));
        assert(v.dirs() =~= set!["/"@, "/home"@, "/apps"@, "/notes"@, "/notes/inbox"@, "/notes/daily"@, "/sys"@]);
        v
    }

    /// Loads one persisted file at boot: its parents are created and the
    /// file stored, without recording operations.
    pub fn load(&mut self, path: &str, bytes: Vec<u8>)
        requires
            old(self).wf(),
        ensures
            final(self).wf(),
            final(self).files() == old(self).files().insert(norm(path@), bytes@),
            final(self).dirs() == old(self).dirs() + parents_of(norm_segs(path@)).to_set(),
            final(self).ops() == old(self).ops(),
            final(self).fps() == old(self).fps(),
            final(self).tier() == old(self).tier(),
            final(self).is_ready() == old(self).is_ready(),
    {
        let (segs, key) = normalize_segs(path);
        let n: usize = if segs.len() > 0 { segs.len() - 1 } else { 0 };
        self.ensure_parents(&segs, n, false);
        assert(self.ops() =~= old(self).ops());
        self.file_insert(key, bytes);
    }

    fn key_is(key: &Vec<char>, lit: &str) -> (r: bool)
        ensures
            r == (key@ == lit@),
    {
        let l = chars_of(lit);
        chars_eq(key, &l)
    }

    pub(crate) fn under_sys(key: &Vec<char>) -> (r: bool)
        ensures
            r == in_sys(key@),
    {
        let mut p: Vec<char> = Vec::new();
        p.push('/');
        p.push('s');
        p.push('y');
        p.push('s');
        assert(p@ =~= sys_path());
        if chars_eq(key, &p) {
            return true;
        }
        p.push('/');
        assert(p@ =~= sys_path().push('/'));
        starts_with(key, &p)
    }

    /// The contents at `path`: a synthetic `/sys` file or a stored file.
    pub fn read(&self, path: &str) -> (r: Option<Vec<u8>>)
        requires
            self.wf(),
        ensures
            bytes_opt(r) == read_view(self.files(), self.fps(), self.tier(), norm(path@)),
            bytes_opt(r) == self.read_spec(path@),
    {
        let (_segs, key) = normalize_segs(path);
        if Self::key_is(&key, "/sys/fps") {
            let mut out: Vec<char> = Vec::new();
            push_dec(&mut out, (self.sys_fps_tenths / 10) as u64);
            out.push('.');
            push_dec(&mut out, (self.sys_fps_tenths % 10) as u64);
            out.push('\n');
            assert(out@ =~= fps_text(self.sys_fps_tenths));
            return Some(to_ascii_bytes(&out));
        }
        if Self::key_is(&key, "/sys/abi") {
            let out = chars_of("(1, 1)\n");
            return Some(to_ascii_bytes(&out));
        }
        if Self::key_is(&key, "/sys/llm_tier") {
            let mut out: Vec<char> = Vec::new();
            push_dec(&mut out, self.sys_llm_tier as u64);
            out.push('\n');
            assert(out@ =~= tier_text(self.sys_llm_tier));
            return Some(to_ascii_bytes(&out));
        }
        match file_slot(&self.files, &key) {
            Slot::Found(i) => {
                proof {
                    lemma_key_map_index(self.file_seq(), i as int);
                }
                Some(bytes_copy(&self.files[i].1))
            },
            Slot::Absent(_) => {
                assert(!self.files().contains_key(key@)) by {
                    if self.files().contains_key(key@) {
                        let j = crate::path::key_index(self.file_seq(), key@);
                        crate::path::lemma_lex_irrefl(key@);
                    }
                }
                None
            },
        }
    }

    /// Writes a file, creating its parent directories. Refused under
    /// `/sys` and above 4 MiB.
    pub fn write(&mut self, path: &str, bytes: Vec<u8>) -> (r: Result<(), &'static str>)
        requires
            old(self).wf(),
        ensures
            final(self).wf(),
            final(self).fps() == old(self).fps(),
            final(self).tier() == old(self).tier(),
            final(self).is_ready() == old(self).is_ready(),
            in_sys(norm(path@)) ==> res_view(r) == Err::<(), Seq<char>>(err_readonly()),
            !in_sys(norm(path@)) && bytes@.len() > MAX_FILE_BYTES ==> res_view(r) == Err::<(), Seq<char>>(err_too_large()),
            r is Err ==> *final(self) == *old(self),
            res_view(r) == Vfs::write_outcome(path@, bytes@.len()),
            r is Ok ==> final(self).wrote(*old(self), path@, bytes@),
            !in_sys(norm(path@)) && bytes@.len() <= MAX_FILE_BYTES ==> {
                &&& r is Ok
                &&& final(self).files() == old(self).files().insert(norm(path@), bytes@)
                &&& final(self).dirs() == old(self).dirs() + parents_of(norm_segs(path@)).to_set()
                &&& final(self).ops() == old(self).ops()
                    + mkdir_ops(new_dirs(old(self).dirs(), parents_of(norm_segs(path@))))
                    + seq![(0u8, norm(path@), bytes@)]
            },
    {
        let (segs, key) = normalize_segs(path);
        if Self::under_sys(&key) {
            return Err("/sys is read-only");
        }
        if bytes.len() > MAX_FILE_BYTES {
            return Err("file too large (max 4 MB)");
        }
        let n: usize = if segs.len() > 0 { segs.len() - 1 } else { 0 };
        self.ensure_parents(&segs, n, true);
        let ghost mid = self.ops();
        let name = string_of(&key);
        let copy = bytes_copy(&bytes);
        self.file_insert(key, copy);
        self.dirty.push(VfsOp::Write(name, bytes));
        assert(self.ops() =~= mid.push((0u8, norm(path@), bytes@)));
        assert(self.ops() =~= old(self).ops() + mkdir_ops(new_dirs(old(self).dirs(), parents_of(norm_segs(path@))))
            + seq![(0u8, norm(path@), bytes@)]);
        assert(self.files() =~= old(self).files().insert(norm(path@), bytes@));
        assert(self.dirs() =~= old(self).dirs() + parents_of(norm_segs(path@)).to_set());
        Ok(())
    }

    fn file_remove_at(&mut self, i: usize)
        requires
            old(self).wf(),
            i < old(self).file_seq().len(),
        ensures
            final(self).wf(),
            final(self).files() == old(self).files().remove(old(self).file_seq()[i as int].0),
            final(self).dirs() == old(self).dirs(),
            final(self).dir_seq() == old(self).dir_seq(),
            final(self).ops() == old(self).ops(),
            final(self).fps() == old(self).fps(),
            final(self).tier() == old(self).tier(),
            final(self).is_ready() == old(self).is_ready(),
    {
        let ghost old_s = self.file_seq();
        let _ = self.files.remove(i);
        proof {
            assert(self.file_seq() =~= old_s.remove(i as int));
            lemma_key_map_remove_at(old_s, i as int);
        }
    }

    fn has_descendant_exec(&self, key: &Vec<char>) -> (r: bool)
        requires
            self.wf(),
            key@.len() > 0,
        ensures
            r == has_descendant(self.files(), self.dirs(), key@),
    {
        let p = Self::child_prefix_exec(key);
        let ghost pv = child_prefix(key@);
        let mut i: usize = 0;
        while i < self.files.len()
            invariant
                p@ == pv,
                pv == child_prefix(key@),
                i <= self.files@.len(),
                self.wf(),
                forall|j: int| 0 <= j < i ==> !pv.is_prefix_of(#[trigger] self.file_seq()[j].0),
            decreases self.files.len() - i,
        {
            if starts_with(&self.files[i].0, &p) {
                proof {
                    lemma_key_map_index(self.file_seq(), i as int);
                    let f = self.file_seq()[i as int].0;
                    assert(f == self.files@[i as int].0@);
                    assert(self.files().contains_key(f) && pv.is_prefix_of(f));
                }
                return true;
            }
            i += 1;
        }
        let mut j: usize = 0;
        while j < self.dirs.len()
            invariant
                p@ == pv,
                pv == child_prefix(key@),
                j <= self.dirs@.len(),
                self.wf(),
                forall|k: int| 0 <= k < j ==> !pv.is_prefix_of(#[trigger] self.dir_seq()[k]),
            decreases self.dirs.len() - j,
        {
            if starts_with(&self.dirs[j], &p) {
                proof {
                    let d = self.dir_seq()[j as int];
                    assert(d == self.dirs@[j as int]@);
                    assert(self.dir_seq().contains(d));
                    assert(self.dirs().contains(d) && pv.is_prefix_of(d));
                }
                return true;
            }
            j += 1;
        }
        proof {
            assert forall|f: Seq<char>| #[trigger] self.files().contains_key(f) implies !pv.is_prefix_of(f) by {
                let k = crate::path::key_index(self.file_seq(), f);
                assert(self.file_seq()[k].0 == f);
            }
            assert forall|d: Seq<char>| #[trigger] self.dirs().contains(d) implies !pv.is_prefix_of(d) by {
                let k = choose|k: int| 0 <= k < self.dir_seq().len() && self.dir_seq()[k] == d;
            }
        }
        false
    }

    /// Deletes a file, or an empty directory. Refused under `/sys`; a
    /// directory that still holds a file or directory is kept.
    pub fn delete(&mut self, path: &str) -> (r: Result<(), &'static str>)
        requires
            old(self).wf(),
        ensures
            final(self).wf(),
            final(self).fps() == old(self).fps(),
            final(self).tier() == old(self).tier(),
            final(self).is_ready() == old(self).is_ready(),
            ({
                let key = norm(path@);
                if in_sys(key) {
                    res_view(r) == Err::<(), Seq<char>>(err_readonly())
                } else if old(self).files().contains_key(key) {
                    &&& r is Ok
                    &&& final(self).files() == old(self).files().remove(key)
                    &&& final(self).dirs() == old(self).dirs()
                    &&& final(self).ops() == old(self).ops().push((1u8, key, Seq::<u8>::empty()))
                } else if !old(self).dirs().contains(key) {
                    res_view(r) == Err::<(), Seq<char>>(err_not_found())
                } else if has_descendant(old(self).files(), old(self).dirs(), key) {
                    res_view(r) == Err::<(), Seq<char>>(err_not_empty())
                } else {
                    &&& r is Ok
                    &&& final(self).files() == old(self).files()
                    &&& final(self).dirs() == old(self).dirs().remove(key)
                    &&& final(self).ops() == old(self).ops().push((1u8, key, Seq::<u8>::empty()))
                }
            }),
            r is Err ==> *final(self) == *old(self),
            res_view(r) == old(self).delete_outcome(path@),
            r is Ok ==> final(self).deleted(*old(self), path@),
    {
        let (_segs, key) = normalize_segs(path);
        if Self::under_sys(&key) {
            return Err("/sys is read-only");
        }
        match file_slot(&self.files, &key) {
            Slot::Found(i) => {
                let name = string_of(&key);
                self.file_remove_at(i);
                let ghost mid = self.ops();
                self.dirty.push(VfsOp::Delete(name));
                assert(self.ops() =~= mid.push((1u8, key@, Seq::<u8>::empty())));
                return Ok(());
            },
            Slot::Absent(_) => {
                assert(!old(self).files().contains_key(key@)) by {
                    if old(self).files().contains_key(key@) {
                        let j = crate::path::key_index(self.file_seq(), key@);
                        crate::path::lemma_lex_irrefl(key@);
                    }
                }
            },
        }
        match dir_slot(&self.dirs, &key) {
            Slot::Found(i) => {
                assert(self.dir_seq().contains(key@));
                if self.has_descendant_exec(&key) {
                    return Err("directory not empty");
                }
                let name = string_of(&key);
                self.dir_remove_at(i);
                let ghost mid = self.ops();
                self.dirty.push(VfsOp::Delete(name));
                assert(self.ops() =~= mid.push((1u8, key@, Seq::<u8>::empty())));
                Ok(())
            },
            Slot::Absent(_) => {
                assert(!old(self).dirs().contains(key@)) by {
                    if self.dir_seq().contains(key@) {
                        let j = choose|j: int| 0 <= j < self.dir_seq().len() && self.dir_seq()[j] == key@;
                        crate::path::lemma_lex_irrefl(key@);
                    }
                }
                Err("not found")
            },
        }
    }

    /// Creates a directory and its missing parents. Refused under `/sys`.
    pub fn mkdir(&mut self, path: &str) -> (r: Result<(), &'static str>)
        requires
            old(self).wf(),
        ensures
            final(self).wf(),
            final(self).fps() == old(self).fps(),
            final(self).tier() == old(self).tier(),
            final(self).is_ready() == old(self).is_ready(),
            final(self).files() == old(self).files(),
            in_sys(norm(path@)) ==> res_view(r) == Err::<(), Seq<char>>(err_readonly()),
            r is Err ==> *final(self) == *old(self),
            res_view(r) == Vfs::mkdir_outcome(path@),
            r is Ok ==> final(self).made_dir(*old(self), path@),
            !in_sys(norm(path@)) ==> {
                &&& r is Ok
                &&& final(self).dirs() == old(self).dirs() + mkdir_targets(norm_segs(path@)).to_set()
                &&& final(self).ops() == old(self).ops() + mkdir_ops(new_dirs(old(self).dirs(), mkdir_targets(norm_segs(path@))))
            },
    {
        let (segs, key) = normalize_segs(path);
        if Self::under_sys(&key) {
            return Err("/sys is read-only");
        }
        let ghost sv = segs_view(segs@);
        if segs.len() > 0 {
            self.ensure_parents(&segs, segs.len(), true);
            proof {
                let a = ancestors(sv, sv.len());
                assert(sv.take(sv.len() as int) =~= sv);
                assert(a[a.len() - 1] == key@);
                assert(a.to_set().contains(key@));
                assert(self.dirs().contains(key@));
            }
            let newly = self.dir_insert(key);
            assert(!newly);
            assert(self.dirs() =~= old(self).dirs() + mkdir_targets(sv).to_set());
        } else {
            let ghost d0 = old(self).dirs();
            let name = string_of(&key);
            assert(key@ =~= seq!['/']);
            let newly = self.dir_insert(key);
            let ghost t = mkdir_targets(sv);
            assert(t.drop_last() =~= Seq::<Seq<char>>::empty());
            assert(t.last() == seq!['/']);
            assert(new_dirs(d0, t.drop_last()) =~= Seq::<Seq<char>>::empty());
            assert(t.to_set() =~= Set::<Seq<char>>::empty().insert(seq!['/'])) by {
                assert forall|x: Seq<char>| t.to_set().contains(x) == (x == seq!['/']) by {
                    if x == seq!['/'] {
                        assert(t[0] == x);
                    }
                }
            }
            assert(self.dirs() =~= d0 + t.to_set());
            if newly {
                let ghost mid = self.ops();
                self.dirty.push(VfsOp::Mkdir(name));
                assert(new_dirs(d0, t) =~= seq![seq!['/']]);
                assert(self.ops() =~= mid + mkdir_ops(new_dirs(d0, t)));
            } else {
                assert(new_dirs(d0, t) =~= Seq::<Seq<char>>::empty());
                assert(self.ops() =~= old(self).ops() + mkdir_ops(new_dirs(d0, t)));
            }
        }
        Ok(())
    }

    /// Whether `path` is a directory.
    pub fn exists_dir(&self, path: &str) -> (r: bool)
        requires
            self.wf(),
        ensures
            r == self.dirs().contains(norm(path@)),
    {
        let (_segs, key) = normalize_segs(path);
        match dir_slot(&self.dirs, &key) {
            Slot::Found(i) => {
                assert(self.dir_seq()[i as int] == key@);
                assert(self.dir_seq().contains(key@));
                true
            },
            Slot::Absent(_) => {
                assert(!self.dir_seq().contains(key@)) by {
                    if self.dir_seq().contains(key@) {
                        let j = choose|j: int| 0 <= j < self.dir_seq().len() && self.dir_seq()[j] == key@;
                        crate::path::lemma_lex_irrefl(key@);
                    }
                }
                false
            },
        }
    }

    fn child_of(p: &Vec<char>, x: &Vec<char>) -> (r: Option<Vec<char>>)
        ensures
            match r {
                Some(n) => child_name(p@, x@) == Some(n@),
                None => child_name(p@, x@) is None,
            },
    {
        if !starts_with(x, p) || x.len() <= p.len() {
            return None;
        }
        let mut rest: Vec<char> = Vec::new();
        let mut i: usize = p.len();
        while i < x.len()
            invariant
                p.len() <= i <= x.len(),
                rest@ == x@.subrange(p.len() as int, i as int),
                !rest@.contains('/'),
            decreases x.len() - i,
        {
            if x[i] == '/' {
                assert(x@.skip(p.len() as int)[i - p.len()] == '/');
                return None;
            }
            rest.push(x[i]);
            i += 1;
            assert(rest@ =~= x@.subrange(p.len() as int, i as int));
            assert(!rest@.contains('/')) by {
                if rest@.contains('/') {
                    let k = choose|k: int| 0 <= k < rest@.len() && rest@[k] == '/';
                    if k < rest@.len() - 1 {
                        assert(rest@.drop_last()[k] == '/');
                    }
                }
            }
        }
        assert(rest@ =~= x@.skip(p.len() as int));
        Some(rest)
    }

    fn child_prefix_exec(key: &Vec<char>) -> (r: Vec<char>)
        requires
            key@.len() > 0,
        ensures
            r@ == child_prefix(key@),
    {
        let mut p = chars_copy(key);
        if key.len() == 1 && key[0] == '/' {
            assert(key@ =~= seq!['/']);
            p
        } else {
            assert(key@ != seq!['/']) by {
                if key@ == seq!['/'] {
                    assert(key@[0] == '/');
                }
            }
            p.push('/');
            p
        }
    }

    /// The entries of directory `path`: its child directories, then its
    /// child files, each group in increasing name order; the three
    /// synthetic files for `/sys`; `None` for a path that is not a
    /// directory.
    pub fn list(&self, path: &str) -> (r: Option<Vec<DirEntry>>)
        requires
            self.wf(),
        ensures
            ({
                let key = norm(path@);
                if key == sys_path() {
                    r matches Some(v) && entries_view(v@) == sys_listing()
                } else if !self.dirs().contains(key) {
                    r is None
                } else {
                    r matches Some(v) && entries_view(v@) == dir_children(self.dir_seq(), child_prefix(key))
                        + file_children(self.file_seq(), child_prefix(key))
                }
            }),
            entries_opt(r) == self.list_spec(path@),
    {
        let (segs, key) = normalize_segs(path);
        proof {
            assert(norm(path@).len() > 0) by {
                if norm_segs(path@).len() > 0 {
                    crate::path::lemma_slash_join_len(norm_segs(path@));
                }
            }
        }
        let mut sys: Vec<char> = Vec::new();
        sys.push('/');
        sys.push('s');
        sys.push('y');
        sys.push('s');
        assert(sys@ =~= sys_path());
        if chars_eq(&key, &sys) {
            let mut v: Vec<DirEntry> = Vec::new();
            v.push(DirEntry { name: String::from_str("fps"), dir: false, size: 0 });
            v.push(DirEntry { name: String::from_str("abi"), dir: false, size: 0 });
            v.push(DirEntry { name: String::from_str("llm_tier"), dir: false, size: 0 });
            assert(entries_view(v@) =~= sys_listing());
            return Some(v);
        }
        if !self.exists_dir(path) {
            return None;
        }
        let p = Self::child_prefix_exec(&key);
        let mut out: Vec<DirEntry> = Vec::new();
        let mut i: usize = 0;
        while i < self.dirs.len()
            invariant
                i <= self.dirs@.len(),
                entries_view(out@) == dir_children(self.dir_seq().take(i as int), p@),
            decreases self.dirs.len() - i,
        {
            let ghost before = out@;
            assert(self.dir_seq().take(i + 1).drop_last() =~= self.dir_seq().take(i as int));
            assert(self.dir_seq().take(i + 1).last() == self.dirs@[i as int]@);
            match Self::child_of(&p, &self.dirs[i]) {
                Some(name) => {
                    let ghost nv = name@;
                    out.push(DirEntry { name: string_of(&name), dir: true, size: 0 });
                    assert(entries_view(out@) =~= entries_view(before).push((nv, true, 0u64)));
                },
                None => {},
            }
            i += 1;
        }
        assert(self.dir_seq().take(self.dirs.len() as int) =~= self.dir_seq());
        let ghost dpart = entries_view(out@);
        let mut j: usize = 0;
        while j < self.files.len()
            invariant
                j <= self.files@.len(),
                entries_view(out@) == dpart + file_children(self.file_seq().take(j as int), p@),
            decreases self.files.len() - j,
        {
            let ghost before = out@;
            assert(self.file_seq().take(j + 1).drop_last() =~= self.file_seq().take(j as int));
            assert(self.file_seq().take(j + 1).last() == (self.files@[j as int].0@, self.files@[j as int].1@));
            match Self::child_of(&p, &self.files[j].0) {
                Some(name) => {
                    let ghost nv = name@;
                    let size = self.files[j].1.len() as u64;
                    out.push(DirEntry { name: string_of(&name), dir: false, size });
                    assert(entries_view(out@) =~= entries_view(before).push((nv, false, size)));
                },
                None => {},
            }
            j += 1;
        }
        assert(self.file_seq().take(self.files.len() as int) =~= self.file_seq());
        Some(out)
    }

    /// All file paths under a directory, in increasing path order.
    pub fn files_under(&self, prefix: &str) -> (r: Vec<String>)
        requires
            self.wf(),
        ensures
            r@.map_values(|x: String| x@) == keys_under(self.file_seq(), child_prefix(norm(prefix@))),
    {
        let (_segs, key) = normalize_segs(prefix);
        proof {
            assert(norm(prefix@).len() > 0) by {
                if norm_segs(prefix@).len() > 0 {
                    crate::path::lemma_slash_join_len(norm_segs(prefix@));
                }
            }
        }
        let p = Self::child_prefix_exec(&key);
        let mut out: Vec<String> = Vec::new();
        let mut i: usize = 0;
        while i < self.files.len()
            invariant
                i <= self.files@.len(),
                out@.map_values(|x: String| x@) == keys_under(self.file_seq().take(i as int), p@),
            decreases self.files.len() - i,
        {
            let ghost before = out@.map_values(|x: String| x@);
            assert(self.file_seq().take(i + 1).drop_last() =~= self.file_seq().take(i as int));
            assert(self.file_seq().take(i + 1).last().0 == self.files@[i as int].0@);
            if starts_with(&self.files[i].0, &p) {
                let name = string_of(&self.files[i].0);
                out.push(name);
                assert(out@.map_values(|x: String| x@) =~= before.push(self.files@[i as int].0@));
            }
            i += 1;
        }
        assert(self.file_seq().take(self.files.len() as int) =~= self.file_seq());
        out
    }

    /// The pending operations, oldest first.
    pub fn dirty(&self) -> (r: &Vec<VfsOp>)
        ensures
            ops_view(r@) == self.ops(),
    {
        &self.dirty
    }

    /// Hands the pending operations to the platform, leaving none.
    pub fn take_ops(&mut self) -> (r: Vec<VfsOp>)
        requires
            old(self).wf(),
        ensures
            final(self).wf(),
            ops_view(r@) == old(self).ops(),
            final(self).ops().len() == 0,
            final(self).files() == old(self).files(),
            final(self).dirs() == old(self).dirs(),
            final(self).fps() == old(self).fps(),
            final(self).tier() == old(self).tier(),
            final(self).is_ready() == old(self).is_ready(),
    {
        let mut r: Vec<VfsOp> = Vec::new();
        std::mem::swap(&mut r, &mut self.dirty);
        r
    }

    /// Whether the platform finished loading persisted state.
    pub fn ready(&self) -> (r: bool)
        ensures
            r == self.is_ready(),
    {
        self.ready
    }

    /// Records whether the platform finished loading persisted state.
    pub fn set_ready(&mut self, ready: bool)
        requires
            old(self).wf(),
        ensures
            final(self).wf(),
            final(self).is_ready() == ready,
            final(self).ops() == old(self).ops(),
            final(self).files() == old(self).files(),
            final(self).dirs() == old(self).dirs(),
            final(self).fps() == old(self).fps(),
            final(self).tier() == old(self).tier(),
    {
        self.ready = ready;
    }

    /// Sets the frames per second shown at `/sys/fps`, in tenths.
    pub fn set_sys_fps_tenths(&mut self, tenths: u32)
        requires
            old(self).wf(),
        ensures
            final(self).wf(),
            final(self).fps() == tenths,
            final(self).is_ready() == old(self).is_ready(),
            final(self).ops() == old(self).ops(),
            final(self).files() == old(self).files(),
            final(self).dirs() == old(self).dirs(),
            final(self).tier() == old(self).tier(),
    {
        self.sys_fps_tenths = tenths;
    }

    /// Sets the LLM tier shown at `/sys/llm_tier`.
    pub fn set_sys_llm_tier(&mut self, tier: u8)
        requires
            old(self).wf(),
        ensures
            final(self).wf(),
            final(self).tier() == tier,
            final(self).is_ready() == old(self).is_ready(),
            final(self).ops() == old(self).ops(),
            final(self).files() == old(self).files(),
            final(self).dirs() == old(self).dirs(),
            final(self).fps() == old(self).fps(),
    {
        self.sys_llm_tier = tier;
    }
}

proof fn lemma_sys_paths()
    ensures
        in_sys(sys_fps_path()),
        in_sys(sys_abi_path()),
        in_sys(sys_tier_path()),
{
    reveal_strlit("/sys/fps");
    reveal_strlit("/sys/abi");
    reveal_strlit("/sys/llm_tier");
}

/// A read gives back what a write wrote: after storing `b` at a path
/// outside `/sys`, reading that path gives `b`.
pub proof fn law_read_after_write(files: Map<Seq<char>, Seq<u8>>, fps: u32, tier: u8, k: Seq<char>, b: Seq<u8>)
    requires
        !in_sys(k),
    ensures
        read_view(files.insert(k, b), fps, tier, k) == Some(b),
{
    lemma_sys_paths();
}

/// Writing or deleting one path leaves what every other path reads
/// unchanged.
pub proof fn law_read_other(files: Map<Seq<char>, Seq<u8>>, fps: u32, tier: u8, k: Seq<char>, k2: Seq<char>, b: Seq<u8>)
    requires
        k2 != k,
    ensures
        read_view(files.insert(k, b), fps, tier, k2) == read_view(files, fps, tier, k2),
        read_view(files.remove(k), fps, tier, k2) == read_view(files, fps, tier, k2),
{
}

/// After a file outside `/sys` is deleted, reading it gives nothing.
pub proof fn law_read_after_delete(files: Map<Seq<char>, Seq<u8>>, fps: u32, tier: u8, k: Seq<char>)
    requires
        !in_sys(k),
    ensures
        read_view(files.remove(k), fps, tier, k) is None,
{
    lemma_sys_paths();
}

/// A write reads back: after storing `b` at a path `p` outside `/sys`,
/// reading `p` gives `b`, every path that normalizes elsewhere reads as
/// before, and every proper ancestor of `p` is a directory.
pub proof fn law_write_reads_back(pre: Vfs, post: Vfs, p: Seq<char>, b: Seq<u8>, other: Seq<char>, i: int)
    requires
        post.wrote(pre, p, b),
        !in_sys(norm(p)),
    ensures
        post.read_spec(p) == Some(b),
        norm(other) != norm(p) ==> post.read_spec(other) == pre.read_spec(other),
        0 <= i < parents_of(norm_segs(p)).len() ==> post.dirs().contains(parents_of(norm_segs(p))[i]),
{
    law_read_after_write(pre.files(), pre.fps(), pre.tier(), norm(p), b);
    if norm(other) != norm(p) {
        law_read_other(pre.files(), pre.fps(), pre.tier(), norm(p), norm(other), b);
    }
    if 0 <= i < parents_of(norm_segs(p)).len() {
        assert(parents_of(norm_segs(p)).to_set().contains(parents_of(norm_segs(p))[i]));
    }
}

/// The synthetic `/sys` files are always readable.
pub proof fn law_sys_readable(files: Map<Seq<char>, Seq<u8>>, fps: u32, tier: u8)
    ensures
        read_view(files, fps, tier, sys_fps_path()) == Some(ascii_bytes(fps_text(fps))),
        read_view(files, fps, tier, sys_abi_path()) == Some(ascii_bytes(abi_text())),
        read_view(files, fps, tier, sys_tier_path()) == Some(ascii_bytes(tier_text(tier))),
{
    reveal_strlit("/sys/fps");
    reveal_strlit("/sys/abi");
    reveal_strlit("/sys/llm_tier");
    assert(sys_fps_path()[5] != sys_abi_path()[5]);
    assert(sys_fps_path()[5] != sys_tier_path()[5]);
    assert(sys_abi_path()[5] != sys_tier_path()[5]);
}

/// Names strictly increase along a list of entries.
pub open spec fn names_sorted(s: Seq<EntryView>) -> bool {
    forall|i: int, j: int| 0 <= i < j < s.len() ==> lex_lt(#[trigger] s[i].0, #[trigger] s[j].0)
}

proof fn lemma_child_split(p: Seq<char>, x: Seq<char>)
    requires
        child_name(p, x) is Some,
    ensures
        x == p + child_name(p, x)->0,
{
    assert(x =~= p + x.skip(p.len() as int));
}

proof fn lemma_dir_children(s: Seq<Seq<char>>, p: Seq<char>)
    requires
        sorted_set(s),
    ensures
        names_sorted(dir_children(s, p)),
        forall|k: int| 0 <= k < dir_children(s, p).len() ==> exists|j: int|
            0 <= j < s.len() && #[trigger] s[j] == p + (#[trigger] dir_children(s, p)[k]).0,
    decreases s.len(),
{
    if s.len() > 0 {
        let s0 = s.drop_last();
        assert(sorted_set(s0)) by {
            assert forall|i: int, j: int| 0 <= i < j < s0.len() implies lex_lt(#[trigger] s0[i], #[trigger] s0[j]) by {
                assert(s0[i] == s[i] && s0[j] == s[j]);
            }
        }
        lemma_dir_children(s0, p);
        let r = dir_children(s0, p);
        assert forall|k: int| 0 <= k < r.len() implies exists|j: int| 0 <= j < s.len() && #[trigger] s[j] == p + (#[trigger] r[k]).0 by {
            let j = choose|j: int| 0 <= j < s0.len() && #[trigger] s0[j] == p + r[k].0;
            assert(s[j] == s0[j]);
        }
        match child_name(p, s.last()) {
            Some(n) => {
                lemma_child_split(p, s.last());
                let t = r.push((n, true, 0u64));
                assert(t == dir_children(s, p));
                assert forall|i: int, j: int| 0 <= i < j < t.len() implies lex_lt(#[trigger] t[i].0, #[trigger] t[j].0) by {
                    if j == t.len() - 1 {
                        let a = choose|a: int| 0 <= a < s0.len() && #[trigger] s0[a] == p + r[i].0;
                        assert(s[a] == s0[a]);
                        assert(lex_lt(s[a], s[s.len() - 1]));
                        lemma_lex_prefix(p, r[i].0, n);
                    } else {
                        assert(t[i] == r[i] && t[j] == r[j]);
                    }
                }
                assert forall|k: int| 0 <= k < t.len() implies exists|j: int| 0 <= j < s.len() && #[trigger] s[j] == p + (#[trigger] t[k]).0 by {
                    if k == t.len() - 1 {
                        assert(s[s.len() - 1] == p + t[k].0);
                    } else {
                        assert(t[k] == r[k]);
                    }
                }
            },
            None => {},
        }
    }
}

proof fn lemma_file_children(s: Seq<(Seq<char>, Seq<u8>)>, p: Seq<char>)
    requires
        sorted_keys(s),
    ensures
        names_sorted(file_children(s, p)),
        forall|k: int| 0 <= k < file_children(s, p).len() ==> exists|j: int|
            0 <= j < s.len() && #[trigger] s[j].0 == p + (#[trigger] file_children(s, p)[k]).0,
    decreases s.len(),
{
    if s.len() > 0 {
        let s0 = s.drop_last();
        assert(sorted_keys(s0)) by {
            assert forall|i: int, j: int| 0 <= i < j < s0.len() implies lex_lt(#[trigger] s0[i].0, #[trigger] s0[j].0) by {
                assert(s0[i] == s[i] && s0[j] == s[j]);
            }
        }
        lemma_file_children(s0, p);
        let r = file_children(s0, p);
        assert forall|k: int| 0 <= k < r.len() implies exists|j: int| 0 <= j < s.len() && #[trigger] s[j].0 == p + (#[trigger] r[k]).0 by {
            let j = choose|j: int| 0 <= j < s0.len() && #[trigger] s0[j].0 == p + r[k].0;
            assert(s[j] == s0[j]);
        }
        match child_name(p, s.last().0) {
            Some(n) => {
                lemma_child_split(p, s.last().0);
                let t = r.push((n, false, s.last().1.len() as u64));
                assert(t == file_children(s, p));
                assert forall|i: int, j: int| 0 <= i < j < t.len() implies lex_lt(#[trigger] t[i].0, #[trigger] t[j].0) by {
                    if j == t.len() - 1 {
                        let a = choose|a: int| 0 <= a < s0.len() && #[trigger] s0[a].0 == p + r[i].0;
                        assert(s[a] == s0[a]);
                        assert(lex_lt(s[a].0, s[s.len() - 1].0));
                        lemma_lex_prefix(p, r[i].0, n);
                    } else {
                        assert(t[i] == r[i] && t[j] == r[j]);
                    }
                }
                assert forall|k: int| 0 <= k < t.len() implies exists|j: int| 0 <= j < s.len() && #[trigger] s[j].0 == p + (#[trigger] t[k]).0 by {
                    if k == t.len() - 1 {
                        assert(s[s.len() - 1].0 == p + t[k].0);
                    } else {
                        assert(t[k] == r[k]);
                    }
                }
            },
            None => {},
        }
    }
}

/// A listing is sorted: its directories come in strictly increasing name
/// order, and so do its files.
pub proof fn law_listing_sorted(v: &Vfs, p: Seq<char>)
    requires
        v.wf(),
    ensures
        names_sorted(dir_children(v.dir_seq(), p)),
        names_sorted(file_children(v.file_seq(), p)),
        forall|k: int| 0 <= k < dir_children(v.dir_seq(), p).len() ==> (#[trigger] dir_children(v.dir_seq(), p)[k]).1,
        forall|k: int| 0 <= k < file_children(v.file_seq(), p).len() ==> !(#[trigger] file_children(v.file_seq(), p)[k]).1,
{
    v.lemma_sorted();
    lemma_dir_children(v.dir_seq(), p);
    lemma_file_children(v.file_seq(), p);
    lemma_dir_flags(v.dir_seq(), p);
    lemma_file_flags(v.file_seq(), p);
}

proof fn lemma_dir_flags(s: Seq<Seq<char>>, p: Seq<char>)
    ensures
        forall|k: int| 0 <= k < dir_children(s, p).len() ==> (#[trigger] dir_children(s, p)[k]).1,
    decreases s.len(),
{
    if s.len() > 0 {
        lemma_dir_flags(s.drop_last(), p);
        let r = dir_children(s.drop_last(), p);
        let t = dir_children(s, p);
        assert forall|k: int| 0 <= k < t.len() implies (#[trigger] t[k]).1 by {
            if k < r.len() {
                assert(t[k] == r[k]);
            }
        }
    }
}

proof fn lemma_file_flags(s: Seq<(Seq<char>, Seq<u8>)>, p: Seq<char>)
    ensures
        forall|k: int| 0 <= k < file_children(s, p).len() ==> !(#[trigger] file_children(s, p)[k]).1,
    decreases s.len(),
{
    if s.len() > 0 {
        lemma_file_flags(s.drop_last(), p);
        let r = file_children(s.drop_last(), p);
        let t = file_children(s, p);
        assert forall|k: int| 0 <= k < t.len() implies !(#[trigger] t[k]).1 by {
            if k < r.len() {
                assert(t[k] == r[k]);
            }
        }
    }
}

} // verus!
