//! The Files app's decisions: where it is, what is selected, and the one
//! syscall each click issues. The platform draws the places, the toolbar,
//! the entries and the preview, and hands each click here.

use vstd::prelude::*;
use crate::abi::{ErrorCode, Pid, Reply, Syscall};
use crate::apps::AppAction;
use crate::kernel::Kernel;
use crate::notes::{preview_of, preview_text, read_answer};
use crate::path::{
    abs_path, good_seg, join_abs, lemma_norm_good, lemma_norm_stack_good, lemma_slash_join_first, lemma_split_join, norm, norm_segs,
    normalize_segs, segs_view, slash_join,
};
use crate::terminal::{lossy_text, utf8_lossy};
use crate::text::{chars_eq, chars_of, push_str, string_of, trim, trim_str};
use crate::vfs::{Vfs, in_sys};

verus! {

/// The Files app's state.
#[derive(Debug)]
pub struct FilesState {
    /// The directory shown.
    pub cwd: String,
    /// The selected file, if any.
    pub selected: Option<String>,
    /// The previewed file and its preview text.
    pub preview: Option<(String, String)>,
    /// Icons in a grid, or a list.
    pub grid: bool,
    /// The name typed for a new folder or note.
    pub new_name: String,
}

/// The view of the state: directory, selection, preview, grid, new name.
pub type FilesView = (Seq<char>, Option<Seq<char>>, Option<(Seq<char>, Seq<char>)>, bool, Seq<char>);

/// The view of the state.
pub open spec fn files_view(s: FilesState) -> FilesView {
    (
        s.cwd@,
        match s.selected {
            Some(p) => Some(p@),
            None => None,
        },
        match s.preview {
            Some(p) => Some((p.0@, p.1@)),
            None => None,
        },
        s.grid,
        s.new_name@,
    )
}

/// What the user does in the Files app. Entries are named as listed in
/// the directory shown.
#[derive(Debug)]
pub enum FilesEvent {
    /// A place of the sidebar, by its position.
    Place(u8),
    /// The home button.
    Home,
    /// The up button.
    Up,
    /// The breadcrumb for the first `n + 1` segments of the directory.
    Crumb(usize),
    /// Grid or list view.
    SetGrid(bool),
    /// A click on an entry.
    Click { name: String, dir: bool },
    /// A double click on an entry.
    DoubleClick { name: String, dir: bool },
    /// Preview from an entry's menu.
    Preview(String),
    /// Launch from an entry's menu.
    Launch(String),
    /// Delete from an entry's menu.
    Delete(String),
    /// Launch from the preview pane.
    LaunchSelected,
    /// Delete from the preview pane.
    DeleteSelected,
    /// Create a folder named by `new_name`.
    NewFolder,
    /// Create a note named by `new_name`.
    NewFile,
}

/// The places of the sidebar: Home, Notes, Apps, Settings, System.
pub open spec fn place_path(i: u8) -> Option<Seq<char>> {
    if i == 0 {
        Some("/"@)
    } else if i == 1 {
        Some("/notes"@)
    } else if i == 2 {
        Some("/apps"@)
    } else if i == 3 {
        Some("/settings"@)
    } else if i == 4 {
        Some("/sys"@)
    } else {
        None
    }
}

/// The view of the app showing `cwd` with nothing selected.
pub open spec fn fresh_at(cwd: Seq<char>, grid: bool, name: Seq<char>) -> FilesView {
    (cwd, None, None, grid, name)
}

/// The path of the entry `name` in the directory `cwd`.
pub open spec fn child_of(cwd: Seq<char>, name: Seq<char>) -> Seq<char> {
    if cwd == "/"@ {
        "/"@ + name
    } else {
        cwd + "/"@ + name
    }
}

/// The directory above `cwd` (the root stays the root).
pub open spec fn parent_path(cwd: Seq<char>) -> Seq<char> {
    let segs = norm_segs(cwd);
    abs_path(if segs.len() > 0 { segs.drop_last() } else { segs })
}

/// Whether `p` names a Conjure app document.
pub open spec fn is_conjure(p: Seq<char>) -> bool {
    p.len() >= 8 && p.subrange(p.len() - 8, p.len() as int) == ".conjure"@
}

/// The launch a Conjure document at `p` gives: its text when `pid` can
/// read it.
pub open spec fn launched(k: Kernel, pid: Pid, p: Seq<char>) -> Option<Seq<char>> {
    match read_answer(k, pid, p) {
        Ok(b) => Some(utf8_lossy(b)),
        Err(_) => None,
    }
}

/// The view of an app action: the Conjure text to launch.
pub open spec fn action_view(a: Option<AppAction>) -> Option<Seq<char>> {
    match a {
        Some(AppAction::LaunchConjure(t)) => Some(t@),
        None => None,
    }
}

/// The name a new note gets: `name`, or `name.md` when it has no dot.
pub open spec fn note_name(name: Seq<char>) -> Seq<char> {
    if name.contains('.') {
        name
    } else {
        name + ".md"@
    }
}

/// `k2` is `k` after `pid` deleted `p`.
pub open spec fn deleted_as(k: Kernel, k2: Kernel, pid: Pid, p: Seq<char>) -> bool {
    exists|q: String, r: Result<Reply, ErrorCode>| q@ == p && #[trigger] Kernel::post_fs_delete(k, k2, pid, q, r)
}

/// `k2` is `k` after `pid` made the directory `p`.
pub open spec fn made_as(k: Kernel, k2: Kernel, pid: Pid, p: Seq<char>) -> bool {
    exists|q: String, r: Result<Reply, ErrorCode>| q@ == p && #[trigger] Kernel::post_fs_mkdir(k, k2, pid, q, r)
}

/// `k2` is `k` after `pid` wrote an empty file at `p`.
pub open spec fn created_as(k: Kernel, k2: Kernel, pid: Pid, p: Seq<char>) -> bool {
    exists|q: String, b: Vec<u8>, r: Result<Reply, ErrorCode>|
        q@ == p && b@.len() == 0 && #[trigger] Kernel::post_fs_write(k, k2, pid, q, b, r)
}

/// One step of the Files app of process `pid`: the new state, the kernel
/// after the one syscall issued, and the launch asked for.
pub open spec fn files_stepped(s: FilesView, k: Kernel, pid: Pid, ev: FilesEvent, s2: FilesView, k2: Kernel, act: Option<Seq<char>>) -> bool {
    let (cwd, sel, prev, grid, name) = s;
    match ev {
        FilesEvent::Place(i) => k2 == k && act is None && s2 == match place_path(i) {
            Some(p) => fresh_at(p, grid, name),
            None => s,
        },
        FilesEvent::Home => k2 == k && act is None && s2 == ("/"@, sel, prev, grid, name),
        FilesEvent::Up => k2 == k && act is None && s2 == if cwd != "/"@ {
            fresh_at(parent_path(cwd), grid, name)
        } else {
            s
        },
        FilesEvent::Crumb(n) => k2 == k && act is None && s2 == if n < norm_segs(cwd).len() {
            (abs_path(norm_segs(cwd).take(n + 1)), sel, prev, grid, name)
        } else {
            s
        },
        FilesEvent::SetGrid(g) => k2 == k && act is None && s2 == (cwd, sel, prev, g, name),
        FilesEvent::Click { name: n, dir } => {
            let full = child_of(cwd, n@);
            &&& k2 == k
            &&& act is None
            &&& s2 == if dir {
                fresh_at(full, grid, name)
            } else {
                (cwd, Some(full), Some((full, preview_of(k, pid, full))), grid, name)
            }
        },
        FilesEvent::Preview(n) => {
            let full = child_of(cwd, n@);
            k2 == k && act is None && s2 == (cwd, Some(full), Some((full, preview_of(k, pid, full))), grid, name)
        },
        FilesEvent::DoubleClick { name: n, dir } => {
            let full = child_of(cwd, n@);
            k2 == k && s2 == s && act == if !dir && is_conjure(full) { launched(k, pid, full) } else { None }
        },
        FilesEvent::Launch(n) => {
            let full = child_of(cwd, n@);
            k2 == k && s2 == s && act == if is_conjure(full) { launched(k, pid, full) } else { None }
        },
        FilesEvent::Delete(n) => {
            let full = child_of(cwd, n@);
            &&& act is None
            &&& if !in_sys(full) {
                deleted_as(k, k2, pid, full) && s2 == if sel == Some(full) { fresh_at(cwd, grid, name) } else { s }
            } else {
                k2 == k && s2 == s
            }
        },
        FilesEvent::LaunchSelected => k2 == k && s2 == s && act == match sel {
            Some(p) => if is_conjure(p) { launched(k, pid, p) } else { None },
            None => None,
        },
        FilesEvent::DeleteSelected => act is None && match sel {
            Some(p) => if !in_sys(p) {
                deleted_as(k, k2, pid, p) && s2 == fresh_at(cwd, grid, name)
            } else {
                k2 == k && s2 == s
            },
            None => k2 == k && s2 == s,
        },
        FilesEvent::NewFolder => act is None && if trim(name).len() > 0 {
            made_as(k, k2, pid, child_of(cwd, trim(name))) && s2 == (cwd, sel, prev, grid, Seq::<char>::empty())
        } else {
            k2 == k && s2 == s
        },
        FilesEvent::NewFile => act is None && if trim(name).len() > 0 {
            created_as(k, k2, pid, child_of(cwd, note_name(trim(name))))
                && s2 == (cwd, sel, prev, grid, Seq::<char>::empty())
        } else {
            k2 == k && s2 == s
        },
    }
}

/// The path of the entry `name` in the directory `cwd`.
fn child_path(cwd: &str, name: &str) -> (r: String)
    ensures
        r@ == child_of(cwd@, name@),
{
    let mut v = chars_of(cwd);
    let root = chars_of("/");
    if !chars_eq(&v, &root) {
        v.push('/');
    }
    push_str(&mut v, name);
    proof {
        reveal_strlit("/");
        if cwd@ == "/"@ {
            assert(v@ =~= "/"@ + name@);
        } else {
            assert(v@ =~= cwd@ + "/"@ + name@);
        }
    }
    string_of(&v)
}

/// Whether `p` names a Conjure app document.
fn conjure_path(p: &str) -> (r: bool)
    ensures
        r == is_conjure(p@),
{
    let v = chars_of(p);
    let ext = chars_of(".conjure");
    proof {
        reveal_strlit(".conjure");
    }
    if v.len() < 8 {
        return false;
    }
    let base = v.len() - 8;
    let mut i: usize = 0;
    while i < 8
        invariant
            i <= 8,
            base + 8 == v@.len(),
            base + 8 == v.len(),
            v@ == p@,
            ext@ == ".conjure"@,
            ext@.len() == 8,
            forall|j: int| 0 <= j < i ==> v@[base + j] == ext@[j],
        decreases 8 - i,
    {
        if v[base + i] != ext[i] {
            assert(v@.subrange(base as int, v@.len() as int)[i as int] == v@[base + i]);
            assert(v@.subrange(base as int, v@.len() as int)[i as int] != ".conjure"@[i as int]);
            assert(v@.subrange(base as int, v@.len() as int) != ".conjure"@);
            assert(p@.subrange(p@.len() - 8, p@.len() as int) != ".conjure"@);
            return false;
        }
        i += 1;
    }
    assert(v@.subrange(base as int, v@.len() as int) =~= ".conjure"@);
    true
}

/// Whether `p` lies outside `/sys`, so it may be deleted.
fn deletable(p: &str) -> (r: bool)
    ensures
        r == !in_sys(p@),
{
    let v = chars_of(p);
    !Vfs::under_sys(&v)
}

/// Reads the Conjure document at `p` for launching.
fn launch_doc(kernel: &mut Kernel, pid: Pid, p: &str) -> (r: Option<AppAction>)
    requires
        old(kernel).wf(),
    ensures
        *final(kernel) == *old(kernel),
        action_view(r) == launched(*old(kernel), pid, p@),
{
    match kernel.syscall(pid, Syscall::FsRead { path: String::from_str(p) }) {
        Ok(Reply::Bytes(b)) => Some(AppAction::LaunchConjure(lossy_text(b.as_slice()))),
        _ => None,
    }
}

/// Deletes `p` on behalf of `pid`.
fn delete_path(kernel: &mut Kernel, pid: Pid, p: &str)
    requires
        old(kernel).wf(),
    ensures
        final(kernel).wf(),
        deleted_as(*old(kernel), *final(kernel), pid, p@),
{
    let q = String::from_str(p);
    let ghost qv = q;
    let r = kernel.syscall(pid, Syscall::FsDelete { path: q });
    assert(Kernel::post_fs_delete(*old(kernel), *kernel, pid, qv, r));
}

/// Whether `v` holds a dot.
fn has_dot(v: &Vec<char>) -> (r: bool)
    ensures
        r == v@.contains('.'),
{
    let mut i: usize = 0;
    while i < v.len()
        invariant
            i <= v@.len(),
            forall|j: int| 0 <= j < i ==> v@[j] != '.',
        decreases v.len() - i,
    {
        if v[i] == '.' {
            assert(v@[i as int] == '.');
            return true;
        }
        i += 1;
    }
    false
}

/// One step of the Files app (see [`files_stepped`]).
pub fn files_step(s: &mut FilesState, kernel: &mut Kernel, pid: Pid, ev: FilesEvent) -> (act: Option<AppAction>)
    requires
        old(kernel).wf(),
    ensures
        final(kernel).wf(),
        files_stepped(files_view(*old(s)), *old(kernel), pid, ev, files_view(*final(s)), *final(kernel), action_view(act)),
{
    proof {
        reveal_strlit("/");
    }
    match ev {
        FilesEvent::Place(i) => {
            let p = if i == 0 {
                Some("/")
            } else if i == 1 {
                Some("/notes")
            } else if i == 2 {
                Some("/apps")
            } else if i == 3 {
                Some("/settings")
            } else if i == 4 {
                Some("/sys")
            } else {
                None
            };
            if let Some(p) = p {
                s.cwd = String::from_str(p);
                s.selected = None;
                s.preview = None;
            }
            None
        },
        FilesEvent::Home => {
            s.cwd = String::from_str("/");
            None
        },
        FilesEvent::Up => {
            let root = chars_of("/");
            let c = chars_of(s.cwd.as_str());
            if !chars_eq(&c, &root) {
                let (mut segs, _key) = normalize_segs(s.cwd.as_str());
                let ghost sv = segs_view(segs@);
                if segs.len() > 0 {
                    segs.pop();
                    assert(segs_view(segs@) =~= sv.drop_last());
                }
                let p = join_abs(&segs);
                s.cwd = string_of(&p);
                s.selected = None;
                s.preview = None;
            }
            None
        },
        FilesEvent::Crumb(n) => {
            let (mut segs, _key) = normalize_segs(s.cwd.as_str());
            if n < segs.len() {
                let ghost sv = segs_view(segs@);
                segs.truncate(n + 1);
                assert(segs_view(segs@) =~= sv.take(n + 1));
                let p = join_abs(&segs);
                s.cwd = string_of(&p);
            }
            None
        },
        FilesEvent::SetGrid(g) => {
            s.grid = g;
            None
        },
        FilesEvent::Click { name, dir } => {
            let full = child_path(s.cwd.as_str(), name.as_str());
            if dir {
                s.cwd = full;
                s.selected = None;
                s.preview = None;
            } else {
                let text = preview_text(kernel, pid, full.as_str());
                s.selected = Some(full.clone());
                s.preview = Some((full, text));
            }
            None
        },
        FilesEvent::Preview(name) => {
            let full = child_path(s.cwd.as_str(), name.as_str());
            let text = preview_text(kernel, pid, full.as_str());
            s.selected = Some(full.clone());
            s.preview = Some((full, text));
            None
        },
        FilesEvent::DoubleClick { name, dir } => {
            let full = child_path(s.cwd.as_str(), name.as_str());
            if !dir && conjure_path(full.as_str()) {
                launch_doc(kernel, pid, full.as_str())
            } else {
                None
            }
        },
        FilesEvent::Launch(name) => {
            let full = child_path(s.cwd.as_str(), name.as_str());
            if conjure_path(full.as_str()) {
                launch_doc(kernel, pid, full.as_str())
            } else {
                None
            }
        },
        FilesEvent::Delete(name) => {
            let full = child_path(s.cwd.as_str(), name.as_str());
            if deletable(full.as_str()) {
                delete_path(kernel, pid, full.as_str());
                let same = match &s.selected {
                    Some(p) => {
                        let a = chars_of(p.as_str());
                        let b = chars_of(full.as_str());
                        chars_eq(&a, &b)
                    },
                    None => false,
                };
                if same {
                    s.selected = None;
                    s.preview = None;
                }
            }
            None
        },
        FilesEvent::LaunchSelected => {
            match &s.selected {
                Some(p) => if conjure_path(p.as_str()) {
                    launch_doc(kernel, pid, p.as_str())
                } else {
                    None
                },
                None => None,
            }
        },
        FilesEvent::DeleteSelected => {
            let sel = match &s.selected {
                Some(p) => Some(p.clone()),
                None => None,
            };
            if let Some(p) = sel {
                if deletable(p.as_str()) {
                    delete_path(kernel, pid, p.as_str());
                    s.selected = None;
                    s.preview = None;
                }
            }
            None
        },
        FilesEvent::NewFolder => {
            let name = trim_str(s.new_name.as_str());
            if name.len() > 0 {
                let n = string_of(&name);
                let target = child_path(s.cwd.as_str(), n.as_str());
                let ghost tv = target;
                let r = kernel.syscall(pid, Syscall::FsMkdir { path: target });
                assert(Kernel::post_fs_mkdir(*old(kernel), *kernel, pid, tv, r));
                s.new_name = String::new();
            }
            None
        },
        FilesEvent::NewFile => {
            let name = trim_str(s.new_name.as_str());
            if name.len() > 0 {
                let mut nv = name.clone();
                if !has_dot(&name) {
                    push_str(&mut nv, ".md");
                }
                let n = string_of(&nv);
                let target = child_path(s.cwd.as_str(), n.as_str());
                let ghost tv = target;
                let bytes: Vec<u8> = Vec::new();
                let ghost bv = bytes;
                let r = kernel.syscall(pid, Syscall::FsWrite { path: target, bytes });
                assert(Kernel::post_fs_write(*old(kernel), *kernel, pid, tv, bv, r));
                s.new_name = String::new();
            }
            None
        },
    }
}

/// The segments of the path a list of good segments joins to are that
/// list.
proof fn lemma_segs_of_join(segs: Seq<Seq<char>>)
    requires
        segs.len() > 0,
        forall|i: int| 0 <= i < segs.len() ==> good_seg(#[trigger] segs[i]),
    ensures
        norm_segs(slash_join(segs)) == segs,
{
    assert forall|i: int| 0 <= i < segs.len() implies !(#[trigger] segs[i]).contains('/') by {
        assert(good_seg(segs[i]));
    }
    lemma_split_join(segs);
    lemma_norm_stack_good(segs);
}

/// Up undoes opening a directory: from any directory shown (a normalized
/// path), opening the entry `name` (a plain name: not empty, no `/`, not
/// `.` or `..`) and then going up comes back to that directory; the
/// opened directory lies one level deeper.
pub proof fn law_up_undoes_open(p: Seq<char>, name: Seq<char>)
    requires
        good_seg(name),
    ensures
        parent_path(child_of(norm(p), name)) == norm(p),
        norm_segs(child_of(norm(p), name)).len() == norm_segs(p).len() + 1,
        child_of(norm(p), name) != "/"@,
{
    let segs = norm_segs(p);
    lemma_norm_good(p);
    let s2 = segs.push(name);
    assert forall|i: int| 0 <= i < s2.len() implies good_seg(#[trigger] s2[i]) by {
        if i < segs.len() {
            assert(s2[i] == segs[i]);
        }
    }
    reveal_strlit("/");
    assert(s2.drop_last() =~= segs);
    if segs.len() == 0 {
        assert(norm(p) == seq!['/']);
        assert(norm(p) == "/"@);
        assert(slash_join(s2) == slash_join(segs).push('/') + name);
        assert(slash_join(segs) == Seq::<char>::empty());
        assert(child_of(norm(p), name) =~= slash_join(s2));
    } else {
        lemma_slash_join_first(segs);
        assert(slash_join(segs).len() >= 2) by {
            let l = segs.last();
            assert(good_seg(segs[segs.len() - 1]));
            assert(slash_join(segs) == slash_join(segs.drop_last()).push('/') + l);
        }
        assert(norm(p) != "/"@);
        assert(child_of(norm(p), name) =~= slash_join(s2));
    }
    lemma_segs_of_join(s2);
    assert(slash_join(s2) == slash_join(segs).push('/') + name);
    assert(child_of(norm(p), name).len() >= 2);
}

/// Breadcrumbs lead to ancestors: in a directory shown in normalized
/// form, the breadcrumb for the first `n + 1` segments shows the directory
/// made of exactly those segments, keeps the selection, issues no
/// syscall, and the last breadcrumb is the directory itself.
pub proof fn law_crumbs_are_ancestors(
    p: Seq<char>,
    n: usize,
    s: FilesView,
    k: Kernel,
    pid: Pid,
    s2: FilesView,
    k2: Kernel,
    act: Option<Seq<char>>,
)
    requires
        s.0 == norm(p),
        n < norm_segs(p).len(),
        files_stepped(s, k, pid, FilesEvent::Crumb(n), s2, k2, act),
    ensures
        norm_segs(s2.0) == norm_segs(p).take(n + 1),
        n + 1 == norm_segs(p).len() ==> s2.0 == s.0,
        s2.1 == s.1,
        k2 == k,
        act is None,
{
    let segs = norm_segs(p);
    lemma_norm_good(p);
    lemma_segs_of_join(segs);
    let t = segs.take(n + 1);
    assert forall|i: int| 0 <= i < t.len() implies good_seg(#[trigger] t[i]) by {
        assert(t[i] == segs[i]);
    }
    lemma_segs_of_join(t);
    if n + 1 == segs.len() {
        assert(t =~= segs);
    }
}

/// Going up after opening a directory shows the directory it was opened
/// from, with nothing selected and no syscall issued.
pub proof fn law_up_after_open(
    p: Seq<char>,
    name: Seq<char>,
    s: FilesView,
    k: Kernel,
    pid: Pid,
    s2: FilesView,
    k2: Kernel,
    act: Option<Seq<char>>,
)
    requires
        good_seg(name),
        s.0 == child_of(norm(p), name),
        files_stepped(s, k, pid, FilesEvent::Up, s2, k2, act),
    ensures
        s2.0 == norm(p),
        s2.1 is None,
        s2.2 is None,
        k2 == k,
{
    law_up_undoes_open(p, name);
}

} // verus!
