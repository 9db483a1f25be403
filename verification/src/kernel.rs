//! The kernel core: the syscall dispatcher and the per-process event
//! queues. Every syscall is capability-checked against the calling
//! process before any subsystem sees it.

use vstd::prelude::*;
use std::collections::HashMap;
use crate::abi::{
    AgentId, Capability, ErrorCode, HandsTuning, KernelEvent, Pid, Reply, Syscall, WinDesc, WinId,
    caps_view, default_tuning_spec,
};
use crate::ai::AiState;
use crate::proc::{
    ProcessTable, ProcView, SHELL_PID, default_caps, fs_allowed, fs_grants, grant_spec, holds, shell_caps, shell_caps_spec,
};
use crate::path::{norm, normalize_segs};
use crate::text::{ascii_bytes, dec, push_dec, push_str, string_of, to_ascii_bytes};
use crate::vfs::{Vfs, bytes_opt, entries_opt, res_view};

verus! {

broadcast use vstd::std_specs::hash::group_hash_axioms;

/// A window the kernel tracks: its owner, title and size (two `f32`
/// values carried by their bits).
pub struct WinRecord {
    pub owner: Pid,
    pub title: String,
    pub size_bits: [u32; 2],
}

/// Directives for the platform glue: the kernel records the intent set by
/// syscalls, the platform reads it each frame. `generation` grows on every
/// change, so the glue applies each change exactly once.
#[derive(Debug, Clone, Copy, PartialEq, Eq, Structural)]
pub struct HandsDirectives {
    pub camera_start: bool,
    pub viewer_open: bool,
    pub stream_feed: bool,
    pub tuning: HandsTuning,
    pub generation: u32,
}

/// The voice-capture directive, with the same generation contract as
/// [`HandsDirectives`].
#[derive(Debug, Clone, Copy, PartialEq, Eq, Structural)]
pub struct VoiceDirectives {
    pub capture: bool,
    pub generation: u32,
}

/// The events waiting for `pid` in a queue map.
pub open spec fn queue(q: Map<u32, Seq<KernelEvent>>, pid: u32) -> Seq<KernelEvent> {
    if q.contains_key(pid) {
        q[pid]
    } else {
        Seq::empty()
    }
}

/// A queue map after appending `ev` to the queue of `pid`.
pub open spec fn enqueue(q: Map<u32, Seq<KernelEvent>>, pid: u32, ev: KernelEvent) -> Map<u32, Seq<KernelEvent>> {
    q.insert(pid, queue(q, pid).push(ev))
}

/// The windows left after killing `pid`: those it owned are gone.
pub open spec fn drop_owned(w: Map<u32, WinRecord>, pid: u32) -> Map<u32, WinRecord> {
    Map::new(|k: u32| w.contains_key(k) && w[k].owner.0 != pid, |k: u32| w[k])
}

/// Whether `caller` may hand `c` on: a file scope when one of its own
/// scopes covers that scope's path (a write scope only under a write
/// scope), any other capability when it holds it.
pub open spec fn delegable(m: Map<u32, ProcView>, caller: u32, c: (u8, Seq<char>)) -> bool {
    if c.0 == 1 {
        fs_allowed(m, caller, c.1, false)
    } else if c.0 == 2 {
        fs_allowed(m, caller, c.1, true)
    } else {
        holds(m, caller, c)
    }
}

/// The capabilities among `req` that `caller` may hand on, in order.
pub open spec fn delegable_only(m: Map<u32, ProcView>, caller: u32, req: Seq<(u8, Seq<char>)>) -> Seq<(u8, Seq<char>)>
    decreases req.len(),
{
    if req.len() == 0 {
        Seq::empty()
    } else {
        let r = delegable_only(m, caller, req.drop_last());
        if delegable(m, caller, req.last()) {
            r.push(req.last())
        } else {
            r
        }
    }
}

/// The grant of a process registered by `caller` asking for `req`: the
/// default grant plus, by delegation, each requested capability the
/// caller may hand on.
pub open spec fn delegated(m: Map<u32, ProcView>, caller: u32, req: Seq<(u8, Seq<char>)>) -> Seq<(u8, Seq<char>)> {
    grant_spec(seq![(0u8, Seq::<char>::empty())], delegable_only(m, caller, req))
}

/// The capability views the kernel checks.
pub open spec fn cap_win_own() -> (u8, Seq<char>) {
    (0u8, Seq::empty())
}

pub open spec fn cap_net_llm() -> (u8, Seq<char>) {
    (6u8, Seq::empty())
}

pub open spec fn cap_ai_prompt() -> (u8, Seq<char>) {
    (7u8, Seq::empty())
}

pub open spec fn cap_raw_hands() -> (u8, Seq<char>) {
    (9u8, Seq::empty())
}

pub open spec fn cap_voice() -> (u8, Seq<char>) {
    (10u8, Seq::empty())
}

pub open spec fn cap_sys_query() -> (u8, Seq<char>) {
    (11u8, Seq::empty())
}

/// The kernel core, owned by the platform entry point.
pub struct Kernel {
    pub procs: ProcessTable,
    pub hands_directives: HandsDirectives,
    pub voice_directives: VoiceDirectives,
    /// Web fetches waiting for the platform: (id, url).
    pub web_pending: Vec<(u32, String)>,
    pub next_web_id: u32,
    pub ai: AiState,
    pub vfs: Vfs,
    /// Window id → window.
    pub windows: HashMap<u32, WinRecord>,
    pub next_win: u32,
    /// Pid → events waiting for it, oldest first.
    pub events: HashMap<u32, Vec<KernelEvent>>,
}

impl Kernel {
    /// The event queues, by pid.
    pub open spec fn queues(&self) -> Map<u32, Seq<KernelEvent>> {
        self.events@.map_values(|v: Vec<KernelEvent>| v@)
    }

    /// The kernel's invariant: the process table and the file tree are
    /// well formed, and every window id is below the next one.
    pub open spec fn wf(&self) -> bool {
        &&& self.procs.wf()
        &&& self.vfs.wf()
        &&& forall|k: u32| #[trigger] self.windows@.contains_key(k) ==> k < self.next_win
    }

    /// Whether the counters a call advances have room left.
    pub open spec fn has_room(&self, call: Syscall) -> bool {
        match call {
            Syscall::ProcRegister { .. } => self.procs.next_pid() < u32::MAX,
            Syscall::WinCreate(_) => self.next_win < u32::MAX,
            Syscall::CameraStart => self.hands_directives.generation < u32::MAX,
            Syscall::HandsViewer { .. } => self.hands_directives.generation < u32::MAX,
            Syscall::HandsTune(_) => self.hands_directives.generation < u32::MAX,
            Syscall::VoiceCapture { .. } => self.voice_directives.generation < u32::MAX,
            Syscall::WebFetch { .. } => self.next_web_id < u32::MAX,
            _ => true,
        }
    }

    /// A kernel with no process, no window and the initial file tree.
    pub fn new() -> (r: Self)
        ensures
            r.wf(),
            r.procs@ == Map::<u32, ProcView>::empty(),
            r.procs.next_pid() == 1,
            r.vfs.files() == Map::<Seq<char>, Seq<u8>>::empty(),
            r.vfs.dirs() == set!["/"@, "/home"@, "/apps"@, "/notes"@, "/notes/inbox"@, "/notes/daily"@, "/sys"@],
            r.vfs.ops().len() == 0,
            !r.vfs.is_ready(),
            r.vfs.fps() == 0,
            r.vfs.tier() == 1,
            r.ai.config_spec() == Some(crate::ai::default_config()),
            !r.ai.config_dirty,
            r.ai.pending@.len() == 0,
            r.ai.stream_view() == Map::<u32, (u32, Seq<char>)>::empty(),
            r.ai.history() == Map::<u32, Seq<crate::ai::Turn>>::empty(),
            r.hands_directives == (HandsDirectives {
                camera_start: false,
                viewer_open: false,
                stream_feed: false,
                tuning: default_tuning_spec(),
                generation: 0,
            }),
            r.voice_directives == (VoiceDirectives { capture: false, generation: 0 }),
            r.web_pending@.len() == 0,
            r.next_web_id == 1,
            r.windows@ == Map::<u32, WinRecord>::empty(),
            r.next_win == 1,
            r.queues() == Map::<u32, Seq<KernelEvent>>::empty(),
    {
        let r = Kernel {
            procs: ProcessTable::new(),
            hands_directives: HandsDirectives {
                camera_start: false,
                viewer_open: false,
                stream_feed: false,
                tuning: HandsTuning::default_tuning(),
                generation: 0,
            },
            voice_directives: VoiceDirectives { capture: false, generation: 0 },
            web_pending: Vec::new(),
            next_web_id: 1,
            ai: AiState::new(),
            vfs: Vfs::new(),
            windows: HashMap::new(),
            next_win: 1,
            events: HashMap::new(),
        };
        assert(r.queues() =~= Map::<u32, Seq<KernelEvent>>::empty());
        r
    }

    /// Appends an event to the queue of `pid`.
    pub fn push_event(&mut self, pid: Pid, ev: KernelEvent)
        ensures
            final(self).queues() == enqueue(old(self).queues(), pid.0, ev),
            *final(self) == (Kernel { events: final(self).events, ..*old(self) }),
    {
        let mut q = match self.events.remove(&pid.0) {
            Some(v) => v,
            None => Vec::new(),
        };
        assert(q@ == queue(old(self).queues(), pid.0));
        q.push(ev);
        self.events.insert(pid.0, q);
        assert(self.queues() =~= enqueue(old(self).queues(), pid.0, ev));
    }

    /// Hands `pid` the events waiting for it, oldest first, and empties
    /// its queue.
    pub fn poll_events(&mut self, pid: Pid) -> (r: Vec<KernelEvent>)
        ensures
            r@ == queue(old(self).queues(), pid.0),
            final(self).queues() == old(self).queues().remove(pid.0),
            *final(self) == (Kernel { events: final(self).events, ..*old(self) }),
    {
        let r = match self.events.remove(&pid.0) {
            Some(v) => v,
            None => Vec::new(),
        };
        assert(self.queues() =~= old(self).queues().remove(pid.0));
        r
    }
    /// Refuses a call unless `caller` holds `cap` exactly.
    pub fn require(&self, caller: Pid, cap: &Capability) -> (r: Result<(), ErrorCode>)
        requires
            self.wf(),
        ensures
            r is Ok <==> holds(self.procs@, caller.0, cap@),
            r is Err ==> r == Err::<(), ErrorCode>(ErrorCode::CapabilityDenied),
    {
        if self.procs.has_cap(caller, cap) {
            Ok(())
        } else {
            Err(ErrorCode::CapabilityDenied)
        }
    }

    /// Refuses a file-system call unless `caller` holds a scope granting
    /// the normalized `path` (for reads, a read or a write scope; for
    /// writes, a write scope), so `..` segments cannot leave a scope.
    pub fn require_fs(&self, caller: Pid, path: &str, write: bool) -> (r: Result<(), ErrorCode>)
        requires
            self.wf(),
        ensures
            r is Ok <==> fs_allowed(self.procs@, caller.0, norm(path@), write),
            r is Err ==> r == Err::<(), ErrorCode>(ErrorCode::CapabilityDenied),
    {
        let (_segs, key) = normalize_segs(path);
        let key = string_of(&key);
        if self.procs.has_fs_cap(caller, key.as_str(), write) {
            Ok(())
        } else {
            Err(ErrorCode::CapabilityDenied)
        }
    }

    /// Whether `caller` may hand `c` on to a process it registers.
    fn may_delegate(&self, caller: Pid, c: &Capability) -> (r: bool)
        requires
            self.procs.wf(),
        ensures
            r == delegable(self.procs@, caller.0, c@),
    {
        match c {
            Capability::FsRead(scope) => self.procs.has_fs_cap(caller, scope.as_str(), false),
            Capability::FsWrite(scope) => self.procs.has_fs_cap(caller, scope.as_str(), true),
            _ => self.procs.has_cap(caller, c),
        }
    }

    /// The state after registering `name` for `caller`.
    pub open spec fn post_register(
        pre: Kernel,
        post: Kernel,
        caller: Pid,
        name: String,
        caps: Vec<Capability>,
        r: Result<Reply, ErrorCode>,
    ) -> bool {
        let pid = pre.procs.next_pid();
        let granted = if pre.procs@.dom() == Set::<u32>::empty() {
            shell_caps_spec()
        } else {
            delegated(pre.procs@, caller.0, caps_view(caps@))
        };
        &&& r == Ok::<Reply, ErrorCode>(Reply::Pid(Pid(pid)))
        &&& !pre.procs@.contains_key(pid)
        &&& post.procs@ == pre.procs@.insert(pid, (name@, granted))
        &&& post.procs.next_pid() == pid + 1
        &&& post == (Kernel { procs: post.procs, ..pre })
    }

    fn sys_register(&mut self, caller: Pid, name: String, caps: Vec<Capability>) -> (r: Result<Reply, ErrorCode>)
        requires
            old(self).wf(),
            old(self).procs.next_pid() < u32::MAX,
        ensures
            final(self).wf(),
            Kernel::post_register(*old(self), *final(self), caller, name, caps, r),
    {
        let ghost m = self.procs@;
        let granted = if self.procs.is_empty() {
            shell_caps()
        } else {
            let mut g = default_caps();
            let ghost req = caps_view(caps@);
            let mut i: usize = 0;
            while i < caps.len()
                invariant
                    i <= caps@.len(),
                    self.procs.wf(),
                    self.procs@ == m,
                    req == caps_view(caps@),
                    caps_view(g@) == grant_spec(seq![(0u8, Seq::<char>::empty())], delegable_only(m, caller.0, req.take(i as int))),
                decreases caps.len() - i,
            {
                let c = &caps[i];
                let ghost gv = caps_view(g@);
                proof {
                    assert(req.take(i + 1).drop_last() =~= req.take(i as int));
                    assert(req.take(i + 1).last() == c@);
                }
                if self.may_delegate(caller, c) {
                    let held = caps_contain(&g, c);
                    let ghost h = delegable_only(m, caller.0, req.take(i as int));
                    assert(delegable_only(m, caller.0, req.take(i + 1)) == h.push(c@));
                    assert(h.push(c@).drop_last() =~= h);
                    if !held {
                        g.push(c.clone());
                        assert(caps_view(g@) =~= gv.push(c@));
                    }
                }
                i += 1;
            }
            assert(req.take(caps.len() as int) =~= req);
            g
        };
        let pid = self.procs.register(name.as_str(), granted);
        Ok(Reply::Pid(pid))
    }

    /// The state after `caller` kills `pid`: only the shell may kill
    /// another process; the victim's windows close with it.
    pub open spec fn post_kill(pre: Kernel, post: Kernel, caller: Pid, pid: Pid, r: Result<Reply, ErrorCode>) -> bool {
        if caller.0 != SHELL_PID && caller.0 != pid.0 {
            r == Err::<Reply, ErrorCode>(ErrorCode::CapabilityDenied) && post == pre
        } else {
            &&& r == Ok::<Reply, ErrorCode>(Reply::Nothing)
            &&& post.procs@ == pre.procs@.remove(pid.0)
            &&& post.procs.next_pid() == pre.procs.next_pid()
            &&& post.windows@ == drop_owned(pre.windows@, pid.0)
            &&& post == (Kernel { procs: post.procs, windows: post.windows, ..pre })
        }
    }

    fn sys_kill(&mut self, caller: Pid, pid: Pid) -> (r: Result<Reply, ErrorCode>)
        requires
            old(self).wf(),
        ensures
            final(self).wf(),
            Kernel::post_kill(*old(self), *final(self), caller, pid, r),
    {
        if caller.0 != SHELL_PID && caller.0 != pid.0 {
            return Err(ErrorCode::CapabilityDenied);
        }
        self.procs.kill(pid);
        let ghost w0 = self.windows@;
        let ghost k1 = *self;
        let mut id: u32 = 0;
        while id < self.next_win
            invariant
                *self == (Kernel { windows: self.windows, ..k1 }),
                id <= self.next_win,
                self.next_win == old(self).next_win,
                w0 == old(self).windows@,
                forall|k: u32| #[trigger] w0.contains_key(k) ==> k < self.next_win,
                self.windows@ == Map::new(
                    |k: u32| w0.contains_key(k) && (k >= id || w0[k].owner.0 != pid.0),
                    |k: u32| w0[k],
                ),
            decreases self.next_win - id,
        {
            let owned = match self.windows.get(&id) {
                Some(w) => w.owner.0 == pid.0,
                None => false,
            };
            let ghost before = self.windows@;
            if owned {
                let _ = self.windows.remove(&id);
            }
            assert(self.windows@ =~= Map::new(
                |k: u32| w0.contains_key(k) && (k >= id + 1 || w0[k].owner.0 != pid.0),
                |k: u32| w0[k],
            ));
            id += 1;
        }
        assert(self.windows@ =~= drop_owned(w0, pid.0));
        Ok(Reply::Nothing)
    }

    /// The state after `caller` asks for a window: it needs `WinOwn`.
    pub open spec fn post_win_create(pre: Kernel, post: Kernel, caller: Pid, desc: WinDesc, r: Result<Reply, ErrorCode>) -> bool {
        if !holds(pre.procs@, caller.0, cap_win_own()) {
            r == Err::<Reply, ErrorCode>(ErrorCode::CapabilityDenied) && post == pre
        } else {
            let id = pre.next_win;
            &&& r == Ok::<Reply, ErrorCode>(Reply::Win(WinId(id)))
            &&& post.windows@ == pre.windows@.insert(id, WinRecord { owner: caller, title: desc.title, size_bits: desc.size_bits })
            &&& post.next_win == id + 1
            &&& post == (Kernel { windows: post.windows, next_win: post.next_win, ..pre })
        }
    }

    fn sys_win_create(&mut self, caller: Pid, desc: WinDesc) -> (r: Result<Reply, ErrorCode>)
        requires
            old(self).wf(),
            old(self).next_win < u32::MAX,
        ensures
            final(self).wf(),
            Kernel::post_win_create(*old(self), *final(self), caller, desc, r),
    {
        let cap = Capability::WinOwn;
        if let Err(e) = self.require(caller, &cap) {
            return Err(e);
        }
        let id = self.next_win;
        self.next_win = self.next_win + 1;
        self.windows.insert(id, WinRecord { owner: caller, title: desc.title, size_bits: desc.size_bits });
        Ok(Reply::Win(WinId(id)))
    }

    /// The state after `caller` closes window `id`: its owner or the
    /// shell may; the owner is told.
    pub open spec fn post_win_close(pre: Kernel, post: Kernel, caller: Pid, id: WinId, r: Result<Reply, ErrorCode>) -> bool {
        if !pre.windows@.contains_key(id.0) {
            r == Err::<Reply, ErrorCode>(ErrorCode::NotFound) && post == pre
        } else if pre.windows@[id.0].owner != caller && caller.0 != SHELL_PID {
            r == Err::<Reply, ErrorCode>(ErrorCode::CapabilityDenied) && post == pre
        } else {
            &&& r == Ok::<Reply, ErrorCode>(Reply::Nothing)
            &&& post.windows@ == pre.windows@.remove(id.0)
            &&& post.queues() == enqueue(pre.queues(), pre.windows@[id.0].owner.0, KernelEvent::WinClosed(id))
            &&& post == (Kernel { windows: post.windows, events: post.events, ..pre })
        }
    }

    fn sys_win_close(&mut self, caller: Pid, id: WinId) -> (r: Result<Reply, ErrorCode>)
        requires
            old(self).wf(),
        ensures
            final(self).wf(),
            Kernel::post_win_close(*old(self), *final(self), caller, id, r),
    {
        let owner = match self.windows.get(&id.0) {
            None => {
                return Err(ErrorCode::NotFound);
            },
            Some(w) => w.owner,
        };
        if owner != caller && caller.0 != SHELL_PID {
            return Err(ErrorCode::CapabilityDenied);
        }
        let _ = self.windows.remove(&id.0);
        self.push_event(owner, KernelEvent::WinClosed(id));
        Ok(Reply::Nothing)
    }

    /// The state after `caller` retitles window `id`: only its owner may.
    pub open spec fn post_win_set_title(
        pre: Kernel,
        post: Kernel,
        caller: Pid,
        id: WinId,
        title: String,
        r: Result<Reply, ErrorCode>,
    ) -> bool {
        if !pre.windows@.contains_key(id.0) {
            r == Err::<Reply, ErrorCode>(ErrorCode::NotFound) && post == pre
        } else if pre.windows@[id.0].owner != caller {
            r == Err::<Reply, ErrorCode>(ErrorCode::CapabilityDenied) && post == pre
        } else {
            let w = pre.windows@[id.0];
            &&& r == Ok::<Reply, ErrorCode>(Reply::Nothing)
            &&& post.windows@ == pre.windows@.insert(id.0, WinRecord { owner: w.owner, title, size_bits: w.size_bits })
            &&& post == (Kernel { windows: post.windows, ..pre })
        }
    }

    fn sys_win_set_title(&mut self, caller: Pid, id: WinId, title: String) -> (r: Result<Reply, ErrorCode>)
        requires
            old(self).wf(),
        ensures
            final(self).wf(),
            Kernel::post_win_set_title(*old(self), *final(self), caller, id, title, r),
    {
        let owner = match self.windows.get(&id.0) {
            None => {
                return Err(ErrorCode::NotFound);
            },
            Some(w) => w.owner,
        };
        if owner != caller {
            return Err(ErrorCode::CapabilityDenied);
        }
        match self.windows.remove(&id.0) {
            Some(w) => {
                let ghost nw = WinRecord { owner: w.owner, title, size_bits: w.size_bits };
                self.windows.insert(id.0, WinRecord { owner: w.owner, title, size_bits: w.size_bits });
                assert(self.windows@ =~= old(self).windows@.insert(id.0, nw));
            },
            None => {},
        }
        Ok(Reply::Nothing)
    }
    /// The reply to a read: the bytes, or `NotFound`.
    pub open spec fn read_reply(b: Option<Seq<u8>>, r: Result<Reply, ErrorCode>) -> bool {
        match b {
            Some(bytes) => r matches Ok(Reply::Bytes(v)) && v@ == bytes,
            None => r == Err::<Reply, ErrorCode>(ErrorCode::NotFound),
        }
    }

    /// The state after `caller` queries the system file `path`: it needs
    /// `SysQuery`; nothing changes.
    pub open spec fn post_sys_query(pre: Kernel, post: Kernel, caller: Pid, path: String, r: Result<Reply, ErrorCode>) -> bool {
        &&& post == pre
        &&& if !holds(pre.procs@, caller.0, cap_sys_query()) {
            r == Err::<Reply, ErrorCode>(ErrorCode::CapabilityDenied)
        } else {
            Kernel::read_reply(pre.vfs.read_spec(path@), r)
        }
    }

    fn sys_query(&self, caller: Pid, path: String) -> (r: Result<Reply, ErrorCode>)
        requires
            self.wf(),
        ensures
            Kernel::post_sys_query(*self, *self, caller, path, r),
    {
        let cap = Capability::SysQuery;
        if let Err(e) = self.require(caller, &cap) {
            return Err(e);
        }
        match self.vfs.read(path.as_str()) {
            Some(bytes) => Ok(Reply::Bytes(bytes)),
            None => Err(ErrorCode::NotFound),
        }
    }

    /// The state after `caller` reads `path`: it needs a scope granting
    /// the read; nothing changes.
    pub open spec fn post_fs_read(pre: Kernel, post: Kernel, caller: Pid, path: String, r: Result<Reply, ErrorCode>) -> bool {
        &&& post == pre
        &&& if !fs_allowed(pre.procs@, caller.0, norm(path@), false) {
            r == Err::<Reply, ErrorCode>(ErrorCode::CapabilityDenied)
        } else {
            Kernel::read_reply(pre.vfs.read_spec(path@), r)
        }
    }

    fn sys_fs_read(&self, caller: Pid, path: String) -> (r: Result<Reply, ErrorCode>)
        requires
            self.wf(),
        ensures
            Kernel::post_fs_read(*self, *self, caller, path, r),
    {
        if let Err(e) = self.require_fs(caller, path.as_str(), false) {
            return Err(e);
        }
        match self.vfs.read(path.as_str()) {
            Some(bytes) => Ok(Reply::Bytes(bytes)),
            None => Err(ErrorCode::NotFound),
        }
    }

    /// The state after `caller` lists `path`: it needs a scope granting
    /// the read; nothing changes.
    pub open spec fn post_fs_list(pre: Kernel, post: Kernel, caller: Pid, path: String, r: Result<Reply, ErrorCode>) -> bool {
        &&& post == pre
        &&& if !fs_allowed(pre.procs@, caller.0, norm(path@), false) {
            r == Err::<Reply, ErrorCode>(ErrorCode::CapabilityDenied)
        } else {
            match pre.vfs.list_spec(path@) {
                Some(l) => r matches Ok(Reply::Entries(v)) && crate::vfs::entries_view(v@) == l,
                None => r == Err::<Reply, ErrorCode>(ErrorCode::NotFound),
            }
        }
    }

    fn sys_fs_list(&self, caller: Pid, path: String) -> (r: Result<Reply, ErrorCode>)
        requires
            self.wf(),
        ensures
            Kernel::post_fs_list(*self, *self, caller, path, r),
    {
        if let Err(e) = self.require_fs(caller, path.as_str(), false) {
            return Err(e);
        }
        match self.vfs.list(path.as_str()) {
            Some(entries) => Ok(Reply::Entries(entries)),
            None => Err(ErrorCode::NotFound),
        }
    }

    /// The state after `caller` writes `bytes` at `path`: it needs a
    /// write scope; a refusal of the file tree answers `InvalidArgument`;
    /// a write is announced to the shell.
    pub open spec fn post_fs_write(
        pre: Kernel,
        post: Kernel,
        caller: Pid,
        path: String,
        bytes: Vec<u8>,
        r: Result<Reply, ErrorCode>,
    ) -> bool {
        if !fs_allowed(pre.procs@, caller.0, norm(path@), true) {
            r == Err::<Reply, ErrorCode>(ErrorCode::CapabilityDenied) && post == pre
        } else if Vfs::write_outcome(path@, bytes@.len()) is Err {
            r == Err::<Reply, ErrorCode>(ErrorCode::InvalidArgument) && post == pre
        } else {
            &&& r == Ok::<Reply, ErrorCode>(Reply::Nothing)
            &&& post.vfs.wrote(pre.vfs, path@, bytes@)
            &&& post.queues() == enqueue(pre.queues(), SHELL_PID, KernelEvent::FsChanged { path })
            &&& post == (Kernel { vfs: post.vfs, events: post.events, ..pre })
        }
    }

    fn sys_fs_write(&mut self, caller: Pid, path: String, bytes: Vec<u8>) -> (r: Result<Reply, ErrorCode>)
        requires
            old(self).wf(),
        ensures
            final(self).wf(),
            Kernel::post_fs_write(*old(self), *final(self), caller, path, bytes, r),
    {
        if let Err(e) = self.require_fs(caller, path.as_str(), true) {
            return Err(e);
        }
        if let Err(_) = self.vfs.write(path.as_str(), bytes) {
            return Err(ErrorCode::InvalidArgument);
        }
        self.push_event(Pid(SHELL_PID), KernelEvent::FsChanged { path });
        Ok(Reply::Nothing)
    }

    /// The state after `caller` deletes `path`: it needs a write scope;
    /// a refusal of the file tree answers `InvalidArgument`; a deletion is
    /// announced to the shell.
    pub open spec fn post_fs_delete(pre: Kernel, post: Kernel, caller: Pid, path: String, r: Result<Reply, ErrorCode>) -> bool {
        if !fs_allowed(pre.procs@, caller.0, norm(path@), true) {
            r == Err::<Reply, ErrorCode>(ErrorCode::CapabilityDenied) && post == pre
        } else if pre.vfs.delete_outcome(path@) is Err {
            r == Err::<Reply, ErrorCode>(ErrorCode::InvalidArgument) && post == pre
        } else {
            &&& r == Ok::<Reply, ErrorCode>(Reply::Nothing)
            &&& post.vfs.deleted(pre.vfs, path@)
            &&& post.queues() == enqueue(pre.queues(), SHELL_PID, KernelEvent::FsChanged { path })
            &&& post == (Kernel { vfs: post.vfs, events: post.events, ..pre })
        }
    }

    fn sys_fs_delete(&mut self, caller: Pid, path: String) -> (r: Result<Reply, ErrorCode>)
        requires
            old(self).wf(),
        ensures
            final(self).wf(),
            Kernel::post_fs_delete(*old(self), *final(self), caller, path, r),
    {
        if let Err(e) = self.require_fs(caller, path.as_str(), true) {
            return Err(e);
        }
        if let Err(_) = self.vfs.delete(path.as_str()) {
            return Err(ErrorCode::InvalidArgument);
        }
        self.push_event(Pid(SHELL_PID), KernelEvent::FsChanged { path });
        Ok(Reply::Nothing)
    }

    /// The state after `caller` creates the directory `path`: it needs a
    /// write scope; a refusal of the file tree answers `InvalidArgument`;
    /// the creation is announced to the shell.
    pub open spec fn post_fs_mkdir(pre: Kernel, post: Kernel, caller: Pid, path: String, r: Result<Reply, ErrorCode>) -> bool {
        if !fs_allowed(pre.procs@, caller.0, norm(path@), true) {
            r == Err::<Reply, ErrorCode>(ErrorCode::CapabilityDenied) && post == pre
        } else if Vfs::mkdir_outcome(path@) is Err {
            r == Err::<Reply, ErrorCode>(ErrorCode::InvalidArgument) && post == pre
        } else {
            &&& r == Ok::<Reply, ErrorCode>(Reply::Nothing)
            &&& post.vfs.made_dir(pre.vfs, path@)
            &&& post.queues() == enqueue(pre.queues(), SHELL_PID, KernelEvent::FsChanged { path })
            &&& post == (Kernel { vfs: post.vfs, events: post.events, ..pre })
        }
    }

    fn sys_fs_mkdir(&mut self, caller: Pid, path: String) -> (r: Result<Reply, ErrorCode>)
        requires
            old(self).wf(),
        ensures
            final(self).wf(),
            Kernel::post_fs_mkdir(*old(self), *final(self), caller, path, r),
    {
        if let Err(e) = self.require_fs(caller, path.as_str(), true) {
            return Err(e);
        }
        if let Err(_) = self.vfs.mkdir(path.as_str()) {
            return Err(ErrorCode::InvalidArgument);
        }
        self.push_event(Pid(SHELL_PID), KernelEvent::FsChanged { path });
        Ok(Reply::Nothing)
    }

    /// The state after `caller` binds an AI provider: it needs
    /// `AiPrompt`; the binding is marked for saving.
    pub open spec fn post_ai_configure(
        pre: Kernel,
        post: Kernel,
        caller: Pid,
        cfg: crate::abi::AiProviderConfig,
        r: Result<Reply, ErrorCode>,
    ) -> bool {
        if !holds(pre.procs@, caller.0, cap_ai_prompt()) {
            r == Err::<Reply, ErrorCode>(ErrorCode::CapabilityDenied) && post == pre
        } else {
            &&& r == Ok::<Reply, ErrorCode>(Reply::Nothing)
            &&& post.ai == (AiState { config: Some(cfg), config_dirty: true, ..pre.ai })
            &&& post == (Kernel { ai: post.ai, ..pre })
        }
    }

    fn sys_ai_configure(&mut self, caller: Pid, cfg: crate::abi::AiProviderConfig) -> (r: Result<Reply, ErrorCode>)
        requires
            old(self).wf(),
        ensures
            final(self).wf(),
            Kernel::post_ai_configure(*old(self), *final(self), caller, cfg, r),
    {
        let cap = Capability::AiPrompt;
        if let Err(e) = self.require(caller, &cap) {
            return Err(e);
        }
        self.ai.set_config(cfg, true);
        Ok(Reply::Nothing)
    }

    /// The state after `caller` prompts `agent`: it needs `AiPrompt`. A
    /// prompt the agent manager refuses comes back to the caller as one
    /// final chunk holding the warning, so callers have one streaming path.
    pub open spec fn post_ai_prompt(
        pre: Kernel,
        post: Kernel,
        caller: Pid,
        agent: AgentId,
        msg: String,
        r: Result<Reply, ErrorCode>,
    ) -> bool {
        if !holds(pre.procs@, caller.0, cap_ai_prompt()) {
            r == Err::<Reply, ErrorCode>(ErrorCode::CapabilityDenied) && post == pre
        } else {
            &&& r == Ok::<Reply, ErrorCode>(Reply::Nothing)
            &&& match pre.ai.prompt_error(agent.0) {
                Some(e) => {
                    let q = queue(post.queues(), caller.0);
                    &&& post.queues() == enqueue(pre.queues(), caller.0, q.last())
                    &&& q.last() matches KernelEvent::AiChunk { agent: a, text, done }
                    &&& a == agent && done && text@ == "⚠ "@ + e
                    &&& post == (Kernel { events: post.events, ..pre })
                },
                None => {
                    &&& post.ai.prompted(pre.ai, agent.0, caller.0, msg@)
                    &&& post == (Kernel { ai: post.ai, ..pre })
                },
            }
        }
    }

    fn sys_ai_prompt(&mut self, caller: Pid, agent: AgentId, msg: String) -> (r: Result<Reply, ErrorCode>)
        requires
            old(self).wf(),
        ensures
            final(self).wf(),
            Kernel::post_ai_prompt(*old(self), *final(self), caller, agent, msg, r),
    {
        let cap = Capability::AiPrompt;
        if let Err(e) = self.require(caller, &cap) {
            return Err(e);
        }
        match self.ai.prompt(agent, caller, msg) {
            Ok(()) => {},
            Err(e) => {
                let mut t: Vec<char> = Vec::new();
                push_str(&mut t, "⚠ ");
                push_str(&mut t, e.as_str());
                let ev = KernelEvent::AiChunk { agent, text: string_of(&t), done: true };
                self.push_event(caller, ev);
                assert(queue(self.queues(), caller.0).last() == ev);
            },
        }
        Ok(Reply::Nothing)
    }

    /// The state after a directive call by `caller`: it needs `cap`; on
    /// success the directives become `next`.
    pub open spec fn post_directive(
        pre: Kernel,
        post: Kernel,
        caller: Pid,
        cap: (u8, Seq<char>),
        next: Kernel,
        r: Result<Reply, ErrorCode>,
    ) -> bool {
        if !holds(pre.procs@, caller.0, cap) {
            r == Err::<Reply, ErrorCode>(ErrorCode::CapabilityDenied) && post == pre
        } else {
            r == Ok::<Reply, ErrorCode>(Reply::Nothing) && post == next
        }
    }

    /// The hands directives after `CameraStart`.
    pub open spec fn camera_started(h: HandsDirectives) -> HandsDirectives {
        HandsDirectives { camera_start: true, generation: (h.generation + 1) as u32, ..h }
    }

    /// The hands directives after `HandsViewer`: a change bumps the
    /// generation, a repeat changes nothing.
    pub open spec fn viewer_set(h: HandsDirectives, open: bool, stream_feed: bool) -> HandsDirectives {
        if h.viewer_open != open || h.stream_feed != stream_feed {
            HandsDirectives { viewer_open: open, stream_feed, generation: (h.generation + 1) as u32, ..h }
        } else {
            h
        }
    }

    /// The hands directives after `HandsTune`: a change bumps the
    /// generation, a repeat changes nothing.
    pub open spec fn tuning_set(h: HandsDirectives, tuning: HandsTuning) -> HandsDirectives {
        if h.tuning != tuning {
            HandsDirectives { tuning, generation: (h.generation + 1) as u32, ..h }
        } else {
            h
        }
    }

    /// The voice directive after `VoiceCapture`: a change bumps the
    /// generation, a repeat changes nothing.
    pub open spec fn capture_set(v: VoiceDirectives, start: bool) -> VoiceDirectives {
        if v.capture != start {
            VoiceDirectives { capture: start, generation: (v.generation + 1) as u32 }
        } else {
            v
        }
    }

    fn sys_camera_start(&mut self, caller: Pid) -> (r: Result<Reply, ErrorCode>)
        requires
            old(self).wf(),
            old(self).hands_directives.generation < u32::MAX,
        ensures
            final(self).wf(),
            Kernel::post_directive(*old(self), *final(self), caller, cap_raw_hands(),
                Kernel { hands_directives: Kernel::camera_started(old(self).hands_directives), ..*old(self) }, r),
    {
        let cap = Capability::InputRawHands;
        if let Err(e) = self.require(caller, &cap) {
            return Err(e);
        }
        self.hands_directives.camera_start = true;
        self.hands_directives.generation = self.hands_directives.generation + 1;
        Ok(Reply::Nothing)
    }

    fn sys_hands_viewer(&mut self, caller: Pid, open: bool, stream_feed: bool) -> (r: Result<Reply, ErrorCode>)
        requires
            old(self).wf(),
            old(self).hands_directives.generation < u32::MAX,
        ensures
            final(self).wf(),
            Kernel::post_directive(*old(self), *final(self), caller, cap_raw_hands(),
                Kernel { hands_directives: Kernel::viewer_set(old(self).hands_directives, open, stream_feed), ..*old(self) }, r),
    {
        let cap = Capability::InputRawHands;
        if let Err(e) = self.require(caller, &cap) {
            return Err(e);
        }
        if self.hands_directives.viewer_open != open || self.hands_directives.stream_feed != stream_feed {
            self.hands_directives.viewer_open = open;
            self.hands_directives.stream_feed = stream_feed;
            self.hands_directives.generation = self.hands_directives.generation + 1;
        }
        Ok(Reply::Nothing)
    }

    fn sys_hands_tune(&mut self, caller: Pid, tuning: HandsTuning) -> (r: Result<Reply, ErrorCode>)
        requires
            old(self).wf(),
            old(self).hands_directives.generation < u32::MAX,
        ensures
            final(self).wf(),
            Kernel::post_directive(*old(self), *final(self), caller, cap_raw_hands(),
                Kernel { hands_directives: Kernel::tuning_set(old(self).hands_directives, tuning), ..*old(self) }, r),
    {
        let cap = Capability::InputRawHands;
        if let Err(e) = self.require(caller, &cap) {
            return Err(e);
        }
        if self.hands_directives.tuning != tuning {
            self.hands_directives.tuning = tuning;
            self.hands_directives.generation = self.hands_directives.generation + 1;
        }
        Ok(Reply::Nothing)
    }

    fn sys_voice_capture(&mut self, caller: Pid, start: bool) -> (r: Result<Reply, ErrorCode>)
        requires
            old(self).wf(),
            old(self).voice_directives.generation < u32::MAX,
        ensures
            final(self).wf(),
            Kernel::post_directive(*old(self), *final(self), caller, cap_voice(),
                Kernel { voice_directives: Kernel::capture_set(old(self).voice_directives, start), ..*old(self) }, r),
    {
        let cap = Capability::VoiceInput;
        if let Err(e) = self.require(caller, &cap) {
            return Err(e);
        }
        if self.voice_directives.capture != start {
            self.voice_directives.capture = start;
            self.voice_directives.generation = self.voice_directives.generation + 1;
        }
        Ok(Reply::Nothing)
    }

    /// The state after `caller` asks for `url`: it needs `NetLlm`; the
    /// request waits for the platform under the next id, which is the
    /// reply, in decimal.
    pub open spec fn post_web_fetch(pre: Kernel, post: Kernel, caller: Pid, url: String, r: Result<Reply, ErrorCode>) -> bool {
        if !holds(pre.procs@, caller.0, cap_net_llm()) {
            r == Err::<Reply, ErrorCode>(ErrorCode::CapabilityDenied) && post == pre
        } else {
            let id = pre.next_web_id;
            &&& r matches Ok(Reply::Bytes(v)) && v@ == ascii_bytes(dec(id as nat))
            &&& post.web_pending@ == pre.web_pending@.push((id, url))
            &&& post.next_web_id == id + 1
            &&& post == (Kernel { web_pending: post.web_pending, next_web_id: post.next_web_id, ..pre })
        }
    }

    fn sys_web_fetch(&mut self, caller: Pid, url: String) -> (r: Result<Reply, ErrorCode>)
        requires
            old(self).wf(),
            old(self).next_web_id < u32::MAX,
        ensures
            final(self).wf(),
            Kernel::post_web_fetch(*old(self), *final(self), caller, url, r),
    {
        let cap = Capability::NetLlm;
        if let Err(e) = self.require(caller, &cap) {
            return Err(e);
        }
        let id = self.next_web_id;
        self.next_web_id = self.next_web_id + 1;
        self.web_pending.push((id, url));
        let mut t: Vec<char> = Vec::new();
        push_dec(&mut t, id as u64);
        Ok(Reply::Bytes(to_ascii_bytes(&t)))
    }

    /// What a syscall does: the reply and the new state, by call.
    pub open spec fn syscall_post(pre: Kernel, post: Kernel, caller: Pid, call: Syscall, r: Result<Reply, ErrorCode>) -> bool {
        match call {
            Syscall::ProcRegister { name, caps } => Kernel::post_register(pre, post, caller, name, caps, r),
            Syscall::ProcKill(pid) => Kernel::post_kill(pre, post, caller, pid, r),
            Syscall::WinCreate(desc) => Kernel::post_win_create(pre, post, caller, desc, r),
            Syscall::WinClose(id) => Kernel::post_win_close(pre, post, caller, id, r),
            Syscall::WinSetTitle(id, title) => Kernel::post_win_set_title(pre, post, caller, id, title, r),
            Syscall::SysQuery { path } => Kernel::post_sys_query(pre, post, caller, path, r),
            Syscall::FsRead { path } => Kernel::post_fs_read(pre, post, caller, path, r),
            Syscall::FsList { path } => Kernel::post_fs_list(pre, post, caller, path, r),
            Syscall::FsWrite { path, bytes } => Kernel::post_fs_write(pre, post, caller, path, bytes, r),
            Syscall::FsDelete { path } => Kernel::post_fs_delete(pre, post, caller, path, r),
            Syscall::FsMkdir { path } => Kernel::post_fs_mkdir(pre, post, caller, path, r),
            Syscall::AiConfigure(cfg) => Kernel::post_ai_configure(pre, post, caller, cfg, r),
            Syscall::AiPrompt { agent, msg } => Kernel::post_ai_prompt(pre, post, caller, agent, msg, r),
            Syscall::CameraStart => Kernel::post_directive(pre, post, caller, cap_raw_hands(),
                Kernel { hands_directives: Kernel::camera_started(pre.hands_directives), ..pre }, r),
            Syscall::HandsViewer { open, stream_feed } => Kernel::post_directive(pre, post, caller, cap_raw_hands(),
                Kernel { hands_directives: Kernel::viewer_set(pre.hands_directives, open, stream_feed), ..pre }, r),
            Syscall::HandsTune(tuning) => Kernel::post_directive(pre, post, caller, cap_raw_hands(),
                Kernel { hands_directives: Kernel::tuning_set(pre.hands_directives, tuning), ..pre }, r),
            Syscall::VoiceCapture { start } => Kernel::post_directive(pre, post, caller, cap_voice(),
                Kernel { voice_directives: Kernel::capture_set(pre.voice_directives, start), ..pre }, r),
            Syscall::WebFetch { url } => Kernel::post_web_fetch(pre, post, caller, url, r),
            _ => r == Err::<Reply, ErrorCode>(ErrorCode::Unsupported) && post == pre,
        }
    }

    /// The syscall entry point. Every call is capability-checked against
    /// the calling process before any subsystem sees it; a refused call
    /// changes nothing.
    pub fn syscall(&mut self, caller: Pid, call: Syscall) -> (r: Result<Reply, ErrorCode>)
        requires
            old(self).wf(),
            old(self).has_room(call),
        ensures
            final(self).wf(),
            Kernel::syscall_post(*old(self), *final(self), caller, call, r),
            r is Err ==> *final(self) == *old(self),
    {
        match call {
            Syscall::ProcRegister { name, caps } => self.sys_register(caller, name, caps),
            Syscall::ProcKill(pid) => self.sys_kill(caller, pid),
            Syscall::WinCreate(desc) => self.sys_win_create(caller, desc),
            Syscall::WinClose(id) => self.sys_win_close(caller, id),
            Syscall::WinSetTitle(id, title) => self.sys_win_set_title(caller, id, title),
            Syscall::SysQuery { path } => self.sys_query(caller, path),
            Syscall::FsRead { path } => self.sys_fs_read(caller, path),
            Syscall::FsList { path } => self.sys_fs_list(caller, path),
            Syscall::FsWrite { path, bytes } => self.sys_fs_write(caller, path, bytes),
            Syscall::FsDelete { path } => self.sys_fs_delete(caller, path),
            Syscall::FsMkdir { path } => self.sys_fs_mkdir(caller, path),
            Syscall::AiConfigure(cfg) => self.sys_ai_configure(caller, cfg),
            Syscall::AiPrompt { agent, msg } => self.sys_ai_prompt(caller, agent, msg),
            Syscall::CameraStart => self.sys_camera_start(caller),
            Syscall::HandsViewer { open, stream_feed } => self.sys_hands_viewer(caller, open, stream_feed),
            Syscall::HandsTune(tuning) => self.sys_hands_tune(caller, tuning),
            Syscall::VoiceCapture { start } => self.sys_voice_capture(caller, start),
            Syscall::WebFetch { url } => self.sys_web_fetch(caller, url),
            _ => Err(ErrorCode::Unsupported),
        }
    }

    /// Whether the counters `call` advances have room left: the platform
    /// checks this before dispatching.
    pub fn room_for(&self, call: &Syscall) -> (r: bool)
        ensures
            r == self.has_room(*call),
    {
        match call {
            Syscall::ProcRegister { .. } => self.procs.next_pid_exec() < u32::MAX,
            Syscall::WinCreate(_) => self.next_win < u32::MAX,
            Syscall::CameraStart => self.hands_directives.generation < u32::MAX,
            Syscall::HandsViewer { .. } => self.hands_directives.generation < u32::MAX,
            Syscall::HandsTune(_) => self.hands_directives.generation < u32::MAX,
            Syscall::VoiceCapture { .. } => self.voice_directives.generation < u32::MAX,
            Syscall::WebFetch { .. } => self.next_web_id < u32::MAX,
            _ => true,
        }
    }

    /// A streamed AI delta from the platform: it goes to the requester as
    /// an `AiChunk` event (nothing happens for an agent with no open
    /// stream).
    pub fn ai_chunk(&mut self, agent: u32, delta: String, done: bool)
        requires
            old(self).wf(),
        ensures
            final(self).wf(),
            !old(self).ai.stream_view().contains_key(agent) ==> *final(self) == *old(self),
            old(self).ai.stream_view().contains_key(agent) ==> {
                &&& final(self).ai.chunked(old(self).ai, agent, delta@, done)
                &&& final(self).queues() == enqueue(
                    old(self).queues(),
                    old(self).ai.stream_view()[agent].0,
                    KernelEvent::AiChunk { agent: AgentId(agent), text: delta, done },
                )
                &&& *final(self) == (Kernel { ai: final(self).ai, events: final(self).events, ..*old(self) })
            },
    {
        match self.ai.chunk(agent, delta.as_str(), done) {
            Some(requester) => {
                self.push_event(requester, KernelEvent::AiChunk { agent: AgentId(agent), text: delta, done });
            },
            None => {},
        }
    }

    /// Speech-engine status from the platform, for the shell. When the
    /// engine stops on its own the capture intent follows, without a
    /// generation bump: no stop call needs dispatching.
    pub fn voice_status(&mut self, listening: bool, available: bool, reason: String)
        requires
            old(self).wf(),
        ensures
            final(self).wf(),
            final(self).voice_directives == (VoiceDirectives {
                capture: if listening { old(self).voice_directives.capture } else { false },
                generation: old(self).voice_directives.generation,
            }),
            final(self).queues() == enqueue(old(self).queues(), SHELL_PID, KernelEvent::VoiceStatus { listening, available, reason }),
            *final(self) == (Kernel { voice_directives: final(self).voice_directives, events: final(self).events, ..*old(self) }),
    {
        if !listening {
            self.voice_directives.capture = false;
        }
        self.push_event(Pid(SHELL_PID), KernelEvent::VoiceStatus { listening, available, reason });
    }

    /// A speech transcript from the platform, for the shell (text only).
    pub fn voice_transcript(&mut self, text: String, is_final: bool)
        requires
            old(self).wf(),
        ensures
            final(self).wf(),
            final(self).queues() == enqueue(old(self).queues(), SHELL_PID, KernelEvent::VoiceTranscript { text, is_final }),
            *final(self) == (Kernel { events: final(self).events, ..*old(self) }),
    {
        self.push_event(Pid(SHELL_PID), KernelEvent::VoiceTranscript { text, is_final });
    }

    /// Camera pipeline availability from the platform, for the shell.
    pub fn set_camera_status(&mut self, enabled: bool, reason: String)
        requires
            old(self).wf(),
        ensures
            final(self).wf(),
            final(self).queues() == enqueue(old(self).queues(), SHELL_PID, KernelEvent::CameraStatus { enabled, reason }),
            *final(self) == (Kernel { events: final(self).events, ..*old(self) }),
    {
        self.push_event(Pid(SHELL_PID), KernelEvent::CameraStatus { enabled, reason });
    }

    /// A system notice for the shell to show.
    pub fn notice(&mut self, text: String)
        requires
            old(self).wf(),
        ensures
            final(self).wf(),
            final(self).queues() == enqueue(old(self).queues(), SHELL_PID, KernelEvent::Notice { text }),
            *final(self) == (Kernel { events: final(self).events, ..*old(self) }),
    {
        self.push_event(Pid(SHELL_PID), KernelEvent::Notice { text });
    }

    /// The platform delivered the body of a web fetch, for the shell.
    pub fn web_result(&mut self, id: u32, ok: bool, body: String)
        requires
            old(self).wf(),
        ensures
            final(self).wf(),
            final(self).queues() == enqueue(old(self).queues(), SHELL_PID, KernelEvent::WebResult { id, ok, body }),
            *final(self) == (Kernel { events: final(self).events, ..*old(self) }),
    {
        self.push_event(Pid(SHELL_PID), KernelEvent::WebResult { id, ok, body });
    }
}

/// Whether a capability list holds `c`.
fn caps_contain(g: &Vec<Capability>, c: &Capability) -> (r: bool)
    ensures
        r == caps_view(g@).contains(c@),
{
    let mut j: usize = 0;
    while j < g.len()
        invariant
            j <= g@.len(),
            forall|k: int| 0 <= k < j ==> g@[k]@ != c@,
        decreases g.len() - j,
    {
        if g[j] == *c {
            assert(caps_view(g@)[j as int] == c@);
            return true;
        }
        j += 1;
    }
    assert(!caps_view(g@).contains(c@)) by {
        if caps_view(g@).contains(c@) {
            let k = choose|k: int| 0 <= k < caps_view(g@).len() && caps_view(g@)[k] == c@;
            assert(g@[k]@ == c@);
        }
    }
    false
}

proof fn lemma_delegable_only(m: Map<u32, ProcView>, caller: u32, req: Seq<(u8, Seq<char>)>, c: (u8, Seq<char>))
    ensures
        delegable_only(m, caller, req).contains(c) <==> (req.contains(c) && delegable(m, caller, c)),
    decreases req.len(),
{
    if req.len() > 0 {
        let r0 = req.drop_last();
        lemma_delegable_only(m, caller, r0, c);
        let h = delegable_only(m, caller, r0);
        if req.contains(c) && !r0.contains(c) {
            let i = choose|i: int| 0 <= i < req.len() && req[i] == c;
            if i < req.len() - 1 {
                assert(r0[i] == c);
            }
        }
        if r0.contains(c) {
            let i = choose|i: int| 0 <= i < r0.len() && r0[i] == c;
            assert(req[i] == c);
        }
        if delegable(m, caller, req.last()) {
            if h.push(req.last()).contains(c) && c != req.last() {
                let i = choose|i: int| 0 <= i < h.len() + 1 && h.push(req.last())[i] == c;
                assert(h[i] == c);
            }
            if h.contains(c) {
                let i = choose|i: int| 0 <= i < h.len() && h[i] == c;
                assert(h.push(req.last())[i] == c);
            }
            assert(h.push(req.last())[h.len() as int] == req.last());
        }
        assert(req[req.len() - 1] == req.last());
    }
}

proof fn lemma_grant_from(held: Seq<(u8, Seq<char>)>, new: Seq<(u8, Seq<char>)>, c: (u8, Seq<char>))
    ensures
        grant_spec(held, new).contains(c) ==> held.contains(c) || new.contains(c),
    decreases new.len(),
{
    if new.len() > 0 {
        let n0 = new.drop_last();
        lemma_grant_from(held, n0, c);
        let g = grant_spec(held, n0);
        if grant_spec(held, new).contains(c) && !g.contains(c) {
            let i = choose|i: int| 0 <= i < g.len() + 1 && g.push(new.last())[i] == c;
            assert(i == g.len());
            assert(new[new.len() - 1] == c);
        }
        if n0.contains(c) {
            let i = choose|i: int| 0 <= i < n0.len() && n0[i] == c;
            assert(new[i] == c);
        }
    }
}

/// Delegation never escalates: a process registered by another process
/// holds the default window grant and, beyond it, only capabilities it
/// asked for that its registrar may hand on: ones it holds, or file scopes
/// that its own scopes cover.
pub proof fn law_delegation_bounded(m: Map<u32, ProcView>, caller: u32, req: Seq<(u8, Seq<char>)>, c: (u8, Seq<char>))
    ensures
        delegated(m, caller, req).contains(c) ==> c == cap_win_own() || (req.contains(c) && delegable(m, caller, c)),
{
    lemma_grant_from(seq![(0u8, Seq::<char>::empty())], delegable_only(m, caller, req), c);
    lemma_delegable_only(m, caller, req, c);
    if seq![(0u8, Seq::<char>::empty())].contains(c) {
        let i = choose|i: int| 0 <= i < 1 && seq![(0u8, Seq::<char>::empty())][i] == c;
    }
}

/// Delegation is complete: every capability asked for that the registrar
/// may hand on is granted, and so is the default window grant.
pub proof fn law_delegation_complete(m: Map<u32, ProcView>, caller: u32, req: Seq<(u8, Seq<char>)>, c: (u8, Seq<char>))
    ensures
        req.contains(c) && delegable(m, caller, c) ==> delegated(m, caller, req).contains(c),
        delegated(m, caller, req).contains(cap_win_own()),
{
    lemma_delegable_only(m, caller, req, c);
    crate::proc::law_grant_holds(seq![(0u8, Seq::<char>::empty())], delegable_only(m, caller, req), c);
    crate::proc::law_grant_holds(seq![(0u8, Seq::<char>::empty())], delegable_only(m, caller, req), cap_win_own());
    assert(seq![(0u8, Seq::<char>::empty())][0] == cap_win_own());
}

/// Delegation never widens file access: whatever path a process
/// registered by `caller` may read (or write) with its delegated grant,
/// `caller` may read (or write) itself.
pub proof fn law_delegation_never_widens(
    m: Map<u32, ProcView>,
    caller: u32,
    req: Seq<(u8, Seq<char>)>,
    pid: u32,
    name: Seq<char>,
    path: Seq<char>,
    write: bool,
)
    ensures
        fs_allowed(m.insert(pid, (name, delegated(m, caller, req))), pid, path, write) ==> fs_allowed(m, caller, path, write),
{
    let g = delegated(m, caller, req);
    let m2 = m.insert(pid, (name, g));
    if fs_allowed(m2, pid, path, write) {
        let j = choose|j: int| 0 <= j < m2[pid].1.len() && #[trigger] fs_grants(m2[pid].1[j], path, write);
        let c = g[j];
        assert(g.contains(c));
        law_delegation_bounded(m, caller, req, c);
        assert(c != cap_win_own());
        assert(delegable(m, caller, c));
        let w2 = c.0 == 2;
        assert(fs_allowed(m, caller, c.1, w2));
        let k = choose|k: int| 0 <= k < m[caller].1.len() && #[trigger] fs_grants(m[caller].1[k], c.1, w2);
        let d = m[caller].1[k];
        crate::proc::lemma_scope_trans(d.1, c.1, path);
        assert(fs_grants(d, path, write));
    }
}

/// A process stays inside its file scope: when every file scope it holds
/// is `scope`, each path it may read or write normalizes to `scope` itself
/// or to a path under it, whatever `..` segments the path held.
pub proof fn law_scope_confines(m: Map<u32, ProcView>, pid: u32, scope: Seq<char>, path: Seq<char>, write: bool)
    requires
        crate::proc::trim_end_slashes(scope).len() > 0,
        forall|j: int| 0 <= j < m[pid].1.len() && (m[pid].1[j].0 == 1 || m[pid].1[j].0 == 2)
            ==> #[trigger] m[pid].1[j].1 == scope,
    ensures
        fs_allowed(m, pid, norm(path), write) ==> norm(path) == crate::proc::trim_end_slashes(scope)
            || crate::proc::trim_end_slashes(scope).push('/').is_prefix_of(norm(path)),
{
    if fs_allowed(m, pid, norm(path), write) {
        let j = choose|j: int| 0 <= j < m[pid].1.len() && #[trigger] fs_grants(m[pid].1[j], norm(path), write);
        assert(m[pid].1[j].1 == scope);
    }
}

/// Directives are applied exactly once: repeating an intent changes
/// nothing, and a change bumps the generation by one.
pub proof fn law_directives_once(h: HandsDirectives, v: VoiceDirectives, open: bool, feed: bool, tuning: HandsTuning, start: bool)
    requires
        h.generation < u32::MAX,
        v.generation < u32::MAX,
    ensures
        Kernel::viewer_set(Kernel::viewer_set(h, open, feed), open, feed) == Kernel::viewer_set(h, open, feed),
        Kernel::tuning_set(Kernel::tuning_set(h, tuning), tuning) == Kernel::tuning_set(h, tuning),
        Kernel::capture_set(Kernel::capture_set(v, start), start) == Kernel::capture_set(v, start),
        Kernel::capture_set(v, start).capture == start,
        Kernel::capture_set(v, start).generation == v.generation + if v.capture != start { 1int } else { 0int },
        Kernel::viewer_set(h, open, feed).generation == h.generation
            + if h.viewer_open != open || h.stream_feed != feed { 1int } else { 0int },
        Kernel::tuning_set(h, tuning).generation == h.generation + if h.tuning != tuning { 1int } else { 0int },
        Kernel::camera_started(h).generation == h.generation + 1,
{
}

/// Events reach only their addressee, in the order they were sent, and
/// polling hands each one out once.
pub proof fn law_queue_order(q: Map<u32, Seq<KernelEvent>>, pid: u32, other: u32, ev: KernelEvent)
    ensures
        queue(enqueue(q, pid, ev), pid) == queue(q, pid).push(ev),
        other != pid ==> queue(enqueue(q, pid, ev), other) == queue(q, other),
        queue(q.remove(pid), pid) == Seq::<KernelEvent>::empty(),
        other != pid ==> queue(q.remove(pid), other) == queue(q, other),
{
}

/// A read gives back what a write wrote: after a successful `FsWrite`,
/// the caller may read the path, and reading it gives the bytes written.
pub proof fn law_fs_read_after_write(pre: Kernel, post: Kernel, caller: Pid, path: String, bytes: Vec<u8>, r: Result<Reply, ErrorCode>)
    requires
        Kernel::syscall_post(pre, post, caller, Syscall::FsWrite { path, bytes }, r),
        r is Ok,
    ensures
        post.vfs.read_spec(path@) == Some(bytes@),
        fs_allowed(post.procs@, caller.0, norm(path@), false),
{
    crate::vfs::law_read_after_write(pre.vfs.files(), pre.vfs.fps(), pre.vfs.tier(), crate::path::norm(path@), bytes@);
    crate::proc::law_write_implies_read(pre.procs@, caller.0, norm(path@));
}

/// A killed process owns no window and holds no capability any more;
/// the windows of other processes stay.
pub proof fn law_kill_cleans_up(pre: Kernel, post: Kernel, caller: Pid, pid: Pid, r: Result<Reply, ErrorCode>, k: u32, c: (u8, Seq<char>))
    requires
        Kernel::syscall_post(pre, post, caller, Syscall::ProcKill(pid), r),
        r is Ok,
    ensures
        post.windows@.contains_key(k) ==> post.windows@[k].owner.0 != pid.0,
        pre.windows@.contains_key(k) && pre.windows@[k].owner.0 != pid.0 ==> post.windows@.contains_key(k)
            && post.windows@[k] == pre.windows@[k],
        !holds(post.procs@, pid.0, c),
{
}

} // verus!
