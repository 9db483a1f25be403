use pmos::abi::{AgentId, AiProviderConfig, Capability, ErrorCode, HandsTuning, KernelEvent, Pid, Reply, Syscall, WinDesc, WinId, AGENT_ASSISTANT};
use pmos::kernel::Kernel;
use pmos::proc::SHELL_PID;

fn register(k: &mut Kernel, name: &str) -> Pid {
    match k.syscall(Pid(SHELL_PID), Syscall::ProcRegister { name: name.into(), caps: vec![] }).unwrap() {
        Reply::Pid(p) => p,
        other => panic!("unexpected reply {other:?}"),
    }
}

#[test]
fn voice_capture_is_gated_and_generation_counted() {
    let mut k = Kernel::new();
    let shell = register(&mut k, "shell"); // first process = shell grant
    let app = register(&mut k, "app"); // default caps only

    assert!(matches!(k.syscall(app, Syscall::VoiceCapture { start: true }), Err(ErrorCode::CapabilityDenied)));

    let g0 = k.voice_directives.generation;
    k.syscall(shell, Syscall::VoiceCapture { start: true }).unwrap();
    assert!(k.voice_directives.capture);
    assert_eq!(k.voice_directives.generation, g0 + 1);
    // Idempotent: same intent must not re-trigger the platform.
    k.syscall(shell, Syscall::VoiceCapture { start: true }).unwrap();
    assert_eq!(k.voice_directives.generation, g0 + 1);

    // Engine ending on its own syncs intent without a generation bump.
    k.voice_status(false, true, String::new());
    assert!(!k.voice_directives.capture);
    assert_eq!(k.voice_directives.generation, g0 + 1);
}

#[test]
fn first_process_is_the_shell_and_delegation_is_bounded() {
    let mut k = Kernel::new();
    let shell = register(&mut k, "shell");
    assert_eq!(shell, Pid(1));
    assert!(k.procs.has_cap(shell, &Capability::NetLlm));
    // The shell delegates what it may hand on: file scopes its own scopes
    // cover, other capabilities it holds; the app gets WinOwn plus these.
    let notes = match k
        .syscall(
            shell,
            Syscall::ProcRegister {
                name: "notes".into(),
                caps: vec![Capability::FsRead("/notes".into()), Capability::ClipboardWrite],
            },
        )
        .unwrap()
    {
        Reply::Pid(p) => p,
        other => panic!("{other:?}"),
    };
    assert!(k.procs.has_cap(notes, &Capability::WinOwn));
    assert!(k.procs.has_cap(notes, &Capability::FsRead("/notes".into())));
    assert!(!k.procs.has_fs_cap(notes, "/home/x.txt", false));
    assert!(!k.procs.has_cap(notes, &Capability::ClipboardWrite));
    // A process registered by the unprivileged app gets nothing extra.
    let child = match k
        .syscall(notes, Syscall::ProcRegister { name: "child".into(), caps: vec![Capability::NetLlm] })
        .unwrap()
    {
        Reply::Pid(p) => p,
        other => panic!("{other:?}"),
    };
    assert!(!k.procs.has_cap(child, &Capability::NetLlm));
    assert!(k.procs.has_cap(child, &Capability::WinOwn));
}

#[test]
fn delegation_copies_capabilities_the_shell_may_hand_on() {
    let mut k = Kernel::new();
    let shell = register(&mut k, "shell");
    let term = match k
        .syscall(
            shell,
            Syscall::ProcRegister {
                name: "term".into(),
                caps: vec![Capability::FsRead("/".into()), Capability::AiPrompt, Capability::AiPrompt],
            },
        )
        .unwrap()
    {
        Reply::Pid(p) => p,
        other => panic!("{other:?}"),
    };
    assert!(k.procs.has_cap(term, &Capability::FsRead("/".into())));
    assert!(k.procs.has_cap(term, &Capability::AiPrompt));
    assert!(k.procs.has_fs_cap(term, "/notes/x.md", false));
    assert!(!k.procs.has_fs_cap(term, "/notes/x.md", true));
}

#[test]
fn windows_are_owned_and_closed_by_owner_or_shell() {
    let mut k = Kernel::new();
    let shell = register(&mut k, "shell");
    let app = register(&mut k, "app");
    let other = register(&mut k, "other");
    let w = match k.syscall(app, Syscall::WinCreate(WinDesc { title: "t".into(), size_bits: [0, 0], resizable: true })).unwrap() {
        Reply::Win(w) => w,
        r => panic!("{r:?}"),
    };
    assert_eq!(w, WinId(1));
    assert!(matches!(k.syscall(other, Syscall::WinSetTitle(w, "x".into())), Err(ErrorCode::CapabilityDenied)));
    k.syscall(app, Syscall::WinSetTitle(w, "renamed".into())).unwrap();
    assert!(matches!(k.syscall(other, Syscall::WinClose(w)), Err(ErrorCode::CapabilityDenied)));
    k.syscall(shell, Syscall::WinClose(w)).unwrap();
    assert!(matches!(k.syscall(app, Syscall::WinClose(w)), Err(ErrorCode::NotFound)));
    let evs = k.poll_events(app);
    assert!(evs.iter().any(|e| matches!(e, KernelEvent::WinClosed(id) if *id == w)));
    assert!(k.poll_events(app).is_empty());
}

#[test]
fn kill_is_shell_or_self_and_closes_windows() {
    let mut k = Kernel::new();
    let shell = register(&mut k, "shell");
    let a = register(&mut k, "a");
    let b = register(&mut k, "b");
    let w = match k.syscall(a, Syscall::WinCreate(WinDesc { title: "t".into(), size_bits: [1, 2], resizable: false })).unwrap() {
        Reply::Win(w) => w,
        r => panic!("{r:?}"),
    };
    assert!(matches!(k.syscall(b, Syscall::ProcKill(a)), Err(ErrorCode::CapabilityDenied)));
    k.syscall(shell, Syscall::ProcKill(a)).unwrap();
    assert!(!k.procs.has_cap(a, &Capability::WinOwn));
    assert!(matches!(k.syscall(shell, Syscall::WinClose(w)), Err(ErrorCode::NotFound)));
    k.syscall(b, Syscall::ProcKill(b)).unwrap();
}

#[test]
fn fs_syscalls_are_scoped_and_announced() {
    let mut k = Kernel::new();
    let shell = register(&mut k, "shell");
    // A narrower scope under one the shell holds is delegated too.
    let notes = match k
        .syscall(
            shell,
            Syscall::ProcRegister {
                name: "notes".into(),
                caps: vec![Capability::FsRead("/".into()), Capability::FsWrite("/".into()), Capability::FsWrite("/notes".into())],
            },
        )
        .unwrap()
    {
        Reply::Pid(p) => p,
        r => panic!("{r:?}"),
    };
    assert!(k.procs.has_cap(notes, &Capability::FsWrite("/notes".into())));
    let app = register(&mut k, "app");
    k.syscall(notes, Syscall::FsWrite { path: "/notes/a.md".into(), bytes: b"hello".to_vec() }).unwrap();
    assert!(matches!(
        k.syscall(app, Syscall::FsWrite { path: "/home/a.md".into(), bytes: vec![] }),
        Err(ErrorCode::CapabilityDenied)
    ));
    assert!(matches!(k.syscall(app, Syscall::FsRead { path: "/notes/a.md".into() }), Err(ErrorCode::CapabilityDenied)));
    match k.syscall(notes, Syscall::FsRead { path: "/notes/a.md".into() }).unwrap() {
        Reply::Bytes(b) => assert_eq!(b, b"hello"),
        r => panic!("{r:?}"),
    }
    assert!(matches!(k.syscall(notes, Syscall::FsRead { path: "/notes/zz.md".into() }), Err(ErrorCode::NotFound)));
    match k.syscall(notes, Syscall::FsList { path: "/notes".into() }).unwrap() {
        Reply::Entries(e) => assert!(e.iter().any(|x| x.name == "a.md" && x.size == 5)),
        r => panic!("{r:?}"),
    }
    assert!(matches!(
        k.syscall(shell, Syscall::FsWrite { path: "/sys/fps".into(), bytes: vec![] }),
        Err(ErrorCode::InvalidArgument)
    ));
    k.syscall(notes, Syscall::FsMkdir { path: "/notes/sub".into() }).unwrap();
    k.syscall(notes, Syscall::FsDelete { path: "/notes/a.md".into() }).unwrap();
    let evs = k.poll_events(shell);
    let changed: Vec<&str> = evs
        .iter()
        .filter_map(|e| match e {
            KernelEvent::FsChanged { path } => Some(path.as_str()),
            _ => None,
        })
        .collect();
    assert_eq!(changed, vec!["/notes/a.md", "/notes/sub", "/notes/a.md"]);
}

#[test]
fn sys_query_and_web_fetch() {
    let mut k = Kernel::new();
    let shell = register(&mut k, "shell");
    let app = register(&mut k, "app");
    match k.syscall(shell, Syscall::SysQuery { path: "/sys/abi".into() }).unwrap() {
        Reply::Bytes(b) => assert_eq!(b, b"(1, 1)\n"),
        r => panic!("{r:?}"),
    }
    assert!(matches!(k.syscall(app, Syscall::SysQuery { path: "/sys/abi".into() }), Err(ErrorCode::CapabilityDenied)));
    match k.syscall(shell, Syscall::WebFetch { url: "https://x".into() }).unwrap() {
        Reply::Bytes(b) => assert_eq!(b, b"1"),
        r => panic!("{r:?}"),
    }
    match k.syscall(shell, Syscall::WebFetch { url: "https://y".into() }).unwrap() {
        Reply::Bytes(b) => assert_eq!(b, b"2"),
        r => panic!("{r:?}"),
    }
    assert_eq!(k.web_pending.len(), 2);
    assert_eq!(k.web_pending[1], (2, "https://y".to_string()));
    assert!(matches!(k.syscall(shell, Syscall::FsWatch { path: "/".into() }), Err(ErrorCode::Unsupported)));
}

#[test]
fn hands_directives_bump_only_on_change() {
    let mut k = Kernel::new();
    let shell = register(&mut k, "shell");
    k.syscall(shell, Syscall::HandsViewer { open: true, stream_feed: false }).unwrap();
    assert_eq!(k.hands_directives.generation, 1);
    k.syscall(shell, Syscall::HandsViewer { open: true, stream_feed: false }).unwrap();
    assert_eq!(k.hands_directives.generation, 1);
    let t = HandsTuning::default_tuning();
    k.syscall(shell, Syscall::HandsTune(t)).unwrap();
    assert_eq!(k.hands_directives.generation, 1);
    let t2 = HandsTuning { num_hands: 2, ..t };
    k.syscall(shell, Syscall::HandsTune(t2)).unwrap();
    assert_eq!(k.hands_directives.generation, 2);
    assert_eq!(k.hands_directives.tuning.num_hands, 2);
    k.syscall(shell, Syscall::CameraStart).unwrap();
    assert!(k.hands_directives.camera_start);
    assert_eq!(k.hands_directives.generation, 3);
}

#[test]
fn ai_prompt_failures_come_back_as_final_chunks() {
    let mut k = Kernel::new();
    let shell = register(&mut k, "shell");
    // A fresh kernel is bound to the in-browser engine: prompting works
    // with no setup, and the request carries only model and messages.
    k.syscall(shell, Syscall::AiPrompt { agent: AgentId(AGENT_ASSISTANT), msg: "hi".into() }).unwrap();
    assert_eq!(k.ai.pending.len(), 1);
    assert_eq!(k.ai.pending[0].kind, 2);
    assert_eq!(k.ai.pending[0].url, "");
    assert!(k.ai.pending[0].headers.is_empty());
    assert!(k.poll_events(shell).is_empty());
    k.ai_chunk(AGENT_ASSISTANT, "ok".into(), true);
    k.ai.pending.clear();
    k.poll_events(shell);
    k.syscall(
        shell,
        Syscall::AiConfigure(AiProviderConfig {
            kind: 1,
            base_url: "http://localhost:1/".into(),
            model: "m".into(),
            api_key: String::new(),
        }),
    )
    .unwrap();
    assert!(k.ai.config_dirty);
    k.syscall(shell, Syscall::AiPrompt { agent: AgentId(AGENT_ASSISTANT), msg: "hello".into() }).unwrap();
    assert_eq!(k.ai.pending.len(), 1);
    assert_eq!(k.ai.pending[0].url, "http://localhost:1/v1/chat/completions");
    // A second prompt while streaming is refused as a chunk.
    k.syscall(shell, Syscall::AiPrompt { agent: AgentId(AGENT_ASSISTANT), msg: "again".into() }).unwrap();
    let evs = k.poll_events(shell);
    assert!(evs.iter().any(|e| matches!(e,
        KernelEvent::AiChunk { text, done: true, .. } if text == "⚠ that agent is still responding")));
    // Streamed deltas reach the requester.
    k.ai_chunk(AGENT_ASSISTANT, "part".into(), false);
    k.ai_chunk(AGENT_ASSISTANT, "ial".into(), true);
    let evs = k.poll_events(shell);
    let texts: Vec<&str> = evs
        .iter()
        .filter_map(|e| match e {
            KernelEvent::AiChunk { text, .. } => Some(text.as_str()),
            _ => None,
        })
        .collect();
    assert_eq!(texts, vec!["part", "ial"]);
    assert!(!k.ai.busy(AgentId(AGENT_ASSISTANT)));
}

#[test]
fn refused_call_changes_nothing_observable() {
    let mut k = Kernel::new();
    let _shell = register(&mut k, "shell");
    let app = register(&mut k, "app");
    let before = k.procs.listing();
    assert!(k.syscall(app, Syscall::FsMkdir { path: "/home/x".into() }).is_err());
    assert!(!k.vfs.exists_dir("/home/x"));
    assert_eq!(k.procs.listing(), before);
    assert!(k.poll_events(Pid(1)).is_empty());
}

#[test]
fn platform_notices_reach_the_shell_in_order() {
    let mut k = Kernel::new();
    let _ = register(&mut k, "shell");
    k.set_camera_status(true, "granted".into());
    k.notice("hello".into());
    k.voice_transcript("open files".into(), true);
    k.web_result(7, true, "body".into());
    let evs = k.poll_events(Pid(1));
    assert_eq!(evs.len(), 4);
    assert!(matches!(&evs[0], KernelEvent::CameraStatus { enabled: true, reason } if reason == "granted"));
    assert!(matches!(&evs[1], KernelEvent::Notice { text } if text == "hello"));
    assert!(matches!(&evs[2], KernelEvent::VoiceTranscript { text, is_final: true } if text == "open files"));
    assert!(matches!(&evs[3], KernelEvent::WebResult { id: 7, ok: true, body } if body == "body"));
}

fn register_with(k: &mut Kernel, by: Pid, name: &str, caps: Vec<Capability>) -> Pid {
    match k.syscall(by, Syscall::ProcRegister { name: name.into(), caps }).unwrap() {
        Reply::Pid(p) => p,
        other => panic!("unexpected reply {other:?}"),
    }
}

#[test]
fn dot_dot_segments_never_leave_a_scope() {
    let mut k = Kernel::new();
    let shell = register(&mut k, "shell");
    let notes = register(&mut k, "notes");
    assert_eq!(notes, Pid(2));
    k.procs.grant(notes, vec![Capability::FsRead("/notes".into()), Capability::FsWrite("/notes".into())]);
    k.syscall(shell, Syscall::FsWrite { path: "/home/secret.txt".into(), bytes: b"s".to_vec() }).unwrap();
    assert!(matches!(
        k.syscall(notes, Syscall::FsRead { path: "/notes/../home/secret.txt".into() }),
        Err(ErrorCode::CapabilityDenied)
    ));
    assert!(matches!(
        k.syscall(notes, Syscall::FsWrite { path: "/notes/../home/secret.txt".into(), bytes: vec![] }),
        Err(ErrorCode::CapabilityDenied)
    ));
    assert!(matches!(
        k.syscall(notes, Syscall::FsList { path: "/notes/..".into() }),
        Err(ErrorCode::CapabilityDenied)
    ));
    // A path that normalizes into the scope is allowed.
    k.syscall(notes, Syscall::FsWrite { path: "/home/../notes/./b.md".into(), bytes: b"b".to_vec() }).unwrap();
    match k.syscall(notes, Syscall::FsRead { path: "/notes/b.md".into() }).unwrap() {
        Reply::Bytes(b) => assert_eq!(b, b"b"),
        r => panic!("{r:?}"),
    }
}

#[test]
fn motion_notes_gets_the_notes_scope_and_nothing_more() {
    let mut k = Kernel::new();
    let shell = register(&mut k, "shell");
    let notes = register_with(
        &mut k,
        shell,
        "Motion Notes",
        vec![Capability::FsRead("/notes".into()), Capability::FsWrite("/notes".into())],
    );
    assert_eq!(notes, Pid(2));
    assert!(k.syscall(notes, Syscall::FsWrite { path: "/notes/a.md".into(), bytes: b"x".to_vec() }).is_ok());
    assert!(matches!(k.syscall(notes, Syscall::FsRead { path: "/home/x.txt".into() }), Err(ErrorCode::CapabilityDenied)));
    // Notes cannot widen its scope by delegating: a child asking for the
    // root scope gets nothing beyond the window grant.
    let child = register_with(&mut k, notes, "child", vec![Capability::FsRead("/".into()), Capability::FsRead("/notes/inbox".into())]);
    assert!(!k.procs.has_cap(child, &Capability::FsRead("/".into())));
    assert!(k.procs.has_cap(child, &Capability::FsRead("/notes/inbox".into())));
    assert!(k.procs.has_cap(child, &Capability::WinOwn));
}
