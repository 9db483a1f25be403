use pmos::abi::{Capability, Pid, Reply, Syscall};
use pmos::apps::{AppAction, AppKind};
use pmos::kernel::Kernel;
use pmos::proc::SHELL_PID;
use pmos::terminal::Terminal;

fn register(k: &mut Kernel, name: &str, caps: Vec<Capability>) -> Pid {
    match k.syscall(Pid(SHELL_PID), Syscall::ProcRegister { name: name.into(), caps }).unwrap() {
        Reply::Pid(p) => p,
        other => panic!("unexpected reply {other:?}"),
    }
}

/// A kernel with the shell and a terminal process holding the Terminal
/// app's capabilities.
fn setup() -> (Kernel, Pid) {
    let mut k = Kernel::new();
    let shell = register(&mut k, "shell", vec![]);
    assert_eq!(shell, Pid(1));
    let term = register(&mut k, "terminal", AppKind::Terminal.caps());
    (k, term)
}

fn last(t: &Terminal) -> &str {
    t.log.last().map(|s| s.as_str()).unwrap_or("")
}

#[test]
fn fresh_terminal_greets_in_home() {
    let t = Terminal::new();
    assert_eq!(t.log, vec!["Pseudo Motion OS terminal — `help` lists commands".to_string()]);
    assert_eq!(t.cwd, "/home");
    assert!(!t.waiting_ai);
}

#[test]
fn help_about_and_unknown_commands() {
    let (mut k, pid) = setup();
    let mut t = Terminal::new();
    assert!(t.run_command("  help ", &mut k, pid).is_none());
    assert_eq!(t.log[1], "/home $ help");
    assert_eq!(
        t.log[2],
        "ls [dir] · cd <dir> · cat <file> · write <file> <text> · mkdir <dir> · rm <path> · apps · run <app> · voice <query> · fps · clear · about · > question"
    );
    t.run_command("about", &mut k, pid);
    assert_eq!(last(&t), "Pseudo Motion OS · ABI (1, 1)");
    t.run_command("frob x y", &mut k, pid);
    assert_eq!(last(&t), "unknown command `frob` (try `help`)");
}

#[test]
fn blank_line_does_nothing() {
    let (mut k, pid) = setup();
    let mut t = Terminal::new();
    t.run_command("   ", &mut k, pid);
    assert_eq!(t.log.len(), 1);
}

#[test]
fn write_then_cat_gives_the_text_back() {
    let (mut k, pid) = setup();
    let mut t = Terminal::new();
    t.run_command("write hello.txt hi there", &mut k, pid);
    assert_eq!(last(&t), "written");
    t.run_command("cat hello.txt", &mut k, pid);
    assert_eq!(last(&t), "hi there");
    t.run_command("cat /home/hello.txt", &mut k, pid);
    assert_eq!(last(&t), "hi there");
    t.run_command("cat nope.txt", &mut k, pid);
    assert_eq!(last(&t), "cat: no such file");
}

#[test]
fn cat_splits_lines_and_drops_carriage_returns() {
    let (mut k, pid) = setup();
    k.syscall(pid, Syscall::FsWrite { path: "/home/m.txt".into(), bytes: b"one\r\ntwo\n\nthree".to_vec() }).unwrap();
    let mut t = Terminal::new();
    t.run_command("cat m.txt", &mut k, pid);
    assert_eq!(t.log[2..].to_vec(), vec!["one", "two", "", "three"]);
}

#[test]
fn ls_lists_directories_then_files_with_sizes() {
    let (mut k, pid) = setup();
    let mut t = Terminal::new();
    t.run_command("write b.txt 12345", &mut k, pid);
    t.run_command("mkdir sub", &mut k, pid);
    assert_eq!(last(&t), "created");
    t.run_command("ls", &mut k, pid);
    let n = t.log.len();
    assert_eq!(t.log[n - 2], "  sub/");
    assert_eq!(t.log[n - 1], "  b.txt  5B");
    t.run_command("ls /home/sub", &mut k, pid);
    assert_eq!(last(&t), "(empty)");
    t.run_command("ls /nowhere", &mut k, pid);
    assert_eq!(last(&t), "ls: no such directory");
}

#[test]
fn cd_changes_directory_only_when_it_exists() {
    let (mut k, pid) = setup();
    let mut t = Terminal::new();
    t.run_command("cd /notes", &mut k, pid);
    assert_eq!(t.cwd, "/notes");
    assert_eq!(last(&t), "/home $ cd /notes");
    t.run_command("cd inbox", &mut k, pid);
    assert_eq!(t.cwd, "/notes/inbox");
    t.run_command("cd missing", &mut k, pid);
    assert_eq!(t.cwd, "/notes/inbox");
    assert_eq!(last(&t), "cd: no such directory");
    t.run_command("cd /", &mut k, pid);
    assert_eq!(t.cwd, "/");
    t.run_command("cd home", &mut k, pid);
    assert_eq!(t.cwd, "/home");
}

#[test]
fn rm_reports_kernel_errors_by_name() {
    let (mut k, pid) = setup();
    let mut t = Terminal::new();
    t.run_command("mkdir d", &mut k, pid);
    t.run_command("rm d", &mut k, pid);
    assert_eq!(last(&t), "removed");
    t.run_command("rm d", &mut k, pid);
    assert_eq!(last(&t), "rm failed: InvalidArgument");
    t.run_command("write /sys/x nope", &mut k, pid);
    assert_eq!(last(&t), "write failed: InvalidArgument");
}

#[test]
fn a_process_without_file_capabilities_is_refused() {
    let mut k = Kernel::new();
    let _shell = register(&mut k, "shell", vec![]);
    let pid = register(&mut k, "plain", vec![]);
    let mut t = Terminal::new();
    t.run_command("write a.txt x", &mut k, pid);
    assert_eq!(last(&t), "write failed: CapabilityDenied");
    t.run_command("mkdir d", &mut k, pid);
    assert_eq!(last(&t), "mkdir failed: CapabilityDenied");
    t.run_command("ls", &mut k, pid);
    assert_eq!(last(&t), "ls: no such directory");
    t.run_command("fps", &mut k, pid);
    assert_eq!(last(&t), "fps unavailable");
}

#[test]
fn fps_reads_the_system_file() {
    let (mut k, pid) = setup();
    let mut t = Terminal::new();
    t.run_command("fps", &mut k, pid);
    assert_eq!(last(&t), "0.0 fps");
}

#[test]
fn apps_and_run_launch_conjured_documents() {
    let (mut k, pid) = setup();
    let mut t = Terminal::new();
    t.run_command("apps", &mut k, pid);
    assert_eq!(last(&t), "no conjured apps yet — try `make me a …` in the palette");
    k.syscall(pid, Syscall::FsWrite { path: "/apps/timer.conjure".into(), bytes: b"{\"conjure\":\"1.0\"}".to_vec() })
        .unwrap();
    t.run_command("apps", &mut k, pid);
    assert_eq!(last(&t), "  timer.conjure");
    match t.run_command("run timer", &mut k, pid) {
        Some(AppAction::LaunchConjure(doc)) => assert_eq!(doc, "{\"conjure\":\"1.0\"}"),
        None => panic!("expected a launch"),
    }
    assert_eq!(last(&t), "launching…");
    assert!(t.run_command("run /apps/timer.conjure", &mut k, pid).is_some());
    assert!(t.run_command("run ghost", &mut k, pid).is_none());
    assert_eq!(last(&t), "run: app not found (see `apps`)");
}

#[test]
fn voice_searches_transcripts_case_insensitively() {
    let (mut k, pid) = setup();
    let doc = br#"{"segments":[{"text":"Open the Files app"},{"text":"nothing here"},{"segments":"files again","text":"x"}]}"#;
    k.syscall(pid, Syscall::FsWrite { path: "/voice/2026-01-02/a.json".into(), bytes: doc.to_vec() }).unwrap();
    k.syscall(pid, Syscall::FsWrite { path: "/voice/2026-01-02/b.json".into(), bytes: b"not json".to_vec() }).unwrap();
    let mut t = Terminal::new();
    t.run_command("voice FILES", &mut k, pid);
    let n = t.log.len();
    assert_eq!(t.log[n - 2], "2026-01-02 · Open the Files app");
    assert_eq!(t.log[n - 1], "2026-01-02 · files again");
    t.run_command("voice zebra", &mut k, pid);
    assert_eq!(last(&t), "no matches");
    t.run_command("voice", &mut k, pid);
    assert_eq!(last(&t), "voice <query> — search your voice history");
}

#[test]
fn voice_stops_a_transcript_at_twenty_matches() {
    let (mut k, pid) = setup();
    let segs: Vec<String> = (0..25).map(|i| format!("{{\"text\":\"hit {i}\"}}")).collect();
    let doc = format!("{{\"segments\":[{}]}}", segs.join(","));
    k.syscall(pid, Syscall::FsWrite { path: "/voice/d1/a.json".into(), bytes: doc.into_bytes() }).unwrap();
    k.syscall(pid, Syscall::FsWrite { path: "/voice/d1/b.json".into(), bytes: br#"{"segments":[{"text":"hit b1"},{"text":"hit b2"}]}"#.to_vec() }).unwrap();
    let mut t = Terminal::new();
    t.run_command("voice hit", &mut k, pid);
    // Twenty from the first transcript, then one from the next before the
    // limit stops it again.
    assert_eq!(t.log.len(), 2 + 21);
    assert_eq!(t.log[2], "d1 · hit 0");
    assert_eq!(last(&t), "d1 · hit b1");
}

#[test]
fn clear_empties_the_log() {
    let (mut k, pid) = setup();
    let mut t = Terminal::new();
    t.run_command("help", &mut k, pid);
    t.run_command("clear", &mut k, pid);
    assert!(t.log.is_empty());
}

#[test]
fn log_keeps_the_last_five_hundred_lines() {
    let (mut k, pid) = setup();
    let mut t = Terminal::new();
    for _ in 0..300 {
        t.run_command("about", &mut k, pid);
    }
    assert_eq!(t.log.len(), 500);
    assert_eq!(last(&t), "Pseudo Motion OS · ABI (1, 1)");
    assert_eq!(t.log[0], "/home $ about");
}

#[test]
fn assistant_questions_stream_into_the_last_line() {
    let (mut k, pid) = setup();
    let mut t = Terminal::new();
    t.run_command(">  what is this ", &mut k, pid);
    assert!(t.waiting_ai);
    assert_eq!(t.log[1], "/home $ >  what is this");
    assert_eq!(last(&t), "");
    // The kernel answers at once: no provider is configured.
    t.on_ai_chunk("par", false);
    t.on_ai_chunk("tial", false);
    assert_eq!(last(&t), "partial");
    t.on_ai_chunk("\rreplaced", true);
    assert_eq!(last(&t), "replaced");
    assert!(!t.waiting_ai);
    t.on_ai_chunk("ignored", false);
    assert_eq!(last(&t), "replaced");
}

#[test]
fn reading_commands_leave_the_system_alone() {
    let (mut k, pid) = setup();
    k.poll_events(Pid(SHELL_PID));
    let mut t = Terminal::new();
    for cmd in ["ls", "cat x", "cd /notes", "apps", "fps", "help", "voice x", "run y"] {
        t.run_command(cmd, &mut k, pid);
    }
    assert!(k.poll_events(Pid(SHELL_PID)).is_empty());
    assert!(!k.vfs.exists_dir("/home/x"));
    t.run_command("mkdir x", &mut k, pid);
    assert_eq!(k.poll_events(Pid(SHELL_PID)).len(), 1);
}
