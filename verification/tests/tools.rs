use pmos::abi::{Capability, Pid, Reply, Syscall};
use pmos::kernel::Kernel;
use pmos::apps::AppKind;
use pmos::tools::{app_open, app_open_lowered, execute_tool, ToolCall};

fn call(tool: &str, args: &[(&str, &str)]) -> ToolCall {
    ToolCall {
        tool: tool.into(),
        args: args.iter().map(|(k, v)| (k.to_string(), v.to_string())).collect(),
    }
}

fn boot() -> (Kernel, Pid) {
    let mut k = Kernel::new();
    let shell = match k.syscall(Pid(1), Syscall::ProcRegister { name: "shell".into(), caps: vec![] }).unwrap() {
        Reply::Pid(p) => p,
        r => panic!("{r:?}"),
    };
    (k, shell)
}

#[test]
fn tools_write_list_and_read_through_syscalls() {
    let (mut k, shell) = boot();
    let r = execute_tool(&mut k, shell, &call("fs_write", &[("path", "/notes/t.md"), ("content", "héllo")]));
    assert_eq!(r, Some((true, "written".to_string())));
    assert_eq!(k.vfs.read("/notes/t.md").unwrap(), "héllo".as_bytes());
    let r = execute_tool(&mut k, shell, &call("fs_read", &[("path", "/notes/t.md")]));
    assert_eq!(r, Some((true, "héllo".to_string())));
    let r = execute_tool(&mut k, shell, &call("fs_list", &[("path", "/notes")]));
    assert_eq!(r, Some((true, "daily/\ninbox/\nt.md (6 B)".to_string())));
    let r = execute_tool(&mut k, shell, &call("fs_list", &[("path", "/nowhere")]));
    assert_eq!(r, Some((false, "NotFound".to_string())));
    let r = execute_tool(&mut k, shell, &call("sys_query", &[("path", "/sys/llm_tier")]));
    assert_eq!(r, Some((true, "1\n".to_string())));
}

#[test]
fn the_first_argument_under_a_key_counts_and_a_missing_one_is_empty() {
    let (mut k, shell) = boot();
    let r = execute_tool(&mut k, shell, &call("fs_write", &[("path", "/home/a.txt"), ("path", "/home/b.txt")]));
    assert_eq!(r, Some((true, "written".to_string())));
    assert_eq!(k.vfs.read("/home/a.txt").unwrap(), b"");
    assert!(k.vfs.read("/home/b.txt").is_none());
}

#[test]
fn long_files_are_cut_on_a_character_boundary() {
    let (mut k, shell) = boot();
    // 3999 ASCII bytes, then two-byte characters: the one starting at
    // byte 3999 is kept whole.
    let mut text = "a".repeat(3999);
    text.push_str(&"é".repeat(10));
    k.syscall(shell, Syscall::FsWrite { path: "/home/long.txt".into(), bytes: text.clone().into_bytes() }).unwrap();
    let (ok, out) = execute_tool(&mut k, shell, &call("fs_read", &[("path", "/home/long.txt")])).unwrap();
    assert!(ok);
    let mut expected = "a".repeat(3999);
    expected.push('é');
    expected.push_str("\n… (truncated)");
    assert_eq!(out, expected);
    // Exactly 4000 bytes is not cut.
    let exact = "b".repeat(4000);
    k.syscall(shell, Syscall::FsWrite { path: "/home/exact.txt".into(), bytes: exact.clone().into_bytes() }).unwrap();
    let r = execute_tool(&mut k, shell, &call("fs_read", &[("path", "/home/exact.txt")]));
    assert_eq!(r, Some((true, exact)));
}

#[test]
fn tools_run_with_the_callers_capabilities() {
    let (mut k, _shell) = boot();
    let app = match k.syscall(Pid(1), Syscall::ProcRegister { name: "app".into(), caps: vec![] }).unwrap() {
        Reply::Pid(p) => p,
        r => panic!("{r:?}"),
    };
    assert!(!k.procs.has_cap(app, &Capability::SysQuery));
    let r = execute_tool(&mut k, app, &call("fs_read", &[("path", "/notes/x.md")]));
    assert_eq!(r, Some((false, "CapabilityDenied".to_string())));
    let r = execute_tool(&mut k, app, &call("fs_write", &[("path", "/notes/x.md"), ("content", "x")]));
    assert_eq!(r, Some((false, "CapabilityDenied".to_string())));
    let r = execute_tool(&mut k, app, &call("sys_query", &[("path", "/sys/abi")]));
    assert_eq!(r, Some((false, "CapabilityDenied".to_string())));
    let r = execute_tool(&mut k, app, &call("web_search", &[("query", "x")]));
    assert_eq!(r, Some((false, "CapabilityDenied".to_string())));
    assert!(k.web_pending.is_empty());
}

#[test]
fn web_tools_defer_to_the_platform() {
    let (mut k, shell) = boot();
    let r = execute_tool(&mut k, shell, &call("web_search", &[("query", "rust lang")]));
    assert_eq!(r, Some((true, "__deferred__".to_string())));
    assert_eq!(
        k.web_pending[0].1,
        "https://en.wikipedia.org/w/api.php?action=opensearch&format=json&origin=*&limit=5&search=rust%20lang"
    );
    let r = execute_tool(&mut k, shell, &call("web_fetch", &[("url", "https://example.com/a")]));
    assert_eq!(r, Some((true, "__deferred__".to_string())));
    assert_eq!(k.web_pending[1].1, "https://r.jina.ai/https://example.com/a");
    let r = execute_tool(&mut k, shell, &call("web_fetch", &[]));
    assert_eq!(r, Some((false, "missing url".to_string())));
    assert_eq!(k.web_pending.len(), 2);
}

#[test]
fn unknown_and_shell_tools() {
    let (mut k, shell) = boot();
    let r = execute_tool(&mut k, shell, &call("teleport", &[]));
    assert_eq!(r, Some((false, "unknown tool `teleport`".to_string())));
    assert_eq!(execute_tool(&mut k, shell, &call("stage_clear", &[])), None);
    assert_eq!(execute_tool(&mut k, shell, &call("app_open", &[("name", "notes")])), None);
}

#[test]
fn app_open_picks_the_first_app_whose_title_holds_the_name() {
    let (k, ok, text) = app_open("NOTES");
    assert!(matches!(k, Some(AppKind::Notes)));
    assert!(ok);
    assert_eq!(text, "opened Motion Notes");
    let (k, ok, text) = app_open_lowered("tracer");
    assert!(matches!(k, Some(AppKind::RayTracer)));
    assert!(ok);
    assert_eq!(text, "opened Ray Tracer");
    let (k, ok, text) = app_open("Zzz");
    assert!(k.is_none());
    assert!(!ok);
    assert_eq!(text, "unknown app `zzz`");
    let (k, _, text) = app_open("");
    assert!(k.is_none());
    assert_eq!(text, "unknown app ``");
}
