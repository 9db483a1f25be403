use pmos::abi::{Capability, Pid};
use pmos::proc::{default_caps, scope_matches, shell_caps, ProcessTable};

#[test]
fn pids_count_up_from_one() {
    let mut t = ProcessTable::new();
    assert!(t.is_empty());
    assert_eq!(t.register("shell", shell_caps()), Pid(1));
    assert_eq!(t.register("app", default_caps()), Pid(2));
    assert!(!t.is_empty());
}

#[test]
fn scopes_match_the_path_or_its_descendants() {
    assert!(scope_matches("/", "/anything/at/all"));
    assert!(scope_matches("/notes", "/notes"));
    assert!(scope_matches("/notes/", "/notes/a.md"));
    assert!(!scope_matches("/notes", "/notesx"));
    assert!(!scope_matches("/notes", "/home/a"));
    assert!(scope_matches("", "/x"));
}

#[test]
fn write_scope_implies_read() {
    let mut t = ProcessTable::new();
    let p = t.register("notes", vec![Capability::FsWrite("/notes".into())]);
    assert!(t.has_fs_cap(p, "/notes/a.md", false));
    assert!(t.has_fs_cap(p, "/notes/a.md", true));
    assert!(!t.has_fs_cap(p, "/home/a.md", false));
    let r = t.register("reader", vec![Capability::FsRead("/notes".into())]);
    assert!(t.has_fs_cap(r, "/notes/a.md", false));
    assert!(!t.has_fs_cap(r, "/notes/a.md", true));
}

#[test]
fn grant_is_idempotent_and_kill_revokes() {
    let mut t = ProcessTable::new();
    let p = t.register("app", default_caps());
    t.grant(p, vec![Capability::AiPrompt, Capability::AiPrompt]);
    t.grant(p, vec![Capability::AiPrompt]);
    assert!(t.has_cap(p, &Capability::AiPrompt));
    assert_eq!(t.listing(), " PID  NAME           GRANTS\n   1  app            2 caps\n");
    t.kill(p);
    assert!(!t.has_cap(p, &Capability::AiPrompt));
    assert!(!t.has_cap(p, &Capability::WinOwn));
    // Granting to an unknown process does nothing.
    t.grant(Pid(9), vec![Capability::NetLlm]);
    assert!(!t.has_cap(Pid(9), &Capability::NetLlm));
}

#[test]
fn listing_is_in_pid_order() {
    let mut t = ProcessTable::new();
    t.register("shell", shell_caps());
    t.register("terminal", default_caps());
    assert_eq!(
        t.listing(),
        " PID  NAME           GRANTS\n   1  shell          11 caps\n   2  terminal       1 caps\n"
    );
}
