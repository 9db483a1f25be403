use pmos::abi::{Pid, Reply, Syscall};
use pmos::apps::AppKind;
use pmos::kernel::Kernel;
use pmos::proc::SHELL_PID;
use pmos::voicekit::{kit_search, recent_lines};

fn setup() -> (Kernel, Pid) {
    let mut k = Kernel::new();
    for (name, caps) in [("shell", vec![]), ("files", AppKind::Files.caps())] {
        k.syscall(Pid(SHELL_PID), Syscall::ProcRegister { name: name.into(), caps }).unwrap();
    }
    (k, Pid(2))
}

fn write(k: &mut Kernel, pid: Pid, path: &str, body: &str) {
    assert!(matches!(
        k.syscall(pid, Syscall::FsWrite { path: path.into(), bytes: body.as_bytes().to_vec() }),
        Ok(Reply::Nothing)
    ));
}

#[test]
fn search_matches_text_fields_ignoring_case() {
    let (mut k, pid) = setup();
    write(&mut k, pid, "/voice/2026-03-01/s1.json", r#"{"segments":[{"text":"Buy MILK"},{"segments":"milk only here"},{"text":"eggs"}]}"#);
    write(&mut k, pid, "/voice/2026-03-02/s2.json", r#"{"segments":[{"text":"more milk"}]}"#);
    assert_eq!(kit_search(&mut k, pid, "Milk"), vec!["2026-03-01 · Buy MILK", "2026-03-02 · more milk"]);
    assert!(kit_search(&mut k, pid, "").is_empty());
    assert!(kit_search(&mut k, pid, "bread").is_empty());
}

#[test]
fn search_stops_at_thirty_results() {
    let (mut k, pid) = setup();
    let segs: Vec<String> = (0..40).map(|i| format!("{{\"text\":\"note {i}\"}}")).collect();
    write(&mut k, pid, "/voice/d/a.json", &format!("{{\"segments\":[{}]}}", segs.join(",")));
    let r = kit_search(&mut k, pid, "note");
    assert_eq!(r.len(), 30);
    assert_eq!(r[29], "d · note 29");
}

#[test]
fn search_without_read_access_finds_nothing() {
    let (mut k, pid) = setup();
    write(&mut k, pid, "/voice/d/a.json", r#"{"segments":[{"text":"secret"}]}"#);
    assert!(kit_search(&mut k, Pid(1), "secret").len() == 1);
    assert!(kit_search(&mut k, Pid(7), "secret").is_empty());
}

#[test]
fn recent_lines_skip_commands_and_keep_the_last() {
    let segs = vec![
        ("a".to_string(), false),
        ("cmd".to_string(), true),
        ("b".to_string(), false),
        ("c".to_string(), false),
    ];
    assert_eq!(recent_lines(&segs, 2), vec!["b", "c"]);
    assert_eq!(recent_lines(&segs, 10), vec!["a", "b", "c"]);
    assert!(recent_lines(&segs, 0).is_empty());
}
