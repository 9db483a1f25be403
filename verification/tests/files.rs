use pmos::abi::{Capability, Pid, Reply, Syscall};
use pmos::apps::AppAction;
use pmos::files::{files_step, FilesEvent, FilesState};
use pmos::kernel::Kernel;

fn boot() -> (Kernel, Pid, FilesState) {
    let mut k = Kernel::new();
    let shell = match k.syscall(Pid(0), Syscall::ProcRegister { name: "shell".into(), caps: vec![] }).unwrap() {
        Reply::Pid(p) => p,
        r => panic!("{r:?}"),
    };
    let pid = match k
        .syscall(shell, Syscall::ProcRegister {
            name: "Files".into(),
            caps: vec![Capability::FsRead("/".into()), Capability::FsWrite("/".into())],
        })
        .unwrap()
    {
        Reply::Pid(p) => p,
        r => panic!("{r:?}"),
    };
    let s = FilesState { cwd: "/".into(), selected: None, preview: None, grid: true, new_name: String::new() };
    (k, pid, s)
}

#[test]
fn places_up_and_breadcrumbs_move_between_directories() {
    let (mut k, pid, mut s) = boot();
    files_step(&mut s, &mut k, pid, FilesEvent::Place(1));
    assert_eq!(s.cwd, "/notes");
    files_step(&mut s, &mut k, pid, FilesEvent::Click { name: "inbox".into(), dir: true });
    assert_eq!(s.cwd, "/notes/inbox");
    files_step(&mut s, &mut k, pid, FilesEvent::Crumb(0));
    assert_eq!(s.cwd, "/notes");
    files_step(&mut s, &mut k, pid, FilesEvent::Up);
    assert_eq!(s.cwd, "/");
    files_step(&mut s, &mut k, pid, FilesEvent::Up);
    assert_eq!(s.cwd, "/");
    files_step(&mut s, &mut k, pid, FilesEvent::Place(4));
    assert_eq!(s.cwd, "/sys");
    files_step(&mut s, &mut k, pid, FilesEvent::Place(9));
    assert_eq!(s.cwd, "/sys");
    files_step(&mut s, &mut k, pid, FilesEvent::Home);
    assert_eq!(s.cwd, "/");
    files_step(&mut s, &mut k, pid, FilesEvent::SetGrid(false));
    assert!(!s.grid);
}

#[test]
fn new_notes_and_folders_are_created_in_the_directory_shown() {
    let (mut k, pid, mut s) = boot();
    files_step(&mut s, &mut k, pid, FilesEvent::Place(1));
    s.new_name = "  idea ".into();
    files_step(&mut s, &mut k, pid, FilesEvent::NewFile);
    assert_eq!(k.vfs.read("/notes/idea.md").unwrap(), b"");
    assert_eq!(s.new_name, "");
    s.new_name = "todo.txt".into();
    files_step(&mut s, &mut k, pid, FilesEvent::NewFile);
    assert!(k.vfs.read("/notes/todo.txt").is_some());
    s.new_name = "proj".into();
    files_step(&mut s, &mut k, pid, FilesEvent::NewFolder);
    assert!(k.vfs.exists_dir("/notes/proj"));
    s.new_name = "   ".into();
    files_step(&mut s, &mut k, pid, FilesEvent::NewFolder);
    assert_eq!(s.new_name, "   ");
}

#[test]
fn selecting_previews_and_deleting_clears_the_selection() {
    let (mut k, pid, mut s) = boot();
    k.syscall(pid, Syscall::FsWrite { path: "/home/a.txt".into(), bytes: b"hello".to_vec() }).unwrap();
    files_step(&mut s, &mut k, pid, FilesEvent::Place(0));
    files_step(&mut s, &mut k, pid, FilesEvent::Click { name: "home".into(), dir: true });
    files_step(&mut s, &mut k, pid, FilesEvent::Click { name: "a.txt".into(), dir: false });
    assert_eq!(s.selected.as_deref(), Some("/home/a.txt"));
    assert_eq!(s.preview, Some(("/home/a.txt".to_string(), "hello".to_string())));
    files_step(&mut s, &mut k, pid, FilesEvent::DeleteSelected);
    assert!(k.vfs.read("/home/a.txt").is_none());
    assert_eq!(s.selected, None);
    assert_eq!(s.preview, None);
    // Nothing under /sys is deleted.
    s.cwd = "/sys".into();
    files_step(&mut s, &mut k, pid, FilesEvent::Delete("fps".into()));
    assert!(k.vfs.read("/sys/fps").is_some());
}

#[test]
fn conjure_documents_launch() {
    let (mut k, pid, mut s) = boot();
    k.syscall(pid, Syscall::FsWrite { path: "/apps/t.conjure".into(), bytes: b"{\"x\":1}".to_vec() }).unwrap();
    k.syscall(pid, Syscall::FsWrite { path: "/apps/t.json".into(), bytes: b"{}".to_vec() }).unwrap();
    files_step(&mut s, &mut k, pid, FilesEvent::Place(2));
    match files_step(&mut s, &mut k, pid, FilesEvent::DoubleClick { name: "t.conjure".into(), dir: false }) {
        Some(AppAction::LaunchConjure(t)) => assert_eq!(t, "{\"x\":1}"),
        None => panic!("no launch"),
    }
    assert!(files_step(&mut s, &mut k, pid, FilesEvent::DoubleClick { name: "t.json".into(), dir: false }).is_none());
    assert!(files_step(&mut s, &mut k, pid, FilesEvent::Launch("missing.conjure".into())).is_none());
    files_step(&mut s, &mut k, pid, FilesEvent::Preview("t.conjure".into()));
    assert!(files_step(&mut s, &mut k, pid, FilesEvent::LaunchSelected).is_some());
}
