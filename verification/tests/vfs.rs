use pmos::vfs::{Vfs, VfsOp};
use pmos::path::normalize;

#[test]
fn write_read_list_delete() {
    let mut v = Vfs::new();
    v.write("/notes/hello.md", b"hi [[world]]".to_vec()).unwrap();
    assert_eq!(v.read("/notes/hello.md").unwrap(), b"hi [[world]]");
    let entries = v.list("/notes").unwrap();
    assert!(entries.iter().any(|e| e.name == "hello.md" && !e.dir));
    assert!(entries.iter().any(|e| e.name == "inbox" && e.dir));
    v.delete("/notes/hello.md").unwrap();
    assert!(v.read("/notes/hello.md").is_none());
    // Ops recorded for persistence.
    assert!(v.dirty().iter().any(|o| matches!(o, VfsOp::Write(p, _) if p == "/notes/hello.md")));
    assert!(v.dirty().iter().any(|o| matches!(o, VfsOp::Delete(p) if p == "/notes/hello.md")));
}

#[test]
fn sys_is_synthetic_and_readonly() {
    let mut v = Vfs::new();
    v.set_sys_fps_tenths(600);
    assert_eq!(v.read("/sys/fps").unwrap(), b"60.0\n");
    assert!(v.write("/sys/fps", vec![]).is_err());
}

#[test]
fn nested_write_creates_parents() {
    let mut v = Vfs::new();
    v.write("/home/a/b/c.txt", b"x".to_vec()).unwrap();
    assert!(v.exists_dir("/home/a/b"));
    assert!(v.list("/home/a").unwrap().iter().any(|e| e.name == "b"));
}

#[test]
fn normalize_resolves_dots_and_slashes() {
    assert_eq!(normalize("/a/./b/../c//"), "/a/c");
    assert_eq!(normalize("../.."), "/");
    assert_eq!(normalize(""), "/");
    assert_eq!(normalize("x/y"), "/x/y");
}

#[test]
fn read_after_write_and_overwrite() {
    let mut v = Vfs::new();
    v.write("/home/x.txt", b"one".to_vec()).unwrap();
    v.write("home/./x.txt", b"two".to_vec()).unwrap();
    assert_eq!(v.read("/home/x.txt").unwrap(), b"two");
    assert!(v.read("/home/y.txt").is_none());
}

#[test]
fn listing_puts_directories_first_in_name_order() {
    let mut v = Vfs::new();
    v.write("/home/b.txt", b"12".to_vec()).unwrap();
    v.write("/home/a.txt", b"1".to_vec()).unwrap();
    v.mkdir("/home/zdir").unwrap();
    v.mkdir("/home/adir").unwrap();
    let names: Vec<(String, bool, u64)> = v.list("/home").unwrap().into_iter().map(|e| (e.name, e.dir, e.size)).collect();
    assert_eq!(
        names,
        vec![
            ("adir".to_string(), true, 0),
            ("zdir".to_string(), true, 0),
            ("a.txt".to_string(), false, 1),
            ("b.txt".to_string(), false, 2),
        ]
    );
}

#[test]
fn delete_refuses_non_empty_directory_and_unknown_path() {
    let mut v = Vfs::new();
    v.write("/home/d/f.txt", b"x".to_vec()).unwrap();
    assert_eq!(v.delete("/home/d"), Err("directory not empty"));
    assert_eq!(v.delete("/home/nothing"), Err("not found"));
    assert_eq!(v.delete("/sys/fps"), Err("/sys is read-only"));
    v.delete("/home/d/f.txt").unwrap();
    v.delete("/home/d").unwrap();
    assert!(!v.exists_dir("/home/d"));
}

#[test]
fn oversized_write_is_refused() {
    let mut v = Vfs::new();
    assert_eq!(v.write("/home/big", vec![0u8; 4 * 1024 * 1024 + 1]), Err("file too large (max 4 MB)"));
    assert!(v.write("/home/ok", vec![0u8; 4 * 1024 * 1024]).is_ok());
}

#[test]
fn sys_listing_and_values() {
    let mut v = Vfs::new();
    v.set_sys_llm_tier(2);
    assert_eq!(v.read("/sys/llm_tier").unwrap(), b"2\n");
    assert_eq!(v.read("/sys/abi").unwrap(), b"(1, 1)\n");
    let names: Vec<String> = v.list("/sys").unwrap().into_iter().map(|e| e.name).collect();
    assert_eq!(names, vec!["fps", "abi", "llm_tier"]);
    assert!(v.mkdir("/sys/x").is_err());
}

#[test]
fn take_ops_drains_mkdirs_then_write() {
    let mut v = Vfs::new();
    v.write("/home/p/q/r.txt", b"z".to_vec()).unwrap();
    let ops = v.take_ops();
    let kinds: Vec<String> = ops
        .iter()
        .map(|o| match o {
            VfsOp::Mkdir(p) => format!("mkdir {p}"),
            VfsOp::Write(p, _) => format!("write {p}"),
            VfsOp::Delete(p) => format!("delete {p}"),
        })
        .collect();
    assert_eq!(kinds, vec!["mkdir /home/p", "mkdir /home/p/q", "write /home/p/q/r.txt"]);
    assert!(v.take_ops().is_empty());
}

#[test]
fn files_under_lists_paths_below_a_prefix() {
    let mut v = Vfs::new();
    v.write("/notes/a.md", b"".to_vec()).unwrap();
    v.write("/notes/sub/b.md", b"".to_vec()).unwrap();
    v.write("/home/c.md", b"".to_vec()).unwrap();
    assert_eq!(v.files_under("/notes"), vec!["/notes/a.md", "/notes/sub/b.md"]);
}

#[test]
fn the_root_is_never_deleted_while_it_holds_anything() {
    let mut v = Vfs::new();
    assert_eq!(v.delete("/"), Err("directory not empty"));
    assert!(v.exists_dir("/"));
    assert!(v.exists_dir("/home"));
    assert!(v.dirty().is_empty());
}

#[test]
fn only_the_sys_tree_is_read_only() {
    let mut v = Vfs::new();
    assert_eq!(v.write("/system.txt", b"ok".to_vec()), Ok(()));
    assert_eq!(v.read("/system.txt").unwrap(), b"ok");
    assert_eq!(v.mkdir("/sysadmin"), Ok(()));
    assert!(v.exists_dir("/sysadmin"));
    assert_eq!(v.delete("/system.txt"), Ok(()));
    assert_eq!(v.write("/sys", vec![]), Err("/sys is read-only"));
    assert_eq!(v.write("/sys/x", vec![]), Err("/sys is read-only"));
    assert_eq!(v.mkdir("/sys/d"), Err("/sys is read-only"));
    assert_eq!(v.delete("/sys/../sys/fps"), Err("/sys is read-only"));
}
