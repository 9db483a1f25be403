use pmos::abi::{Pid, Syscall};
use pmos::apps::AppKind;
use pmos::kernel::Kernel;
use pmos::notes::{file_icon, note_title, preview_text, wikilinks};

#[test]
fn icons_follow_the_extension() {
    assert_eq!(file_icon("anything", true), "📁");
    assert_eq!(file_icon("app.conjure", false), "✨");
    assert_eq!(file_icon("a.b.md", false), "📝");
    assert_eq!(file_icon("cfg.json", false), "⚙");
    assert_eq!(file_icon("photo.JPG", false), "📄");
    assert_eq!(file_icon("photo.jpeg", false), "🖼");
    assert_eq!(file_icon("md", false), "📝");
    assert_eq!(file_icon("README", false), "📄");
}

#[test]
fn note_titles_drop_the_directory_and_md() {
    assert_eq!(note_title("/notes/inbox/Idea.md"), "Idea");
    assert_eq!(note_title("plain"), "plain");
    assert_eq!(note_title("/notes/x.md.md"), "x");
    assert_eq!(note_title("/notes/readme.txt"), "readme.txt");
}

#[test]
fn wikilinks_are_trimmed_unique_and_ordered() {
    assert_eq!(wikilinks("see [[world]] and [[ b | label ]] then [[world]] and [[]]"), vec!["world", "b"]);
    assert_eq!(wikilinks("no links here"), Vec::<String>::new());
    assert_eq!(wikilinks("[[first]] [[unclosed"), vec!["first"]);
    assert_eq!(wikilinks("[[[x]]]"), vec!["[x"]);
}

#[test]
fn previews_show_text_binary_or_the_error() {
    let mut k = Kernel::new();
    k.syscall(Pid(1), Syscall::ProcRegister { name: "shell".into(), caps: vec![] }).unwrap();
    k.syscall(Pid(1), Syscall::ProcRegister { name: "files".into(), caps: AppKind::Files.caps() }).unwrap();
    let files = Pid(2);
    k.syscall(files, Syscall::FsWrite { path: "/home/a.txt".into(), bytes: "héllo".as_bytes().to_vec() }).unwrap();
    k.syscall(files, Syscall::FsWrite { path: "/home/b.bin".into(), bytes: vec![0xff, 0xfe, 0x00] }).unwrap();
    k.syscall(files, Syscall::FsWrite { path: "/home/long.txt".into(), bytes: "x".repeat(2500).into_bytes() }).unwrap();
    assert_eq!(preview_text(&mut k, files, "/home/a.txt"), "héllo");
    assert_eq!(preview_text(&mut k, files, "/home/b.bin"), "(binary · 3 B)");
    assert_eq!(preview_text(&mut k, files, "/home/nope"), "(unreadable: NotFound)");
    assert_eq!(preview_text(&mut k, Pid(9), "/home/a.txt"), "(unreadable: CapabilityDenied)");
    let long = preview_text(&mut k, files, "/home/long.txt");
    assert_eq!(long.chars().count(), 2402);
    assert!(long.ends_with("x\n…"));
}
