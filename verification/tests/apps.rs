use pmos::abi::{Capability, Pid, Syscall};
use pmos::kernel::Kernel;
use pmos::apps::{all_kinds, scheme, tray_text, urlencode, webgpu_available, AppKind, HandTrackerState};

#[test]
fn titles_and_icons() {
    let kinds = all_kinds();
    assert_eq!(kinds.len(), 7);
    let titles: Vec<&str> = kinds.iter().map(|k| k.title()).collect();
    assert_eq!(titles, vec!["Terminal", "Files", "Motion Notes", "Ray Tracer", "Hand Tracker", "Settings", "Browser"]);
    assert_eq!(AppKind::Files.icon(), "📁");
    assert_eq!(AppKind::Settings.icon(), "⚙");
}

#[test]
fn launch_capabilities_per_app() {
    let notes = vec![Capability::FsRead("/notes".into()), Capability::FsWrite("/notes".into())];
    assert_eq!(format!("{:?}", AppKind::Notes.caps()), format!("{:?}", notes));
    assert_eq!(format!("{:?}", AppKind::HandTracker.caps()), format!("{:?}", vec![Capability::InputRawHands]));
    assert!(AppKind::Browser.caps().is_empty());
    assert_eq!(AppKind::Terminal.caps().len(), 4);
    assert_eq!(AppKind::Settings.caps().len(), 5);
}

#[test]
fn urlencode_keeps_unreserved_bytes() {
    assert_eq!(urlencode("a-b_c.d~e"), "a-b_c.d~e");
    assert_eq!(urlencode("hello world"), "hello%20world");
    assert_eq!(urlencode("é/?"), "%C3%A9%2F%3F");
}

#[test]
fn tray_text_reports_the_camera() {
    assert_eq!(tray_text(false, true, 2), "📷 off");
    assert_eq!(tray_text(true, false, 0), "📷 on · no hands");
    assert_eq!(tray_text(true, true, 1), "📷 tracking · 1 hand");
    assert_eq!(tray_text(true, true, 2), "📷 tracking · 2 hands");
}

#[test]
fn scheme_clamps_to_the_last() {
    assert_eq!(scheme(0), 0);
    assert_eq!(scheme(3), 3);
    assert_eq!(scheme(200), 3);
}

#[test]
fn hand_tracker_starts_showing_everything() {
    let h = HandTrackerState::new();
    assert!(h.show_feed && h.show_marks);
    assert!(h.sent_viewer.is_none());
    assert!(!webgpu_available());
}

#[test]
fn closing_the_hand_tracker_stops_the_viewer() {
    let mut k = Kernel::new();
    k.syscall(Pid(1), Syscall::ProcRegister { name: "shell".into(), caps: vec![] }).unwrap();
    k.syscall(Pid(1), Syscall::ProcRegister { name: "hands".into(), caps: AppKind::HandTracker.caps() }).unwrap();
    let hands = Pid(2);
    k.syscall(hands, Syscall::HandsViewer { open: true, stream_feed: true }).unwrap();
    assert_eq!(k.hands_directives.generation, 1);
    let mut h = HandTrackerState::new();
    h.sent_viewer = Some((true, true));
    h.on_close(&mut k, hands);
    assert!(h.sent_viewer.is_none());
    assert!(!k.hands_directives.viewer_open && !k.hands_directives.stream_feed);
    assert_eq!(k.hands_directives.generation, 2);
    // A process without raw-hands access changes nothing.
    h.on_close(&mut k, Pid(9));
    assert_eq!(k.hands_directives.generation, 2);
}

#[test]
fn percent_encoding_of_mixed_text() {
    assert_eq!(pmos::apps::urlencode("a b/ü~"), "a%20b%2F%C3%BC~");
}
