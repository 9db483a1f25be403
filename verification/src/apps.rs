//! The built-in applications and the small pieces of shell logic around
//! them: app kinds and their delegated capabilities, the camera tray
//! text, the colour-scheme index and query-string encoding.

use vstd::prelude::*;
use crate::abi::{Capability, HandsTuning, caps_view, default_tuning_spec};
use crate::text::{push_str, string_of, push_dec};

verus! {

/// The built-in applications.
#[derive(Debug, Clone, Copy, PartialEq, Eq, Structural, Hash)]
pub enum AppKind {
    Terminal,
    Files,
    Notes,
    RayTracer,
    HandTracker,
    Settings,
    Browser,
}

/// Every app kind, in launcher order.
pub fn all_kinds() -> (r: Vec<AppKind>)
    ensures
        r@ == seq![AppKind::Terminal, AppKind::Files, AppKind::Notes, AppKind::RayTracer,
            AppKind::HandTracker, AppKind::Settings, AppKind::Browser],
{
    vec![AppKind::Terminal, AppKind::Files, AppKind::Notes, AppKind::RayTracer, AppKind::HandTracker,
        AppKind::Settings, AppKind::Browser]
}

/// The window title of an app.
pub open spec fn title_spec(k: AppKind) -> Seq<char> {
    match k {
        AppKind::Terminal => "Terminal"@,
        AppKind::Files => "Files"@,
        AppKind::Notes => "Motion Notes"@,
        AppKind::RayTracer => "Ray Tracer"@,
        AppKind::HandTracker => "Hand Tracker"@,
        AppKind::Settings => "Settings"@,
        AppKind::Browser => "Browser"@,
    }
}

/// The window title of an app in lower case, as typed or spoken names are
/// matched against it.
pub open spec fn match_name_spec(k: AppKind) -> Seq<char> {
    match k {
        AppKind::Terminal => "terminal"@,
        AppKind::Files => "files"@,
        AppKind::Notes => "motion notes"@,
        AppKind::RayTracer => "ray tracer"@,
        AppKind::HandTracker => "hand tracker"@,
        AppKind::Settings => "settings"@,
        AppKind::Browser => "browser"@,
    }
}

/// The dock icon of an app.
pub open spec fn icon_spec(k: AppKind) -> Seq<char> {
    match k {
        AppKind::Terminal => "🖥"@,
        AppKind::Files => "📁"@,
        AppKind::Notes => "📝"@,
        AppKind::RayTracer => "◇"@,
        AppKind::HandTracker => "✋"@,
        AppKind::Settings => "⚙"@,
        AppKind::Browser => "🌐"@,
    }
}

/// The capabilities the shell delegates to an app at launch (only ones
/// the shell holds itself); Notes is scoped to `/notes`.
pub open spec fn caps_spec(k: AppKind) -> Seq<(u8, Seq<char>)> {
    match k {
        AppKind::Terminal => seq![(1u8, "/"@), (2u8, "/"@), (7u8, Seq::empty()), (11u8, Seq::empty())],
        AppKind::Files => seq![(1u8, "/"@), (2u8, "/"@)],
        AppKind::Notes => seq![(1u8, "/notes"@), (2u8, "/notes"@)],
        AppKind::RayTracer => seq![(11u8, Seq::empty())],
        AppKind::HandTracker => seq![(9u8, Seq::empty())],
        AppKind::Settings => seq![(7u8, Seq::empty()), (11u8, Seq::empty()), (1u8, "/settings"@), (2u8, "/settings"@),
            (8u8, Seq::empty())],
        AppKind::Browser => Seq::empty(),
    }
}

impl AppKind {
    /// The window title.
    pub fn title(self) -> (r: &'static str)
        ensures
            r@ == title_spec(self),
    {
        match self {
            AppKind::Terminal => "Terminal",
            AppKind::Files => "Files",
            AppKind::Notes => "Motion Notes",
            AppKind::RayTracer => "Ray Tracer",
            AppKind::HandTracker => "Hand Tracker",
            AppKind::Settings => "Settings",
            AppKind::Browser => "Browser",
        }
    }

    /// The window title in lower case, which names are matched against.
    pub fn match_name(self) -> (r: &'static str)
        ensures
            r@ == match_name_spec(self),
    {
        match self {
            AppKind::Terminal => "terminal",
            AppKind::Files => "files",
            AppKind::Notes => "motion notes",
            AppKind::RayTracer => "ray tracer",
            AppKind::HandTracker => "hand tracker",
            AppKind::Settings => "settings",
            AppKind::Browser => "browser",
        }
    }

    /// The dock icon.
    pub fn icon(self) -> (r: &'static str)
        ensures
            r@ == icon_spec(self),
    {
        match self {
            AppKind::Terminal => "🖥",
            AppKind::Files => "📁",
            AppKind::Notes => "📝",
            AppKind::RayTracer => "◇",
            AppKind::HandTracker => "✋",
            AppKind::Settings => "⚙",
            AppKind::Browser => "🌐",
        }
    }

    /// The capabilities delegated at launch.
    pub fn caps(self) -> (r: Vec<Capability>)
        ensures
            caps_view(r@) == caps_spec(self),
    {
        let r = match self {
            AppKind::Terminal => vec![
                Capability::FsRead(String::from_str("/")),
                Capability::FsWrite(String::from_str("/")),
                Capability::AiPrompt,
                Capability::SysQuery,
            ],
            AppKind::Files => vec![Capability::FsRead(String::from_str("/")), Capability::FsWrite(String::from_str("/"))],
            AppKind::Notes => vec![
                Capability::FsRead(String::from_str("/notes")),
                Capability::FsWrite(String::from_str("/notes")),
            ],
            AppKind::RayTracer => vec![Capability::SysQuery],
            AppKind::HandTracker => vec![Capability::InputRawHands],
            AppKind::Settings => vec![
                Capability::AiPrompt,
                Capability::SysQuery,
                Capability::FsRead(String::from_str("/settings")),
                Capability::FsWrite(String::from_str("/settings")),
                Capability::PhysSpawn,
            ],
            AppKind::Browser => Vec::new(),
        };
        assert(caps_view(r@) =~= caps_spec(self));
        r
    }
}

/// What an app hands back to the shell after its frame.
#[derive(Debug)]
pub enum AppAction {
    LaunchConjure(String),
}

/// What the Voice Kit asks the shell to do.
#[derive(Debug)]
pub enum KitAction {
    ToggleCapture,
    Toast(String),
}

/// The camera tray text: off, on without hands, or tracking with the
/// number of hands.
pub open spec fn tray_spec(camera_enabled: bool, tracking: bool, hands: u8) -> Seq<char> {
    if !camera_enabled {
        "📷 off"@
    } else if !tracking {
        "📷 on · no hands"@
    } else {
        "📷 tracking · "@ + crate::text::dec(hands as nat) + " hand"@ + if hands == 1 { Seq::empty() } else { "s"@ }
    }
}

/// The camera tray text (the camera status is always visible).
pub fn tray_text(camera_enabled: bool, tracking: bool, hands: u8) -> (r: String)
    ensures
        r@ == tray_spec(camera_enabled, tracking, hands),
{
    if !camera_enabled {
        return String::from_str("📷 off");
    }
    if !tracking {
        return String::from_str("📷 on · no hands");
    }
    let mut v: Vec<char> = Vec::new();
    push_str(&mut v, "📷 tracking · ");
    push_dec(&mut v, hands as u64);
    push_str(&mut v, " hand");
    if hands != 1 {
        push_str(&mut v, "s");
    } else {
        assert(v@ =~= v@ + Seq::<char>::empty());
    }
    string_of(&v)
}

/// The number of colour schemes.
pub const SCHEME_COUNT: u8 = 4;

/// The active colour scheme for a stored choice: out-of-range choices
/// fall back to the last scheme.
pub fn scheme(stored: u8) -> (r: u8)
    ensures
        r == if stored < SCHEME_COUNT { stored } else { (SCHEME_COUNT - 1) as u8 },
{
    if stored < SCHEME_COUNT {
        stored
    } else {
        SCHEME_COUNT - 1
    }
}

/// Whether a byte stands for itself in a query string.
pub open spec fn unreserved(b: u8) -> bool {
    (65 <= b <= 90) || (97 <= b <= 122) || (48 <= b <= 57) || b == 45 || b == 95 || b == 46 || b == 126
}

/// The upper-case hexadecimal digit for `d < 16`.
pub open spec fn hex_upper(d: nat) -> char {
    if d < 10 {
        (48 + d) as char
    } else {
        (55 + d) as char
    }
}

/// The percent-encoding of bytes: unreserved bytes as themselves, every
/// other byte as `%XX` in upper-case hexadecimal.
pub open spec fn percent_encoded(b: Seq<u8>) -> Seq<char>
    decreases b.len(),
{
    if b.len() == 0 {
        Seq::empty()
    } else {
        percent_encoded(b.drop_last()) + if unreserved(b.last()) {
            seq![b.last() as char]
        } else {
            seq!['%', hex_upper((b.last() / 16) as nat), hex_upper((b.last() % 16) as nat)]
        }
    }
}

/// The value of a hexadecimal digit (either case).
pub open spec fn hex_value(c: char) -> nat {
    if '0' <= c && c <= '9' {
        (c as u32 - 48) as nat
    } else if 'A' <= c && c <= 'F' {
        (c as u32 - 55) as nat
    } else if 'a' <= c && c <= 'f' {
        (c as u32 - 87) as nat
    } else {
        0
    }
}

/// Percent-decoding, read from the end: `%XY` gives the byte with those
/// hexadecimal digits, any other character the byte of its code.
pub open spec fn percent_decoded(s: Seq<char>) -> Seq<u8>
    decreases s.len(),
{
    if s.len() == 0 {
        Seq::empty()
    } else if s.len() >= 3 && s[s.len() - 3] == '%' {
        percent_decoded(s.take(s.len() - 3)).push((hex_value(s[s.len() - 2]) * 16 + hex_value(s.last())) as u8)
    } else {
        percent_decoded(s.drop_last()).push(s.last() as u8)
    }
}

/// An encoding never ends in `%`, nor has one just before its last
/// character.
proof fn lemma_encoded_tail(b: Seq<u8>)
    ensures
        percent_encoded(b).len() > 0 ==> percent_encoded(b).last() != '%',
        percent_encoded(b).len() > 1 ==> percent_encoded(b)[percent_encoded(b).len() - 2] != '%',
    decreases b.len(),
{
    if b.len() > 0 {
        lemma_encoded_tail(b.drop_last());
        let e0 = percent_encoded(b.drop_last());
        let x = b.last();
        if unreserved(x) {
            let e = e0 + seq![x as char];
            assert(e.last() == x as char);
            if e.len() > 1 {
                assert(e[e.len() - 2] == e0.last());
            }
        } else {
            let e = e0 + seq!['%', hex_upper((x / 16) as nat), hex_upper((x % 16) as nat)];
            assert(e.last() == hex_upper((x % 16) as nat));
            assert(e[e.len() - 2] == hex_upper((x / 16) as nat));
        }
    }
}

/// Decoding undoes the encoding: the percent-decoding of the encoding of
/// any bytes gives those bytes back.
pub proof fn law_percent_round_trip(b: Seq<u8>)
    ensures
        percent_decoded(percent_encoded(b)) == b,
    decreases b.len(),
{
    if b.len() > 0 {
        let b0 = b.drop_last();
        let x = b.last();
        let e0 = percent_encoded(b0);
        law_percent_round_trip(b0);
        lemma_encoded_tail(b0);
        if unreserved(x) {
            let e = e0 + seq![x as char];
            assert(e == percent_encoded(b));
            if e.len() >= 3 {
                assert(e[e.len() - 3] == e0[e0.len() - 2]);
            }
            assert(e.drop_last() =~= e0);
            assert((x as char) as u8 == x);
        } else {
            let hi = hex_upper((x / 16) as nat);
            let lo = hex_upper((x % 16) as nat);
            let e = e0 + seq!['%', hi, lo];
            assert(e == percent_encoded(b));
            assert(e[e.len() - 3] == '%');
            assert(e.take(e.len() - 3) =~= e0);
            assert(e[e.len() - 2] == hi && e.last() == lo);
            assert(hex_value(hi) == (x / 16) as nat);
            assert(hex_value(lo) == (x % 16) as nat);
        }
        assert(b0.push(x) =~= b);
    }
}

/// Minimal percent-encoding of the UTF-8 bytes of `s` for query strings.
pub fn urlencode(s: &str) -> (r: String)
    ensures
        r@ == percent_encoded(vstd::utf8::encode_utf8(s@)),
{
    let b = s.as_bytes();
    let mut v: Vec<char> = Vec::new();
    let mut i: usize = 0;
    while i < b.len()
        invariant
            i <= b@.len(),
            b@ == vstd::utf8::encode_utf8(s@),
            v@ == percent_encoded(b@.take(i as int)),
        decreases b.len() - i,
    {
        let x = b[i];
        assert(b@.take(i + 1).drop_last() =~= b@.take(i as int));
        if (65 <= x && x <= 90) || (97 <= x && x <= 122) || (48 <= x && x <= 57) || x == 45 || x == 95 || x == 46 || x == 126 {
            v.push(x as char);
        } else {
            let hi = x / 16;
            let lo = x % 16;
            let h: char = if hi < 10 { (48 + hi) as char } else { (55 + hi) as char };
            let l: char = if lo < 10 { (48 + lo) as char } else { (55 + lo) as char };
            v.push('%');
            v.push(h);
            v.push(l);
        }
        i += 1;
    }
    assert(b@.take(b@.len() as int) =~= b@);
    string_of(&v)
}

/// The Hand Tracker's view settings and the tuning it last sent.
#[derive(Debug)]
pub struct HandTrackerState {
    pub show_feed: bool,
    pub show_marks: bool,
    pub tuning: HandsTuning,
    pub sent_tuning: HandsTuning,
    pub sent_viewer: Option<(bool, bool)>,
}

impl HandTrackerState {
    /// Feed and landmarks shown, default tuning, nothing sent yet.
    pub fn new() -> (r: Self)
        ensures
            r.show_feed,
            r.show_marks,
            r.tuning == default_tuning_spec(),
            r.sent_tuning == default_tuning_spec(),
            r.sent_viewer is None,
    {
        HandTrackerState {
            show_feed: true,
            show_marks: true,
            tuning: HandsTuning::default_tuning(),
            sent_tuning: HandsTuning::default_tuning(),
            sent_viewer: None,
        }
    }

    /// The window closed: stops the landmark events and the pixel stream
    /// (a viewer directive as process `pid`, which changes the directives
    /// when the process holds `InputRawHands`) and forgets what was sent.
    pub fn on_close(&mut self, kernel: &mut crate::kernel::Kernel, pid: crate::abi::Pid)
        requires
            old(kernel).wf(),
            old(kernel).hands_directives.generation < u32::MAX,
        ensures
            final(kernel).wf(),
            *final(kernel) == if crate::proc::holds(old(kernel).procs@, pid.0, crate::kernel::cap_raw_hands()) {
                crate::kernel::Kernel {
                    hands_directives: crate::kernel::Kernel::viewer_set(old(kernel).hands_directives, false, false),
                    ..*old(kernel)
                }
            } else {
                *old(kernel)
            },
            *final(self) == (HandTrackerState { sent_viewer: None, ..*old(self) }),
    {
        let _ = kernel.syscall(pid, crate::abi::Syscall::HandsViewer { open: false, stream_feed: false });
        self.sent_viewer = None;
    }
}

/// Whether the browser exposes WebGPU. Native builds have none.
pub fn webgpu_available() -> (r: bool)
    ensures
        !r,
{
    false
}

} // verus!
