//! The syscall ABI: handles, capabilities, syscalls, events and replies.
//! Userland talks to the kernel only through these types.

use vstd::prelude::*;

verus! {

/// ABI version, major part. Additive changes bump the minor part.
pub const ABI_VERSION_MAJOR: u16 = 1;

/// ABI version, minor part.
pub const ABI_VERSION_MINOR: u16 = 1;

/// A process handle.
#[derive(Debug, Clone, Copy, PartialEq, Eq, Hash, Structural)]
pub struct Pid(pub u32);

/// A window handle.
#[derive(Debug, Clone, Copy, PartialEq, Eq, Hash, Structural)]
pub struct WinId(pub u32);

/// A texture handle.
#[derive(Debug, Clone, Copy, PartialEq, Eq, Hash, Structural)]
pub struct TextureHandle(pub u32);

/// An AI agent handle.
#[derive(Debug, Clone, Copy, PartialEq, Eq, Hash, Structural)]
pub struct AgentId(pub u32);

/// A physics body handle.
#[derive(Debug, Clone, Copy, PartialEq, Eq, Hash, Structural)]
pub struct BodyId(pub u32);

/// The number of the System Assistant agent.
pub const AGENT_ASSISTANT: u32 = 1;

/// The number of the App Smith agent, which writes Conjure documents.
pub const AGENT_APP_SMITH: u32 = 2;

/// The capability grants checked on every syscall. Scoped variants carry
/// their scope as a path prefix.
#[derive(Debug)]
pub enum Capability {
    WinOwn,
    FsRead(String),
    FsWrite(String),
    NotesRead,
    NotesWrite,
    NotesLink,
    NetLlm,
    AiPrompt,
    PhysSpawn,
    InputRawHands,
    VoiceInput,
    SysQuery,
    ProcSpawnApp,
    ClipboardWrite,
    TimerSchedule,
}

impl View for Capability {
    /// A capability is its variant number and, for the scoped variants,
    /// the characters of its scope.
    type V = (u8, Seq<char>);

    open spec fn view(&self) -> (u8, Seq<char>) {
        match self {
            Capability::WinOwn => (0u8, Seq::empty()),
            Capability::FsRead(s) => (1u8, s@),
            Capability::FsWrite(s) => (2u8, s@),
            Capability::NotesRead => (3u8, Seq::empty()),
            Capability::NotesWrite => (4u8, Seq::empty()),
            Capability::NotesLink => (5u8, Seq::empty()),
            Capability::NetLlm => (6u8, Seq::empty()),
            Capability::AiPrompt => (7u8, Seq::empty()),
            Capability::PhysSpawn => (8u8, Seq::empty()),
            Capability::InputRawHands => (9u8, Seq::empty()),
            Capability::VoiceInput => (10u8, Seq::empty()),
            Capability::SysQuery => (11u8, Seq::empty()),
            Capability::ProcSpawnApp => (12u8, Seq::empty()),
            Capability::ClipboardWrite => (13u8, Seq::empty()),
            Capability::TimerSchedule => (14u8, Seq::empty()),
        }
    }
}

/// The views of a list of capabilities.
pub open spec fn caps_view(caps: Seq<Capability>) -> Seq<(u8, Seq<char>)> {
    caps.map_values(|c: Capability| c@)
}

impl Clone for Capability {
    fn clone(&self) -> (r: Self)
        ensures
            r@ == self@,
    {
        match self {
            Capability::WinOwn => Capability::WinOwn,
            Capability::FsRead(s) => Capability::FsRead(s.clone()),
            Capability::FsWrite(s) => Capability::FsWrite(s.clone()),
            Capability::NotesRead => Capability::NotesRead,
            Capability::NotesWrite => Capability::NotesWrite,
            Capability::NotesLink => Capability::NotesLink,
            Capability::NetLlm => Capability::NetLlm,
            Capability::AiPrompt => Capability::AiPrompt,
            Capability::PhysSpawn => Capability::PhysSpawn,
            Capability::InputRawHands => Capability::InputRawHands,
            Capability::VoiceInput => Capability::VoiceInput,
            Capability::SysQuery => Capability::SysQuery,
            Capability::ProcSpawnApp => Capability::ProcSpawnApp,
            Capability::ClipboardWrite => Capability::ClipboardWrite,
            Capability::TimerSchedule => Capability::TimerSchedule,
        }
    }
}

impl PartialEq for Capability {
    fn eq(&self, other: &Self) -> (r: bool) {
        match (self, other) {
            (Capability::WinOwn, Capability::WinOwn) => true,
            (Capability::FsRead(a), Capability::FsRead(b)) => a.eq(b),
            (Capability::FsWrite(a), Capability::FsWrite(b)) => a.eq(b),
            (Capability::NotesRead, Capability::NotesRead) => true,
            (Capability::NotesWrite, Capability::NotesWrite) => true,
            (Capability::NotesLink, Capability::NotesLink) => true,
            (Capability::NetLlm, Capability::NetLlm) => true,
            (Capability::AiPrompt, Capability::AiPrompt) => true,
            (Capability::PhysSpawn, Capability::PhysSpawn) => true,
            (Capability::InputRawHands, Capability::InputRawHands) => true,
            (Capability::VoiceInput, Capability::VoiceInput) => true,
            (Capability::SysQuery, Capability::SysQuery) => true,
            (Capability::ProcSpawnApp, Capability::ProcSpawnApp) => true,
            (Capability::ClipboardWrite, Capability::ClipboardWrite) => true,
            (Capability::TimerSchedule, Capability::TimerSchedule) => true,
            _ => false,
        }
    }
}

impl vstd::std_specs::cmp::PartialEqSpecImpl for Capability {
    open spec fn obeys_eq_spec() -> bool {
        true
    }

    open spec fn eq_spec(&self, other: &Self) -> bool {
        self@ == other@
    }
}

impl Eq for Capability {}

/// Where an input event came from.
#[derive(Debug, Clone, Copy, PartialEq, Eq, Structural)]
pub enum InputSource {
    Mouse,
    Keyboard,
    Hand,
    Voice,
    Synthetic,
}

/// Recognized hand poses driving the morphing cursor.
#[derive(Debug, Clone, Copy, PartialEq, Eq, Structural)]
pub enum HandPose {
    Rest,
    Point,
    Pinch,
    MiddlePinch,
    Grab,
    OpenPalm,
    TwoFinger,
    CallSign,
    ThumbsUp,
    ThumbsDown,
}

/// Completed signs of the sign engine and the face layer.
#[derive(Debug, Clone, Copy, PartialEq, Eq, Structural)]
pub enum CslSign {
    Record,
    Command,
    Cancel,
    Confirm,
    DoubleBlink,
}

/// Why a syscall failed.
#[derive(Debug, Clone, Copy, PartialEq, Eq, Structural)]
pub enum ErrorCode {
    CapabilityDenied,
    NotFound,
    InvalidArgument,
    Unsupported,
}

/// One entry of a directory listing.
#[derive(Debug, Clone)]
pub struct DirEntry {
    pub name: String,
    pub dir: bool,
    pub size: u64,
}

/// An AI provider binding: 0 = Anthropic, 1 = OpenAI-compatible,
/// 2 = in-browser.
#[derive(Debug, Clone)]
pub struct AiProviderConfig {
    pub kind: u8,
    pub base_url: String,
    pub model: String,
    pub api_key: String,
}

/// Gesture-detection tuning. The confidence and pinch thresholds are
/// `f32` values carried by their IEEE-754 bit patterns.
#[derive(Debug, Clone, Copy, PartialEq, Eq, Structural)]
pub struct HandsTuning {
    pub num_hands: u8,
    pub det_conf_bits: u32,
    pub track_conf_bits: u32,
    /// 0 = Precise, 1 = Balanced, 2 = Smooth.
    pub smoothing: u8,
    pub pinch_enter_bits: u32,
    pub pinch_exit_bits: u32,
}

impl HandsTuning {
    /// The defaults: one hand, confidences 0.5, Balanced smoothing, pinch
    /// entered below 0.35 and left above 0.55 of the palm scale.
    pub fn default_tuning() -> (r: HandsTuning)
        ensures
            r == default_tuning_spec(),
    {
        HandsTuning {
            num_hands: 1,
            det_conf_bits: 0x3f00_0000,
            track_conf_bits: 0x3f00_0000,
            smoothing: 1,
            pinch_enter_bits: 0x3eb3_3333,
            pinch_exit_bits: 0x3f0c_cccd,
        }
    }
}

/// The default tuning (0.5 is 0x3f000000, 0.35 is 0x3eb33333 and 0.55 is
/// 0x3f0ccccd as `f32` bits).
pub open spec fn default_tuning_spec() -> HandsTuning {
    HandsTuning {
        num_hands: 1,
        det_conf_bits: 0x3f00_0000,
        track_conf_bits: 0x3f00_0000,
        smoothing: 1,
        pinch_enter_bits: 0x3eb3_3333,
        pinch_exit_bits: 0x3f0c_cccd,
    }
}

/// A window request. The size is two `f32` values carried by their bits.
#[derive(Debug, Clone)]
pub struct WinDesc {
    pub title: String,
    pub size_bits: [u32; 2],
    pub resizable: bool,
}

/// The syscalls the kernel core dispatches.
#[derive(Debug)]
pub enum Syscall {
    ProcRegister { name: String, caps: Vec<Capability> },
    WinCreate(WinDesc),
    WinClose(WinId),
    WinSetTitle(WinId, String),
    FsRead { path: String },
    FsWrite { path: String, bytes: Vec<u8> },
    FsList { path: String },
    FsDelete { path: String },
    FsMkdir { path: String },
    FsWatch { path: String },
    InputSubscribe { raw_hands: bool },
    AiConfigure(AiProviderConfig),
    AiPrompt { agent: AgentId, msg: String },
    ProcSpawnApp { conjure_doc: String },
    ProcKill(Pid),
    CapRequest { caps: Vec<Capability>, reason: String },
    SysQuery { path: String },
    CameraStart,
    HandsViewer { open: bool, stream_feed: bool },
    HandsTune(HandsTuning),
    VoiceCapture { start: bool },
    WebFetch { url: String },
}

/// Synchronous syscall replies.
#[derive(Debug)]
pub enum Reply {
    /// The call succeeded with nothing to hand back.
    Nothing,
    Pid(Pid),
    Win(WinId),
    Bytes(Vec<u8>),
    Entries(Vec<DirEntry>),
}

/// What the kernel tells a process, delivered through its event queue.
/// Floating-point payloads travel as their IEEE-754 bit patterns.
#[derive(Debug)]
#[allow(inconsistent_fields)]
pub enum KernelEvent {
    PointerMove { pos_bits: [u32; 2], source: InputSource },
    Select { pos_bits: [u32; 2], source: InputSource },
    /// Per-frame hand state: pose, pinch closure, cursor position (none
    /// while no hand is tracked), tracking, number of hands.
    HandUpdate { pose: HandPose, pinch_bits: u32, pos_bits: Option<[u32; 2]>, tracking: bool, hands: u8 },
    /// Camera pipeline availability, with the reason it changed.
    CameraStatus { enabled: bool, reason: String },
    Key { code: u32, pressed: bool },
    WinClosed(WinId),
    FsChanged { path: String },
    AiChunk { agent: AgentId, text: String, done: bool },
    CapGranted { caps: Vec<Capability> },
    CapDenied { caps: Vec<Capability> },
    SyscallError { code: ErrorCode, message: String },
    /// A recognised sign (hand or face).
    Sign { sign: CslSign },
    /// Raw hand landmarks for the viewer.
    RawHands { data_bits: Vec<u32>, hands: u8 },
    /// Raw face mesh for the viewer.
    RawFace { data_bits: Vec<u32> },
    /// A smoothed gaze estimate in screen fractions.
    Gaze { x_bits: u32, y_bits: u32, active: bool },
    /// A system notice for the shell to show.
    Notice { text: String },
    VoiceStatus { listening: bool, available: bool, reason: String },
    VoiceTranscript { text: String, is_final: bool },
    WebResult { id: u32, ok: bool, body: String },
}

} // verus!
