//! The shell's decisions on gestures and speech. Each frame and each event
//! from the kernel is one step: the 🤙 call sign taps or holds the palette
//! open, signs toggle and arm voice capture, and transcripts go to the
//! palette, the Voice Kit or command mode. The platform loop draws and
//! performs the returned actions.

use vstd::prelude::*;
use crate::abi::{CslSign, HandPose, Pid, Syscall, AGENT_ASSISTANT};
use crate::kernel::{Kernel, cap_voice};
use crate::palette::{
    OutV, Palette, PaletteOutcome, heard, out_view, outs_view, routed, status_seen, toggled, voice_started,
};
use crate::proc::holds;
use crate::text::{push_str, string_of};

verus! {

/// How long (ms) the call sign must be held to open the palette listening.
pub const CALL_HOLD_MS: u64 = 600;

/// The longest (ms) a call sign counts as a tap, which toggles the palette.
pub const CALL_TAP_MS: u64 = 500;

/// What the platform hands the shell.
#[derive(Debug)]
pub enum ShellEvent {
    /// One frame: whether a hand is tracked and its pose.
    Frame { tracking: bool, pose: HandPose },
    /// The palette shortcut key.
    PaletteKey,
    /// A completed sign.
    Sign(CslSign),
    /// The speech engine's status.
    VoiceStatus { listening: bool, available: bool, reason: String },
    /// A transcript; `context` describes the desktop for command mode.
    Transcript { text: String, is_final: bool, context: String },
}

/// What the shell asks the platform to do.
#[derive(Debug)]
pub enum ShellAction {
    /// Show a toast.
    Toast(String),
    /// Carry out a palette outcome.
    Palette(PaletteOutcome),
    /// Record a finished utterance in the Voice Kit, marked when it was a
    /// command.
    KitFinal { text: String, command: bool },
    /// Show an interim transcript in the Voice Kit.
    KitInterim(String),
}

/// The view of an action.
pub enum ActV {
    Toast(Seq<char>),
    Palette(OutV),
    KitFinal(Seq<char>, bool),
    KitInterim(Seq<char>),
}

/// The view of an action.
pub open spec fn act_view(a: ShellAction) -> ActV {
    match a {
        ShellAction::Toast(t) => ActV::Toast(t@),
        ShellAction::Palette(o) => ActV::Palette(out_view(o)),
        ShellAction::KitFinal { text, command } => ActV::KitFinal(text@, command),
        ShellAction::KitInterim(t) => ActV::KitInterim(t@),
    }
}

/// The views of a list of actions.
pub open spec fn acts_view(s: Seq<ShellAction>) -> Seq<ActV> {
    s.map_values(|a: ShellAction| act_view(a))
}

/// Palette outcomes as actions.
pub open spec fn palette_acts(out: Seq<OutV>) -> Seq<ActV> {
    out.map_values(|o: OutV| ActV::Palette(o))
}

/// A command-mode outcome: a question to the assistant carries the
/// desktop context before the spoken words.
pub open spec fn with_context(o: OutV, context: Seq<char>) -> OutV {
    match o {
        OutV::Prompt(a, m) => if a == AGENT_ASSISTANT {
            OutV::Prompt(a, context + "\n\nUser (voice): "@ + m)
        } else {
            o
        },
        _ => o,
    }
}

/// Command-mode outcomes with their context.
pub open spec fn in_context(out: Seq<OutV>, context: Seq<char>) -> Seq<OutV> {
    out.map_values(|o: OutV| with_context(o, context))
}

/// The shell's state.
#[derive(Debug)]
pub struct ShellState {
    /// The shell's process.
    pub pid: Pid,
    pub palette: Palette,
    /// When the current call-sign pose began (ms), if one is held.
    pub call_since: Option<u64>,
    /// Whether the current hold already opened the palette listening.
    pub call_fired: bool,
    /// Whether speech capture is on, as the engine last said.
    pub voice_listening: bool,
    /// A held call sign opened the palette listening: it owns the next
    /// utterance.
    pub palette_voice: bool,
    /// The next utterance is a command.
    pub command_armed: bool,
}

/// `post` is the kernel after the shell `pid` set voice capture to
/// `start`: the directive changes when the shell may capture voice.
pub open spec fn captured(pre: Kernel, post: Kernel, pid: Pid, start: bool) -> bool {
    post == if holds(pre.procs@, pid.0, cap_voice()) {
        Kernel { voice_directives: Kernel::capture_set(pre.voice_directives, start), ..pre }
    } else {
        pre
    }
}

/// What one frame does: a tracked call sign held `CALL_HOLD_MS` opens the
/// palette listening and starts capture, once per hold; a call sign
/// released within `CALL_TAP_MS` that did not fire toggles the palette.
pub open spec fn framed(s: ShellState, k: Kernel, tracking: bool, pose: HandPose, now: u64, s2: ShellState, k2: Kernel) -> bool {
    if tracking && pose == HandPose::CallSign {
        let since = match s.call_since {
            Some(t) => t,
            None => now,
        };
        if now - since >= CALL_HOLD_MS && !s.call_fired {
            &&& voice_started(s.palette, s2.palette)
            &&& s2 == (ShellState { call_since: Some(since), call_fired: true, palette_voice: true, palette: s2.palette, ..s })
            &&& captured(k, k2, s.pid, true)
        } else {
            s2 == (ShellState { call_since: Some(since), ..s }) && k2 == k
        }
    } else {
        let tap = match s.call_since {
            Some(t) => !s.call_fired && now - t < CALL_TAP_MS,
            None => false,
        };
        &&& s2 == (ShellState {
            call_since: None,
            call_fired: false,
            palette: if tap { toggled(s.palette) } else { s.palette },
            ..s
        })
        &&& k2 == k
    }
}

/// What a sign does: ✋ held still toggles capture, ✋ pushed cancels the
/// palette and command mode, ☝ held while capturing arms command mode.
pub open spec fn signed(s: ShellState, k: Kernel, sign: CslSign, s2: ShellState, k2: Kernel, acts: Seq<ActV>) -> bool {
    match sign {
        CslSign::Record => {
            &&& s2 == s
            &&& captured(k, k2, s.pid, !s.voice_listening)
            &&& acts == if s.voice_listening {
                seq![ActV::Toast("⏸ voice capture off (hold ✋ still to restart)"@)]
            } else {
                seq![ActV::Toast("● voice capture on — hold ✋ still to stop"@)]
            }
        },
        CslSign::Cancel => {
            &&& s2 == (ShellState { palette: Palette { open: false, ..s.palette }, command_armed: false, ..s })
            &&& k2 == k
            &&& acts == seq![ActV::Toast("✕ cancelled"@)]
        },
        CslSign::Command => {
            &&& k2 == k
            &&& if s.voice_listening && !s.command_armed {
                s2 == (ShellState { command_armed: true, ..s })
                    && acts == seq![ActV::Toast("⌘ armed — the next words are a command"@)]
            } else {
                s2 == s && acts.len() == 0
            }
        },
        _ => s2 == s && k2 == k && acts.len() == 0,
    }
}

/// What the engine's status does: the shell notes whether it listens (a
/// stop disarms command mode); a listening palette sees the status and
/// lets go of voice when listening ends; otherwise an unavailable engine
/// is reported.
pub open spec fn status_taken(s: ShellState, listening: bool, available: bool, reason: Seq<char>, s2: ShellState, acts: Seq<ActV>) -> bool {
    let armed = listening && s.command_armed;
    if s.palette_voice {
        &&& s2 == (ShellState { voice_listening: listening, command_armed: armed, palette_voice: listening, palette: s2.palette, ..s })
        &&& exists|out: Seq<OutV>| #[trigger] status_seen(s.palette, s2.palette, listening, available, reason, out)
            && acts == palette_acts(out)
    } else {
        &&& s2 == (ShellState { voice_listening: listening, command_armed: armed, ..s })
        &&& acts == if !available { seq![ActV::Toast("⚠ voice: "@ + reason)] } else { Seq::empty() }
    }
}

/// Where a transcript goes: to a listening palette, which lets go after
/// the final one; else a final utterance to the Voice Kit and, when armed,
/// routed as a spoken command with the desktop context; else the interim
/// text to the Voice Kit.
pub open spec fn transcribed(s: ShellState, text: Seq<char>, is_final: bool, context: Seq<char>, s2: ShellState, acts: Seq<ActV>) -> bool {
    if s.palette_voice {
        &&& s2 == (ShellState { palette_voice: !is_final, palette: s2.palette, ..s })
        &&& exists|out: Seq<OutV>| #[trigger] heard(s.palette, s2.palette, text, is_final, out) && acts == palette_acts(out)
    } else if is_final {
        if s.command_armed {
            &&& s2 == (ShellState { command_armed: false, palette: s2.palette, ..s })
            &&& exists|out: Seq<OutV>| #[trigger] routed(s.palette, s2.palette, text, true, out)
                && acts == seq![ActV::KitFinal(text, true)] + palette_acts(in_context(out, context))
        } else {
            s2 == s && acts == seq![ActV::KitFinal(text, false)]
        }
    } else {
        s2 == s && acts == seq![ActV::KitInterim(text)]
    }
}

/// One step of the shell on the event `ev` at time `now` (ms).
pub open spec fn shell_stepped(s: ShellState, k: Kernel, ev: ShellEvent, now: u64, s2: ShellState, k2: Kernel, acts: Seq<ActV>) -> bool {
    match ev {
        ShellEvent::Frame { tracking, pose } => framed(s, k, tracking, pose, now, s2, k2) && acts.len() == 0,
        ShellEvent::PaletteKey => s2 == (ShellState { palette: toggled(s.palette), ..s }) && k2 == k && acts.len() == 0,
        ShellEvent::Sign(sign) => signed(s, k, sign, s2, k2, acts),
        ShellEvent::VoiceStatus { listening, available, reason } => status_taken(s, listening, available, reason@, s2, acts)
            && k2 == k,
        ShellEvent::Transcript { text, is_final, context } => transcribed(s, text@, is_final, context@, s2, acts) && k2 == k,
    }
}

impl ShellState {
    /// The shell `pid`'s state at boot: a closed palette, nothing held,
    /// voice off.
    pub fn new(pid: Pid) -> (r: Self)
        ensures
            r.pid == pid,
            !r.palette.open,
            r.call_since is None,
            !r.call_fired,
            !r.voice_listening,
            !r.palette_voice,
            !r.command_armed,
    {
        ShellState {
            pid,
            palette: Palette::new(),
            call_since: None,
            call_fired: false,
            voice_listening: false,
            palette_voice: false,
            command_armed: false,
        }
    }
}

/// A command-mode outcome with its context (see [`with_context`]).
fn contextual(o: PaletteOutcome, context: &str) -> (r: PaletteOutcome)
    ensures
        out_view(r) == with_context(out_view(o), context@),
{
    match o {
        PaletteOutcome::Prompt(a, m) => {
            if a.0 == AGENT_ASSISTANT {
                let mut v: Vec<char> = Vec::new();
                push_str(&mut v, context);
                push_str(&mut v, "\n\nUser (voice): ");
                push_str(&mut v, m.as_str());
                PaletteOutcome::Prompt(a, string_of(&v))
            } else {
                PaletteOutcome::Prompt(a, m)
            }
        },
        other => other,
    }
}

/// Palette outcomes as actions, each with `context` when one is given.
fn into_actions(out: Vec<PaletteOutcome>, context: Option<&str>) -> (r: Vec<ShellAction>)
    ensures
        acts_view(r@) == palette_acts(
            match context {
                Some(c) => in_context(outs_view(out@), c@),
                None => outs_view(out@),
            },
        ),
{
    let ghost ov = outs_view(out@);
    let ghost target = match context {
        Some(c) => in_context(ov, c@),
        None => ov,
    };
    let mut rest = out;
    let mut r: Vec<ShellAction> = Vec::new();
    let ghost mut i: int = 0;
    while rest.len() > 0
        invariant
            0 <= i <= ov.len(),
            target.len() == ov.len(),
            outs_view(rest@) == ov.skip(i),
            rest@.len() == ov.len() - i,
            acts_view(r@) == palette_acts(target.take(i)),
            forall|j: int| 0 <= j < ov.len() ==> #[trigger] target[j] == match context {
                Some(c) => with_context(ov[j], c@),
                None => ov[j],
            },
        decreases rest.len(),
    {
        let ghost before = rest@;
        let o = rest.remove(0);
        assert(out_view(o) == ov[i]) by {
            assert(outs_view(before)[0] == out_view(before[0]));
            assert(ov.skip(i)[0] == ov[i]);
        }
        assert(outs_view(rest@) =~= ov.skip(i + 1)) by {
            assert(rest@ =~= before.skip(1));
            assert forall|j: int| 0 <= j < rest@.len() implies outs_view(rest@)[j] == ov.skip(i + 1)[j] by {
                assert(rest@[j] == before[j + 1]);
                assert(outs_view(before)[j + 1] == ov.skip(i)[j + 1]);
                assert(ov.skip(i)[j + 1] == ov[i + j + 1]);
                assert(ov.skip(i + 1)[j] == ov[i + j + 1]);
            }
        }
        let o2 = match context {
            Some(c) => contextual(o, c),
            None => o,
        };
        let ghost rv = acts_view(r@);
        assert(out_view(o2) == target[i]);
        r.push(ShellAction::Palette(o2));
        assert(acts_view(r@) =~= rv.push(ActV::Palette(target[i])));
        assert(target.take(i + 1) =~= target.take(i).push(target[i]));
        assert(palette_acts(target.take(i + 1)) =~= palette_acts(target.take(i)).push(ActV::Palette(target[i])));
        proof {
            i = i + 1;
        }
    }
    assert(target.take(i) =~= target);
    r
}

/// Sets voice capture on behalf of the shell.
fn set_capture(kernel: &mut Kernel, pid: Pid, start: bool)
    requires
        old(kernel).wf(),
        old(kernel).voice_directives.generation < u32::MAX,
    ensures
        final(kernel).wf(),
        captured(*old(kernel), *final(kernel), pid, start),
{
    let _ = kernel.syscall(pid, Syscall::VoiceCapture { start });
}

/// One step of the shell (see [`shell_stepped`]): the actions come back
/// in the order the platform performs them.
pub fn shell_step(s: &mut ShellState, kernel: &mut Kernel, ev: ShellEvent, now_ms: u64) -> (acts: Vec<ShellAction>)
    requires
        old(kernel).wf(),
        old(kernel).voice_directives.generation < u32::MAX,
    ensures
        final(kernel).wf(),
        shell_stepped(*old(s), *old(kernel), ev, now_ms, *final(s), *final(kernel), acts_view(acts@)),
{
    let mut acts: Vec<ShellAction> = Vec::new();
    match ev {
        ShellEvent::Frame { tracking, pose } => {
            if tracking && pose == HandPose::CallSign {
                let since = match s.call_since {
                    Some(t) => t,
                    None => now_ms,
                };
                s.call_since = Some(since);
                if now_ms >= since && now_ms - since >= CALL_HOLD_MS && !s.call_fired {
                    s.call_fired = true;
                    s.palette_voice = true;
                    s.palette.start_voice();
                    set_capture(kernel, s.pid, true);
                }
            } else {
                let tap = match s.call_since {
                    Some(t) => !s.call_fired && (now_ms < t || now_ms - t < CALL_TAP_MS),
                    None => false,
                };
                if tap {
                    s.palette.toggle();
                }
                s.call_since = None;
                s.call_fired = false;
            }
            assert(framed(*old(s), *old(kernel), tracking, pose, now_ms, *s, *kernel));
        },
        ShellEvent::PaletteKey => {
            s.palette.toggle();
        },
        ShellEvent::Sign(sign) => {
            match sign {
                CslSign::Record => {
                    if s.voice_listening {
                        set_capture(kernel, s.pid, false);
                        acts.push(ShellAction::Toast(String::from_str("⏸ voice capture off (hold ✋ still to restart)")));
                    assert(acts_view(acts@) =~= seq![ActV::Toast("⏸ voice capture off (hold ✋ still to restart)"@)]);
                    } else {
                        set_capture(kernel, s.pid, true);
                        acts.push(ShellAction::Toast(String::from_str("● voice capture on — hold ✋ still to stop")));
                    assert(acts_view(acts@) =~= seq![ActV::Toast("● voice capture on — hold ✋ still to stop"@)]);
                    }
                },
                CslSign::Cancel => {
                    s.palette.open = false;
                    s.command_armed = false;
                    acts.push(ShellAction::Toast(String::from_str("✕ cancelled")));
                assert(acts_view(acts@) =~= seq![ActV::Toast("✕ cancelled"@)]);
                },
                CslSign::Command => {
                    if s.voice_listening && !s.command_armed {
                        s.command_armed = true;
                        acts.push(ShellAction::Toast(String::from_str("⌘ armed — the next words are a command")));
                    assert(acts_view(acts@) =~= seq![ActV::Toast("⌘ armed — the next words are a command"@)]);
                    }
                },
                _ => {},
            }
            assert(signed(*old(s), *old(kernel), sign, *s, *kernel, acts_view(acts@)));
        },
        ShellEvent::VoiceStatus { listening, available, reason } => {
            s.voice_listening = listening;
            if !listening {
                s.command_armed = false;
            }
            if s.palette_voice {
                let out = s.palette.on_voice_status(listening, available, reason.as_str());
                let ghost ov = outs_view(out@);
                acts = into_actions(out, None);
                if !listening {
                    s.palette_voice = false;
                }
                assert(status_seen(old(s).palette, s.palette, listening, available, reason@, ov));
                assert(acts_view(acts@) == palette_acts(ov));
            } else if !available {
                let mut v: Vec<char> = Vec::new();
                push_str(&mut v, "⚠ voice: ");
                push_str(&mut v, reason.as_str());
                acts.push(ShellAction::Toast(string_of(&v)));
                assert(acts_view(acts@) =~= seq![ActV::Toast("⚠ voice: "@ + reason@)]);
            }
            assert(!old(s).palette_voice && available ==> acts_view(acts@) =~= Seq::<ActV>::empty());
            assert(status_taken(*old(s), listening, available, reason@, *s, acts_view(acts@)));
        },
        ShellEvent::Transcript { text, is_final, context } => {
            if s.palette_voice {
                let out = s.palette.on_voice_transcript(text, is_final);
                let ghost ov = outs_view(out@);
                acts = into_actions(out, None);
                if is_final {
                    s.palette_voice = false;
                }
                assert(heard(old(s).palette, s.palette, ev->Transcript_text@, is_final, ov));
                assert(acts_view(acts@) == palette_acts(ov));
            } else if is_final {
                let command = s.command_armed;
                s.command_armed = false;
                let kept = text.clone();
                acts.push(ShellAction::KitFinal { text: kept, command });
                assert(acts_view(acts@) =~= seq![ActV::KitFinal(text@, command)]);
                if command {
                    let out = s.palette.route(text, true);
                    let ghost ov = outs_view(out@);
                    let mut more = into_actions(out, Some(context.as_str()));
                    let ghost first = acts_view(acts@);
                    acts.append(&mut more);
                    assert(routed(old(s).palette, s.palette, ev->Transcript_text@, true, ov));
                    assert(acts_view(acts@) =~= first + palette_acts(in_context(ov, context@)));
                }
            } else {
                let ghost tv = text@;
                acts.push(ShellAction::KitInterim(text));
                assert(acts_view(acts@) =~= seq![ActV::KitInterim(tv)]);
            }
            assert(transcribed(*old(s), ev->Transcript_text@, is_final, context@, *s, acts_view(acts@)));
        },
    }
    acts
}

/// A held call sign fires once per hold: after it has opened the palette
/// listening, further frames of the same hold change neither the kernel
/// nor the palette.
pub proof fn law_call_fires_once(s: ShellState, k: Kernel, now: u64, s2: ShellState, k2: Kernel)
    requires
        framed(s, k, true, HandPose::CallSign, now, s2, k2),
        s.call_fired,
    ensures
        k2 == k,
        s2.palette == s.palette,
        s2.call_fired,
        s2.palette_voice == s.palette_voice,
{
}

/// A call sign that fired is no tap: letting go of it after the palette
/// opened listening leaves the palette as it is and ends the hold.
pub proof fn law_fired_hold_is_no_tap(s: ShellState, k: Kernel, pose: HandPose, now: u64, s2: ShellState, k2: Kernel)
    requires
        framed(s, k, true, pose, now, s2, k2),
        pose != HandPose::CallSign,
        s.call_fired,
    ensures
        k2 == k,
        s2.palette == s.palette,
        s2.call_since is None,
        !s2.call_fired,
{
}

} // verus!
