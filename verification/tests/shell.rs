use pmos::abi::{AgentId, CslSign, HandPose, Pid, Reply, Syscall, AGENT_ASSISTANT};
use pmos::kernel::Kernel;
use pmos::palette::PaletteOutcome;
use pmos::shell::{shell_step, ShellAction, ShellEvent, ShellState};

fn boot() -> (Kernel, ShellState) {
    let mut k = Kernel::new();
    let pid = match k.syscall(Pid(0), Syscall::ProcRegister { name: "shell".into(), caps: vec![] }).unwrap() {
        Reply::Pid(p) => p,
        r => panic!("{r:?}"),
    };
    (k, ShellState::new(pid))
}

fn frame(tracking: bool, pose: HandPose) -> ShellEvent {
    ShellEvent::Frame { tracking, pose }
}

#[test]
fn holding_the_call_sign_opens_the_palette_listening_once() {
    let (mut k, mut s) = boot();
    let g0 = k.voice_directives.generation;
    assert!(shell_step(&mut s, &mut k, frame(true, HandPose::CallSign), 1000).is_empty());
    shell_step(&mut s, &mut k, frame(true, HandPose::CallSign), 1599);
    assert!(!s.palette.open);
    assert!(!k.voice_directives.capture);
    shell_step(&mut s, &mut k, frame(true, HandPose::CallSign), 1600);
    assert!(s.palette.open);
    assert!(s.palette.voice.listening);
    assert!(s.palette_voice);
    assert!(k.voice_directives.capture);
    assert_eq!(k.voice_directives.generation, g0 + 1);
    // Still held: nothing fires again.
    shell_step(&mut s, &mut k, frame(true, HandPose::CallSign), 2500);
    assert_eq!(k.voice_directives.generation, g0 + 1);
    // Released after firing: no toggle.
    shell_step(&mut s, &mut k, frame(true, HandPose::Point), 2600);
    assert!(s.palette.open);
    assert_eq!(s.call_since, None);
    assert!(!s.call_fired);
}

#[test]
fn a_short_call_sign_toggles_the_palette() {
    let (mut k, mut s) = boot();
    shell_step(&mut s, &mut k, frame(true, HandPose::CallSign), 100);
    shell_step(&mut s, &mut k, frame(true, HandPose::CallSign), 400);
    shell_step(&mut s, &mut k, frame(true, HandPose::Rest), 599);
    assert!(s.palette.open);
    assert!(s.palette.focus_input);
    assert!(!k.voice_directives.capture);
    // A release at 500 ms or later is no tap.
    shell_step(&mut s, &mut k, frame(true, HandPose::CallSign), 1000);
    shell_step(&mut s, &mut k, frame(false, HandPose::CallSign), 1500);
    assert!(s.palette.open);
    // The shortcut key toggles too.
    shell_step(&mut s, &mut k, ShellEvent::PaletteKey, 1600);
    assert!(!s.palette.open);
}

#[test]
fn the_record_sign_toggles_capture_and_command_arms_only_while_listening() {
    let (mut k, mut s) = boot();
    let acts = shell_step(&mut s, &mut k, ShellEvent::Sign(CslSign::Command), 0);
    assert!(acts.is_empty());
    assert!(!s.command_armed);
    let acts = shell_step(&mut s, &mut k, ShellEvent::Sign(CslSign::Record), 0);
    assert!(matches!(&acts[0], ShellAction::Toast(t) if t == "● voice capture on — hold ✋ still to stop"));
    assert!(k.voice_directives.capture);
    shell_step(&mut s, &mut k, ShellEvent::VoiceStatus { listening: true, available: true, reason: String::new() }, 0);
    assert!(s.voice_listening);
    let acts = shell_step(&mut s, &mut k, ShellEvent::Sign(CslSign::Command), 0);
    assert!(matches!(&acts[0], ShellAction::Toast(t) if t == "⌘ armed — the next words are a command"));
    assert!(s.command_armed);
    let acts = shell_step(&mut s, &mut k, ShellEvent::Sign(CslSign::Record), 0);
    assert!(matches!(&acts[0], ShellAction::Toast(t) if t == "⏸ voice capture off (hold ✋ still to restart)"));
    assert!(!k.voice_directives.capture);
    // The engine stopping disarms command mode.
    shell_step(&mut s, &mut k, ShellEvent::VoiceStatus { listening: false, available: true, reason: String::new() }, 0);
    assert!(!s.command_armed);
    let acts = shell_step(&mut s, &mut k, ShellEvent::Sign(CslSign::Cancel), 0);
    assert!(matches!(&acts[0], ShellAction::Toast(t) if t == "✕ cancelled"));
    assert!(!s.palette.open);
}

#[test]
fn transcripts_are_routed_by_mode() {
    let (mut k, mut s) = boot();
    // Ambient: interim and final go to the Voice Kit.
    let acts = shell_step(&mut s, &mut k, ShellEvent::Transcript { text: "hel".into(), is_final: false, context: String::new() }, 0);
    assert!(matches!(&acts[..], [ShellAction::KitInterim(t)] if t == "hel"));
    let acts = shell_step(&mut s, &mut k, ShellEvent::Transcript { text: "hello".into(), is_final: true, context: String::new() }, 0);
    assert!(matches!(&acts[..], [ShellAction::KitFinal { text, command: false }] if text == "hello"));
    // Armed: recorded as a command and routed with the context.
    s.voice_listening = true;
    shell_step(&mut s, &mut k, ShellEvent::Sign(CslSign::Command), 0);
    let acts = shell_step(
        &mut s,
        &mut k,
        ShellEvent::Transcript { text: "what time is it".into(), is_final: true, context: "[context] x [/context]".into() },
        0,
    );
    assert!(!s.command_armed);
    assert!(matches!(&acts[0], ShellAction::KitFinal { text, command: true } if text == "what time is it"));
    match &acts[1] {
        ShellAction::Palette(PaletteOutcome::Prompt(AgentId(a), m)) => {
            assert_eq!(*a, AGENT_ASSISTANT);
            assert_eq!(m, "[context] x [/context]\n\nUser (voice): what time is it");
        }
        other => panic!("{other:?}"),
    }
    // Armed command naming an app launches it, no context needed.
    shell_step(&mut s, &mut k, ShellEvent::Sign(CslSign::Command), 0);
    let acts = shell_step(&mut s, &mut k, ShellEvent::Transcript { text: "open the terminal.".into(), is_final: true, context: "c".into() }, 0);
    assert!(matches!(&acts[1], ShellAction::Palette(PaletteOutcome::Launch(_))));
}

#[test]
fn a_listening_palette_owns_the_next_utterance() {
    let (mut k, mut s) = boot();
    shell_step(&mut s, &mut k, frame(true, HandPose::CallSign), 0);
    shell_step(&mut s, &mut k, frame(true, HandPose::CallSign), 700);
    assert!(s.palette_voice);
    let acts = shell_step(&mut s, &mut k, ShellEvent::Transcript { text: "open files".into(), is_final: false, context: String::new() }, 800);
    assert!(acts.is_empty());
    assert_eq!(s.palette.input, "open files");
    let acts = shell_step(&mut s, &mut k, ShellEvent::Transcript { text: "open files".into(), is_final: true, context: String::new() }, 900);
    assert!(matches!(&acts[..], [ShellAction::Palette(PaletteOutcome::Launch(_))]));
    assert!(!s.palette_voice);
}

#[test]
fn an_unavailable_engine_is_reported() {
    let (mut k, mut s) = boot();
    let acts = shell_step(&mut s, &mut k, ShellEvent::VoiceStatus { listening: false, available: false, reason: "no mic".into() }, 0);
    assert!(matches!(&acts[..], [ShellAction::Toast(t)] if t == "⚠ voice: no mic"));
}
