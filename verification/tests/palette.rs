use pmos::abi::{AgentId, AGENT_APP_SMITH, AGENT_ASSISTANT};
use pmos::apps::AppKind;
use pmos::conjure::ValidationError;
use pmos::palette::{Line, Palette, PaletteOutcome};

/// The transcript after the palette's opening hint.
fn texts(p: &Palette) -> Vec<String> {
    p.lines
        .iter()
        .skip(1)
        .map(|l| match l {
            Line::User(s) => format!("user:{s}"),
            Line::Assistant(s) => format!("assistant:{s}"),
            Line::System(s) => format!("system:{s}"),
        })
        .collect()
}

#[test]
fn blank_input_does_nothing() {
    let mut p = Palette::new();
    assert!(p.route("   ".into(), false).is_empty());
    assert_eq!(p.lines.len(), 1);
    assert!(matches!(&p.lines[0], Line::System(s) if s == "type a command, `> question` for the assistant, or `make …` to conjure an app"));
}

#[test]
fn questions_go_to_the_assistant() {
    let mut p = Palette::new();
    let out = p.route(">  why? ".into(), false);
    assert!(matches!(&out[..], [PaletteOutcome::Prompt(AgentId(a), q)] if *a == AGENT_ASSISTANT && q == "why?"));
    assert!(p.assistant_streaming);
    assert_eq!(texts(&p), vec!["user:>  why?", "assistant:"]);
    p.on_chunk(AgentId(AGENT_ASSISTANT), "because", false);
    p.on_chunk(AgentId(AGENT_ASSISTANT), ".", true);
    assert_eq!(texts(&p), vec!["user:>  why?", "assistant:because."]);
    assert!(!p.assistant_streaming);
}

#[test]
fn make_requests_start_the_app_smith() {
    let mut p = Palette::new();
    let out = p.route("Make me a timer".into(), false);
    assert!(matches!(&out[..], [PaletteOutcome::Prompt(AgentId(a), q)] if *a == AGENT_APP_SMITH && q == "Make me a timer"));
    assert!(p.smith.active);
    assert_eq!(texts(&p).last().unwrap(), "system:🪄 conjuring…");
}

#[test]
fn spoken_app_names_launch_apps() {
    let mut p = Palette::new();
    p.open = true;
    let out = p.route("Open the Terminal.".into(), true);
    assert!(matches!(&out[..], [PaletteOutcome::Launch(AppKind::Terminal)]));
    assert!(!p.open);
    assert_eq!(texts(&p), vec!["user:🎤 Open the Terminal."]);
    let out = p.route("notes".into(), false);
    assert!(matches!(&out[..], [PaletteOutcome::Launch(AppKind::Notes)]));
    let out = p.route("launcher".into(), false);
    assert!(matches!(&out[..], [PaletteOutcome::OpenLauncher]));
}

#[test]
fn unknown_typed_commands_are_reported_and_spoken_ones_asked() {
    let mut p = Palette::new();
    assert!(p.route("xyzzy".into(), false).is_empty());
    assert_eq!(
        texts(&p).last().unwrap(),
        "system:unknown command `xyzzy` — try an app name, `demo`, `> question`, or `make …`"
    );
    let out = p.route("what time is it".into(), true);
    assert!(matches!(&out[..], [PaletteOutcome::Prompt(AgentId(a), q)] if *a == AGENT_ASSISTANT && q == "what time is it"));
}

#[test]
fn smith_replies_are_checked_then_spawned_or_repaired() {
    let mut p = Palette::new();
    p.route("build a counter".into(), false);
    assert!(p.on_chunk(AgentId(AGENT_APP_SMITH), "Here: {\"conjure\":", false).is_empty());
    let out = p.on_chunk(AgentId(AGENT_APP_SMITH), "\"1.0\"} done", true);
    let json = match &out[..] {
        [PaletteOutcome::Check(j)] => j.clone(),
        o => panic!("{o:?}"),
    };
    assert_eq!(json, "{\"conjure\":\"1.0\"}");
    let err = ValidationError { path: "/ui/w".into(), code: "WID001".into(), message: "unknown widget `x`".into(), hint: "h".into() };
    let out = p.finish_conjure(json.clone(), Err(vec![err]));
    match &out[..] {
        [PaletteOutcome::Prompt(AgentId(a), q)] => {
            assert_eq!(*a, AGENT_APP_SMITH);
            assert!(q.starts_with("Your document failed validation:\n- WID001 at /ui/w: unknown widget `x` (h)"));
            assert!(q.ends_with("Return the FULL corrected JSON document and nothing else."));
        },
        o => panic!("{o:?}"),
    }
    assert_eq!(texts(&p).last().unwrap(), "system:…repairing (1 issue, round 1)");
    let out = p.finish_conjure(json.clone(), Ok(("⏱".into(), "Counter".into())));
    assert!(matches!(&out[..], [PaletteOutcome::SpawnConjure(j)] if *j == json));
    assert_eq!(texts(&p).last().unwrap(), "system:✨ conjured ⏱ Counter");
    assert!(!p.smith.active);
}

#[test]
fn smith_reply_without_json_fails_the_conjuring() {
    let mut p = Palette::new();
    p.route("create x".into(), false);
    assert!(p.on_chunk(AgentId(AGENT_APP_SMITH), "sorry, no", true).is_empty());
    assert_eq!(texts(&p).last().unwrap(), "system:⚠ the App Smith returned no JSON");
    assert!(!p.smith.active);
}

#[test]
fn interim_transcripts_fill_the_input() {
    let mut p = Palette::new();
    assert!(p.on_voice_transcript("open fi".into(), false).is_empty());
    assert_eq!(p.input, "open fi");
    let out = p.on_voice_transcript("open files".into(), true);
    assert!(matches!(&out[..], [PaletteOutcome::Launch(AppKind::Files)]));
    assert!(p.input.is_empty());
}

#[test]
fn routing_takes_the_given_lower_case_text() {
    let mut p = Palette::new();
    let out = p.route_lowered("  Open The TERMINAL. ".into(), "open the terminal.", false);
    assert!(matches!(&out[..], [PaletteOutcome::Launch(AppKind::Terminal)]));
    let mut p = Palette::new();
    let out = p.route_lowered("Make a timer".into(), "make a timer", false);
    assert!(matches!(&out[..], [PaletteOutcome::Prompt(_, m)] if m == "Make a timer"));
    assert!(p.smith.active);
}
