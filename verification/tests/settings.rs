use pmos::abi::{Capability, Pid, Reply, Syscall};
use pmos::kernel::Kernel;
use pmos::settings::{settings_step, show_tiers, SettingsAction, SettingsEvent, SettingsState};

fn boot(caps: Vec<Capability>) -> (Kernel, Pid, SettingsState) {
    let mut k = Kernel::new();
    let shell = match k.syscall(Pid(0), Syscall::ProcRegister { name: "shell".into(), caps: vec![] }).unwrap() {
        Reply::Pid(p) => p,
        r => panic!("{r:?}"),
    };
    let pid = match k.syscall(shell, Syscall::ProcRegister { name: "Settings".into(), caps }).unwrap() {
        Reply::Pid(p) => p,
        r => panic!("{r:?}"),
    };
    let s = SettingsState {
        ai_kind: 2,
        ai_base: String::new(),
        ai_model: String::new(),
        ai_key: String::new(),
        ai_status: String::new(),
        llm_tier: None,
        app_bg: 0,
        app_scheme: 0,
    };
    (k, pid, s)
}

fn settings_caps() -> Vec<Capability> {
    vec![Capability::AiPrompt, Capability::SysQuery, Capability::FsRead("/settings".into()), Capability::FsWrite("/settings".into())]
}

#[test]
fn tiers_fit_the_machine_once() {
    let (mut k, pid, mut s) = boot(settings_caps());
    k.vfs.set_sys_llm_tier(0);
    assert!(show_tiers(&mut s, &mut k, pid));
    assert_eq!(s.llm_tier, Some(0));
    assert_eq!(s.ai_model, "Qwen2.5-0.5B-Instruct-q4f16_1-MLC");
    settings_step(&mut s, &mut k, pid, SettingsEvent::ChooseTier(2));
    assert_eq!(s.ai_model, "Qwen2.5-3B-Instruct-q4f16_1-MLC");
    settings_step(&mut s, &mut k, pid, SettingsEvent::ShowTiers);
    assert_eq!(s.ai_model, "Qwen2.5-3B-Instruct-q4f16_1-MLC");
    settings_step(&mut s, &mut k, pid, SettingsEvent::ChooseTier(7));
    assert_eq!(s.ai_model, "Qwen2.5-3B-Instruct-q4f16_1-MLC");
}

#[test]
fn a_tier_beyond_the_last_changes_nothing() {
    let (mut k, pid, mut s) = boot(settings_caps());
    k.vfs.set_sys_llm_tier(5);
    assert!(!show_tiers(&mut s, &mut k, pid));
    assert_eq!(s.llm_tier, None);
    assert_eq!(s.ai_model, "");
}

#[test]
fn without_sys_query_the_balanced_tier_is_assumed() {
    let (mut k, pid, mut s) = boot(vec![Capability::AiPrompt]);
    k.vfs.set_sys_llm_tier(2);
    assert!(show_tiers(&mut s, &mut k, pid));
    assert_eq!(s.llm_tier, Some(1));
    assert_eq!(s.ai_model, "Llama-3.2-1B-Instruct-q4f16_1-MLC");
}

#[test]
fn saving_sends_the_trimmed_binding_and_clears_the_key() {
    let (mut k, pid, mut s) = boot(settings_caps());
    settings_step(&mut s, &mut k, pid, SettingsEvent::ChooseProvider(1));
    s.ai_base = " http://localhost:11434 ".into();
    s.ai_model = " llama3 ".into();
    s.ai_key = " k ".into();
    settings_step(&mut s, &mut k, pid, SettingsEvent::Save);
    let c = k.ai.config.clone().unwrap();
    assert_eq!(c.kind, 1);
    assert_eq!(c.base_url, "http://localhost:11434");
    assert_eq!(c.model, "llama3");
    assert_eq!(c.api_key, "k");
    assert!(k.ai.config_dirty);
    assert_eq!(s.ai_key, "");
    assert_eq!(s.ai_status, "✓ saved — try `> hello` or `make me a timer` in the palette (✨)");
    settings_step(&mut s, &mut k, pid, SettingsEvent::ChooseProvider(2));
    settings_step(&mut s, &mut k, pid, SettingsEvent::Save);
    assert_eq!(s.ai_status, "✓ saved — the first reply downloads the model (watch the palette)");
}

#[test]
fn saving_without_the_capability_reports_it() {
    let (mut k, pid, mut s) = boot(vec![]);
    settings_step(&mut s, &mut k, pid, SettingsEvent::Save);
    assert_eq!(s.ai_status, "⚠ CapabilityDenied");
}

#[test]
fn appearance_changes_are_saved_and_applied() {
    let (mut k, pid, mut s) = boot(settings_caps());
    match settings_step(&mut s, &mut k, pid, SettingsEvent::SetBackground(2)) {
        Some(SettingsAction::Appearance { background, scheme }) => assert_eq!((background, scheme), (2, 0)),
        None => panic!("no change"),
    }
    assert_eq!(k.vfs.read("/settings/appearance.json").unwrap(), b"{\"background\":2,\"scheme\":0}");
    assert!(settings_step(&mut s, &mut k, pid, SettingsEvent::SetBackground(2)).is_none());
    settings_step(&mut s, &mut k, pid, SettingsEvent::SetScheme(3));
    assert_eq!(k.vfs.read("/settings/appearance.json").unwrap(), b"{\"background\":2,\"scheme\":3}");
}
