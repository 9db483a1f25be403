//! The Settings app's decisions: the AI provider form, whose Save sends
//! `AiConfigure`, the in-browser performance tiers fitted to the machine,
//! and the appearance choices saved to `/settings/appearance.json`. The
//! platform draws the form and applies the background and colours.

use vstd::prelude::*;
use crate::abi::{AiProviderConfig, ErrorCode, Pid, Reply, Syscall};
use crate::ai::{ConfigView, config_view};
use crate::kernel::Kernel;
use crate::terminal::{code_name, code_text, lossy_text, querying, utf8_lossy};
use crate::text::{chars_of, dec, push_dec, push_str, string_of, trim, trim_str};

verus! {

/// The in-browser model of each performance tier: Fast, Balanced,
/// Quality.
pub open spec fn tier_model(i: u8) -> Seq<char> {
    if i == 0 {
        "Qwen2.5-0.5B-Instruct-q4f16_1-MLC"@
    } else if i == 1 {
        "Llama-3.2-1B-Instruct-q4f16_1-MLC"@
    } else {
        "Qwen2.5-3B-Instruct-q4f16_1-MLC"@
    }
}

/// The number of performance tiers.
pub const TIERS: u8 = 3;

/// Whether `m` is the model of one of the tiers.
pub open spec fn is_tier_model(m: Seq<char>) -> bool {
    m == tier_model(0) || m == tier_model(1) || m == tier_model(2)
}

/// The file the appearance is saved in.
pub open spec fn appearance_path() -> Seq<char> {
    "/settings/appearance.json"@
}

/// The saved appearance: `{"background":B,"scheme":S}`.
pub open spec fn appearance_json(background: u8, scheme: u8) -> Seq<char> {
    "{\"background\":"@ + dec(background as nat) + ",\"scheme\":"@ + dec(scheme as nat) + "}"@
}

/// The status line after saving the provider.
pub open spec fn saved_status(kind: u8, r: Result<Reply, ErrorCode>) -> Seq<char> {
    match r {
        Ok(_) => if kind == 2 {
            "✓ saved — the first reply downloads the model (watch the palette)"@
        } else {
            "✓ saved — try `> hello` or `make me a timer` in the palette (✨)"@
        },
        Err(e) => "⚠ "@ + code_name(e),
    }
}

/// The value of a decimal digit.
pub open spec fn digit_value(c: char) -> nat {
    (c as u32 - '0' as u32) as nat
}

/// Whether every character of `s` is a decimal digit.
pub open spec fn all_digits(s: Seq<char>) -> bool {
    forall|i: int| 0 <= i < s.len() ==> '0' <= #[trigger] s[i] <= '9'
}

/// The number the decimal digits `s` write.
pub open spec fn dec_value(s: Seq<char>) -> nat
    decreases s.len(),
{
    if s.len() == 0 {
        0
    } else {
        dec_value(s.drop_last()) * 10 + digit_value(s.last())
    }
}

/// The byte an integer text gives (an optional `+`, then digits), if it
/// is one.
pub open spec fn parse_byte(s: Seq<char>) -> Option<u8> {
    let d = if s.len() > 0 && s[0] == '+' { s.drop_first() } else { s };
    if d.len() > 0 && all_digits(d) && dec_value(d) < 256 {
        Some(dec_value(d) as u8)
    } else {
        None
    }
}

/// What the machine's tier is read as: the trimmed text of `/sys/llm_tier`
/// as a byte, or Balanced when it cannot be read or is no byte.
pub open spec fn tier_read(k: Kernel, pid: Pid) -> u8 {
    match querying(k, pid, "/sys/llm_tier"@) {
        Some(b) => match parse_byte(trim(utf8_lossy(b))) {
            Some(t) => t,
            None => 1,
        },
        None => 1,
    }
}

/// The Settings app's state.
#[derive(Debug)]
pub struct SettingsState {
    /// The provider kind chosen: 0 Anthropic, 1 OpenAI-compatible, 2
    /// in-browser.
    pub ai_kind: u8,
    pub ai_base: String,
    pub ai_model: String,
    pub ai_key: String,
    /// The line shown after saving.
    pub ai_status: String,
    /// The tier that fits this machine, once read.
    pub llm_tier: Option<u8>,
    /// The background chosen.
    pub app_bg: u8,
    /// The colour scheme chosen.
    pub app_scheme: u8,
}

/// The view of the state: kind, base URL, model, key, status, tier,
/// background, scheme.
pub type SettingsView = (u8, Seq<char>, Seq<char>, Seq<char>, Seq<char>, Option<u8>, u8, u8);

/// The view of the state.
pub open spec fn settings_view(s: SettingsState) -> SettingsView {
    (s.ai_kind, s.ai_base@, s.ai_model@, s.ai_key@, s.ai_status@, s.llm_tier, s.app_bg, s.app_scheme)
}

/// What the user does in Settings.
#[derive(Debug)]
pub enum SettingsEvent {
    /// A provider kind chosen.
    ChooseProvider(u8),
    /// The in-browser tiers are shown: the machine's tier is read once,
    /// and the model is fitted to it unless a tier's model is chosen.
    ShowTiers,
    /// A tier chosen.
    ChooseTier(u8),
    /// Save provider.
    Save,
    /// A background chosen.
    SetBackground(u8),
    /// A colour scheme chosen.
    SetScheme(u8),
}

/// What Settings asks the platform to apply.
#[derive(Debug)]
pub enum SettingsAction {
    /// Show this background and colour scheme.
    Appearance { background: u8, scheme: u8 },
}

/// The view of an action: background and scheme.
pub open spec fn settings_action_view(a: Option<SettingsAction>) -> Option<(u8, u8)> {
    match a {
        Some(SettingsAction::Appearance { background, scheme }) => Some((background, scheme)),
        None => None,
    }
}

/// The tier the machine fits: the one read before, else the one `pid`
/// reads now.
pub open spec fn fitted_tier(s: SettingsView, k: Kernel, pid: Pid) -> u8 {
    match s.5 {
        Some(t) => t,
        None => tier_read(k, pid),
    }
}

/// `k2` is `k` after `pid` saved the appearance `background`, `scheme`.
pub open spec fn appearance_saved(k: Kernel, k2: Kernel, pid: Pid, background: u8, scheme: u8) -> bool {
    exists|q: String, b: Vec<u8>, r: Result<Reply, ErrorCode>|
        q@ == appearance_path() && b@ == crate::text::ascii_bytes(appearance_json(background, scheme))
            && #[trigger] Kernel::post_fs_write(k, k2, pid, q, b, r)
}

/// The binding a Save sends: the chosen kind and the trimmed fields.
pub open spec fn saved_config(s: SettingsView) -> ConfigView {
    (s.0, trim(s.1), trim(s.2), trim(s.3))
}

/// One step of the Settings app of process `pid`.
pub open spec fn settings_stepped(s: SettingsView, k: Kernel, pid: Pid, ev: SettingsEvent, s2: SettingsView, k2: Kernel, act: Option<(u8, u8)>) -> bool {
    let (kind, base, model, key, status, tier, bg, scheme) = s;
    match ev {
        SettingsEvent::ChooseProvider(c) => k2 == k && act is None && s2 == (c, base, model, key, status, tier, bg, scheme),
        SettingsEvent::ShowTiers => {
            let t = fitted_tier(s, k, pid);
            &&& k2 == k
            &&& act is None
            &&& s2 == (kind, base, if is_tier_model(model) { model } else { tier_model(t) }, key, status, Some(t), bg, scheme)
        },
        SettingsEvent::ChooseTier(i) => k2 == k && act is None && s2 == if i < TIERS {
            (kind, base, tier_model(i), key, status, tier, bg, scheme)
        } else {
            s
        },
        SettingsEvent::Save => act is None && exists|c: AiProviderConfig, r: Result<Reply, ErrorCode>| {
            &&& config_view(c) == saved_config(s)
            &&& #[trigger] Kernel::post_ai_configure(k, k2, pid, c, r)
            &&& s2 == (kind, base, model, Seq::<char>::empty(), saved_status(kind, r), tier, bg, scheme)
        },
        SettingsEvent::SetBackground(b) => if b != bg {
            &&& appearance_saved(k, k2, pid, b, scheme)
            &&& act == Some((b, scheme))
            &&& s2 == (kind, base, model, key, status, tier, b, scheme)
        } else {
            k2 == k && act is None && s2 == s
        },
        SettingsEvent::SetScheme(c) => if c != scheme {
            &&& appearance_saved(k, k2, pid, bg, c)
            &&& act == Some((bg, c))
            &&& s2 == (kind, base, model, key, status, tier, bg, c)
        } else {
            k2 == k && act is None && s2 == s
        },
    }
}

/// The model of tier `i` (see [`tier_model`]).
fn tier_model_text(i: u8) -> (r: &'static str)
    ensures
        r@ == tier_model(i),
{
    if i == 0 {
        "Qwen2.5-0.5B-Instruct-q4f16_1-MLC"
    } else if i == 1 {
        "Llama-3.2-1B-Instruct-q4f16_1-MLC"
    } else {
        "Qwen2.5-3B-Instruct-q4f16_1-MLC"
    }
}

/// Whether `m` is the model of one of the tiers.
fn tier_model_named(m: &str) -> (r: bool)
    ensures
        r == is_tier_model(m@),
{
    let v = chars_of(m);
    let a = chars_of(tier_model_text(0));
    let b = chars_of(tier_model_text(1));
    let c = chars_of(tier_model_text(2));
    crate::text::chars_eq(&v, &a) || crate::text::chars_eq(&v, &b) || crate::text::chars_eq(&v, &c)
}

/// The byte an integer text gives (see [`parse_byte`]).
fn parse_byte_exec(s: &Vec<char>) -> (r: Option<u8>)
    ensures
        r == parse_byte(s@),
{
    let start: usize = if s.len() > 0 && s[0] == '+' { 1 } else { 0 };
    let ghost d = if s@.len() > 0 && s@[0] == '+' { s@.drop_first() } else { s@ };
    assert(d =~= s@.skip(start as int));
    if start >= s.len() {
        return None;
    }
    let mut v: u32 = 0;
    let mut i: usize = start;
    while i < s.len()
        invariant
            start <= i <= s@.len(),
            d == s@.skip(start as int),
            d == (if s@.len() > 0 && s@[0] == '+' { s@.drop_first() } else { s@ }),
            all_digits(d.take(i - start)),
            v as nat == dec_value(d.take(i - start)),
            v < 256,
        decreases s.len() - i,
    {
        let c = s[i];
        if c < '0' || c > '9' {
            assert(d[i - start] == c);
            assert(!all_digits(d));
            return None;
        }
        let ghost t = d.take(i - start + 1);
        assert(t.drop_last() =~= d.take(i - start));
        assert(t.last() == c);
        let dv = (c as u32) - ('0' as u32);
        v = v * 10 + dv;
        assert(v as nat == dec_value(t));
        assert(all_digits(t)) by {
            assert forall|j: int| 0 <= j < t.len() implies '0' <= #[trigger] t[j] <= '9' by {
                if j < t.len() - 1 {
                    assert(t[j] == d.take(i - start)[j]);
                }
            }
        }
        if v >= 256 {
            proof {
                if all_digits(d) {
                    lemma_dec_prefix_grows(d, i - start + 1);
                }
            }
            return None;
        }
        i += 1;
    }
    assert(d.take(s@.len() - start) =~= d);
    Some(v as u8)
}

/// A longer digit string writes no smaller number.
proof fn lemma_dec_prefix_grows(d: Seq<char>, n: int)
    requires
        0 <= n <= d.len(),
        all_digits(d),
    ensures
        dec_value(d) >= dec_value(d.take(n)),
    decreases d.len() - n,
{
    if n < d.len() {
        lemma_dec_prefix_grows(d, n + 1);
        let t = d.take(n + 1);
        assert(t.drop_last() =~= d.take(n));
    } else {
        assert(d.take(n) =~= d);
    }
}

/// Reads the tier that fits this machine.
fn read_tier(kernel: &mut Kernel, pid: Pid) -> (r: u8)
    requires
        old(kernel).wf(),
    ensures
        *final(kernel) == *old(kernel),
        r == tier_read(*old(kernel), pid),
{
    proof {
        reveal_strlit("/sys/llm_tier");
    }
    match kernel.syscall(pid, Syscall::SysQuery { path: String::from_str("/sys/llm_tier") }) {
        Ok(Reply::Bytes(b)) => {
            let text = lossy_text(b.as_slice());
            let t = trim_str(text.as_str());
            match parse_byte_exec(&t) {
                Some(x) => x,
                None => 1,
            }
        },
        _ => 1,
    }
}

/// Saves the appearance on behalf of `pid`.
fn save_appearance(kernel: &mut Kernel, pid: Pid, background: u8, scheme: u8)
    requires
        old(kernel).wf(),
    ensures
        final(kernel).wf(),
        appearance_saved(*old(kernel), *final(kernel), pid, background, scheme),
{
    let mut v: Vec<char> = Vec::new();
    push_str(&mut v, "{\"background\":");
    push_dec(&mut v, background as u64);
    push_str(&mut v, ",\"scheme\":");
    push_dec(&mut v, scheme as u64);
    push_str(&mut v, "}");
    let bytes = crate::text::to_ascii_bytes(&v);
    let path = String::from_str("/settings/appearance.json");
    let ghost q = path;
    let ghost b = bytes;
    let r = kernel.syscall(pid, Syscall::FsWrite { path, bytes });
    assert(Kernel::post_fs_write(*old(kernel), *kernel, pid, q, b, r));
}

/// One step of the Settings app (see [`settings_stepped`]).
pub fn settings_step(s: &mut SettingsState, kernel: &mut Kernel, pid: Pid, ev: SettingsEvent) -> (act: Option<SettingsAction>)
    requires
        old(kernel).wf(),
        ev is ShowTiers ==> fitted_tier(settings_view(*old(s)), *old(kernel), pid) < TIERS
            || is_tier_model(old(s).ai_model@),
    ensures
        final(kernel).wf(),
        settings_stepped(settings_view(*old(s)), *old(kernel), pid, ev, settings_view(*final(s)), *final(kernel),
            settings_action_view(act)),
{
    match ev {
        SettingsEvent::ChooseProvider(c) => {
            s.ai_kind = c;
            None
        },
        SettingsEvent::ShowTiers => {
            let t = match s.llm_tier {
                Some(t) => t,
                None => read_tier(kernel, pid),
            };
            s.llm_tier = Some(t);
            if !tier_model_named(s.ai_model.as_str()) {
                s.ai_model = String::from_str(tier_model_text(t));
            }
            None
        },
        SettingsEvent::ChooseTier(i) => {
            if i < TIERS {
                s.ai_model = String::from_str(tier_model_text(i));
            }
            None
        },
        SettingsEvent::Save => {
            let base = trim_str(s.ai_base.as_str());
            let model = trim_str(s.ai_model.as_str());
            let key = trim_str(s.ai_key.as_str());
            let cfg = AiProviderConfig {
                kind: s.ai_kind,
                base_url: string_of(&base),
                model: string_of(&model),
                api_key: string_of(&key),
            };
            let ghost c = cfg;
            let r = kernel.syscall(pid, Syscall::AiConfigure(cfg));
            let status = match &r {
                Ok(_) => if s.ai_kind == 2 {
                    String::from_str("✓ saved — the first reply downloads the model (watch the palette)")
                } else {
                    String::from_str("✓ saved — try `> hello` or `make me a timer` in the palette (✨)")
                },
                Err(e) => {
                    let mut v: Vec<char> = Vec::new();
                    push_str(&mut v, "⚠ ");
                    push_str(&mut v, code_text(e));
                    string_of(&v)
                },
            };
            s.ai_status = status;
            s.ai_key = String::new();
            assert(Kernel::post_ai_configure(*old(kernel), *kernel, pid, c, r));
            None
        },
        SettingsEvent::SetBackground(b) => {
            if b != s.app_bg {
                s.app_bg = b;
                save_appearance(kernel, pid, b, s.app_scheme);
                Some(SettingsAction::Appearance { background: b, scheme: s.app_scheme })
            } else {
                None
            }
        },
        SettingsEvent::SetScheme(c) => {
            if c != s.app_scheme {
                s.app_scheme = c;
                save_appearance(kernel, pid, s.app_bg, c);
                Some(SettingsAction::Appearance { background: s.app_bg, scheme: c })
            } else {
                None
            }
        },
    }
}

/// Shows the in-browser tiers when the machine's tier is one of them (or
/// a tier's model is already chosen), as [`settings_step`] does for
/// `ShowTiers`; a machine tier beyond the last leaves everything as it
/// was and gives `false`.
pub fn show_tiers(s: &mut SettingsState, kernel: &mut Kernel, pid: Pid) -> (r: bool)
    requires
        old(kernel).wf(),
    ensures
        final(kernel).wf(),
        r == (fitted_tier(settings_view(*old(s)), *old(kernel), pid) < TIERS || is_tier_model(old(s).ai_model@)),
        r ==> settings_stepped(settings_view(*old(s)), *old(kernel), pid, SettingsEvent::ShowTiers,
            settings_view(*final(s)), *final(kernel), None),
        !r ==> *final(s) == *old(s) && *final(kernel) == *old(kernel),
{
    let t = match s.llm_tier {
        Some(t) => t,
        None => read_tier(kernel, pid),
    };
    if t < TIERS || tier_model_named(s.ai_model.as_str()) {
        let a = settings_step(s, kernel, pid, SettingsEvent::ShowTiers);
        assert(a is None);
        true
    } else {
        false
    }
}

} // verus!
