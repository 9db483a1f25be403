//! The command palette: one surface, three modes — commands, `>`
//! assistant chat, and `make …` app conjuring through the App Smith repair
//! loop. Typed and spoken input go through one router.

use vstd::prelude::*;
use crate::abi::{AgentId, AGENT_APP_SMITH, AGENT_ASSISTANT};
use crate::apps::{match_name_spec, AppKind, all_kinds, title_spec};
use crate::conjure::ValidationError;
use crate::text::{is_ws, chars_of, contains_chars, has_sub, lowercase, push_str, starts_with, string_of,
    to_lower, trim, trim_chars, trim_str, dec, push_dec};

verus! {

/// The most repair rounds the App Smith gets for one app.
pub const MAX_REPAIR_ROUNDS: u8 = 2;

/// What the palette asks the shell to do.
#[derive(Debug)]
pub enum PaletteOutcome {
    Launch(AppKind),
    OpenLauncher,
    /// Validated Conjure JSON ready to spawn.
    SpawnConjure(String),
    /// Send a prompt to an agent (assistant chat or App Smith repair).
    Prompt(AgentId, String),
    /// Cancel speech capture.
    VoiceStop,
    /// Validate this Conjure JSON and hand the verdict to
    /// [`Palette::finish_conjure`].
    Check(String),
}

/// The view of an outcome.
pub enum OutV {
    Launch(AppKind),
    OpenLauncher,
    SpawnConjure(Seq<char>),
    Prompt(u32, Seq<char>),
    VoiceStop,
    Check(Seq<char>),
}

/// The view of an outcome.
pub open spec fn out_view(o: PaletteOutcome) -> OutV {
    match o {
        PaletteOutcome::Launch(k) => OutV::Launch(k),
        PaletteOutcome::OpenLauncher => OutV::OpenLauncher,
        PaletteOutcome::SpawnConjure(s) => OutV::SpawnConjure(s@),
        PaletteOutcome::Prompt(a, s) => OutV::Prompt(a.0, s@),
        PaletteOutcome::VoiceStop => OutV::VoiceStop,
        PaletteOutcome::Check(s) => OutV::Check(s@),
    }
}

/// The views of a list of outcomes.
pub open spec fn outs_view(s: Seq<PaletteOutcome>) -> Seq<OutV> {
    s.map_values(|o: PaletteOutcome| out_view(o))
}

/// A line of the palette's transcript.
#[derive(Debug)]
pub enum Line {
    User(String),
    Assistant(String),
    System(String),
}

/// The view of a line: 0 = user, 1 = assistant, 2 = system; the text.
pub open spec fn line_view(l: Line) -> (u8, Seq<char>) {
    match l {
        Line::User(s) => (0u8, s@),
        Line::Assistant(s) => (1u8, s@),
        Line::System(s) => (2u8, s@),
    }
}

/// The views of the transcript.
pub open spec fn lines_view(s: Seq<Line>) -> Seq<(u8, Seq<char>)> {
    s.map_values(|l: Line| line_view(l))
}

/// The App Smith's progress: the document text streaming in, whether a
/// conjuring is under way, and the repair round.
#[derive(Debug)]
pub struct Smith {
    pub buf: String,
    pub active: bool,
    pub round: u8,
}

/// Voice mode: whether the engine listens, the latest interim transcript,
/// whether this session heard anything, and the engine's progress note.
#[derive(Debug)]
pub struct Voice {
    pub listening: bool,
    pub interim: String,
    pub got_speech: bool,
    pub engine_note: String,
}

/// The palette.
#[derive(Debug)]
pub struct Palette {
    pub open: bool,
    pub input: String,
    pub lines: Vec<Line>,
    pub assistant_streaming: bool,
    pub smith: Smith,
    pub voice: Voice,
    pub focus_input: bool,
    /// The demo app's Conjure document, spawned by the `demo` command.
    pub demo: String,
}

/// An idle App Smith.
pub open spec fn smith_idle(s: Smith) -> bool {
    s.buf@.len() == 0 && !s.active && s.round == 0
}

/// Quiet voice mode.
pub open spec fn voice_idle(v: Voice) -> bool {
    !v.listening && v.interim@.len() == 0 && !v.got_speech && v.engine_note@.len() == 0
}

fn idle_smith() -> (r: Smith)
    ensures
        smith_idle(r),
{
    Smith { buf: String::new(), active: false, round: 0 }
}

fn idle_voice() -> (r: Voice)
    ensures
        voice_idle(r),
{
    Voice { listening: false, interim: String::new(), got_speech: false, engine_note: String::new() }
}

/// `s` without its trailing `.`, `!` and `?`.
pub open spec fn strip_punct(s: Seq<char>) -> Seq<char>
    decreases s.len(),
{
    if s.len() > 0 && (s.last() == '.' || s.last() == '!' || s.last() == '?') {
        strip_punct(s.drop_last())
    } else {
        s
    }
}

/// `c` without a leading launch verb.
pub open spec fn strip_verb(c: Seq<char>) -> Seq<char> {
    if "open "@.is_prefix_of(c) {
        c.skip(5)
    } else if "launch "@.is_prefix_of(c) {
        c.skip(7)
    } else if "start "@.is_prefix_of(c) {
        c.skip(6)
    } else if "show "@.is_prefix_of(c) {
        c.skip(5)
    } else if "go to "@.is_prefix_of(c) {
        c.skip(6)
    } else {
        c
    }
}

/// The command a lower-cased input names: spoken phrasing such as "open
/// the terminal." loses its punctuation, its launch verb and its article.
pub open spec fn command_of(lower: Seq<char>) -> Seq<char> {
    let c = strip_verb(trim(strip_punct(lower)));
    trim(if "the "@.is_prefix_of(c) { c.skip(4) } else { c })
}

/// Whether a lower-cased input asks to conjure an app.
pub open spec fn conjure_verb(lower: Seq<char>) -> bool {
    "make "@.is_prefix_of(lower) || "create "@.is_prefix_of(lower) || "build "@.is_prefix_of(lower)
        || "conjure "@.is_prefix_of(lower)
}

/// The first app, in launcher order, whose lower-case title contains
/// `cmd`.
pub open spec fn first_kind(ks: Seq<AppKind>, cmd: Seq<char>) -> Option<AppKind>
    decreases ks.len(),
{
    if ks.len() == 0 {
        None
    } else if has_sub(match_name_spec(ks[0]), cmd) {
        Some(ks[0])
    } else {
        first_kind(ks.drop_first(), cmd)
    }
}

/// The apps in launcher order.
pub open spec fn kinds() -> Seq<AppKind> {
    seq![AppKind::Terminal, AppKind::Files, AppKind::Notes, AppKind::RayTracer, AppKind::HandTracker,
        AppKind::Settings, AppKind::Browser]
}

/// The hint for an unknown command.
pub open spec fn unknown_line(text: Seq<char>) -> Seq<char> {
    "unknown command `"@ + text + "` — try an app name, `demo`, `> question`, or `make …`"@
}

/// What routing `raw` does to the palette `pre`, giving `post` and the
/// outcomes `out`. Blank input does nothing. Otherwise the input joins the
/// transcript (marked when spoken); `>` asks the assistant; `make`,
/// `create`, `build` or `conjure` starts the App Smith; `launcher` and
/// `demo` are commands; a name contained in an app's title launches the
/// first such app; anything else goes to the assistant when spoken and is
/// answered with a hint when typed.
pub open spec fn routed(pre: Palette, post: Palette, raw: Seq<char>, voice: bool, out: Seq<OutV>) -> bool {
    routed_as(pre, post, raw, lowercase(trim(raw)), voice, out)
}

/// What routing `raw` does, given `lower`, the lower-cased form of the
/// trimmed input (see [`routed`]).
pub open spec fn routed_as(pre: Palette, post: Palette, raw: Seq<char>, lower: Seq<char>, voice: bool, out: Seq<OutV>) -> bool {
    let text = trim(raw);
    if text.len() == 0 {
        post == pre && out.len() == 0
    } else {
        let l0 = lines_view(pre.lines@).push((0u8, if voice { "🎤 "@ + text } else { text }));
        let cmd = command_of(lower);
        if text[0] == '>' {
            &&& lines_view(post.lines@) == l0.push((1u8, Seq::empty()))
            &&& out == seq![OutV::Prompt(AGENT_ASSISTANT, trim(text.skip(1)))]
            &&& post == (Palette { lines: post.lines, assistant_streaming: true, ..pre })
        } else if conjure_verb(lower) {
            &&& lines_view(post.lines@) == l0.push((2u8, "🪄 conjuring…"@))
            &&& out == seq![OutV::Prompt(AGENT_APP_SMITH, text)]
            &&& post.smith.active && post.smith.buf@.len() == 0 && post.smith.round == 0
            &&& post == (Palette { lines: post.lines, smith: post.smith, ..pre })
        } else if cmd == "launcher"@ {
            &&& lines_view(post.lines@) == l0
            &&& out == seq![OutV::OpenLauncher]
            &&& post == (Palette { lines: post.lines, open: false, ..pre })
        } else if cmd == "demo"@ || cmd == "demo app"@ {
            &&& lines_view(post.lines@) == l0.push((2u8, "✨ spawning the demo app"@))
            &&& out == seq![OutV::SpawnConjure(pre.demo@)]
            &&& post == (Palette { lines: post.lines, ..pre })
        } else if first_kind(kinds(), cmd) is Some {
            &&& lines_view(post.lines@) == l0
            &&& out == seq![OutV::Launch(first_kind(kinds(), cmd)->0)]
            &&& post == (Palette { lines: post.lines, open: false, ..pre })
        } else if voice {
            &&& lines_view(post.lines@) == l0.push((1u8, Seq::empty()))
            &&& out == seq![OutV::Prompt(AGENT_ASSISTANT, text)]
            &&& post == (Palette { lines: post.lines, assistant_streaming: true, ..pre })
        } else {
            &&& lines_view(post.lines@) == l0.push((2u8, unknown_line(text)))
            &&& out.len() == 0
            &&& post == (Palette { lines: post.lines, ..pre })
        }
    }
}


/// Whether the literal `lit` begins `v`.
fn prefix_is(v: &Vec<char>, lit: &str) -> (r: bool)
    ensures
        r == lit@.is_prefix_of(v@),
{
    let p = chars_of(lit);
    starts_with(v, &p)
}

/// `v` from index `k` on.
fn skip_chars(v: &Vec<char>, k: usize) -> (r: Vec<char>)
    requires
        k <= v@.len(),
    ensures
        r@ == v@.skip(k as int),
{
    let mut r: Vec<char> = Vec::new();
    let mut i = k;
    while i < v.len()
        invariant
            k <= i <= v@.len(),
            r@ == v@.subrange(k as int, i as int),
        decreases v.len() - i,
    {
        r.push(v[i]);
        i += 1;
        assert(r@ =~= v@.subrange(k as int, i as int));
    }
    assert(r@ =~= v@.skip(k as int));
    r
}

/// The command a lower-cased input names (see [`command_of`]).
fn command_exec(lower: &Vec<char>) -> (r: Vec<char>)
    ensures
        r@ == command_of(lower@),
{
    let mut v = crate::text::chars_copy(lower);
    while v.len() > 0 && (v[v.len() - 1] == '.' || v[v.len() - 1] == '!' || v[v.len() - 1] == '?')
        invariant
            strip_punct(v@) == strip_punct(lower@),
        decreases v.len(),
    {
        v.pop();
    }
    let c = trim_chars(&v);
    let c = if prefix_is(&c, "open ") {
        proof { reveal_strlit("open "); }
        skip_chars(&c, 5)
    } else if prefix_is(&c, "launch ") {
        proof { reveal_strlit("launch "); }
        skip_chars(&c, 7)
    } else if prefix_is(&c, "start ") {
        proof { reveal_strlit("start "); }
        skip_chars(&c, 6)
    } else if prefix_is(&c, "show ") {
        proof { reveal_strlit("show "); }
        skip_chars(&c, 5)
    } else if prefix_is(&c, "go to ") {
        proof { reveal_strlit("go to "); }
        skip_chars(&c, 6)
    } else {
        c
    };
    let c = if prefix_is(&c, "the ") {
        proof { reveal_strlit("the "); }
        skip_chars(&c, 4)
    } else {
        c
    };
    trim_chars(&c)
}

/// The first app whose lower-cased title contains `cmd`.
pub(crate) fn find_kind(cmd: &Vec<char>) -> (r: Option<AppKind>)
    ensures
        r == first_kind(kinds(), cmd@),
{
    let ks = all_kinds();
    let mut i: usize = 0;
    assert(kinds().skip(0) =~= kinds());
    while i < ks.len()
        invariant
            ks@ == kinds(),
            i <= ks@.len(),
            first_kind(kinds(), cmd@) == first_kind(kinds().skip(i as int), cmd@),
        decreases ks.len() - i,
    {
        let k = ks[i];
        let tc = chars_of(k.match_name());
        assert(kinds().skip(i as int)[0] == k);
        assert(kinds().skip(i as int).drop_first() =~= kinds().skip(i + 1));
        if contains_chars(&tc, cmd) {
            return Some(k);
        }
        i += 1;
    }
    None
}

/// A line of the transcript.
fn line(kind: u8, text: String) -> (r: Line)
    requires
        kind <= 2,
    ensures
        line_view(r) == (kind, text@),
{
    if kind == 0 {
        Line::User(text)
    } else if kind == 1 {
        Line::Assistant(text)
    } else {
        Line::System(text)
    }
}

/// The palette `p` opened or closed; opening focuses the input.
pub open spec fn toggled(p: Palette) -> Palette {
    Palette { open: !p.open, focus_input: if !p.open { true } else { p.focus_input }, ..p }
}

/// `post` is `pre` in voice mode: open, listening afresh, with a line
/// saying so.
pub open spec fn voice_started(pre: Palette, post: Palette) -> bool {
    &&& post.voice.listening
    &&& post.voice.interim@.len() == 0
    &&& !post.voice.got_speech
    &&& post.voice.engine_note@.len() == 0
    &&& lines_view(post.lines@) == lines_view(pre.lines@).push((2u8, "🎤 listening — speak a command…"@))
    &&& post == (Palette { open: true, focus_input: false, voice: post.voice, lines: post.lines, ..pre })
}

/// `post` and `out` are the palette and outcomes after `pre` heard the
/// transcript `text` (see [`Palette::on_voice_transcript`]).
pub open spec fn heard(pre: Palette, post: Palette, text: Seq<char>, is_final: bool, out: Seq<OutV>) -> bool {
    &&& (!is_final ==> {
        &&& out.len() == 0
        &&& post.voice.got_speech
        &&& post.voice.interim@ == text
        &&& post.input@ == text
        &&& post == (Palette { voice: Voice { got_speech: true, interim: post.voice.interim, ..pre.voice },
            input: post.input, ..pre })
    })
    &&& (is_final ==> exists|mid: Palette| {
        &&& mid == (Palette { voice: Voice { got_speech: true, interim: mid.voice.interim, ..pre.voice },
            input: mid.input, ..pre })
        &&& mid.voice.interim@.len() == 0
        &&& mid.input@.len() == 0
        &&& routed(mid, post, text, true, out)
    })
}

/// `post` and `out` are the palette and outcomes after `pre` saw the
/// speech-engine status (see [`Palette::on_voice_status`]).
pub open spec fn status_seen(pre: Palette, post: Palette, listening: bool, available: bool, reason: Seq<char>, out: Seq<OutV>) -> bool {
    &&& (!available ==> {
        &&& out.len() == 0
        &&& lines_view(post.lines@) == lines_view(pre.lines@).push((2u8, "⚠ voice: "@ + reason))
        &&& post == (Palette { voice: Voice { listening, ..pre.voice }, lines: post.lines, ..pre })
    })
    &&& (available && listening ==> {
        &&& out.len() == 0
        &&& post.voice.engine_note@ == reason
        &&& post == (Palette { voice: Voice { listening, engine_note: post.voice.engine_note, ..pre.voice }, ..pre })
    })
    &&& (available && !listening && !pre.voice.listening ==> {
        &&& out.len() == 0
        &&& post.voice.engine_note@.len() == 0
        &&& post == (Palette { voice: Voice { engine_note: post.voice.engine_note, ..pre.voice }, ..pre })
    })
    &&& (available && !listening && pre.voice.listening ==> {
        let l1 = if reason.len() > 0 {
            lines_view(pre.lines@).push((2u8, "🎤 "@ + reason))
        } else {
            lines_view(pre.lines@)
        };
        &&& post.voice.engine_note@.len() == 0 || pre.voice.interim@.len() > 0
        &&& (if pre.voice.interim@.len() > 0 {
            exists|mid: Palette| {
                &&& mid == (Palette { voice: Voice { listening: false, interim: mid.voice.interim,
                    engine_note: mid.voice.engine_note, ..pre.voice }, input: mid.input, lines: mid.lines, ..pre })
                &&& mid.voice.interim@.len() == 0
                &&& mid.voice.engine_note@.len() == 0
                &&& mid.input@.len() == 0
                &&& lines_view(mid.lines@) == l1
                &&& routed(mid, post, pre.voice.interim@, true, out)
            }
        } else {
            &&& out.len() == 0
            &&& lines_view(post.lines@) == (if !pre.voice.got_speech && reason.len() == 0 {
                l1.push((2u8, "🎤 didn't hear anything — hold 🤙 to try again"@))
            } else {
                l1
            })
            &&& post == (Palette { voice: Voice { listening: false, interim: post.voice.interim,
                engine_note: post.voice.engine_note, ..pre.voice }, lines: post.lines, ..pre })
            &&& post.voice.interim@.len() == 0
        })
    })
}

impl Palette {
    /// A closed palette with its greeting line, idle voice and App Smith.
    pub fn new() -> (r: Self)
        ensures
            !r.open,
            r.input@.len() == 0,
            lines_view(r.lines@) == seq![(2u8, "type a command, `> question` for the assistant, or `make …` to conjure an app"@)],
            !r.assistant_streaming,
            smith_idle(r.smith),
            voice_idle(r.voice),
            !r.focus_input,
            r.demo@.len() == 0,
    {
        let r = Palette {
            open: false,
            input: String::new(),
            lines: vec![Line::System(String::from_str(
                "type a command, `> question` for the assistant, or `make …` to conjure an app",
            ))],
            assistant_streaming: false,
            smith: idle_smith(),
            voice: idle_voice(),
            focus_input: false,
            demo: String::new(),
        };
        assert(lines_view(r.lines@) =~= seq![(2u8, "type a command, `> question` for the assistant, or `make …` to conjure an app"@)]);
        r
    }

    /// Opens or closes the palette; opening focuses the input.
    pub fn toggle(&mut self)
        ensures
            *final(self) == toggled(*old(self)),
    {
        self.open = !self.open;
        if self.open {
            self.focus_input = true;
        }
    }

    /// Enters voice mode: open, listening, with a line saying so.
    pub fn start_voice(&mut self)
        ensures
            final(self).open,
            !final(self).focus_input,
            final(self).voice.listening,
            final(self).voice.interim@.len() == 0,
            !final(self).voice.got_speech,
            final(self).voice.engine_note@.len() == 0,
            lines_view(final(self).lines@) == lines_view(old(self).lines@).push((2u8, "🎤 listening — speak a command…"@)),
            *final(self) == (Palette { open: true, focus_input: false, voice: final(self).voice, lines: final(self).lines, ..*old(self) }),
            voice_started(*old(self), *final(self)),
    {
        self.open = true;
        self.focus_input = false;
        self.voice = Voice { listening: true, interim: String::new(), got_speech: false, engine_note: String::new() };
        let ghost l0 = lines_view(self.lines@);
        self.lines.push(Line::System(String::from_str("🎤 listening — speak a command…")));
        assert(lines_view(self.lines@) =~= l0.push((2u8, "🎤 listening — speak a command…"@)));
    }

    /// Routes typed or spoken input (see [`routed`]).
    pub fn route(&mut self, raw: String, voice: bool) -> (r: Vec<PaletteOutcome>)
        ensures
            routed(*old(self), *final(self), raw@, voice, outs_view(r@)),
    {
        let text_chars = trim_str(raw.as_str());
        let lower = to_lower(string_of(&text_chars).as_str());
        self.route_lowered(raw, lower.as_str(), voice)
    }

    /// Routes typed or spoken input whose trimmed text lower-cases to
    /// `lower` (see [`routed_as`]).
    pub fn route_lowered(&mut self, raw: String, lower: &str, voice: bool) -> (r: Vec<PaletteOutcome>)
        ensures
            routed_as(*old(self), *final(self), raw@, lower@, voice, outs_view(r@)),
    {
        let text_chars = trim_str(raw.as_str());
        if text_chars.len() == 0 {
            let r: Vec<PaletteOutcome> = Vec::new();
            assert(outs_view(r@).len() == 0);
            return r;
        }
        let text = string_of(&text_chars);
        let ghost l_before = lines_view(self.lines@);
        let shown = if voice {
            let mut v: Vec<char> = Vec::new();
            push_str(&mut v, "🎤 ");
            push_str(&mut v, text.as_str());
            string_of(&v)
        } else {
            text.clone()
        };
        self.lines.push(Line::User(shown));
        let ghost l0 = lines_view(self.lines@);
        assert(l0 =~= l_before.push((0u8, if voice { "🎤 "@ + text@ } else { text@ })));
        if text_chars[0] == '>' {
            self.assistant_streaming = true;
            self.lines.push(Line::Assistant(String::new()));
            assert(lines_view(self.lines@) =~= l0.push((1u8, Seq::empty())));
            let rest = skip_chars(&text_chars, 1);
            let q = trim_chars(&rest);
            let r = vec![PaletteOutcome::Prompt(AgentId(AGENT_ASSISTANT), string_of(&q))];
            assert(outs_view(r@) =~= seq![OutV::Prompt(AGENT_ASSISTANT, trim(text@.skip(1)))]);
            return r;
        }
        let lower = chars_of(lower);
        if prefix_is(&lower, "make ") || prefix_is(&lower, "create ") || prefix_is(&lower, "build ")
            || prefix_is(&lower, "conjure ") {
            self.smith = Smith { buf: String::new(), active: true, round: 0 };
            self.lines.push(Line::System(String::from_str("🪄 conjuring…")));
            assert(lines_view(self.lines@) =~= l0.push((2u8, "🪄 conjuring…"@)));
            let r = vec![PaletteOutcome::Prompt(AgentId(AGENT_APP_SMITH), text)];
            assert(outs_view(r@) =~= seq![OutV::Prompt(AGENT_APP_SMITH, text@)]);
            return r;
        }
        let cmd = command_exec(&lower);
        let launcher = chars_of("launcher");
        if crate::text::chars_eq(&cmd, &launcher) {
            self.open = false;
            let r = vec![PaletteOutcome::OpenLauncher];
            assert(outs_view(r@) =~= seq![OutV::OpenLauncher]);
            return r;
        }
        let demo = chars_of("demo");
        let demo_app = chars_of("demo app");
        if crate::text::chars_eq(&cmd, &demo) || crate::text::chars_eq(&cmd, &demo_app) {
            self.lines.push(Line::System(String::from_str("✨ spawning the demo app")));
            assert(lines_view(self.lines@) =~= l0.push((2u8, "✨ spawning the demo app"@)));
            let r = vec![PaletteOutcome::SpawnConjure(self.demo.clone())];
            assert(outs_view(r@) =~= seq![OutV::SpawnConjure(old(self).demo@)]);
            return r;
        }
        match find_kind(&cmd) {
            Some(k) => {
                self.open = false;
                let r = vec![PaletteOutcome::Launch(k)];
                assert(outs_view(r@) =~= seq![OutV::Launch(k)]);
                return r;
            },
            None => {},
        }
        if voice {
            self.assistant_streaming = true;
            self.lines.push(Line::Assistant(String::new()));
            assert(lines_view(self.lines@) =~= l0.push((1u8, Seq::empty())));
            let r = vec![PaletteOutcome::Prompt(AgentId(AGENT_ASSISTANT), text)];
            assert(outs_view(r@) =~= seq![OutV::Prompt(AGENT_ASSISTANT, text@)]);
            return r;
        }
        let mut m: Vec<char> = Vec::new();
        push_str(&mut m, "unknown command `");
        push_str(&mut m, text.as_str());
        push_str(&mut m, "` — try an app name, `demo`, `> question`, or `make …`");
        self.lines.push(Line::System(string_of(&m)));
        assert(lines_view(self.lines@) =~= l0.push((2u8, unknown_line(text@))));
        let r: Vec<PaletteOutcome> = Vec::new();
        assert(outs_view(r@) =~= Seq::<OutV>::empty());
        r
    }

    /// Enter pressed in the input: the input is routed as typed text.
    pub fn submit(&mut self) -> (r: Vec<PaletteOutcome>)
        ensures
            exists|mid: Palette| mid == (Palette { input: mid.input, ..*old(self) }) && mid.input@.len() == 0
                && routed(mid, *final(self), old(self).input@, false, outs_view(r@)),
    {
        let mut text = String::new();
        std::mem::swap(&mut text, &mut self.input);
        self.route(text, false)
    }

    /// Escape pressed: cancels listening (and tells the shell to stop
    /// capture), or else closes the palette.
    pub fn escape(&mut self) -> (r: Vec<PaletteOutcome>)
        ensures
            old(self).voice.listening ==> {
                &&& voice_idle(final(self).voice)
                &&& final(self).input@.len() == 0
                &&& lines_view(final(self).lines@) == lines_view(old(self).lines@).push((2u8, "🎤 cancelled"@))
                &&& outs_view(r@) == seq![OutV::VoiceStop]
                &&& *final(self) == (Palette { voice: final(self).voice, input: final(self).input, lines: final(self).lines, ..*old(self) })
            },
            !old(self).voice.listening ==> outs_view(r@).len() == 0
                && *final(self) == (Palette { open: false, ..*old(self) }),
    {
        if self.voice.listening {
            self.voice = idle_voice();
            self.input = String::new();
            let ghost l0 = lines_view(self.lines@);
            self.lines.push(Line::System(String::from_str("🎤 cancelled")));
            assert(lines_view(self.lines@) =~= l0.push((2u8, "🎤 cancelled"@)));
            let r = vec![PaletteOutcome::VoiceStop];
            assert(outs_view(r@) =~= seq![OutV::VoiceStop]);
            r
        } else {
            self.open = false;
            let r: Vec<PaletteOutcome> = Vec::new();
            assert(outs_view(r@).len() == 0);
            r
        }
    }

    /// A transcript from the speech engine: interim text shows live in the
    /// input; the final utterance replaces it and is routed as spoken.
    pub fn on_voice_transcript(&mut self, text: String, is_final: bool) -> (r: Vec<PaletteOutcome>)
        ensures
            heard(*old(self), *final(self), text@, is_final, outs_view(r@)),
            !is_final ==> {
                &&& outs_view(r@).len() == 0
                &&& final(self).voice.got_speech
                &&& final(self).voice.interim@ == text@
                &&& final(self).input@ == text@
                &&& *final(self) == (Palette { voice: Voice { got_speech: true, interim: final(self).voice.interim, ..old(self).voice },
                    input: final(self).input, ..*old(self) })
            },
            is_final ==> exists|mid: Palette| {
                &&& mid == (Palette { voice: Voice { got_speech: true, interim: mid.voice.interim, ..old(self).voice },
                    input: mid.input, ..*old(self) })
                &&& mid.voice.interim@.len() == 0
                &&& mid.input@.len() == 0
                &&& routed(mid, *final(self), text@, true, outs_view(r@))
            },
    {
        self.voice.got_speech = true;
        if is_final {
            self.voice.interim = String::new();
            self.input = String::new();
            self.route(text, true)
        } else {
            self.voice.interim = text.clone();
            self.input = text;
            let r: Vec<PaletteOutcome> = Vec::new();
            assert(outs_view(r@).len() == 0);
            r
        }
    }

    /// Speech-engine status: an unavailable engine is reported; while
    /// listening its progress note shows; when listening ends, the reason
    /// is shown, an unsubmitted interim transcript is routed as spoken,
    /// and a session that heard nothing says so.
    pub fn on_voice_status(&mut self, listening: bool, available: bool, reason: &str) -> (r: Vec<PaletteOutcome>)
        ensures
            status_seen(*old(self), *final(self), listening, available, reason@, outs_view(r@)),
            !available ==> {
                &&& outs_view(r@).len() == 0
                &&& lines_view(final(self).lines@) == lines_view(old(self).lines@).push((2u8, "⚠ voice: "@ + reason@))
                &&& *final(self) == (Palette { voice: Voice { listening, ..old(self).voice }, lines: final(self).lines, ..*old(self) })
            },
            available && listening ==> {
                &&& outs_view(r@).len() == 0
                &&& final(self).voice.engine_note@ == reason@
                &&& *final(self) == (Palette { voice: Voice { listening, engine_note: final(self).voice.engine_note, ..old(self).voice }, ..*old(self) })
            },
            available && !listening && !old(self).voice.listening ==> {
                &&& outs_view(r@).len() == 0
                &&& final(self).voice.engine_note@.len() == 0
                &&& *final(self) == (Palette { voice: Voice { engine_note: final(self).voice.engine_note, ..old(self).voice }, ..*old(self) })
            },
            available && !listening && old(self).voice.listening ==> {
                let l1 = if reason@.len() > 0 {
                    lines_view(old(self).lines@).push((2u8, "🎤 "@ + reason@))
                } else {
                    lines_view(old(self).lines@)
                };
                &&& final(self).voice.engine_note@.len() == 0 || old(self).voice.interim@.len() > 0
                &&& (if old(self).voice.interim@.len() > 0 {
                    exists|mid: Palette| {
                        &&& mid == (Palette { voice: Voice { listening: false, interim: mid.voice.interim,
                            engine_note: mid.voice.engine_note, ..old(self).voice }, input: mid.input, lines: mid.lines, ..*old(self) })
                        &&& mid.voice.interim@.len() == 0
                        &&& mid.voice.engine_note@.len() == 0
                        &&& mid.input@.len() == 0
                        &&& lines_view(mid.lines@) == l1
                        &&& routed(mid, *final(self), old(self).voice.interim@, true, outs_view(r@))
                    }
                } else {
                    &&& outs_view(r@).len() == 0
                    &&& lines_view(final(self).lines@) == (if !old(self).voice.got_speech && reason@.len() == 0 {
                        l1.push((2u8, "🎤 didn't hear anything — hold 🤙 to try again"@))
                    } else {
                        l1
                    })
                    &&& *final(self) == (Palette { voice: Voice { listening: false, interim: final(self).voice.interim,
                        engine_note: final(self).voice.engine_note, ..old(self).voice }, lines: final(self).lines, ..*old(self) })
                    &&& final(self).voice.interim@.len() == 0
                })
            },
    {
        let was = self.voice.listening;
        self.voice.listening = listening;
        let ghost l0 = lines_view(self.lines@);
        if !available {
            let mut m: Vec<char> = Vec::new();
            push_str(&mut m, "⚠ voice: ");
            push_str(&mut m, reason);
            self.lines.push(Line::System(string_of(&m)));
            assert(lines_view(self.lines@) =~= l0.push((2u8, "⚠ voice: "@ + reason@)));
            let r: Vec<PaletteOutcome> = Vec::new();
            assert(outs_view(r@).len() == 0);
            return r;
        }
        if listening {
            self.voice.engine_note = String::from_str(reason);
            let r: Vec<PaletteOutcome> = Vec::new();
            assert(outs_view(r@).len() == 0);
            return r;
        }
        self.voice.engine_note = String::new();
        if was {
            let reason_v = chars_of(reason);
            if reason_v.len() > 0 {
                let mut m: Vec<char> = Vec::new();
                push_str(&mut m, "🎤 ");
                push_str(&mut m, reason);
                self.lines.push(Line::System(string_of(&m)));
                assert(lines_view(self.lines@) =~= l0.push((2u8, "🎤 "@ + reason@)));
            }
            let mut leftover = String::new();
            std::mem::swap(&mut leftover, &mut self.voice.interim);
            let lv = chars_of(leftover.as_str());
            if lv.len() > 0 {
                self.input = String::new();
                return self.route(leftover, true);
            }
            if !self.voice.got_speech && reason_v.len() == 0 {
                let ghost l1 = lines_view(self.lines@);
                self.lines.push(Line::System(String::from_str("🎤 didn't hear anything — hold 🤙 to try again")));
                assert(lines_view(self.lines@) =~= l1.push((2u8, "🎤 didn't hear anything — hold 🤙 to try again"@)));
            }
        }
        let r: Vec<PaletteOutcome> = Vec::new();
        assert(outs_view(r@).len() == 0);
        r
    }

    /// A streamed AI chunk. Assistant text extends the assistant's last
    /// line (or starts one) and a final chunk ends the streaming. App Smith
    /// text, while conjuring, accumulates; a warning chunk aborts the
    /// conjuring; the final chunk asks the shell to check the outermost
    /// `{…}` of the reply (or reports that it holds no JSON).
    pub fn on_chunk(&mut self, agent: AgentId, text: &str, done: bool) -> (r: Vec<PaletteOutcome>)
        ensures
            agent.0 == AGENT_ASSISTANT ==> {
                &&& outs_view(r@).len() == 0
                &&& lines_view(final(self).lines@) == appended(lines_view(old(self).lines@), text@)
                &&& *final(self) == (Palette { lines: final(self).lines,
                    assistant_streaming: if done { false } else { old(self).assistant_streaming }, ..*old(self) })
            },
            agent.0 != AGENT_ASSISTANT && !(agent.0 == AGENT_APP_SMITH && old(self).smith.active) ==> {
                outs_view(r@).len() == 0 && *final(self) == *old(self)
            },
            agent.0 == AGENT_APP_SMITH && old(self).smith.active ==> {
                if text@.len() > 0 && text@[0] == '⚠' {
                    &&& outs_view(r@).len() == 0
                    &&& lines_view(final(self).lines@) == lines_view(old(self).lines@).push((2u8, text@))
                    &&& smith_idle(final(self).smith)
                    &&& *final(self) == (Palette { lines: final(self).lines, smith: final(self).smith, ..*old(self) })
                } else if !done {
                    &&& outs_view(r@).len() == 0
                    &&& final(self).smith.buf@ == old(self).smith.buf@ + text@
                    &&& *final(self) == (Palette { smith: Smith { buf: final(self).smith.buf, ..old(self).smith }, ..*old(self) })
                } else {
                    match json_slice(old(self).smith.buf@ + text@) {
                        Some(j) => {
                            &&& outs_view(r@) == seq![OutV::Check(j)]
                            &&& final(self).smith.buf@.len() == 0
                            &&& *final(self) == (Palette { smith: Smith { buf: final(self).smith.buf, ..old(self).smith }, ..*old(self) })
                        },
                        None => {
                            &&& outs_view(r@).len() == 0
                            &&& lines_view(final(self).lines@) == lines_view(old(self).lines@).push((2u8, "⚠ the App Smith returned no JSON"@))
                            &&& smith_idle(final(self).smith)
                            &&& *final(self) == (Palette { lines: final(self).lines, smith: final(self).smith, ..*old(self) })
                        },
                    }
                }
            },
    {
        if agent.0 == AGENT_ASSISTANT {
            let ghost l0 = lines_view(self.lines@);
            match self.lines.pop() {
                Some(Line::Assistant(mut acc)) => {
                    acc.append(text);
                    self.lines.push(Line::Assistant(acc));
                    assert(lines_view(self.lines@) =~= l0.drop_last().push((1u8, l0.last().1 + text@)));
                },
                Some(other) => {
                    self.lines.push(other);
                    self.lines.push(Line::Assistant(String::from_str(text)));
                    assert(lines_view(self.lines@) =~= l0.push((1u8, text@)));
                },
                None => {
                    self.lines.push(Line::Assistant(String::from_str(text)));
                    assert(lines_view(self.lines@) =~= l0.push((1u8, text@)));
                },
            }
            if done {
                self.assistant_streaming = false;
            }
            let r: Vec<PaletteOutcome> = Vec::new();
            assert(outs_view(r@).len() == 0);
            return r;
        }
        if !(agent.0 == AGENT_APP_SMITH && self.smith.active) {
            let r: Vec<PaletteOutcome> = Vec::new();
            assert(outs_view(r@).len() == 0);
            return r;
        }
        let tc = chars_of(text);
        if tc.len() > 0 && tc[0] == '⚠' {
            let ghost l0 = lines_view(self.lines@);
            self.lines.push(Line::System(String::from_str(text)));
            assert(lines_view(self.lines@) =~= l0.push((2u8, text@)));
            self.smith = idle_smith();
            let r: Vec<PaletteOutcome> = Vec::new();
            assert(outs_view(r@).len() == 0);
            return r;
        }
        self.smith.buf.append(text);
        if !done {
            let r: Vec<PaletteOutcome> = Vec::new();
            assert(outs_view(r@).len() == 0);
            return r;
        }
        let mut raw = String::new();
        std::mem::swap(&mut raw, &mut self.smith.buf);
        let rc = chars_of(raw.as_str());
        match json_slice_exec(&rc) {
            Some(j) => {
                let r = vec![PaletteOutcome::Check(j)];
                assert(outs_view(r@) =~= seq![OutV::Check(json_slice(old(self).smith.buf@ + text@)->0)]);
                r
            },
            None => {
                let ghost l0 = lines_view(self.lines@);
                self.lines.push(Line::System(String::from_str("⚠ the App Smith returned no JSON")));
                assert(lines_view(self.lines@) =~= l0.push((2u8, "⚠ the App Smith returned no JSON"@)));
                self.smith = idle_smith();
                let r: Vec<PaletteOutcome> = Vec::new();
                assert(outs_view(r@).len() == 0);
                r
            },
        }
    }

    /// The shell's verdict on the document a [`PaletteOutcome::Check`]
    /// handed out: a valid document (its icon and name) is spawned; an
    /// invalid one goes back to the App Smith for repair, at most
    /// [`MAX_REPAIR_ROUNDS`] times, after which the conjuring fails with
    /// the first error's message.
    pub fn finish_conjure(&mut self, json: String, verdict: Result<(String, String), Vec<ValidationError>>) -> (r: Vec<PaletteOutcome>)
        ensures
            match verdict {
                Ok((icon, name)) => {
                    &&& outs_view(r@) == seq![OutV::SpawnConjure(json@)]
                    &&& lines_view(final(self).lines@) == lines_view(old(self).lines@).push(
                        (2u8, "✨ conjured "@ + icon@ + " "@ + name@))
                    &&& smith_idle(final(self).smith)
                    &&& *final(self) == (Palette { lines: final(self).lines, smith: final(self).smith, ..*old(self) })
                },
                Err(errs) => if old(self).smith.round < MAX_REPAIR_ROUNDS {
                    &&& outs_view(r@) == seq![OutV::Prompt(AGENT_APP_SMITH, repair_prompt(errs@, json@))]
                    &&& lines_view(final(self).lines@) == lines_view(old(self).lines@).push(
                        (2u8, repairing_line(errs@.len(), (old(self).smith.round + 1) as nat)))
                    &&& final(self).smith.round == old(self).smith.round + 1
                    &&& final(self).smith.buf@.len() == 0
                    &&& final(self).smith.active == old(self).smith.active
                    &&& *final(self) == (Palette { lines: final(self).lines, smith: final(self).smith, ..*old(self) })
                } else {
                    &&& outs_view(r@).len() == 0
                    &&& lines_view(final(self).lines@) == lines_view(old(self).lines@).push(
                        (2u8, "⚠ conjuring failed after repairs: "@ + if errs@.len() > 0 { errs@[0].message@ } else { Seq::empty() }))
                    &&& smith_idle(final(self).smith)
                    &&& *final(self) == (Palette { lines: final(self).lines, smith: final(self).smith, ..*old(self) })
                },
            },
    {
        let ghost l0 = lines_view(self.lines@);
        match verdict {
            Ok((icon, name)) => {
                let mut m: Vec<char> = Vec::new();
                push_str(&mut m, "✨ conjured ");
                push_str(&mut m, icon.as_str());
                push_str(&mut m, " ");
                push_str(&mut m, name.as_str());
                self.lines.push(Line::System(string_of(&m)));
                assert(lines_view(self.lines@) =~= l0.push((2u8, "✨ conjured "@ + icon@ + " "@ + name@)));
                self.smith = idle_smith();
                let r = vec![PaletteOutcome::SpawnConjure(json)];
                assert(outs_view(r@) =~= seq![OutV::SpawnConjure(json@)]);
                r
            },
            Err(errs) => {
                if self.smith.round < MAX_REPAIR_ROUNDS {
                    self.smith.round = self.smith.round + 1;
                    self.smith.buf = String::new();
                    let mut m: Vec<char> = Vec::new();
                    push_str(&mut m, "…repairing (");
                    push_dec(&mut m, errs.len() as u64);
                    push_str(&mut m, " issue");
                    if errs.len() != 1 {
                        push_str(&mut m, "s");
                    } else {
                        assert(m@ =~= m@ + Seq::<char>::empty());
                    }
                    push_str(&mut m, ", round ");
                    push_dec(&mut m, self.smith.round as u64);
                    push_str(&mut m, ")");
                    self.lines.push(Line::System(string_of(&m)));
                    assert(lines_view(self.lines@) =~= l0.push((2u8, repairing_line(errs@.len(), self.smith.round as nat))));
                    let mut p: Vec<char> = Vec::new();
                    push_str(&mut p, "Your document failed validation:\n");
                    push_summary(&mut p, &errs);
                    push_str(&mut p, "\n\nPrevious document:\n");
                    push_str(&mut p, json.as_str());
                    push_str(&mut p, "\n\nReturn the FULL corrected JSON document and nothing else.");
                    let r = vec![PaletteOutcome::Prompt(AgentId(AGENT_APP_SMITH), string_of(&p))];
                    assert(outs_view(r@) =~= seq![OutV::Prompt(AGENT_APP_SMITH, repair_prompt(errs@, json@))]);
                    r
                } else {
                    let mut m: Vec<char> = Vec::new();
                    push_str(&mut m, "⚠ conjuring failed after repairs: ");
                    if errs.len() > 0 {
                        push_str(&mut m, errs[0].message.as_str());
                    } else {
                        assert(m@ =~= m@ + Seq::<char>::empty());
                    }
                    self.lines.push(Line::System(string_of(&m)));
                    assert(lines_view(self.lines@) =~= l0.push((2u8, "⚠ conjuring failed after repairs: "@
                        + if errs@.len() > 0 { errs@[0].message@ } else { Seq::empty() })));
                    self.smith = idle_smith();
                    let r: Vec<PaletteOutcome> = Vec::new();
                    assert(outs_view(r@).len() == 0);
                    r
                }
            },
        }
    }
}

/// The transcript after an assistant chunk: the assistant's last line
/// grows, or a new assistant line starts.
pub open spec fn appended(l: Seq<(u8, Seq<char>)>, text: Seq<char>) -> Seq<(u8, Seq<char>)> {
    if l.len() > 0 && l.last().0 == 1 {
        l.drop_last().push((1u8, l.last().1 + text))
    } else {
        l.push((1u8, text))
    }
}

/// The first index of `c` in `s`, if any.
pub open spec fn first_index(s: Seq<char>, c: char) -> Option<int>
    decreases s.len(),
{
    if s.len() == 0 {
        None
    } else {
        match first_index(s.drop_last(), c) {
            Some(i) => Some(i),
            None => if s.last() == c {
                Some(s.len() - 1)
            } else {
                None
            },
        }
    }
}

/// The last index of `c` in `s`, if any.
pub open spec fn last_index(s: Seq<char>, c: char) -> Option<int>
    decreases s.len(),
{
    if s.len() == 0 {
        None
    } else if s.last() == c {
        Some(s.len() - 1)
    } else {
        last_index(s.drop_last(), c)
    }
}

/// The outermost `{…}` of a reply: from its first `{` to its last `}`,
/// when both exist in that order.
pub open spec fn json_slice(raw: Seq<char>) -> Option<Seq<char>> {
    match (first_index(raw, '{'), last_index(raw, '}')) {
        (Some(a), Some(b)) => if b > a {
            Some(raw.subrange(a, b + 1))
        } else {
            None
        },
        _ => None,
    }
}

proof fn lemma_index_bounds(s: Seq<char>, c: char)
    ensures
        first_index(s, c) matches Some(i) ==> 0 <= i < s.len(),
        last_index(s, c) matches Some(i) ==> 0 <= i < s.len(),
    decreases s.len(),
{
    if s.len() > 0 {
        lemma_index_bounds(s.drop_last(), c);
    }
}

/// The outermost `{…}` of a reply (see [`json_slice`]).
fn json_slice_exec(raw: &Vec<char>) -> (r: Option<String>)
    ensures
        match json_slice(raw@) {
            Some(j) => r matches Some(x) && x@ == j,
            None => r is None,
        },
{
    proof {
        lemma_index_bounds(raw@, '{');
        lemma_index_bounds(raw@, '}');
    }
    let n = raw.len();
    let mut first: Option<usize> = None;
    let mut i: usize = 0;
    while i < n
        invariant
            i <= n,
            n == raw@.len(),
            match first_index(raw@.take(i as int), '{') {
                Some(k) => first == Some(k as usize),
                None => first is None,
            },
        decreases n - i,
    {
        assert(raw@.take(i + 1).drop_last() =~= raw@.take(i as int));
        if first.is_none() && raw[i] == '{' {
            first = Some(i);
        }
        i += 1;
    }
    assert(raw@.take(n as int) =~= raw@);
    let mut last: Option<usize> = None;
    let mut j: usize = 0;
    while j < n
        invariant
            j <= n,
            n == raw@.len(),
            match last_index(raw@.take(j as int), '}') {
                Some(k) => last == Some(k as usize),
                None => last is None,
            },
        decreases n - j,
    {
        assert(raw@.take(j + 1).drop_last() =~= raw@.take(j as int));
        if raw[j] == '}' {
            last = Some(j);
        }
        j += 1;
    }
    match (first, last) {
        (Some(a), Some(b)) => {
            if b > a {
                let mut v: Vec<char> = Vec::new();
                let mut k = a;
                while k <= b
                    invariant
                        a <= k <= b + 1,
                        b < n,
                        n == raw@.len(),
                        v@ == raw@.subrange(a as int, k as int),
                    decreases b + 1 - k,
                {
                    v.push(raw[k]);
                    k += 1;
                    assert(v@ =~= raw@.subrange(a as int, k as int));
                }
                Some(string_of(&v))
            } else {
                None
            }
        },
        _ => None,
    }
}

/// One validation error as a line of the repair prompt.
pub open spec fn err_line(e: ValidationError) -> Seq<char> {
    "- "@ + e.code@ + " at "@ + e.path@ + ": "@ + e.message@ + " ("@ + e.hint@ + ")"@
}

/// The error lines, one per line.
pub open spec fn summary(s: Seq<ValidationError>) -> Seq<char>
    decreases s.len(),
{
    if s.len() == 0 {
        Seq::empty()
    } else if s.len() == 1 {
        err_line(s[0])
    } else {
        summary(s.drop_last()) + "\n"@ + err_line(s.last())
    }
}

/// The prompt asking the App Smith to repair a document.
pub open spec fn repair_prompt(errs: Seq<ValidationError>, json: Seq<char>) -> Seq<char> {
    "Your document failed validation:\n"@ + summary(errs) + "\n\nPrevious document:\n"@ + json
        + "\n\nReturn the FULL corrected JSON document and nothing else."@
}

/// The transcript line announcing a repair round.
pub open spec fn repairing_line(n: nat, round: nat) -> Seq<char> {
    "…repairing ("@ + dec(n) + " issue"@ + (if n == 1 { Seq::empty() } else { "s"@ }) + ", round "@ + dec(round) + ")"@
}

/// Appends the error lines.
fn push_summary(out: &mut Vec<char>, errs: &Vec<ValidationError>)
    ensures
        final(out)@ == old(out)@ + summary(errs@),
{
    let ghost start = out@;
    let mut i: usize = 0;
    while i < errs.len()
        invariant
            i <= errs@.len(),
            out@ == start + summary(errs@.take(i as int)),
        decreases errs.len() - i,
    {
        let ghost before = out@;
        if i > 0 {
            push_str(out, "\n");
        }
        let e = &errs[i];
        push_str(out, "- ");
        push_str(out, e.code.as_str());
        push_str(out, " at ");
        push_str(out, e.path.as_str());
        push_str(out, ": ");
        push_str(out, e.message.as_str());
        push_str(out, " (");
        push_str(out, e.hint.as_str());
        push_str(out, ")");
        proof {
            let t = errs@.take(i + 1);
            assert(t.drop_last() =~= errs@.take(i as int));
            assert(t.last() == errs@[i as int]);
            if i == 0 {
                assert(t.len() == 1 && t[0] == errs@[0]);
            }
            assert(out@ =~= start + summary(t));
        }
        i += 1;
    }
    assert(errs@.take(errs.len() as int) =~= errs@);
}

/// The launch verbs a command may start with.
pub open spec fn launch_verbs() -> Seq<Seq<char>> {
    seq!["open "@, "launch "@, "start "@, "show "@, "go to "@]
}

/// Two texts differing at `i` are not one the prefix of the other.
proof fn lemma_not_prefix(p: Seq<char>, s: Seq<char>, i: int)
    requires
        0 <= i < p.len(),
        i < s.len(),
        p[i] != s[i],
    ensures
        !p.is_prefix_of(s),
{
    if p.is_prefix_of(s) {
        assert(s.subrange(0, p.len() as int)[i] == s[i]);
    }
}

/// A text not shorter than `n` whose every start position holds another
/// character than `n`'s first does not contain `n`.
proof fn lemma_no_sub(h: Seq<char>, n: Seq<char>)
    requires
        n.len() > 0,
        forall|i: int| 0 <= i && i + n.len() <= h.len() ==> h[i] != n[0],
    ensures
        !has_sub(h, n),
{
    if has_sub(h, n) {
        let i = choose|i: int| 0 <= i && i + n.len() <= h.len() && #[trigger] h.subrange(i, i + n.len()) == n;
        assert(h.subrange(i, i + n.len())[0] == h[i]);
    }
}

/// `n` contains itself.
proof fn lemma_sub_self(n: Seq<char>)
    ensures
        has_sub(n, n),
{
    assert(n.subrange(0, 0 + n.len() as int) =~= n);
}

/// The facts about a launch verb that routing needs: it is no conjure
/// verb, starts with no `>` or white space, and is stripped from any
/// command it begins.
proof fn lemma_verb(v: Seq<char>, n: Seq<char>)
    requires
        launch_verbs().contains(v),
    ensures
        v.len() > 0,
        !is_ws(v[0]),
        v[0] != '>',
        !conjure_verb(v + n),
        strip_verb(v + n) == n,
{
    reveal_strlit("open ");
    reveal_strlit("launch ");
    reveal_strlit("start ");
    reveal_strlit("show ");
    reveal_strlit("go to ");
    reveal_strlit("make ");
    reveal_strlit("create ");
    reveal_strlit("build ");
    reveal_strlit("conjure ");
    let vs = launch_verbs();
    let i = choose|i: int| 0 <= i < vs.len() && vs[i] == v;
    let c = v + n;
    assert(c.subrange(0, v.len() as int) =~= v);
    assert(v.is_prefix_of(c));
    assert(c.skip(v.len() as int) =~= n);
    assert(c[0] == v[0]);
    lemma_not_prefix("make "@, c, 0);
    lemma_not_prefix("create "@, c, 0);
    lemma_not_prefix("build "@, c, 0);
    lemma_not_prefix("conjure "@, c, 0);
    if i == 1 {
        lemma_not_prefix("open "@, c, 0);
    } else if i == 2 {
        lemma_not_prefix("open "@, c, 0);
        lemma_not_prefix("launch "@, c, 0);
    } else if i == 3 {
        assert(c[1] == v[1]);
        lemma_not_prefix("open "@, c, 0);
        lemma_not_prefix("launch "@, c, 0);
        lemma_not_prefix("start "@, c, 1);
    } else if i == 4 {
        lemma_not_prefix("open "@, c, 0);
        lemma_not_prefix("launch "@, c, 0);
        lemma_not_prefix("start "@, c, 0);
        lemma_not_prefix("show "@, c, 0);
    }
}

/// The facts about a lower-case app title that routing needs: no white
/// space or punctuation at its ends, no leading article, and no other
/// command word.
pub open spec fn plain_name(n: Seq<char>) -> bool {
    &&& n.len() > 0
    &&& !is_ws(n[0])
    &&& !is_ws(n.last())
    &&& n.last() != '.' && n.last() != '!' && n.last() != '?'
    &&& !"the "@.is_prefix_of(n)
    &&& n != "launcher"@
    &&& n != "demo"@
    &&& n != "demo app"@
}

/// The apps from the `i`-th on, in launcher order.
proof fn lemma_kinds_from(i: int)
    requires
        0 <= i < 7,
    ensures
        kinds().skip(i).len() > 0,
        kinds().skip(i)[0] == kinds()[i],
        kinds().skip(i).drop_first() =~= kinds().skip(i + 1),
{
}

/// Looking for `n` from the `i`-th app on: an app whose title does not
/// contain `n` is passed over.
proof fn lemma_first_kind_skip(n: Seq<char>, i: int)
    requires
        0 <= i < 7,
        !has_sub(match_name_spec(kinds()[i]), n),
    ensures
        first_kind(kinds().skip(i), n) == first_kind(kinds().skip(i + 1), n),
{
    lemma_kinds_from(i);
}

/// Looking for `n` from the `i`-th app on finds that app when its title
/// contains `n`.
proof fn lemma_first_kind_hit(n: Seq<char>, i: int)
    requires
        0 <= i < 7,
        has_sub(match_name_spec(kinds()[i]), n),
    ensures
        first_kind(kinds().skip(i), n) == Some(kinds()[i]),
{
    lemma_kinds_from(i);
}

/// The title of Terminal is a plain name.
proof fn lemma_plain_terminal()
    ensures
        plain_name(match_name_spec(AppKind::Terminal)),
{
    reveal_strlit("terminal");
    reveal_strlit("the ");
    reveal_strlit("launcher");
    reveal_strlit("demo");
    reveal_strlit("demo app");
    let n = match_name_spec(AppKind::Terminal);
    lemma_not_prefix("the "@, n, 1);
}

/// The title of Terminal finds its app first.
proof fn lemma_first_terminal()
    ensures
        first_kind(kinds(), match_name_spec(AppKind::Terminal)) == Some(AppKind::Terminal),
{
    let n = match_name_spec(AppKind::Terminal);
    assert(kinds().skip(0) =~= kinds());

    lemma_sub_self(n);
    lemma_first_kind_hit(n, 0);
}

/// The title of Terminal is a plain name that finds its app first.
proof fn lemma_name_terminal()
    ensures
        plain_name(match_name_spec(AppKind::Terminal)),
        first_kind(kinds(), match_name_spec(AppKind::Terminal)) == Some(AppKind::Terminal),
{
    lemma_plain_terminal();
    lemma_first_terminal();
}

/// The title of Files is a plain name.
proof fn lemma_plain_files()
    ensures
        plain_name(match_name_spec(AppKind::Files)),
{
    reveal_strlit("files");
    reveal_strlit("the ");
    reveal_strlit("launcher");
    reveal_strlit("demo");
    reveal_strlit("demo app");
    let n = match_name_spec(AppKind::Files);
    lemma_not_prefix("the "@, n, 0);
}

/// The title of Files finds its app first.
proof fn lemma_first_files()
    ensures
        first_kind(kinds(), match_name_spec(AppKind::Files)) == Some(AppKind::Files),
{
    let n = match_name_spec(AppKind::Files);
    assert(kinds().skip(0) =~= kinds());
    assert(match_name_spec(kinds()[0]) == "terminal"@);
    lemma_absent_files_in_terminal();
    lemma_first_kind_skip(n, 0);
    lemma_sub_self(n);
    lemma_first_kind_hit(n, 1);
}

/// The title of Files is a plain name that finds its app first.
proof fn lemma_name_files()
    ensures
        plain_name(match_name_spec(AppKind::Files)),
        first_kind(kinds(), match_name_spec(AppKind::Files)) == Some(AppKind::Files),
{
    lemma_plain_files();
    lemma_first_files();
}

/// The title of Notes is a plain name.
proof fn lemma_plain_motion_notes()
    ensures
        plain_name(match_name_spec(AppKind::Notes)),
{
    reveal_strlit("motion notes");
    reveal_strlit("the ");
    reveal_strlit("launcher");
    reveal_strlit("demo");
    reveal_strlit("demo app");
    let n = match_name_spec(AppKind::Notes);
    lemma_not_prefix("the "@, n, 0);
}

/// The title of Notes finds its app first.
proof fn lemma_first_motion_notes()
    ensures
        first_kind(kinds(), match_name_spec(AppKind::Notes)) == Some(AppKind::Notes),
{
    let n = match_name_spec(AppKind::Notes);
    assert(kinds().skip(0) =~= kinds());
    assert(match_name_spec(kinds()[0]) == "terminal"@);
    reveal_strlit("terminal");
    reveal_strlit("motion notes");
    lemma_first_kind_skip(n, 0);
    assert(match_name_spec(kinds()[1]) == "files"@);
    reveal_strlit("files");
    reveal_strlit("motion notes");
    lemma_first_kind_skip(n, 1);
    lemma_sub_self(n);
    lemma_first_kind_hit(n, 2);
}

/// The title of Notes is a plain name that finds its app first.
proof fn lemma_name_motion_notes()
    ensures
        plain_name(match_name_spec(AppKind::Notes)),
        first_kind(kinds(), match_name_spec(AppKind::Notes)) == Some(AppKind::Notes),
{
    lemma_plain_motion_notes();
    lemma_first_motion_notes();
}

/// The title of RayTracer is a plain name.
proof fn lemma_plain_ray_tracer()
    ensures
        plain_name(match_name_spec(AppKind::RayTracer)),
{
    reveal_strlit("ray tracer");
    reveal_strlit("the ");
    reveal_strlit("launcher");
    reveal_strlit("demo");
    reveal_strlit("demo app");
    let n = match_name_spec(AppKind::RayTracer);
    lemma_not_prefix("the "@, n, 0);
}

/// The title of RayTracer finds its app first.
proof fn lemma_first_ray_tracer()
    ensures
        first_kind(kinds(), match_name_spec(AppKind::RayTracer)) == Some(AppKind::RayTracer),
{
    let n = match_name_spec(AppKind::RayTracer);
    assert(kinds().skip(0) =~= kinds());
    assert(match_name_spec(kinds()[0]) == "terminal"@);
    reveal_strlit("terminal");
    reveal_strlit("ray tracer");
    lemma_first_kind_skip(n, 0);
    assert(match_name_spec(kinds()[1]) == "files"@);
    reveal_strlit("files");
    reveal_strlit("ray tracer");
    lemma_first_kind_skip(n, 1);
    assert(match_name_spec(kinds()[2]) == "motion notes"@);
    lemma_absent_ray_tracer_in_motion_notes();
    lemma_first_kind_skip(n, 2);
    lemma_sub_self(n);
    lemma_first_kind_hit(n, 3);
}

/// The title of RayTracer is a plain name that finds its app first.
proof fn lemma_name_ray_tracer()
    ensures
        plain_name(match_name_spec(AppKind::RayTracer)),
        first_kind(kinds(), match_name_spec(AppKind::RayTracer)) == Some(AppKind::RayTracer),
{
    lemma_plain_ray_tracer();
    lemma_first_ray_tracer();
}

/// The title of HandTracker is a plain name.
proof fn lemma_plain_hand_tracker()
    ensures
        plain_name(match_name_spec(AppKind::HandTracker)),
{
    reveal_strlit("hand tracker");
    reveal_strlit("the ");
    reveal_strlit("launcher");
    reveal_strlit("demo");
    reveal_strlit("demo app");
    let n = match_name_spec(AppKind::HandTracker);
    lemma_not_prefix("the "@, n, 0);
}

/// The title of HandTracker finds its app first.
proof fn lemma_first_hand_tracker()
    ensures
        first_kind(kinds(), match_name_spec(AppKind::HandTracker)) == Some(AppKind::HandTracker),
{
    let n = match_name_spec(AppKind::HandTracker);
    assert(kinds().skip(0) =~= kinds());
    assert(match_name_spec(kinds()[0]) == "terminal"@);
    reveal_strlit("terminal");
    reveal_strlit("hand tracker");
    lemma_first_kind_skip(n, 0);
    assert(match_name_spec(kinds()[1]) == "files"@);
    reveal_strlit("files");
    reveal_strlit("hand tracker");
    lemma_first_kind_skip(n, 1);
    assert(match_name_spec(kinds()[2]) == "motion notes"@);
    lemma_absent_hand_tracker_in_motion_notes();
    lemma_first_kind_skip(n, 2);
    assert(match_name_spec(kinds()[3]) == "ray tracer"@);
    reveal_strlit("ray tracer");
    reveal_strlit("hand tracker");
    lemma_first_kind_skip(n, 3);
    lemma_sub_self(n);
    lemma_first_kind_hit(n, 4);
}

/// The title of HandTracker is a plain name that finds its app first.
proof fn lemma_name_hand_tracker()
    ensures
        plain_name(match_name_spec(AppKind::HandTracker)),
        first_kind(kinds(), match_name_spec(AppKind::HandTracker)) == Some(AppKind::HandTracker),
{
    lemma_plain_hand_tracker();
    lemma_first_hand_tracker();
}

/// The title of Settings is a plain name.
proof fn lemma_plain_settings()
    ensures
        plain_name(match_name_spec(AppKind::Settings)),
{
    reveal_strlit("settings");
    reveal_strlit("the ");
    reveal_strlit("launcher");
    reveal_strlit("demo");
    reveal_strlit("demo app");
    let n = match_name_spec(AppKind::Settings);
    lemma_not_prefix("the "@, n, 0);
}

/// The title of Settings finds its app first.
proof fn lemma_first_settings()
    ensures
        first_kind(kinds(), match_name_spec(AppKind::Settings)) == Some(AppKind::Settings),
{
    let n = match_name_spec(AppKind::Settings);
    assert(kinds().skip(0) =~= kinds());
    assert(match_name_spec(kinds()[0]) == "terminal"@);
    lemma_absent_settings_in_terminal();
    lemma_first_kind_skip(n, 0);
    assert(match_name_spec(kinds()[1]) == "files"@);
    reveal_strlit("files");
    reveal_strlit("settings");
    lemma_first_kind_skip(n, 1);
    assert(match_name_spec(kinds()[2]) == "motion notes"@);
    lemma_absent_settings_in_motion_notes();
    lemma_first_kind_skip(n, 2);
    assert(match_name_spec(kinds()[3]) == "ray tracer"@);
    lemma_absent_settings_in_ray_tracer();
    lemma_first_kind_skip(n, 3);
    assert(match_name_spec(kinds()[4]) == "hand tracker"@);
    lemma_absent_settings_in_hand_tracker();
    lemma_first_kind_skip(n, 4);
    lemma_sub_self(n);
    lemma_first_kind_hit(n, 5);
}

/// The title of Settings is a plain name that finds its app first.
proof fn lemma_name_settings()
    ensures
        plain_name(match_name_spec(AppKind::Settings)),
        first_kind(kinds(), match_name_spec(AppKind::Settings)) == Some(AppKind::Settings),
{
    lemma_plain_settings();
    lemma_first_settings();
}

/// The title of Browser is a plain name.
proof fn lemma_plain_browser()
    ensures
        plain_name(match_name_spec(AppKind::Browser)),
{
    reveal_strlit("browser");
    reveal_strlit("the ");
    reveal_strlit("launcher");
    reveal_strlit("demo");
    reveal_strlit("demo app");
    let n = match_name_spec(AppKind::Browser);
    lemma_not_prefix("the "@, n, 0);
}

/// The title of Browser finds its app first.
proof fn lemma_first_browser()
    ensures
        first_kind(kinds(), match_name_spec(AppKind::Browser)) == Some(AppKind::Browser),
{
    let n = match_name_spec(AppKind::Browser);
    assert(kinds().skip(0) =~= kinds());
    assert(match_name_spec(kinds()[0]) == "terminal"@);
    lemma_absent_browser_in_terminal();
    lemma_first_kind_skip(n, 0);
    assert(match_name_spec(kinds()[1]) == "files"@);
    reveal_strlit("files");
    reveal_strlit("browser");
    lemma_first_kind_skip(n, 1);
    assert(match_name_spec(kinds()[2]) == "motion notes"@);
    lemma_absent_browser_in_motion_notes();
    lemma_first_kind_skip(n, 2);
    assert(match_name_spec(kinds()[3]) == "ray tracer"@);
    lemma_absent_browser_in_ray_tracer();
    lemma_first_kind_skip(n, 3);
    assert(match_name_spec(kinds()[4]) == "hand tracker"@);
    lemma_absent_browser_in_hand_tracker();
    lemma_first_kind_skip(n, 4);
    assert(match_name_spec(kinds()[5]) == "settings"@);
    lemma_absent_browser_in_settings();
    lemma_first_kind_skip(n, 5);
    lemma_sub_self(n);
    lemma_first_kind_hit(n, 6);
}

/// The title of Browser is a plain name that finds its app first.
proof fn lemma_name_browser()
    ensures
        plain_name(match_name_spec(AppKind::Browser)),
        first_kind(kinds(), match_name_spec(AppKind::Browser)) == Some(AppKind::Browser),
{
    lemma_plain_browser();
    lemma_first_browser();
}

/// Every app's lower-case title is a plain name that finds its app first.
proof fn lemma_name(k: AppKind)
    ensures
        plain_name(match_name_spec(k)),
        first_kind(kinds(), match_name_spec(k)) == Some(k),
{
    match k {
        AppKind::Terminal => lemma_name_terminal(),
        AppKind::Files => lemma_name_files(),
        AppKind::Notes => lemma_name_motion_notes(),
        AppKind::RayTracer => lemma_name_ray_tracer(),
        AppKind::HandTracker => lemma_name_hand_tracker(),
        AppKind::Settings => lemma_name_settings(),
        AppKind::Browser => lemma_name_browser(),
    }
}
/// `files` does not occur in `terminal`.
proof fn lemma_absent_files_in_terminal()
    ensures
        !has_sub("terminal"@, "files"@),
{
    reveal_strlit("terminal");
    reveal_strlit("files");
    lemma_no_sub("terminal"@, "files"@);
}

/// `ray tracer` does not occur in `motion notes`.
proof fn lemma_absent_ray_tracer_in_motion_notes()
    ensures
        !has_sub("motion notes"@, "ray tracer"@),
{
    reveal_strlit("motion notes");
    reveal_strlit("ray tracer");
    lemma_no_sub("motion notes"@, "ray tracer"@);
}

/// `hand tracker` does not occur in `motion notes`.
proof fn lemma_absent_hand_tracker_in_motion_notes()
    ensures
        !has_sub("motion notes"@, "hand tracker"@),
{
    reveal_strlit("motion notes");
    reveal_strlit("hand tracker");
    lemma_no_sub("motion notes"@, "hand tracker"@);
}

/// `settings` does not occur in `terminal`.
proof fn lemma_absent_settings_in_terminal()
    ensures
        !has_sub("terminal"@, "settings"@),
{
    reveal_strlit("terminal");
    reveal_strlit("settings");
    lemma_no_sub("terminal"@, "settings"@);
}

/// `settings` does not occur in `motion notes`.
proof fn lemma_absent_settings_in_motion_notes()
    ensures
        !has_sub("motion notes"@, "settings"@),
{
    reveal_strlit("motion notes");
    reveal_strlit("settings");
    lemma_no_sub("motion notes"@, "settings"@);
}

/// `settings` does not occur in `ray tracer`.
proof fn lemma_absent_settings_in_ray_tracer()
    ensures
        !has_sub("ray tracer"@, "settings"@),
{
    reveal_strlit("ray tracer");
    reveal_strlit("settings");
    lemma_no_sub("ray tracer"@, "settings"@);
}

/// `settings` does not occur in `hand tracker`.
proof fn lemma_absent_settings_in_hand_tracker()
    ensures
        !has_sub("hand tracker"@, "settings"@),
{
    reveal_strlit("hand tracker");
    reveal_strlit("settings");
    lemma_no_sub("hand tracker"@, "settings"@);
}

/// `browser` does not occur in `terminal`.
proof fn lemma_absent_browser_in_terminal()
    ensures
        !has_sub("terminal"@, "browser"@),
{
    reveal_strlit("terminal");
    reveal_strlit("browser");
    lemma_no_sub("terminal"@, "browser"@);
}

/// `browser` does not occur in `motion notes`.
proof fn lemma_absent_browser_in_motion_notes()
    ensures
        !has_sub("motion notes"@, "browser"@),
{
    reveal_strlit("motion notes");
    reveal_strlit("browser");
    lemma_no_sub("motion notes"@, "browser"@);
}

/// `browser` does not occur in `ray tracer`.
proof fn lemma_absent_browser_in_ray_tracer()
    ensures
        !has_sub("ray tracer"@, "browser"@),
{
    reveal_strlit("ray tracer");
    reveal_strlit("browser");
    lemma_no_sub("ray tracer"@, "browser"@);
}

/// `browser` does not occur in `hand tracker`.
proof fn lemma_absent_browser_in_hand_tracker()
    ensures
        !has_sub("hand tracker"@, "browser"@),
{
    reveal_strlit("hand tracker");
    reveal_strlit("browser");
    lemma_no_sub("hand tracker"@, "browser"@);
}

/// `browser` does not occur in `settings`.
proof fn lemma_absent_browser_in_settings()
    ensures
        !has_sub("settings"@, "browser"@),
{
    reveal_strlit("settings");
    reveal_strlit("browser");
    lemma_no_sub("settings"@, "browser"@);
}

/// A text with no white space at either end trims to itself.
proof fn lemma_trim_plain(t: Seq<char>)
    requires
        t.len() > 0,
        !is_ws(t[0]),
        !is_ws(t.last()),
    ensures
        trim(t) == t,
{
    assert(crate::text::trim_start(t) == t);
    assert(crate::text::trim_end(t) == t);
}

/// Every launch verb launches every app by its name: routing the typed
/// command made of a launch verb (`open`, `launch`, `start`, `show` or
/// `go to`, with its space) and an app's lower-case title gives exactly a
/// launch of that app, and the palette closes.
pub proof fn law_launch_verbs_launch(pre: Palette, post: Palette, v: Seq<char>, k: AppKind, out: Seq<OutV>)
    requires
        launch_verbs().contains(v),
        routed_as(pre, post, v + match_name_spec(k), v + match_name_spec(k), false, out),
    ensures
        out == seq![OutV::Launch(k)],
        !post.open,
{
    let n = match_name_spec(k);
    let raw = v + n;
    lemma_verb(v, n);
    lemma_name(k);
    assert(raw[0] == v[0]);
    assert(raw.last() == n.last());
    assert(strip_punct(raw) == raw);
    lemma_trim_plain(raw);
    lemma_trim_plain(n);
    assert(command_of(raw) == n);
}

/// A question for the assistant: input that starts with `>` asks the
/// assistant the rest of the line, trimmed, whatever it says, typed or
/// spoken, and the palette shows the assistant streaming.
pub proof fn law_question_goes_to_assistant(pre: Palette, post: Palette, q: Seq<char>, lower: Seq<char>, voice: bool, out: Seq<OutV>)
    requires
        q.len() > 0,
        !is_ws(q.last()),
        routed_as(pre, post, seq!['>'] + q, lower, voice, out),
    ensures
        out == seq![OutV::Prompt(AGENT_ASSISTANT, trim(q))],
        post.assistant_streaming,
        post.open == pre.open,
{
    let raw = seq!['>'] + q;
    assert(raw[0] == '>');
    assert(raw.last() == q.last());
    lemma_trim_plain(raw);
    assert(raw.skip(1) =~= q);
}

} // verus!
