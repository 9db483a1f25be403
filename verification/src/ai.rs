//! The AI agent manager. Agents are kernel objects with a provider binding
//! and conversation state. The kernel builds complete HTTP requests (so API
//! keys never leave it) and hands them to the platform; streamed replies
//! come back chunk by chunk and flow to the requesting process.

use vstd::prelude::*;
use std::collections::HashMap;
use crate::abi::{AgentId, AiProviderConfig, Pid, AGENT_APP_SMITH, AGENT_ASSISTANT};
use crate::json::{json_quoted, json_string};
use crate::proc::trim_end_slashes;
use crate::text::{chars_of, is_blank, push_all, push_str, string_of, trim};

verus! {

broadcast use vstd::std_specs::hash::group_hash_axioms;

/// A fully built HTTP request for the platform to execute.
pub struct LlmRequest {
    pub agent: u32,
    pub url: String,
    pub headers: Vec<(String, String)>,
    pub body: String,
    /// 0 = Anthropic stream framing, 1 = OpenAI stream framing, 2 = the
    /// in-browser engine (no URL, no headers).
    pub kind: u8,
}

/// One conversation turn: the role and the text.
pub type Turn = (Seq<char>, Seq<char>);

/// The view of a request: agent, URL, headers, body, framing.
pub type RequestView = (u32, Seq<char>, Seq<Turn>, Seq<char>, u8);

/// The view of a provider binding: kind, base URL, model, API key.
pub type ConfigView = (u8, Seq<char>, Seq<char>, Seq<char>);

/// The views of a list of string pairs.
pub open spec fn turns_view(s: Seq<(String, String)>) -> Seq<Turn> {
    s.map_values(|t: (String, String)| (t.0@, t.1@))
}

/// The view of a request.
pub open spec fn request_view(r: LlmRequest) -> RequestView {
    (r.agent, r.url@, turns_view(r.headers@), r.body@, r.kind)
}

/// The view of a provider binding.
pub open spec fn config_view(c: AiProviderConfig) -> ConfigView {
    (c.kind, c.base_url@, c.model@, c.api_key@)
}

/// The system prompt of the System Assistant.
pub open spec fn assistant_prompt() -> Seq<char> {
    "You are the Pseudo Motion OS System Assistant, living inside a \
     browser-based 3D desktop controlled by hand gestures. Answer \
     concisely and helpfully. You cannot yet run system commands; \
     if asked to create an app, tell the user to phrase it as \
     'make …' or 'create …' so the App Smith handles it."@
}

/// The system prompt of the App Smith: the compact Conjure contract.
pub open spec fn app_smith_prompt() -> Seq<char> {
    "You are the App Smith of Pseudo Motion OS. You create small apps as Conjure JSON documents. Reply with EXACTLY ONE JSON object and NOTHING else — no prose, no markdown fences.

Schema:
{\"conjure\":\"1.0\",\"manifest\":{\"id\":\"kebab-case-id\",\"name\":\"Name\",\"icon\":\"one emoji\",\"description\":\"...\",\"window\":{\"size\":[W,H],\"resizable\":true}},\"state\":{\"name\":{\"type\":\"number|string|bool|list\",\"value\":...}},\"ui\":<node>,\"handlers\":{\"name\":[<action>...]},\"timers\":[{\"id\":\"t\",\"every_ms\":1000,\"handler\":\"tick\",\"autostart\":true}]}

A <node> is {\"w\":\"<widget>\",...props,\"children\":[<node>...]}.
Widgets: column,row (props: spacing,align) · group (title) · scroll · separator · spacer (size) · label (text,size:\"small|body|heading|title\",color:\"#rrggbb\",bold) · button (text,on_click) · text_input (bind,placeholder,multiline) · slider (bind,min,max,step,on_change) · checkbox/toggle (bind,text,on_change) · progress (value 0..1) · if (cond, then-children in \"children\").

An <action> is {\"do\":\"<verb>\",...}: set{target,value} · toggle{target} · inc{target,by} · push{target,value} · remove_at{target,index} · clear{target} · if{cond,then:[...],else:[...]} · emit{handler} (no cycles) · notify{title,body} · window{op:\"close\"|\"set_title\",title} · timer{op:\"start\"|\"stop\"|\"reset\",id}.

Expressions go in \"${...}\" inside strings: state names as identifiers, numbers, 'strings', arithmetic + - * / %, comparisons, && || !, ternary c ? a : b, lists [..], indexing x[i]. Functions: math.abs/min/max/floor/ceil/round/sqrt/pow/clamp · str.len/upper/lower/trim/contains · list.len/get/sum/contains · map.get/has · fmt.mmss(secs)/fmt.num(x,decimals) · time.now(). Text props may mix text and ${...}. bind must name a /state entry; on_* must name a /handlers entry.

Rules: every state entry used must be declared; every handler referenced must exist; timers ≥100ms; keep apps small and delightful; window size fits the content. If the user reports validation errors, return the FULL corrected document."@
}

/// The system prompt of an agent.
pub open spec fn system_prompt_spec(agent: u32) -> Seq<char> {
    if agent == AGENT_ASSISTANT {
        assistant_prompt()
    } else if agent == AGENT_APP_SMITH {
        app_smith_prompt()
    } else {
        "You are a PMOS agent."@
    }
}

/// The system prompt an agent runs under.
pub fn system_prompt(agent: AgentId) -> (r: String)
    ensures
        r@ == system_prompt_spec(agent.0),
{
    if agent.0 == AGENT_ASSISTANT {
        return String::from_str(
            "You are the Pseudo Motion OS System Assistant, living inside a \
             browser-based 3D desktop controlled by hand gestures. Answer \
             concisely and helpfully. You cannot yet run system commands; \
             if asked to create an app, tell the user to phrase it as \
             'make …' or 'create …' so the App Smith handles it.",
        );
    }
    if agent.0 == AGENT_APP_SMITH {
        return String::from_str(
            "You are the App Smith of Pseudo Motion OS. You create small apps as Conjure JSON documents. Reply with EXACTLY ONE JSON object and NOTHING else — no prose, no markdown fences.

Schema:
{\"conjure\":\"1.0\",\"manifest\":{\"id\":\"kebab-case-id\",\"name\":\"Name\",\"icon\":\"one emoji\",\"description\":\"...\",\"window\":{\"size\":[W,H],\"resizable\":true}},\"state\":{\"name\":{\"type\":\"number|string|bool|list\",\"value\":...}},\"ui\":<node>,\"handlers\":{\"name\":[<action>...]},\"timers\":[{\"id\":\"t\",\"every_ms\":1000,\"handler\":\"tick\",\"autostart\":true}]}

A <node> is {\"w\":\"<widget>\",...props,\"children\":[<node>...]}.
Widgets: column,row (props: spacing,align) · group (title) · scroll · separator · spacer (size) · label (text,size:\"small|body|heading|title\",color:\"#rrggbb\",bold) · button (text,on_click) · text_input (bind,placeholder,multiline) · slider (bind,min,max,step,on_change) · checkbox/toggle (bind,text,on_change) · progress (value 0..1) · if (cond, then-children in \"children\").

An <action> is {\"do\":\"<verb>\",...}: set{target,value} · toggle{target} · inc{target,by} · push{target,value} · remove_at{target,index} · clear{target} · if{cond,then:[...],else:[...]} · emit{handler} (no cycles) · notify{title,body} · window{op:\"close\"|\"set_title\",title} · timer{op:\"start\"|\"stop\"|\"reset\",id}.

Expressions go in \"${...}\" inside strings: state names as identifiers, numbers, 'strings', arithmetic + - * / %, comparisons, && || !, ternary c ? a : b, lists [..], indexing x[i]. Functions: math.abs/min/max/floor/ceil/round/sqrt/pow/clamp · str.len/upper/lower/trim/contains · list.len/get/sum/contains · map.get/has · fmt.mmss(secs)/fmt.num(x,decimals) · time.now(). Text props may mix text and ${...}. bind must name a /state entry; on_* must name a /handlers entry.

Rules: every state entry used must be declared; every handler referenced must exist; timers ≥100ms; keep apps small and delightful; window size fits the content. If the user reports validation errors, return the FULL corrected document.",
        );
    }
    String::from_str("You are a PMOS agent.")
}

/// A message object: `{"content":…,"role":…}`.
pub open spec fn msg_json(t: Turn) -> Seq<char> {
    "{\"content\":"@ + json_quoted(t.1) + ",\"role\":"@ + json_quoted(t.0) + "}"@
}

/// Message objects separated by commas.
pub open spec fn msgs_json(s: Seq<Turn>) -> Seq<char>
    decreases s.len(),
{
    if s.len() == 0 {
        Seq::empty()
    } else if s.len() == 1 {
        msg_json(s[0])
    } else {
        msgs_json(s.drop_last()) + ","@ + msg_json(s.last())
    }
}

/// The last twelve turns of a conversation (all of them when fewer).
pub open spec fn recent(h: Seq<Turn>) -> Seq<Turn> {
    if h.len() > 12 {
        h.skip(h.len() - 12)
    } else {
        h
    }
}

/// The Anthropic request body.
pub open spec fn anthropic_body(model: Seq<char>, system: Seq<char>, turns: Seq<Turn>) -> Seq<char> {
    "{\"max_tokens\":4096,\"messages\":["@ + msgs_json(turns) + "],\"model\":"@ + json_quoted(model)
        + ",\"stream\":true,\"system\":"@ + json_quoted(system) + "}"@
}

/// The OpenAI-compatible request body: the system prompt leads the
/// messages.
pub open spec fn openai_body(model: Seq<char>, system: Seq<char>, turns: Seq<Turn>) -> Seq<char> {
    "{\"messages\":["@ + msgs_json(seq![("system"@, system)] + turns) + "],\"model\":"@ + json_quoted(model)
        + ",\"stream\":true}"@
}

/// The in-browser engine's request body: the model and the messages, the
/// system prompt first.
pub open spec fn webllm_body(model: Seq<char>, system: Seq<char>, turns: Seq<Turn>) -> Seq<char> {
    "{\"messages\":["@ + msgs_json(seq![("system"@, system)] + turns) + "],\"model\":"@ + json_quoted(model) + "}"@
}

/// The model of the default binding: the Balanced tier of the in-browser
/// engine.
pub open spec fn default_model() -> Seq<char> {
    "Llama-3.2-1B-Instruct-q4f16_1-MLC"@
}

/// The default binding: the in-browser engine at its Balanced tier, with
/// no URL and no key.
pub open spec fn default_config() -> ConfigView {
    (2u8, Seq::empty(), default_model(), Seq::empty())
}

/// What a streamed delta makes of the text so far: a delta that starts
/// with a carriage return replaces it (a transient progress line), any
/// other is appended.
pub open spec fn accumulate(acc: Seq<char>, delta: Seq<char>) -> Seq<char> {
    if delta.len() > 0 && delta[0] == '\r' {
        delta.drop_first()
    } else {
        acc + delta
    }
}

/// The Anthropic endpoint: the default host when the base URL is blank.
pub open spec fn anthropic_url(base: Seq<char>) -> Seq<char> {
    if trim(base).len() == 0 {
        "https://api.anthropic.com/v1/messages"@
    } else {
        trim_end_slashes(base) + "/v1/messages"@
    }
}

/// The OpenAI-compatible endpoint: the default host when the base URL is
/// blank.
pub open spec fn openai_url(base: Seq<char>) -> Seq<char> {
    (if trim(base).len() == 0 {
        "https://api.openai.com"@
    } else {
        trim_end_slashes(base)
    }) + "/v1/chat/completions"@
}

/// The Anthropic headers.
pub open spec fn anthropic_headers(key: Seq<char>) -> Seq<Turn> {
    seq![
        ("content-type"@, "application/json"@),
        ("x-api-key"@, key),
        ("anthropic-version"@, "2023-06-01"@),
        ("anthropic-dangerous-direct-browser-access"@, "true"@),
    ]
}

/// The OpenAI-compatible headers: a bearer token only when a key is set.
pub open spec fn openai_headers(key: Seq<char>) -> Seq<Turn> {
    if trim(key).len() == 0 {
        seq![("content-type"@, "application/json"@)]
    } else {
        seq![("content-type"@, "application/json"@), ("authorization"@, "Bearer "@ + key)]
    }
}

/// The request for `agent` under a binding, given the conversation so far
/// (the new user turn included).
pub open spec fn build_request(agent: u32, cfg: ConfigView, history: Seq<Turn>) -> RequestView {
    let system = system_prompt_spec(agent);
    let turns = recent(history);
    if cfg.0 == 0 {
        (agent, anthropic_url(cfg.1), anthropic_headers(cfg.3), anthropic_body(cfg.2, system, turns), 0u8)
    } else if cfg.0 == 2 {
        (agent, Seq::empty(), Seq::empty(), webllm_body(cfg.2, system, turns), 2u8)
    } else {
        (agent, openai_url(cfg.1), openai_headers(cfg.3), openai_body(cfg.2, system, turns), 1u8)
    }
}

/// The error for prompting with no provider bound.
pub open spec fn err_no_provider() -> Seq<char> {
    "no AI provider configured — open Settings → AI"@
}

/// The error for the Anthropic provider without a key.
pub open spec fn err_needs_key() -> Seq<char> {
    "the Anthropic provider needs an API key — open Settings → AI"@
}

/// The error for prompting an agent that is still streaming.
pub open spec fn err_busy() -> Seq<char> {
    "that agent is still responding"@
}

/// The agent manager.
pub struct AiState {
    pub config: Option<AiProviderConfig>,
    /// Set when the binding changed and should be persisted.
    pub config_dirty: bool,
    /// Requests waiting for the platform to pick them up.
    pub pending: Vec<LlmRequest>,
    /// Agent id → (requesting process, reply accumulated so far).
    pub streams: HashMap<u32, (Pid, String)>,
    /// Agent id → the conversation so far, oldest turn first.
    pub history: HashMap<u32, Vec<(String, String)>>,
}

impl AiState {
    /// The conversations, by agent.
    pub open spec fn history(&self) -> Map<u32, Seq<Turn>> {
        self.history@.map_values(|v: Vec<(String, String)>| turns_view(v@))
    }

    /// The conversation of one agent (empty when it has none).
    pub open spec fn turns(&self, agent: u32) -> Seq<Turn> {
        if self.history().contains_key(agent) {
            self.history()[agent]
        } else {
            Seq::empty()
        }
    }

    /// The open streams, by agent: requester pid and text so far.
    pub open spec fn stream_view(&self) -> Map<u32, (u32, Seq<char>)> {
        self.streams@.map_values(|v: (Pid, String)| (v.0.0, v.1@))
    }

    /// The views of the pending requests, oldest first.
    pub open spec fn pending_view(&self) -> Seq<RequestView> {
        self.pending@.map_values(|r: LlmRequest| request_view(r))
    }

    /// The binding's view, if any.
    pub open spec fn config_spec(&self) -> Option<ConfigView> {
        match self.config {
            Some(c) => Some(config_view(c)),
            None => None,
        }
    }

    /// Why prompting `agent` is refused, if it is.
    pub open spec fn prompt_error(&self, agent: u32) -> Option<Seq<char>> {
        match self.config {
            None => Some(err_no_provider()),
            Some(c) => if trim(c.api_key@).len() == 0 && c.kind == 0 {
                Some(err_needs_key())
            } else if self.stream_view().contains_key(agent) {
                Some(err_busy())
            } else {
                None
            },
        }
    }

    /// `self` is `prev` after queueing `msg` for `agent` on behalf of
    /// `requester`.
    pub open spec fn prompted(&self, prev: AiState, agent: u32, requester: u32, msg: Seq<char>) -> bool {
        let h = prev.turns(agent).push(("user"@, msg));
        &&& self.history() == prev.history().insert(agent, h)
        &&& self.stream_view() == prev.stream_view().insert(agent, (requester, Seq::<char>::empty()))
        &&& self.pending_view() == prev.pending_view().push(build_request(agent, prev.config_spec()->0, h))
        &&& self.config == prev.config
        &&& self.config_dirty == prev.config_dirty
    }

    /// `self` is `prev` after the delta `delta` for `agent`, which has an
    /// open stream.
    pub open spec fn chunked(&self, prev: AiState, agent: u32, delta: Seq<char>, done: bool) -> bool {
        let (req, acc) = prev.stream_view()[agent];
        &&& self.config == prev.config
        &&& self.config_dirty == prev.config_dirty
        &&& self.pending == prev.pending
        &&& if done {
            &&& self.stream_view() == prev.stream_view().remove(agent)
            &&& self.history() == prev.history().insert(agent, prev.turns(agent).push(("assistant"@, accumulate(acc, delta))))
        } else {
            &&& self.stream_view() == prev.stream_view().insert(agent, (req, accumulate(acc, delta)))
            &&& self.history() == prev.history()
        }
    }

    /// An agent manager bound to the default in-browser engine, with no
    /// requests and no history.
    pub fn new() -> (r: Self)
        ensures
            r.config_spec() == Some(default_config()),
            !r.config_dirty,
            r.pending@.len() == 0,
            r.stream_view() == Map::<u32, (u32, Seq<char>)>::empty(),
            r.history() == Map::<u32, Seq<Turn>>::empty(),
    {
        let cfg = AiProviderConfig {
            kind: 2,
            base_url: String::new(),
            model: String::from_str("Llama-3.2-1B-Instruct-q4f16_1-MLC"),
            api_key: String::new(),
        };
        let r = AiState {
            config: Some(cfg),
            config_dirty: false,
            pending: Vec::new(),
            streams: HashMap::new(),
            history: HashMap::new(),
        };
        assert(r.stream_view() =~= Map::<u32, (u32, Seq<char>)>::empty());
        assert(r.history() =~= Map::<u32, Seq<Turn>>::empty());
        assert(r.config_spec()->0 =~= default_config());
        r
    }

    /// Binds a provider; `persist` marks the binding for saving.
    pub fn set_config(&mut self, cfg: AiProviderConfig, persist: bool)
        ensures
            final(self).config == Some(cfg),
            final(self).config_dirty == persist,
            final(self).pending == old(self).pending,
            final(self).streams == old(self).streams,
            final(self).history == old(self).history,
    {
        self.config = Some(cfg);
        self.config_dirty = persist;
    }

    /// Whether `agent` is still streaming a reply.
    pub fn busy(&self, agent: AgentId) -> (r: bool)
        ensures
            r == self.stream_view().contains_key(agent.0),
    {
        self.streams.contains_key(&agent.0)
    }
    /// Queues a prompt for `agent` on behalf of `requester`: the message
    /// joins the agent's conversation and a request carrying the last
    /// twelve turns waits for the platform. The error text is meant for
    /// direct display.
    pub fn prompt(&mut self, agent: AgentId, requester: Pid, msg: String) -> (r: Result<(), String>)
        ensures
            match old(self).prompt_error(agent.0) {
                Some(e) => r matches Err(m) && m@ == e && *final(self) == *old(self),
                None => {
                    let h = old(self).turns(agent.0).push(("user"@, msg@));
                    &&& r is Ok
                    &&& final(self).history() == old(self).history().insert(agent.0, h)
                    &&& final(self).stream_view() == old(self).stream_view().insert(
                        agent.0,
                        (requester.0, Seq::<char>::empty()),
                    )
                    &&& final(self).pending_view() == old(self).pending_view().push(
                        build_request(agent.0, old(self).config_spec()->0, h),
                    )
                    &&& final(self).config == old(self).config
                    &&& final(self).config_dirty == old(self).config_dirty
                },
            },
            r is Ok ==> final(self).prompted(*old(self), agent.0, requester.0, msg@),
    {
        let refusal = match &self.config {
            None => Some("no AI provider configured — open Settings → AI"),
            Some(c) => if c.kind == 0 && is_blank(c.api_key.as_str()) {
                Some("the Anthropic provider needs an API key — open Settings → AI")
            } else if self.streams.contains_key(&agent.0) {
                Some("that agent is still responding")
            } else {
                None
            },
        };
        if let Some(e) = refusal {
            return Err(String::from_str(e));
        }
        let ghost old_hist = self.history@;
        let mut h = match self.history.remove(&agent.0) {
            Some(v) => v,
            None => Vec::new(),
        };
        assert(turns_view(h@) == old(self).turns(agent.0));
        h.push((String::from_str("user"), msg));
        assert(turns_view(h@) =~= old(self).turns(agent.0).push(("user"@, msg@)));
        let req = match &self.config {
            Some(c) => build(agent.0, c, &h),
            None => {
                assert(false);
                return Ok(());
            },
        };
        self.history.insert(agent.0, h);
        self.streams.insert(agent.0, (requester, String::new()));
        self.pending.push(req);
        assert(self.history() =~= old(self).history().insert(agent.0, old(self).turns(agent.0).push(("user"@, msg@))));
        assert(self.stream_view() =~= old(self).stream_view().insert(agent.0, (requester.0, Seq::<char>::empty())));
        assert(self.pending_view() =~= old(self).pending_view().push(request_view(req)));
        Ok(())
    }

    /// The platform delivered a streamed delta for `agent`: it joins the
    /// reply, and when `done` the reply closes the stream and joins the
    /// conversation. Gives the requester to notify, or nothing for an
    /// agent with no open stream.
    pub fn chunk(&mut self, agent: u32, delta: &str, done: bool) -> (r: Option<Pid>)
        ensures
            !old(self).stream_view().contains_key(agent) ==> r is None && *final(self) == *old(self),
            old(self).stream_view().contains_key(agent) ==> {
                let (req, acc) = old(self).stream_view()[agent];
                &&& r == Some(Pid(req))
                &&& final(self).config == old(self).config
                &&& final(self).config_dirty == old(self).config_dirty
                &&& final(self).pending == old(self).pending
                &&& if done {
                    &&& final(self).stream_view() == old(self).stream_view().remove(agent)
                    &&& final(self).history() == old(self).history().insert(
                        agent,
                        old(self).turns(agent).push(("assistant"@, accumulate(acc, delta@))),
                    )
                } else {
                    &&& final(self).stream_view() == old(self).stream_view().insert(agent, (req, accumulate(acc, delta@)))
                    &&& final(self).history() == old(self).history()
                }
            },
            old(self).stream_view().contains_key(agent) ==> final(self).chunked(*old(self), agent, delta@, done),
    {
        if !self.streams.contains_key(&agent) {
            return None;
        }
        match self.streams.remove(&agent) {
            None => None,
            Some(entry) => {
                let (requester, mut acc) = entry;
                let d = chars_of(delta);
                if d.len() > 0 && d[0] == '\r' {
                    let mut rest: Vec<char> = Vec::new();
                    let mut i: usize = 1;
                    while i < d.len()
                        invariant
                            1 <= i <= d@.len(),
                            rest@ == d@.subrange(1, i as int),
                        decreases d.len() - i,
                    {
                        rest.push(d[i]);
                        assert(d@.subrange(1, i + 1) =~= d@.subrange(1, i as int).push(d@[i as int]));
                        i += 1;
                    }
                    assert(rest@ =~= delta@.drop_first());
                    acc = string_of(&rest);
                } else {
                    acc.append(delta);
                }
                assert(acc@ == accumulate(old(self).stream_view()[agent].1, delta@));
                if done {
                    let mut h = match self.history.remove(&agent) {
                        Some(v) => v,
                        None => Vec::new(),
                    };
                    assert(turns_view(h@) == old(self).turns(agent));
                    h.push((String::from_str("assistant"), acc));
                    assert(turns_view(h@) =~= old(self).turns(agent).push(("assistant"@, accumulate(old(self).stream_view()[agent].1, delta@))));
                    self.history.insert(agent, h);
                    assert(self.stream_view() =~= old(self).stream_view().remove(agent));
                    assert(self.history() =~= old(self).history().insert(agent, old(self).turns(agent).push(("assistant"@, accumulate(old(self).stream_view()[agent].1, delta@)))));
                } else {
                    self.streams.insert(agent, (requester, acc));
                    assert(self.stream_view() =~= old(self).stream_view().insert(agent, (requester.0, accumulate(old(self).stream_view()[agent].1, delta@))));
                }
                Some(requester)
            },
        }
    }

    /// Forgets an agent's conversation (each conjured app starts fresh).
    pub fn reset_history(&mut self, agent: AgentId)
        ensures
            final(self).history() == old(self).history().remove(agent.0),
            final(self).config == old(self).config,
            final(self).config_dirty == old(self).config_dirty,
            final(self).pending == old(self).pending,
            final(self).streams == old(self).streams,
    {
        let _ = self.history.remove(&agent.0);
        assert(self.history() =~= old(self).history().remove(agent.0));
    }
}

/// The default binding needs no setup: under it, prompting an agent that
/// is not streaming is never refused.
pub proof fn law_default_provider_ready(s: AiState, agent: u32)
    requires
        s.config_spec() == Some(default_config()),
        !s.stream_view().contains_key(agent),
    ensures
        s.prompt_error(agent) is None,
{
}

/// A delta that starts with a carriage return replaces whatever came
/// before it: the text so far no longer matters.
pub proof fn law_carriage_return_replaces(before: Seq<char>, other: Seq<char>, delta: Seq<char>)
    requires
        delta.len() > 0,
        delta[0] == '\r',
    ensures
        accumulate(before, delta) == accumulate(other, delta),
        accumulate(before, delta) == delta.drop_first(),
{
}

/// `s` without its trailing slashes.
fn trim_slashes(s: &str) -> (r: Vec<char>)
    ensures
        r@ == trim_end_slashes(s@),
{
    let mut v = chars_of(s);
    while v.len() > 0 && v[v.len() - 1] == '/'
        invariant
            trim_end_slashes(v@) == trim_end_slashes(s@),
        decreases v.len(),
    {
        v.pop();
    }
    v
}

/// Appends the JSON string literal for `s`.
fn push_json(out: &mut Vec<char>, s: &str)
    ensures
        final(out)@ == old(out)@ + json_quoted(s@),
{
    let q = json_string(s);
    push_str(out, q.as_str());
}

/// Appends message objects separated by commas.
fn push_msgs(out: &mut Vec<char>, msgs: &Vec<(String, String)>)
    ensures
        final(out)@ == old(out)@ + msgs_json(turns_view(msgs@)),
{
    let ghost start = out@;
    let ghost tv = turns_view(msgs@);
    let mut i: usize = 0;
    while i < msgs.len()
        invariant
            i <= msgs@.len(),
            tv == turns_view(msgs@),
            out@ == start + msgs_json(tv.take(i as int)),
        decreases msgs.len() - i,
    {
        let ghost before = out@;
        if i > 0 {
            push_str(out, ",");
        }
        push_str(out, "{\"content\":");
        push_json(out, msgs[i].1.as_str());
        push_str(out, ",\"role\":");
        push_json(out, msgs[i].0.as_str());
        push_str(out, "}");
        proof {
            let t = tv.take(i + 1);
            assert(t.drop_last() =~= tv.take(i as int));
            assert(t.last() == tv[i as int]);
            if i == 0 {
                assert(t.len() == 1 && t[0] == tv[0]);
                assert(out@ =~= start + msgs_json(t));
            } else {
                assert(out@ =~= before + ","@ + msg_json(tv[i as int]));
                assert(out@ =~= start + msgs_json(t));
            }
        }
        i += 1;
    }
    assert(tv.take(msgs.len() as int) =~= tv);
}

/// The request for `agent` under a binding, given the conversation.
fn build(agent: u32, cfg: &AiProviderConfig, h: &Vec<(String, String)>) -> (r: LlmRequest)
    ensures
        request_view(r) == build_request(agent, config_view(*cfg), turns_view(h@)),
{
    let n = h.len();
    let start: usize = if n > 12 { n - 12 } else { 0 };
    let ghost tv = turns_view(h@);
    let system = system_prompt(AgentId(agent));
    let mut msgs: Vec<(String, String)> = Vec::new();
    if cfg.kind != 0 {
        msgs.push((String::from_str("system"), system.clone()));
    }
    let ghost lead = turns_view(msgs@);
    let mut i: usize = start;
    while i < n
        invariant
            start <= i <= n,
            n == h@.len(),
            tv == turns_view(h@),
            turns_view(msgs@) == lead + tv.subrange(start as int, i as int),
        decreases n - i,
    {
        let ghost before = turns_view(msgs@);
        let a = h[i].0.clone();
        let b = h[i].1.clone();
        assert(a@ == tv[i as int].0 && b@ == tv[i as int].1);
        msgs.push((a, b));
        assert(turns_view(msgs@) =~= before.push(tv[i as int]));
        assert(tv.subrange(start as int, i + 1) =~= tv.subrange(start as int, i as int).push(tv[i as int]));
        assert(turns_view(msgs@) =~= lead + tv.subrange(start as int, i + 1));
        i += 1;
    }
    assert(tv.subrange(start as int, n as int) =~= recent(tv));
    let mut body: Vec<char> = Vec::new();
    if cfg.kind == 0 {
        push_str(&mut body, "{\"max_tokens\":4096,\"messages\":[");
        push_msgs(&mut body, &msgs);
        push_str(&mut body, "],\"model\":");
        push_json(&mut body, cfg.model.as_str());
        push_str(&mut body, ",\"stream\":true,\"system\":");
        push_json(&mut body, system.as_str());
        push_str(&mut body, "}");
        let mut url: Vec<char> = Vec::new();
        if is_blank(cfg.base_url.as_str()) {
            push_str(&mut url, "https://api.anthropic.com/v1/messages");
        } else {
            url = trim_slashes(cfg.base_url.as_str());
            push_str(&mut url, "/v1/messages");
        }
        let headers = vec![
            (String::from_str("content-type"), String::from_str("application/json")),
            (String::from_str("x-api-key"), cfg.api_key.clone()),
            (String::from_str("anthropic-version"), String::from_str("2023-06-01")),
            (String::from_str("anthropic-dangerous-direct-browser-access"), String::from_str("true")),
        ];
        assert(turns_view(msgs@) =~= recent(tv));
        let r = LlmRequest { agent, url: string_of(&url), headers, body: string_of(&body), kind: 0 };
        assert(turns_view(r.headers@) =~= anthropic_headers(cfg.api_key@));
        r
    } else if cfg.kind == 2 {
        push_str(&mut body, "{\"messages\":[");
        push_msgs(&mut body, &msgs);
        push_str(&mut body, "],\"model\":");
        push_json(&mut body, cfg.model.as_str());
        push_str(&mut body, "}");
        assert(turns_view(msgs@) =~= seq![("system"@, system_prompt_spec(agent))] + recent(tv));
        let r = LlmRequest { agent, url: String::new(), headers: Vec::new(), body: string_of(&body), kind: 2 };
        assert(turns_view(r.headers@) =~= Seq::<Turn>::empty());
        assert(r.url@ =~= Seq::<char>::empty());
        r
    } else {
        push_str(&mut body, "{\"messages\":[");
        push_msgs(&mut body, &msgs);
        push_str(&mut body, "],\"model\":");
        push_json(&mut body, cfg.model.as_str());
        push_str(&mut body, ",\"stream\":true}");
        let mut url: Vec<char> = Vec::new();
        if is_blank(cfg.base_url.as_str()) {
            push_str(&mut url, "https://api.openai.com");
        } else {
            url = trim_slashes(cfg.base_url.as_str());
        }
        push_str(&mut url, "/v1/chat/completions");
        let mut headers = vec![(String::from_str("content-type"), String::from_str("application/json"))];
        if !is_blank(cfg.api_key.as_str()) {
            let mut b: Vec<char> = Vec::new();
            push_str(&mut b, "Bearer ");
            push_str(&mut b, cfg.api_key.as_str());
            headers.push((String::from_str("authorization"), string_of(&b)));
        }
        assert(turns_view(msgs@) =~= seq![("system"@, system_prompt_spec(agent))] + recent(tv));
        let r = LlmRequest { agent, url: string_of(&url), headers, body: string_of(&body), kind: 1 };
        assert(turns_view(r.headers@) =~= openai_headers(cfg.api_key@));
        r
    }
}

} // verus!
