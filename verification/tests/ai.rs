use pmos::abi::{AgentId, AiProviderConfig, Pid, AGENT_APP_SMITH, AGENT_ASSISTANT};
use pmos::ai::{system_prompt, AiState};

fn cfg(kind: u8, base: &str, key: &str) -> AiProviderConfig {
    AiProviderConfig { kind, base_url: base.into(), model: "m1".into(), api_key: key.into() }
}

#[test]
fn prompting_needs_a_provider_and_a_key_for_anthropic() {
    let mut ai = AiState::new();
    ai.config = None;
    assert_eq!(ai.prompt(AgentId(AGENT_ASSISTANT), Pid(1), "hi".into()).unwrap_err(), "no AI provider configured — open Settings → AI");
    ai.set_config(cfg(0, "", " "), true);
    assert!(ai.config_dirty);
    assert_eq!(
        ai.prompt(AgentId(AGENT_ASSISTANT), Pid(1), "hi".into()).unwrap_err(),
        "the Anthropic provider needs an API key — open Settings → AI"
    );
}

#[test]
fn anthropic_request_is_built_exactly() {
    let mut ai = AiState::new();
    ai.set_config(cfg(0, "", "k"), false);
    assert!(!ai.config_dirty);
    ai.prompt(AgentId(9), Pid(3), "say \"hi\"".into()).unwrap();
    assert!(ai.busy(AgentId(9)));
    let req = &ai.pending[0];
    assert_eq!(req.agent, 9);
    assert_eq!(req.kind, 0);
    assert_eq!(req.url, "https://api.anthropic.com/v1/messages");
    assert_eq!(req.headers[1], ("x-api-key".to_string(), "k".to_string()));
    assert_eq!(
        req.body,
        "{\"max_tokens\":4096,\"messages\":[{\"content\":\"say \\\"hi\\\"\",\"role\":\"user\"}],\"model\":\"m1\",\"stream\":true,\"system\":\"You are a PMOS agent.\"}"
    );
    assert_eq!(
        ai.prompt(AgentId(9), Pid(3), "again".into()).unwrap_err(),
        "that agent is still responding"
    );
}

#[test]
fn openai_request_leads_with_the_system_prompt() {
    let mut ai = AiState::new();
    ai.set_config(cfg(1, "http://localhost:8080//", ""), false);
    ai.prompt(AgentId(5), Pid(2), "x".into()).unwrap();
    let req = &ai.pending[0];
    assert_eq!(req.url, "http://localhost:8080/v1/chat/completions");
    assert_eq!(req.headers.len(), 1);
    assert_eq!(
        req.body,
        "{\"messages\":[{\"content\":\"You are a PMOS agent.\",\"role\":\"system\"},{\"content\":\"x\",\"role\":\"user\"}],\"model\":\"m1\",\"stream\":true}"
    );
}

#[test]
fn streamed_chunks_reach_the_requester_and_build_history() {
    let mut ai = AiState::new();
    ai.set_config(cfg(1, "", "sk"), false);
    ai.prompt(AgentId(AGENT_ASSISTANT), Pid(4), "q1".into()).unwrap();
    assert_eq!(ai.pending[0].headers[1], ("authorization".to_string(), "Bearer sk".to_string()));
    assert_eq!(ai.chunk(AGENT_ASSISTANT, "an", false), Some(Pid(4)));
    assert_eq!(ai.chunk(AGENT_ASSISTANT, "swer", true), Some(Pid(4)));
    assert!(!ai.busy(AgentId(AGENT_ASSISTANT)));
    assert_eq!(ai.chunk(AGENT_ASSISTANT, "late", true), None);
    ai.pending.clear();
    ai.prompt(AgentId(AGENT_ASSISTANT), Pid(4), "q2".into()).unwrap();
    assert!(ai.pending[0].body.contains("{\"content\":\"q1\",\"role\":\"user\"},{\"content\":\"answer\",\"role\":\"assistant\"},{\"content\":\"q2\",\"role\":\"user\"}"));
    ai.chunk(AGENT_ASSISTANT, "", true);
    ai.reset_history(AgentId(AGENT_ASSISTANT));
    ai.pending.clear();
    ai.prompt(AgentId(AGENT_ASSISTANT), Pid(4), "q3".into()).unwrap();
    assert!(!ai.pending[0].body.contains("q1"));
}

#[test]
fn system_prompts_per_agent() {
    assert!(system_prompt(AgentId(AGENT_ASSISTANT)).starts_with("You are the Pseudo Motion OS System Assistant"));
    assert!(system_prompt(AgentId(AGENT_APP_SMITH)).starts_with("You are the App Smith of Pseudo Motion OS."));
    assert_eq!(system_prompt(AgentId(77)), "You are a PMOS agent.");
}

#[test]
fn the_default_provider_is_the_in_browser_engine() {
    let mut ai = AiState::new();
    let c = ai.config.clone().unwrap();
    assert_eq!(c.kind, 2);
    assert_eq!(c.model, "Llama-3.2-1B-Instruct-q4f16_1-MLC");
    assert_eq!(c.base_url, "");
    assert_eq!(c.api_key, "");
    assert!(ai.prompt(AgentId(AGENT_ASSISTANT), Pid(1), "hi".into()).is_ok());
    let req = &ai.pending[0];
    assert_eq!(req.kind, 2);
    assert_eq!(req.url, "");
    assert!(req.headers.is_empty());
}

#[test]
fn in_browser_requests_carry_only_model_and_messages() {
    let mut ai = AiState::new();
    ai.set_config(cfg(2, "http://ignored", "secret"), false);
    ai.prompt(AgentId(5), Pid(2), "x".into()).unwrap();
    let req = &ai.pending[0];
    assert_eq!(req.kind, 2);
    assert_eq!(req.url, "");
    assert!(req.headers.is_empty());
    assert_eq!(
        req.body,
        "{\"messages\":[{\"content\":\"You are a PMOS agent.\",\"role\":\"system\"},{\"content\":\"x\",\"role\":\"user\"}],\"model\":\"m1\"}"
    );
}

#[test]
fn carriage_return_deltas_replace_the_text_so_far() {
    let mut ai = AiState::new();
    ai.prompt(AgentId(AGENT_ASSISTANT), Pid(4), "q".into()).unwrap();
    assert_eq!(ai.chunk(AGENT_ASSISTANT, "downloading 10%", false), Some(Pid(4)));
    assert_eq!(ai.chunk(AGENT_ASSISTANT, "\rdownloading 20%", false), Some(Pid(4)));
    assert_eq!(ai.streams[&AGENT_ASSISTANT].1, "downloading 20%");
    assert_eq!(ai.chunk(AGENT_ASSISTANT, "\rHello", false), Some(Pid(4)));
    assert_eq!(ai.chunk(AGENT_ASSISTANT, " there", true), Some(Pid(4)));
    let h = &ai.history[&AGENT_ASSISTANT];
    assert_eq!(h.last().unwrap(), &("assistant".to_string(), "Hello there".to_string()));
}

#[test]
fn a_progress_line_that_ends_the_stream_is_what_history_keeps() {
    let mut ai = AiState::new();
    ai.prompt(AgentId(AGENT_ASSISTANT), Pid(4), "q".into()).unwrap();
    ai.chunk(AGENT_ASSISTANT, "downloading 10%", false);
    assert_eq!(ai.chunk(AGENT_ASSISTANT, "\rdownloading 20%", true), Some(Pid(4)));
    let h = &ai.history[&AGENT_ASSISTANT];
    assert_eq!(h.last().unwrap(), &("assistant".to_string(), "downloading 20%".to_string()));
}
