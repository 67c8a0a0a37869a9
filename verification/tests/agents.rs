use openclaw_sync::agents::{
    agent_models_path, agents_dir, central_providers, get_agent_models, get_provider_sync_status,
    list_agent_names, provider_sync_status, reconcile_documents, sync_agent_text,
    sync_status_of_documents, update_agent_providers_from_openclaw, AgentDirEntry, SyncError,
};
use openclaw_sync::codec::{parse, to_pretty};
use openclaw_sync::json::Json;
use std::path::PathBuf;

fn names(list: &[&str]) -> Vec<String> {
    list.iter().map(|s| s.to_string()).collect()
}

fn entry(name: &str, is_dir: bool, has_models_file: bool) -> AgentDirEntry {
    AgentDirEntry { name: name.to_string(), is_dir, has_models_file }
}

fn doc(text: &str) -> Json {
    match parse(text) {
        Ok(d) => d,
        Err(e) => panic!("not JSON: {}", e.message),
    }
}

fn pretty(d: &Json) -> String {
    match to_pretty(d) {
        Ok(t) => t,
        Err(e) => panic!("not written: {}", e.message),
    }
}

fn canonical(text: &str) -> String {
    let value: serde_json::Value = serde_json::from_str(text).expect("JSON");
    serde_json::to_string_pretty(&value).expect("text")
}

#[test]
fn test_agents_dir_path() {
    let p: PathBuf = agents_dir().iter().collect();
    assert!(p.to_string_lossy().contains("openclaw"));
    assert!(p.to_string_lossy().ends_with("agents"));
}

#[test]
fn test_agent_models_path() {
    let p: PathBuf = agent_models_path("main").iter().collect();
    assert!(p.to_string_lossy().contains("main"));
    assert!(p.to_string_lossy().ends_with("models.json"));
}

#[test]
fn test_list_agent_names_no_panic() {
    let _ = list_agent_names(&Vec::new());
}

#[test]
fn agent_models_path_components() {
    assert_eq!(agents_dir(), names(&[".openclaw", "agents"]));
    assert_eq!(
        agent_models_path("dev"),
        names(&[".openclaw", "agents", "dev", "agent", "models.json"])
    );
}

#[test]
fn known_agents_need_a_model_document() {
    let entries = vec![entry("main", true, true), entry("dev", true, false)];
    assert_eq!(list_agent_names(&entries), names(&["main"]));
}

#[test]
fn known_agents_are_sorted_and_files_are_skipped() {
    let entries = vec![
        entry("zeta", true, true),
        entry("notes.txt", false, true),
        entry("alpha", true, true),
        entry("beta", true, false),
        entry("Main", true, true),
        entry("alpha", true, true),
    ];
    assert_eq!(list_agent_names(&entries), names(&["Main", "alpha", "alpha", "zeta"]));
}

#[test]
fn sync_status_of_equal_sets() {
    let s = provider_sync_status(names(&["a", "b"]), names(&["b", "a"]));
    assert!(s.in_sync);
    assert!(s.missing_in_agent.is_empty());
    assert!(s.extra_in_agent.is_empty());
    assert_eq!(s.openclaw_provider_names, names(&["a", "b"]));
    assert_eq!(s.agent_provider_names, names(&["b", "a"]));
}

#[test]
fn sync_status_differences() {
    let s = provider_sync_status(names(&["anthropic", "ollama", "openai"]), names(&["local", "ollama"]));
    assert!(!s.in_sync);
    assert_eq!(s.missing_in_agent, names(&["anthropic", "openai"]));
    assert_eq!(s.extra_in_agent, names(&["local"]));
    for n in &s.missing_in_agent {
        assert!(!s.agent_provider_names.contains(n));
    }
    for n in &s.extra_in_agent {
        assert!(!s.openclaw_provider_names.contains(n));
    }
}

#[test]
fn sync_status_from_texts() {
    let central = r#"{"models":{"providers":{"ollama":{},"anthropic":{}}}}"#;
    let agent = r#"{"providers":{"ollama":{},"lmstudio":{}}}"#;
    let s = get_provider_sync_status(Some(central), "main", Some(agent));
    assert!(!s.in_sync);
    assert_eq!(s.openclaw_provider_names, names(&["anthropic", "ollama"]));
    assert_eq!(s.agent_provider_names, names(&["lmstudio", "ollama"]));
    assert_eq!(s.missing_in_agent, names(&["anthropic"]));
    assert_eq!(s.extra_in_agent, names(&["lmstudio"]));
}

#[test]
fn sync_status_missing_agent_document_is_no_providers() {
    let central = r#"{"models":{"providers":{"ollama":{}}}}"#;
    let s = get_provider_sync_status(Some(central), "main", None);
    assert!(!s.in_sync);
    assert!(s.agent_provider_names.is_empty());
    assert_eq!(s.missing_in_agent, names(&["ollama"]));
    assert!(s.extra_in_agent.is_empty());
    let both_unreadable = get_provider_sync_status(None, "main", Some("not json"));
    assert!(both_unreadable.in_sync);
}

#[test]
fn agent_view_projects_providers() {
    let text = r#"{"providers":{
        "ollama":{"baseUrl":"http://127.0.0.1:11434","api":"openai","models":[{"id":"a"},{"id":"b"}]},
        "anthropic":{"apiKey":"sk-1","models":"none"},
        "flagged":{"apiKey":true},
        "empty":{"apiKey":""},
        "off":{"apiKey":false},
        "odd":{"apiKey":7,"baseUrl":3}
    }}"#;
    let view = get_agent_models("main", Some(text)).expect("a view");
    assert_eq!(view.agent_name, "main");
    assert_eq!(view.provider_names, names(&["anthropic", "empty", "flagged", "odd", "off", "ollama"]));
    assert_eq!(view.providers.len(), 6);
    for (i, (name, _)) in view.providers.iter().enumerate() {
        assert_eq!(name, &view.provider_names[i]);
    }
    let get = |n: &str| &view.providers.iter().find(|(k, _)| k == n).expect("provider").1;
    assert_eq!(get("ollama").base_url.as_deref(), Some("http://127.0.0.1:11434"));
    assert_eq!(get("ollama").api.as_deref(), Some("openai"));
    assert_eq!(get("ollama").models_count, 2);
    assert!(!get("ollama").api_key_set);
    assert!(get("anthropic").api_key_set);
    assert_eq!(get("anthropic").models_count, 0);
    assert!(get("anthropic").base_url.is_none());
    assert!(get("flagged").api_key_set);
    assert!(!get("empty").api_key_set);
    assert!(!get("off").api_key_set);
    assert!(!get("odd").api_key_set);
    assert!(get("odd").base_url.is_none());
}

#[test]
fn agent_view_absent_for_malformed_text() {
    assert!(get_agent_models("main", Some("{ not json")).is_none());
    assert!(get_agent_models("main", Some("")).is_none());
    assert!(get_agent_models("main", None).is_none());
}

#[test]
fn agent_view_absent_without_providers_object() {
    assert!(get_agent_models("main", Some("{}")).is_none());
    assert!(get_agent_models("main", Some(r#"{"providers":[]}"#)).is_none());
    assert!(get_agent_models("main", Some("[]")).is_none());
    assert!(get_agent_models("main", Some(r#"{"providers":{}}"#)).is_some());
}

#[test]
fn reconcile_keeps_agent_key_and_takes_other_fields() {
    let central = doc(r#"{"p":{"apiKey":"X","baseUrl":"https://c","api":"new","models":[1]}}"#);
    let agent = doc(r#"{"providers":{"p":{"apiKey":"Y","baseUrl":"https://old","extra":1}},"note":"kept"}"#);
    let merged = match reconcile_documents(&central, Some(agent)) {
        Ok(d) => d,
        Err(_) => panic!("merge refused"),
    };
    assert_eq!(
        pretty(&merged),
        canonical(r#"{"note":"kept","providers":{"p":{"apiKey":"Y","baseUrl":"https://c","api":"new","models":[1]}}}"#)
    );
}

#[test]
fn reconcile_keeps_agent_only_provider() {
    let central = doc(r#"{"p":{"baseUrl":"https://c"}}"#);
    let agent = doc(r#"{"providers":{"q":{"apiKey":"Q","models":[1,2]}}}"#);
    let merged = match reconcile_documents(&central, Some(agent)) {
        Ok(d) => d,
        Err(_) => panic!("merge refused"),
    };
    assert_eq!(
        pretty(&merged),
        canonical(r#"{"providers":{"p":{"baseUrl":"https://c"},"q":{"apiKey":"Q","models":[1,2]}}}"#)
    );
}

#[test]
fn reconcile_without_agent_key_takes_central_key() {
    let central = doc(r#"{"p":{"apiKey":"X"},"n":5}"#);
    let agent = doc(r#"{"providers":{"p":{"baseUrl":"u"},"n":{"apiKey":"K"}}}"#);
    let merged = match reconcile_documents(&central, Some(agent)) {
        Ok(d) => d,
        Err(_) => panic!("merge refused"),
    };
    assert_eq!(pretty(&merged), canonical(r#"{"providers":{"p":{"apiKey":"X"},"n":5}}"#));
}

#[test]
fn reconcile_is_idempotent() {
    let central = r#"{"models":{"providers":{"p":{"apiKey":"X","api":"a"},"r":{"models":[]}}}}"#;
    let agent = r#"{"providers":{"p":{"apiKey":"Y"},"q":{"apiKey":"Q"}}}"#;
    let once = match update_agent_providers_from_openclaw(central, Some(agent)) {
        Ok(t) => t,
        Err(e) => panic!("{}", e.message()),
    };
    let twice = match update_agent_providers_from_openclaw(central, Some(&once)) {
        Ok(t) => t,
        Err(e) => panic!("{}", e.message()),
    };
    assert_eq!(once, twice);
    let status = get_provider_sync_status(Some(central), "main", Some(&once));
    assert!(status.missing_in_agent.is_empty());
    assert_eq!(status.extra_in_agent, names(&["q"]));
}

#[test]
fn reconcile_seeds_missing_agent_document() {
    let central = r#"{"models":{"providers":{"ollama":{"baseUrl":"http://x"}}}}"#;
    let text = match update_agent_providers_from_openclaw(central, None) {
        Ok(t) => t,
        Err(e) => panic!("{}", e.message()),
    };
    assert_eq!(text, "{\n  \"providers\": {\n    \"ollama\": {\n      \"baseUrl\": \"http://x\"\n    }\n  }\n}");
    let no_section = match update_agent_providers_from_openclaw("{}", None) {
        Ok(t) => t,
        Err(e) => panic!("{}", e.message()),
    };
    assert_eq!(no_section, "{\n  \"providers\": {}\n}");
}

#[test]
fn reconcile_adds_providers_member_where_missing() {
    let central = r#"{"models":{"providers":{"a":{}}}}"#;
    let text = match update_agent_providers_from_openclaw(central, Some(r#"{"other":1}"#)) {
        Ok(t) => t,
        Err(e) => panic!("{}", e.message()),
    };
    assert_eq!(text, canonical(r#"{"other":1,"providers":{"a":{}}}"#));
}

#[test]
fn reconcile_errors() {
    let ok_central = r#"{"models":{"providers":{}}}"#;
    match update_agent_providers_from_openclaw("nope", None) {
        Err(SyncError::CentralParse(m)) => assert!(!m.is_empty()),
        _ => panic!("expected a parse error of the central configuration"),
    }
    match update_agent_providers_from_openclaw(r#"{"models":{"providers":[]}}"#, None) {
        Err(e @ SyncError::CentralProvidersNotObject) => {
            assert_eq!(e.message(), "openclaw providers not an object")
        }
        _ => panic!("expected a shape error of the central providers"),
    }
    match update_agent_providers_from_openclaw(ok_central, Some("{")) {
        Err(SyncError::AgentParse(m)) => assert!(!m.is_empty()),
        _ => panic!("expected a parse error of the agent document"),
    }
    match update_agent_providers_from_openclaw(ok_central, Some("[1]")) {
        Err(e @ SyncError::AgentRootNotObject) => {
            assert_eq!(e.message(), "models.json root not an object")
        }
        _ => panic!("expected a shape error of the agent document"),
    }
    match update_agent_providers_from_openclaw(ok_central, Some(r#"{"providers":"x"}"#)) {
        Err(e @ SyncError::AgentProvidersNotObject) => {
            assert_eq!(e.message(), "models.json providers not an object")
        }
        _ => panic!("expected a shape error of the agent providers"),
    }
}

#[test]
fn agent_view_shows_a_provider_that_is_no_object() {
    let view = get_agent_models("main", Some(r#"{"providers":{"p":"x","q":{}}}"#)).expect("a view");
    assert_eq!(view.provider_names, names(&["p", "q"]));
    assert_eq!(view.providers.len(), 2);
    let (name, p) = &view.providers[0];
    assert_eq!(name, "p");
    assert!(p.base_url.is_none());
    assert!(!p.api_key_set);
    assert!(p.api.is_none());
    assert_eq!(p.models_count, 0);
    let (name, q) = &view.providers[1];
    assert_eq!(name, "q");
    assert!(q.base_url.is_none() && !q.api_key_set && q.api.is_none());
    assert_eq!(q.models_count, 0);
    for text in [r#"{"providers":{"a":1}}"#, r#"{"providers":{"a":null,"b":[1],"c":true}}"#] {
        let shown = get_agent_models("main", Some(text)).expect("a view");
        for (_, v) in &shown.providers {
            assert!(v.base_url.is_none() && !v.api_key_set && v.api.is_none());
            assert_eq!(v.models_count, 0);
        }
    }
}

#[test]
fn nothing_is_missing_after_reconcile() {
    let cases = [
        (r#"{"models":{"providers":{"p":5,"r":{"api":"x"}}}}"#, Some(r#"{"providers":{"q":"text","p":{"apiKey":"k"}}}"#), vec!["q"]),
        (r#"{"models":{"providers":{"p":{}}}}"#, None, vec![]),
        (r#"{"models":{"providers":{"p":null}}}"#, Some(r#"{"other":1}"#), vec![]),
        (r#"{}"#, Some(r#"{"providers":{"x":{},"y":1}}"#), vec!["x", "y"]),
    ];
    for (central, agent, beyond) in cases {
        let written = match update_agent_providers_from_openclaw(central, agent) {
            Ok(t) => t,
            Err(e) => panic!("{}", e.message()),
        };
        let status = get_provider_sync_status(Some(central), "main", Some(&written));
        assert!(status.missing_in_agent.is_empty(), "for {}", central);
        assert_eq!(status.extra_in_agent, names(&beyond), "for {}", central);
        assert_eq!(status.in_sync, beyond.is_empty(), "for {}", central);
    }
}

#[test]
fn sync_status_of_documents_counts_what_cannot_be_shown_as_empty() {
    let config = doc(r#"{"models":{"providers":{"b":{},"a":1}}}"#);
    let agent = doc(r#"{"providers":{"a":{},"c":"x"}}"#);
    let status = sync_status_of_documents(Some(&config), "main", Some(&agent));
    assert_eq!(status.openclaw_provider_names, names(&["a", "b"]));
    assert_eq!(status.agent_provider_names, names(&["a", "c"]));
    assert_eq!(status.missing_in_agent, names(&["b"]));
    assert_eq!(status.extra_in_agent, names(&["c"]));
    assert!(!status.in_sync);
    let no_agent = sync_status_of_documents(Some(&config), "main", None);
    assert_eq!(no_agent.missing_in_agent, names(&["a", "b"]));
    let array_root = doc("[1]");
    let nothing = sync_status_of_documents(Some(&array_root), "main", Some(&array_root));
    assert!(nothing.in_sync);
    assert!(nothing.openclaw_provider_names.is_empty() && nothing.agent_provider_names.is_empty());
}

#[test]
fn central_providers_are_read_before_the_agent_document() {
    let section = match central_providers(r#"{"models":{"providers":{"a":{"x":1}}}}"#) {
        Ok(s) => s,
        Err(e) => panic!("{}", e.message()),
    };
    assert_eq!(pretty(&section), canonical(r#"{"a":{"x":1}}"#));
    assert!(matches!(central_providers("{"), Err(SyncError::CentralParse(_))));
    assert!(matches!(
        central_providers(r#"{"models":{"providers":3}}"#),
        Err(SyncError::CentralProvidersNotObject)
    ));
    assert!(matches!(
        update_agent_providers_from_openclaw("{", Some("{")),
        Err(SyncError::CentralParse(_))
    ));
    assert!(matches!(
        update_agent_providers_from_openclaw(r#"{"models":{"providers":3}}"#, Some("{")),
        Err(SyncError::CentralProvidersNotObject)
    ));
    assert!(matches!(sync_agent_text(&section, Some("{")), Err(SyncError::AgentParse(_))));
    assert!(matches!(
        sync_agent_text(&doc("[]"), Some("{")),
        Err(SyncError::CentralProvidersNotObject)
    ));
    let text = match sync_agent_text(&section, Some(r#"{"providers":{"b":2}}"#)) {
        Ok(t) => t,
        Err(e) => panic!("{}", e.message()),
    };
    assert_eq!(text, canonical(r#"{"providers":{"a":{"x":1},"b":2}}"#));
}
