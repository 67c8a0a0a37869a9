use openclaw_sync::codec::{parse, to_pretty};
use openclaw_sync::json::Json;
use openclaw_sync::openclaw_config::{
    default_view, ensure_agents_defaults, ensure_subagents, get_openclaw_config,
    get_openclaw_providers_raw, openclaw_config_path, parse_config_view, set_nested,
    update_openclaw_config, updated_document, view_of_document, OpenClawConfigUpdates,
    SubagentsView, UpdateError,
};
use std::path::PathBuf;

fn doc(text: &str) -> Json {
    match parse(text) {
        Ok(d) => d,
        Err(e) => panic!("not JSON: {}", e.message),
    }
}

fn pretty(d: &Json) -> String {
    match to_pretty(d) {
        Ok(t) => t,
        Err(e) => panic!("not written: {}", e.message),
    }
}

fn canonical(text: &str) -> String {
    let value: serde_json::Value = serde_json::from_str(text).expect("JSON");
    serde_json::to_string_pretty(&value).expect("text")
}

fn no_updates() -> OpenClawConfigUpdates {
    OpenClawConfigUpdates {
        primary_model: None,
        fallbacks: None,
        max_concurrent: None,
        subagents_max_concurrent: None,
        subagents_max_spawn_depth: None,
        subagents_max_children_per_agent: None,
    }
}

fn update(existing: Option<&str>, updates: OpenClawConfigUpdates) -> String {
    match update_openclaw_config(existing, updates) {
        Ok(t) => t,
        Err(e) => panic!("{}", e.message()),
    }
}

#[test]
fn test_openclaw_config_path() {
    let p: PathBuf = openclaw_config_path().iter().collect();
    assert!(p.to_string_lossy().contains("openclaw"));
    assert!(p.to_string_lossy().ends_with("openclaw.json"));
}

#[test]
fn test_parse_config_view_empty() {
    let view = parse_config_view("{}").unwrap();
    assert!(view.provider_names.is_empty());
    assert!(view.primary_model.is_none());
    assert!(view.models.is_empty());
}

#[test]
fn test_parse_config_view_providers_and_primary() {
    let json = r#"{
            "models": {
                "providers": {
                    "ollama": {},
                    "anthropic": {},
                    "nvidia-nim": {}
                }
            },
            "agents": {
                "defaults": {
                    "model": {
                        "primary": "anthropic/sonnet-4-5",
                        "fallbacks": ["openai/gpt-5-mini"]
                    },
                    "models": {
                        "anthropic/sonnet-4-5": { "alias": "sonnet" },
                        "anthropic/haiku-4-5": { "alias": "haiku" }
                    },
                    "maxConcurrent": 4,
                    "subagents": {
                        "maxConcurrent": 8,
                        "maxSpawnDepth": 2,
                        "maxChildrenPerAgent": 5
                    }
                }
            }
        }"#;
    let view = parse_config_view(json).unwrap();
    assert_eq!(view.provider_names.len(), 3);
    assert!(view.provider_names.contains(&"ollama".to_string()));
    assert!(view.provider_names.contains(&"anthropic".to_string()));
    assert!(view.provider_names.contains(&"nvidia-nim".to_string()));
    assert_eq!(view.primary_model.as_deref(), Some("anthropic/sonnet-4-5"));
    assert_eq!(view.fallbacks, vec!["openai/gpt-5-mini"]);
    assert_eq!(view.models.len(), 2);
    assert!(view.models.contains(&"anthropic/sonnet-4-5".to_string()));
    assert_eq!(view.max_concurrent, Some(4));
    assert_eq!(view.subagents.max_concurrent, Some(8));
    assert_eq!(view.subagents.max_spawn_depth, Some(2));
    assert_eq!(view.subagents.max_children_per_agent, Some(5));
}

#[test]
fn test_parse_config_view_invalid_returns_err() {
    assert!(parse_config_view("not json").is_err());
    assert!(parse_config_view("[]").is_err());
}

#[test]
fn test_get_openclaw_config_no_panic() {
    let view = get_openclaw_config(None);
    assert!(view.provider_names.len() <= 100);
    assert!(view.models.len() <= 500);
    assert!(view.subagents.max_spawn_depth.map(|d| (1..=5).contains(&d)).unwrap_or(true));
    assert!(view
        .subagents
        .max_children_per_agent
        .map(|c| (1..=20).contains(&c))
        .unwrap_or(true));
}

#[test]
fn view_of_empty_document_is_all_defaults() {
    let view = parse_config_view("{}").unwrap();
    assert!(view.provider_names.is_empty());
    assert!(view.primary_model.is_none());
    assert!(view.fallbacks.is_empty());
    assert!(view.models.is_empty());
    assert!(view.max_concurrent.is_none());
    assert_eq!(view.subagents.max_concurrent, Some(8));
    assert_eq!(view.subagents.max_spawn_depth, Some(1));
    assert_eq!(view.subagents.max_children_per_agent, Some(5));
}

#[test]
fn view_of_document_with_providers_and_primary() {
    let text = r#"{"models":{"providers":{"ollama":{},"anthropic":{}}},"agents":{"defaults":{"model":{"primary":"anthropic/sonnet-4-5","fallbacks":["openai/gpt-5-mini"]},"maxConcurrent":4}}}"#;
    let view = parse_config_view(text).unwrap();
    assert_eq!(view.provider_names, vec!["anthropic", "ollama"]);
    assert_eq!(view.primary_model.as_deref(), Some("anthropic/sonnet-4-5"));
    assert_eq!(view.fallbacks, vec!["openai/gpt-5-mini"]);
    assert_eq!(view.max_concurrent, Some(4));
    assert_eq!(view.subagents.max_concurrent, Some(8));
    assert_eq!(view.subagents.max_spawn_depth, Some(1));
    assert_eq!(view.subagents.max_children_per_agent, Some(5));
}

#[test]
fn subagent_defaults_apply_per_field() {
    let text = r#"{"agents":{"defaults":{"subagents":{"maxSpawnDepth":3,"maxConcurrent":"many","maxChildrenPerAgent":-2}}}}"#;
    let view = parse_config_view(text).unwrap();
    assert_eq!(view.subagents.max_concurrent, Some(8));
    assert_eq!(view.subagents.max_spawn_depth, Some(3));
    assert_eq!(view.subagents.max_children_per_agent, Some(5));
    let not_an_object = parse_config_view(r#"{"agents":{"defaults":{"subagents":7}}}"#).unwrap();
    assert_eq!(not_an_object.subagents.max_spawn_depth, Some(1));
}

#[test]
fn view_ignores_fields_of_the_wrong_kind() {
    let text = r#"{"models":{"providers":[1]},"agents":{"defaults":{"model":{"primary":5,"fallbacks":["a",1,null,"b",{"c":1}]},"models":"x","maxConcurrent":2.5}}}"#;
    let view = parse_config_view(text).unwrap();
    assert!(view.provider_names.is_empty());
    assert!(view.primary_model.is_none());
    assert_eq!(view.fallbacks, vec!["a", "b"]);
    assert!(view.models.is_empty());
    assert!(view.max_concurrent.is_none());
    let negative = parse_config_view(r#"{"agents":{"defaults":{"maxConcurrent":-1}}}"#).unwrap();
    assert!(negative.max_concurrent.is_none());
}

#[test]
fn limits_keep_their_low_32_bits() {
    let view = parse_config_view(r#"{"agents":{"defaults":{"maxConcurrent":4294967300}}}"#).unwrap();
    assert_eq!(view.max_concurrent, Some(4));
    let top = parse_config_view(r#"{"agents":{"defaults":{"maxConcurrent":4294967295}}}"#).unwrap();
    assert_eq!(top.max_concurrent, Some(4294967295));
}

#[test]
fn model_names_are_sorted() {
    let view = parse_config_view(r#"{"agents":{"defaults":{"models":{"b/x":{},"a/y":{},"B":1}}}}"#).unwrap();
    assert_eq!(view.models, vec!["B", "a/y", "b/x"]);
}

#[test]
fn unreadable_configuration_gives_default_view() {
    for content in [None, Some("not json"), Some("[]"), Some("3")] {
        let view = get_openclaw_config(content);
        assert!(view.provider_names.is_empty());
        assert!(view.primary_model.is_none());
        assert!(view.fallbacks.is_empty());
        assert!(view.models.is_empty());
        assert!(view.max_concurrent.is_none());
        assert_eq!(view.subagents.max_concurrent, Some(8));
        assert_eq!(view.subagents.max_spawn_depth, Some(1));
        assert_eq!(view.subagents.max_children_per_agent, Some(5));
    }
    let d = default_view();
    assert!(d.provider_names.is_empty());
    let s = SubagentsView::default();
    assert_eq!((s.max_concurrent, s.max_spawn_depth, s.max_children_per_agent), (Some(8), Some(1), Some(5)));
    assert!(view_of_document(&doc("[1]")).is_none());
}

#[test]
fn providers_raw_section() {
    let section = match get_openclaw_providers_raw(r#"{"models":{"providers":{"a":{"x":1}}}}"#) {
        Ok(s) => s,
        Err(e) => panic!("{}", e.message()),
    };
    assert_eq!(pretty(&section), canonical(r#"{"a":{"x":1}}"#));
    let missing = match get_openclaw_providers_raw("{}") {
        Ok(s) => s,
        Err(e) => panic!("{}", e.message()),
    };
    assert_eq!(pretty(&missing), "{}");
    assert!(matches!(get_openclaw_providers_raw("{"), Err(UpdateError::Parse(_))));
}

#[test]
fn set_nested_creates_objects_and_keeps_siblings() {
    let mut d = doc(r#"{"a":{"keep":1},"b":2}"#);
    set_nested(&mut d, &["a", "x", "y"], Json::unsigned(7));
    assert_eq!(pretty(&d), canonical(r#"{"a":{"keep":1,"x":{"y":7}},"b":2}"#));
    set_nested(&mut d, &["b", "c"], Json::text("v"));
    assert_eq!(pretty(&d), canonical(r#"{"a":{"keep":1,"x":{"y":7}},"b":{"c":"v"}}"#));
    set_nested(&mut d, &["a"], Json::Null);
    assert_eq!(pretty(&d), canonical(r#"{"a":null,"b":{"c":"v"}}"#));
}

#[test]
fn set_nested_leaves_non_objects_and_empty_paths() {
    let mut d = doc("[1,2]");
    set_nested(&mut d, &["a", "b"], Json::unsigned(1));
    assert_eq!(pretty(&d), canonical("[1,2]"));
    let mut e = doc(r#"{"a":1}"#);
    set_nested(&mut e, &[], Json::unsigned(1));
    assert_eq!(pretty(&e), canonical(r#"{"a":1}"#));
}

#[test]
fn scaffold_is_created_where_missing() {
    let mut d = doc("{}");
    ensure_agents_defaults(&mut d);
    assert_eq!(pretty(&d), canonical(r#"{"agents":{"defaults":{"model":{}}}}"#));
    ensure_subagents(&mut d);
    assert_eq!(
        pretty(&d),
        canonical(r#"{"agents":{"defaults":{"model":{},"subagents":{"maxConcurrent":8,"maxSpawnDepth":1,"maxChildrenPerAgent":5}}}}"#)
    );
    let mut kept = doc(r#"{"agents":{"defaults":{"model":{"primary":"p"},"subagents":{"maxSpawnDepth":4},"x":1},"y":2}}"#);
    let before = pretty(&kept);
    ensure_agents_defaults(&mut kept);
    ensure_subagents(&mut kept);
    assert_eq!(pretty(&kept), before);
    let mut partial = doc(r#"{"agents":{"defaults":{"x":1}}}"#);
    ensure_agents_defaults(&mut partial);
    assert_eq!(pretty(&partial), canonical(r#"{"agents":{"defaults":{"x":1,"model":{}}}}"#));
}

#[test]
fn sparse_update_keeps_other_fields() {
    let existing = r#"{"agents":{"defaults":{"model":{"primary":"old","fallbacks":["f1","f2"]},"maxConcurrent":4,"subagents":{"maxConcurrent":2,"maxSpawnDepth":3,"maxChildrenPerAgent":9},"models":{"m":{}}}},"models":{"providers":{"ollama":{"apiKey":"k"}}},"other":[1,2.5,"x"]}"#;
    let mut updates = no_updates();
    updates.primary_model = Some("new/model".to_string());
    let text = update(Some(existing), updates);
    assert_eq!(
        text,
        canonical(r#"{"agents":{"defaults":{"model":{"primary":"new/model","fallbacks":["f1","f2"]},"maxConcurrent":4,"subagents":{"maxConcurrent":2,"maxSpawnDepth":3,"maxChildrenPerAgent":9},"models":{"m":{}}}},"models":{"providers":{"ollama":{"apiKey":"k"}}},"other":[1,2.5,"x"]}"#)
    );
    let view = parse_config_view(&text).unwrap();
    assert_eq!(view.primary_model.as_deref(), Some("new/model"));
    assert_eq!(view.fallbacks, vec!["f1", "f2"]);
    assert_eq!(view.max_concurrent, Some(4));
    assert_eq!(view.subagents.max_spawn_depth, Some(3));
}

#[test]
fn update_sets_every_named_field() {
    let updates = OpenClawConfigUpdates {
        primary_model: Some("p".to_string()),
        fallbacks: Some(vec!["a".to_string(), "b".to_string()]),
        max_concurrent: Some(3),
        subagents_max_concurrent: Some(6),
        subagents_max_spawn_depth: Some(2),
        subagents_max_children_per_agent: Some(7),
    };
    let text = update(Some("{}"), updates);
    assert_eq!(
        text,
        canonical(r#"{"agents":{"defaults":{"model":{"primary":"p","fallbacks":["a","b"]},"maxConcurrent":3,"subagents":{"maxConcurrent":6,"maxSpawnDepth":2,"maxChildrenPerAgent":7}}}}"#)
    );
}

#[test]
fn update_without_a_file_starts_from_the_seed() {
    let text = update(None, no_updates());
    assert_eq!(
        text,
        canonical(r#"{"agents":{"defaults":{"model":{},"subagents":{"maxConcurrent":8,"maxSpawnDepth":1,"maxChildrenPerAgent":5}}},"models":{"providers":{}}}"#)
    );
}

#[test]
fn update_replaces_what_is_no_object_on_the_way() {
    let mut updates = no_updates();
    updates.primary_model = Some("p".to_string());
    let text = update(Some(r#"{"agents":{"defaults":{"model":"plain","k":1}}}"#), updates);
    assert_eq!(
        text,
        canonical(r#"{"agents":{"defaults":{"model":{"primary":"p"},"k":1,"subagents":{"maxConcurrent":8,"maxSpawnDepth":1,"maxChildrenPerAgent":5}}}}"#)
    );
    let from_scalar = update(Some(r#"{"agents":5}"#), no_updates());
    assert_eq!(
        from_scalar,
        canonical(r#"{"agents":{"defaults":{"model":{},"subagents":{"maxConcurrent":8,"maxSpawnDepth":1,"maxChildrenPerAgent":5}}}}"#)
    );
}

#[test]
fn update_errors() {
    match update_openclaw_config(Some("{ nope"), no_updates()) {
        Err(UpdateError::Parse(m)) => assert!(!m.is_empty()),
        _ => panic!("expected a parse error"),
    }
    match update_openclaw_config(Some("[1]"), no_updates()) {
        Err(e @ UpdateError::NotAnObject) => assert_eq!(e.message(), "openclaw.json root not an object"),
        _ => panic!("expected a shape error"),
    }
    assert!(matches!(updated_document(Some(doc("7")), &no_updates()), Err(UpdateError::NotAnObject)));
}

#[test]
fn pretty_text_is_indented_and_sorted_by_key() {
    let d = doc(r#"{"b":[1,{"z":null,"a":true}],"a":"x"}"#);
    assert_eq!(
        pretty(&d),
        "{\n  \"a\": \"x\",\n  \"b\": [\n    1,\n    {\n      \"a\": true,\n      \"z\": null\n    }\n  ]\n}"
    );
}

#[test]
fn numbers_survive_reading_and_writing() {
    let text = r#"[0,18446744073709551615,-1,-9223372036854775808,1.5,-0.0,1e300,2.5e-7]"#;
    let d = doc(text);
    assert_eq!(pretty(&d), pretty(&doc(&pretty(&d))));
    let items = d.as_array().expect("an array");
    assert_eq!(items[0].as_u64(), Some(0));
    assert_eq!(items[1].as_u64(), Some(18446744073709551615));
    assert_eq!(items[2].as_u64(), None);
    assert_eq!(items[4].as_u64(), None);
    assert_eq!(pretty(&d), canonical(text));
    assert!(pretty(&d).starts_with("[\n  0,\n  18446744073709551615,\n  -1,\n  -9223372036854775808,\n  1.5,"));
}

#[test]
fn duplicate_keys_count_once_the_last_wins() {
    let d = doc(r#"{"a":1,"a":2}"#);
    assert_eq!(d.get("a").and_then(|v| v.as_u64()), Some(2));
    let built = Json::Object(vec![
        ("k".to_string(), Json::unsigned(1)),
        ("j".to_string(), Json::Bool(true)),
        ("k".to_string(), Json::text("last")),
    ]);
    assert_eq!(built.get("k").and_then(|v| v.as_str()), Some("last"));
    assert_eq!(pretty(&built), canonical(r#"{"j":true,"k":"last"}"#));
    let mut replaced = built.duplicate();
    replaced.insert("k", Json::Null);
    assert_eq!(pretty(&replaced), canonical(r#"{"j":true,"k":null}"#));
}

#[test]
fn accessors_tell_kinds_apart() {
    let d = doc(r#"{"s":"x","b":false,"n":12,"a":[1,"two"],"o":{"k":null},"z":null}"#);
    assert!(d.is_object());
    assert_eq!(d.get("s").and_then(|v| v.as_str()), Some("x"));
    assert_eq!(d.get("b").and_then(|v| v.as_bool()), Some(false));
    assert_eq!(d.get("n").and_then(|v| v.as_u64()), Some(12));
    assert_eq!(d.get("a").and_then(|v| v.as_array()).map(|a| a.len()), Some(2));
    assert_eq!(d.get("o").and_then(|v| v.as_object()).map(|o| o.len()), Some(1));
    assert!(d.get("missing").is_none());
    assert!(d.get("s").unwrap().get("x").is_none());
    assert!(d.get("n").unwrap().as_str().is_none());
    assert!(d.get("s").unwrap().as_u64().is_none());
    assert!(d.get("z").unwrap().as_bool().is_none());
    assert!(!d.get("a").unwrap().is_object());
    assert!(d.get("o").unwrap().as_array().is_none());
    assert!(d.get("a").unwrap().as_object().is_none());
    assert!(matches!(d.get("z"), Some(Json::Null)));
}

#[test]
fn parse_tells_json_from_other_text() {
    assert!(parse("{}").is_ok());
    assert!(parse(" [1, 2] ").is_ok());
    assert!(parse("\"text\"").is_ok());
    for bad in ["", "{", "{\"a\":}", "[1,]", "nul", "{} {}", "'a'"] {
        match parse(bad) {
            Ok(_) => panic!("read {:?} as JSON", bad),
            Err(e) => assert!(!e.message.is_empty()),
        }
    }
}

#[test]
fn copies_are_structural() {
    let d = doc(r#"{"a":[1,{"b":"c"},-2,0.5],"d":{"e":[]}}"#);
    let copy = d.duplicate();
    assert_eq!(pretty(&copy), pretty(&d));
    let mut changed = d.duplicate();
    set_nested(&mut changed, &["d", "e"], Json::Bool(true));
    assert_eq!(pretty(&d), canonical(r#"{"a":[1,{"b":"c"},-2,0.5],"d":{"e":[]}}"#));
    assert_eq!(pretty(&changed), canonical(r#"{"a":[1,{"b":"c"},-2,0.5],"d":{"e":true}}"#));
}
