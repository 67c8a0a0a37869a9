use openclaw_sync::detection::{
    command_exists, detect_lm_studio, detect_local_llms, detect_ollama, detect_vllm, lms_path,
    parse_version_line, CommandOutput,
};
use openclaw_sync::llmfit::{recommend_args, recommendation_limit, system_args};
use openclaw_sync::models_available::{ollama_model_names, parse_lm_studio_ls_output};
use openclaw_sync::order::{insert_unique, names_without, str_lt};
use openclaw_sync::settings::{add_model, check_gateway_status, save_api_key, Config};
use openclaw_sync::system::{bytes_to_human, system_info};

fn out(success: bool, stdout: &str) -> CommandOutput {
    CommandOutput { success, stdout: stdout.to_string() }
}

#[test]
fn test_parse_version_line() {
    assert_eq!(parse_version_line("ollama version 0.1.2"), Some("ollama version 0.1.2".into()));
    assert_eq!(parse_version_line("0.1.2\nnext"), Some("0.1.2".into()));
    assert_eq!(parse_version_line("  spaced  "), Some("spaced".into()));
    assert_eq!(parse_version_line(""), None);
    assert_eq!(parse_version_line("\n\n"), Some("".into()));
}

#[test]
fn test_parse_lm_studio_ls_output() {
    let out = "model-a\nmodel-b\nmodel-c";
    assert_eq!(parse_lm_studio_ls_output(out), ["model-a", "model-b", "model-c"]);

    let with_blanks = "a\n\nb\n  \nc";
    assert_eq!(parse_lm_studio_ls_output(with_blanks), ["a", "b", "c"]);

    let empty = "";
    assert!(parse_lm_studio_ls_output(empty).is_empty());
}

#[test]
fn test_bytes_to_human() {
    assert_eq!(bytes_to_human(0), "0 B");
    assert_eq!(bytes_to_human(1023), "1023 B");
    assert_eq!(bytes_to_human(1536), "1.5 KB");
    assert_eq!(bytes_to_human(1024 * 1024), "1.0 MB");
    assert_eq!(bytes_to_human(2 * 1024 * 1024 * 1024), "2.0 GB");
    assert_eq!(bytes_to_human(16 * 1024 * 1024 * 1024), "16.0 GB");
}

fn floating(bytes: u64) -> String {
    const GB: u64 = 1024 * 1024 * 1024;
    const MB: u64 = 1024 * 1024;
    const KB: u64 = 1024;
    if bytes >= GB {
        format!("{:.1} GB", bytes as f64 / GB as f64)
    } else if bytes >= MB {
        format!("{:.1} MB", bytes as f64 / MB as f64)
    } else if bytes >= KB {
        format!("{:.1} KB", bytes as f64 / KB as f64)
    } else {
        format!("{} B", bytes)
    }
}

#[test]
fn bytes_to_human_agrees_with_double_precision() {
    let mut samples: Vec<u64> = vec![
        0, 1, 9, 10, 999, 1023, 1024, 1025, 1075, 1076, 1126, 1127, 1280, 1791, 1792, 1793,
        10239, 10240, 1048575, 1048576, 1073741823, 1073741824, 1127428915, 1127428916,
        u64::MAX, u64::MAX - 1, u64::MAX - 1023, u64::MAX - 1024, u64::MAX - 1025,
        1 << 53, (1 << 53) + 1, (1 << 53) + 2, (1 << 53) + 3, (1 << 63) - 1, 1 << 63,
        (1 << 63) + 1024, (1 << 63) + 1025, (1 << 63) + 3072,
    ];
    for k in [10u32, 20, 30] {
        let unit = 1u64 << k;
        for whole in [1u64, 2, 3, 7, 99, 1023] {
            for twentieth in 0..20u64 {
                let base = whole * unit + unit / 20 * twentieth;
                for d in 0..4u64 {
                    samples.push(base + d);
                    samples.push(base - d);
                }
                samples.push(whole * unit + unit / 4);
                samples.push(whole * unit + unit / 4 * 3);
            }
        }
    }
    let mut x: u64 = 0x9E3779B97F4A7C15;
    for _ in 0..4000 {
        x ^= x << 13;
        x ^= x >> 7;
        x ^= x << 17;
        samples.push(x);
        samples.push(x >> 11);
        samples.push(x >> 29);
        samples.push((x >> 10) | (1 << 53));
        let boundary = (x >> 34) * (1u64 << 30) + (1u64 << 30) / 20 * (x % 20);
        samples.push(boundary);
        samples.push(boundary.wrapping_add(x % 3));
    }
    for b in samples {
        assert_eq!(bytes_to_human(b), floating(b), "for {}", b);
    }
}

#[test]
fn bytes_to_human_rounds_ties_to_even() {
    assert_eq!(bytes_to_human(1280), "1.2 KB");
    assert_eq!(bytes_to_human(1792), "1.8 KB");
    assert_eq!(bytes_to_human(1024 * 1024 - 1), "1024.0 KB");
    assert_eq!(bytes_to_human(u64::MAX), "17179869184.0 GB");
}

#[test]
fn system_info_shows_both_sizes() {
    let info = system_info(16 * 1024 * 1024 * 1024, 1536);
    assert_eq!(info.total_memory_bytes, 16 * 1024 * 1024 * 1024);
    assert_eq!(info.available_memory_bytes, 1536);
    assert_eq!(info.total_memory_human, "16.0 GB");
    assert_eq!(info.available_memory_human, "1.5 KB");
}

#[test]
fn version_line_edge_cases() {
    assert_eq!(parse_version_line("   "), Some("".into()));
    assert_eq!(parse_version_line("\n  v1 \r\nrest"), Some("v1".into()));
    assert_eq!(parse_version_line("a\tb  \n"), Some("a\tb".into()));
    assert_eq!(parse_version_line("\u{3000}x\u{a0}"), Some("x".into()));
    assert_eq!(parse_version_line("\u{200b}x"), Some("\u{200b}x".into()));
}

#[test]
fn version_line_agrees_with_std_on_samples() {
    let samples = [
        "ollama version 0.1.2", "0.1.2\nnext", "  spaced  ", "x", " \n x \n", "a\r\nb", "a\rb\nc",
        "\u{2028}a\u{2029}", "\ta\t", "é ü\n", "a \u{85}\nb", "v\u{1680}\n", "\u{feff}x",
    ];
    for s in samples {
        let t = s.trim();
        let expected = t.lines().next().map(|l| l.trim().to_string());
        if !t.is_empty() {
            assert_eq!(parse_version_line(s), expected, "for {:?}", s);
        }
    }
}

#[test]
fn lm_studio_listing_splits_on_tabs_and_lines() {
    assert_eq!(parse_lm_studio_ls_output("a\tb\r\n c \t\t d\n"), ["a", "b", "c", "d"]);
    assert_eq!(parse_lm_studio_ls_output("one two\n"), ["one two"]);
    assert!(parse_lm_studio_ls_output(" \t \n\r\n").is_empty());
    let samples = ["a\n\nb\n  \nc", "x\ty\nz", "\r\n\ta\r", "name with space\t other ", "a\r\tb"];
    for s in samples {
        let expected: Vec<String> = s
            .lines()
            .flat_map(|line| line.split('\t'))
            .map(str::trim)
            .filter(|p| !p.is_empty())
            .map(String::from)
            .collect();
        assert_eq!(parse_lm_studio_ls_output(s), expected, "for {:?}", s);
    }
}

#[test]
fn ollama_names_skip_missing_and_empty() {
    let models = Some(vec![
        Some("llama3.2".to_string()),
        None,
        Some("".to_string()),
        Some("qwen2.5:7b".to_string()),
    ]);
    assert_eq!(ollama_model_names(models), ["llama3.2", "qwen2.5:7b"]);
    assert!(ollama_model_names(Some(vec![])).is_empty());
    assert!(ollama_model_names(None).is_empty());
}

#[test]
fn command_path_is_the_first_line() {
    assert_eq!(command_exists(Some(&out(true, "/usr/bin/ollama\n"))), Some("/usr/bin/ollama".into()));
    assert_eq!(
        command_exists(Some(&out(true, "C:\\a\\lms.exe\r\nC:\\b\\lms.exe\r\n"))),
        Some("C:\\a\\lms.exe".into())
    );
    assert_eq!(command_exists(Some(&out(true, "  \n"))), None);
    assert_eq!(command_exists(Some(&out(false, "/usr/bin/ollama\n"))), None);
    assert_eq!(command_exists(None), None);
    assert_eq!(command_exists(Some(&out(true, "\n /a b \n/c"))), Some("/a b ".into()));
}

#[test]
fn runtime_status_from_probes() {
    let v = out(true, "ollama version 0.5.1\n");
    let s = detect_ollama(Some("/usr/bin/ollama".into()), true, Some(&v));
    assert!(s.installed && s.running);
    assert_eq!(s.version.as_deref(), Some("ollama version 0.5.1"));
    assert_eq!(s.path.as_deref(), Some("/usr/bin/ollama"));
    let missing = detect_ollama(None, false, Some(&v));
    assert!(!missing.installed && !missing.running);
    assert!(missing.version.is_none() && missing.path.is_none());
    let failed = detect_ollama(Some("/o".into()), false, Some(&out(false, "1.0")));
    assert!(failed.installed && failed.version.is_none());
    let unspawned = detect_ollama(Some("/o".into()), false, None);
    assert!(unspawned.version.is_none());

    let lm = detect_lm_studio(Some("/home/u/.lmstudio/bin/lms".into()), Some("/usr/bin/lms".into()), false, Some(&out(true, "0.3\n")));
    assert_eq!(lm.path.as_deref(), Some("/home/u/.lmstudio/bin/lms"));
    assert_eq!(lm.version.as_deref(), Some("0.3"));
    let lm2 = detect_lm_studio(None, Some("/usr/bin/lms".into()), true, None);
    assert_eq!(lm2.path.as_deref(), Some("/usr/bin/lms"));
    assert!(lm2.installed && lm2.running);
    assert!(!detect_lm_studio(None, None, false, None).installed);

    let vllm = detect_vllm(Some(&out(true, " 0.6.3\nextra \n")), true);
    assert!(vllm.installed && vllm.running && vllm.path.is_none());
    assert_eq!(vllm.version.as_deref(), Some("0.6.3\nextra"));
    let blank = detect_vllm(Some(&out(true, " \n")), false);
    assert!(blank.installed && blank.version.is_none());
    assert!(!detect_vllm(Some(&out(false, "1")), false).installed);
    assert!(!detect_vllm(None, false).installed);

    let all = detect_local_llms(s, lm2, vllm);
    assert_eq!(all.ollama.path.as_deref(), Some("/usr/bin/ollama"));
    assert_eq!(all.lm_studio.path.as_deref(), Some("/usr/bin/lms"));
    assert_eq!(all.vllm.version.as_deref(), Some("0.6.3\nextra"));
    assert_eq!(lms_path(false), [".lmstudio", "bin", "lms"]);
    assert_eq!(lms_path(true), [".lmstudio", "bin", "lms.exe"]);
}

#[test]
fn llmfit_limit_is_clamped() {
    assert_eq!(recommendation_limit(0), 1);
    assert_eq!(recommendation_limit(1), 1);
    assert_eq!(recommendation_limit(7), 7);
    assert_eq!(recommendation_limit(20), 20);
    assert_eq!(recommendation_limit(21), 20);
    assert_eq!(recommendation_limit(255), 20);
    assert_eq!(recommend_args(0), ["recommend", "--json", "--limit", "1"]);
    assert_eq!(recommend_args(12), ["recommend", "--json", "--limit", "12"]);
    assert_eq!(recommend_args(200), ["recommend", "--json", "--limit", "20"]);
    assert_eq!(system_args(), ["--json", "system"]);
}

#[test]
fn settings_defaults_and_keys() {
    let mut config = Config::default();
    assert!(config.gateway.enabled);
    assert_eq!(config.gateway.port, 8080);
    assert_eq!(config.gateway.timeout, 30000);
    assert!(config.models.is_empty());
    assert!(config.api_keys.helius.is_none());
    assert_eq!(add_model(&mut config, "m1".into()), ["m1"]);
    assert_eq!(add_model(&mut config, "m2".into()), ["m1", "m2"]);
    assert!(save_api_key(&mut config, "helius", "h".into()).is_ok());
    assert!(save_api_key(&mut config, "jupiter", "j".into()).is_ok());
    assert!(save_api_key(&mut config, "firecrawl", "f".into()).is_ok());
    assert!(save_api_key(&mut config, "other", "x".into()).is_err());
    assert_eq!(config.api_keys.helius.as_deref(), Some("h"));
    assert_eq!(config.api_keys.jupiter.as_deref(), Some("j"));
    assert_eq!(config.api_keys.firecrawl.as_deref(), Some("f"));
    assert_eq!(config.models, ["m1", "m2"]);
}

#[test]
fn gateway_status_from_discover_output() {
    assert!(check_gateway_status(true, r#"{"count":1}"#));
    assert!(check_gateway_status(true, r#"{"count":3,"beacons":[]}"#));
    assert!(!check_gateway_status(true, r#"{"count":0}"#));
    assert!(!check_gateway_status(true, r#"{"count":-1}"#));
    assert!(!check_gateway_status(true, r#"{"count":"1"}"#));
    assert!(!check_gateway_status(true, r#"{"count":1.0}"#));
    assert!(!check_gateway_status(true, "{}"));
    assert!(!check_gateway_status(true, "not json"));
    assert!(!check_gateway_status(false, r#"{"count":1}"#));
}

#[test]
fn string_order_is_by_code_point() {
    assert!(str_lt("", "a"));
    assert!(!str_lt("a", ""));
    assert!(!str_lt("a", "a"));
    assert!(str_lt("a", "ab"));
    assert!(str_lt("B", "a"));
    assert!(str_lt("z", "é"));
    assert!(str_lt("\u{ffff}", "\u{10000}"));
    let samples = ["", "a", "ab", "b", "B", "é", "z", "\u{ffff}", "\u{10000}", "abc", "abd", "ab\u{0}"];
    for a in samples {
        for b in samples {
            assert_eq!(str_lt(a, b), a < b, "for {:?} and {:?}", a, b);
        }
    }
}

#[test]
fn name_lists_stay_sorted_and_unique() {
    let mut names: Vec<String> = Vec::new();
    for n in ["m", "a", "z", "m", "b", "a"] {
        insert_unique(&mut names, n.to_string());
    }
    assert_eq!(names, ["a", "b", "m", "z"]);
    let other: Vec<String> = vec!["b".into(), "z".into(), "q".into()];
    assert_eq!(names_without(&names, &other), ["a", "m"]);
    assert_eq!(names_without(&other, &names), ["q"]);
}
