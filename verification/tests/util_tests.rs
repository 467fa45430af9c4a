use sbc::envfile::load_env_file;
use sbc::num::{parse_pid, pid_record_text};
use sbc::paths::{default_env_file_path, get_pid_file_path, workspace_dir};
use sbc::resolve::{extract_structural_placeholder, interpolate_string, EnvSnapshot};
use sbc::update::{template_looks_valid, with_cache_buster};

#[test]
fn pid_record_text_is_plain_decimal() {
    assert_eq!(pid_record_text(0), "0");
    assert_eq!(pid_record_text(1234), "1234");
    assert_eq!(pid_record_text(u32::MAX), "4294967295");
}

#[test]
fn parse_pid_reads_record_text_back() {
    assert_eq!(parse_pid("1234"), Some(1234));
    assert_eq!(parse_pid("  5678\n"), Some(5678));
    assert_eq!(parse_pid("2147483647"), Some(2147483647));
}

#[test]
fn parse_pid_rejects_non_records() {
    assert_eq!(parse_pid(""), None);
    assert_eq!(parse_pid("abc"), None);
    assert_eq!(parse_pid("12a"), None);
    assert_eq!(parse_pid("-5"), None);
    assert_eq!(parse_pid("2147483648"), None);
    assert_eq!(parse_pid("99999999999"), None);
}

#[test]
fn cache_buster_appends_timestamp_query() {
    assert_eq!(
        with_cache_buster("http://example/config.json", 1700000000),
        "http://example/config.json?t=1700000000"
    );
    assert_eq!(with_cache_buster("u", 0), "u?t=0");
}

#[test]
fn template_validation_looks_for_marker() {
    assert!(template_looks_valid(r#"{"inbounds": []}"#));
    assert!(!template_looks_valid(r#"{"outbounds": []}"#));
    assert!(!template_looks_valid(""));
}

#[test]
fn pid_file_path_prefers_override() {
    assert_eq!(get_pid_file_path(Some("/tmp/x.pid".to_owned())), "/tmp/x.pid");
    assert_eq!(
        get_pid_file_path(None),
        "/data/adb/sing-box-workspace/run/sing-box.pid"
    );
}

#[test]
fn workspace_paths_are_fixed() {
    assert_eq!(workspace_dir(), "/data/adb/sing-box-workspace");
    assert_eq!(default_env_file_path(), "/data/adb/sing-box-workspace/.env");
}

#[test]
fn env_file_entries_load_in_order_with_quotes_stripped() {
    let mut env = EnvSnapshot::new();
    let content = "# comment\n\nKEY=value\nQUOTED=\"with spaces\"\nSINGLE='x'\n  PAD  =  y  \nNOEQ\n";
    load_env_file(content, &mut env);
    assert_eq!(interpolate_string("${KEY}", &env), "value");
    assert_eq!(interpolate_string("${QUOTED}", &env), "with spaces");
    assert_eq!(interpolate_string("${SINGLE}", &env), "x");
    assert_eq!(interpolate_string("${PAD}", &env), "y");
    assert_eq!(interpolate_string("${NOEQ}", &env), "");
}

#[test]
fn env_file_bindings_take_precedence_over_later_ones() {
    let mut env = EnvSnapshot::new();
    load_env_file("K=file", &mut env);
    env.add("K", "process");
    assert_eq!(interpolate_string("${K}", &env), "file");
}

#[test]
fn env_file_later_line_overrides_earlier_one() {
    let mut env = EnvSnapshot::new();
    load_env_file("A=1\nA=2", &mut env);
    assert_eq!(interpolate_string("${A}", &env), "2");
}

#[test]
fn interpolation_forms() {
    let mut env = EnvSnapshot::new();
    env.add("NAME", "value");
    assert_eq!(interpolate_string("a ${NAME} b", &env), "a value b");
    assert_eq!(interpolate_string("${ABSENT}!", &env), "!");
    assert_eq!(interpolate_string("tail ${NAME", &env), "tail ${NAME");
    assert_eq!(interpolate_string("${NOT VALID}", &env), "${NOT VALID}");
    assert_eq!(interpolate_string("${A}${A}", &env), "");
    assert_eq!(interpolate_string("no placeholders", &env), "no placeholders");
}

#[test]
fn interpolation_does_not_rescan_substituted_text() {
    let mut env = EnvSnapshot::new();
    env.add("A", "${B}");
    env.add("B", "never");
    assert_eq!(interpolate_string("${A}", &env), "${B}");
}

#[test]
fn structural_placeholder_extraction() {
    assert_eq!(
        extract_structural_placeholder("{{NAME}}"),
        Some("NAME".to_owned())
    );
    assert_eq!(
        extract_structural_placeholder("  {{ NAME }}  "),
        Some("NAME".to_owned())
    );
    assert_eq!(extract_structural_placeholder("{{NAME}} tail"), None);
    assert_eq!(extract_structural_placeholder("${NAME}"), None);
    assert_eq!(extract_structural_placeholder("plain"), None);
    assert_eq!(extract_structural_placeholder("{{}}"), Some(String::new()));
}
