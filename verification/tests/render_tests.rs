use sbc::json::Json;
use sbc::parse::parse_json;
use sbc::render::{render_template, render_template_report, RenderErr};
use sbc::resolve::{process_value, EnvSnapshot, ResolveErr, Warning};
use sbc::text::str_chars;

fn env_of(pairs: &[(&str, &str)]) -> EnvSnapshot {
    let mut env = EnvSnapshot::new();
    for (k, v) in pairs {
        env.add(k, v);
    }
    env
}

/// Renders and parses the output back, so expectations can be written as
/// compact JSON whatever the output's formatting.
fn rendered_doc(template: &str, env: &EnvSnapshot) -> Json {
    let out = render_template(template, env).unwrap();
    parse_json(&out).unwrap()
}

fn doc(text: &str) -> Json {
    parse_json(text).unwrap()
}

#[test]
fn splice_scenario_inbounds() {
    let env = env_of(&[("INBOUNDS", r#"[{"port":1080},{"port":1081}]"#)]);
    let out = render_template(r#"{"inbounds": ["{{INBOUNDS}}"]}"#, &env).unwrap();
    assert_eq!(
        out,
        "{\n  \"inbounds\": [\n    {\n      \"port\": 1080\n    },\n    {\n      \"port\": 1081\n    }\n  ]\n}"
    );
    assert_eq!(
        parse_json(&out).unwrap(),
        doc(r#"{"inbounds":[{"port":1080},{"port":1081}]}"#)
    );
}

#[test]
fn interpolation_scenario_log_level_unset() {
    let env = env_of(&[]);
    let out = render_template(r#"{"log_level": "${LOG_LEVEL}"}"#, &env).unwrap();
    assert_eq!(out, "{\n  \"log_level\": \"\"\n}");
}

#[test]
fn pretty_rendering_agrees_with_reference_implementation() {
    let env = env_of(&[]);
    let text = r#"{"a": [1, true, null, "x"], "b": {"c": -2.5}, "d": [], "e": {}}"#;
    let ours = render_template(text, &env).unwrap();
    let reference: serde_json::Value = serde_json::from_str(text).unwrap();
    let theirs = serde_json::to_string_pretty(&reference).unwrap();
    assert_eq!(ours, theirs);
}

#[test]
fn interpolation_present_value() {
    let env = env_of(&[("LOG_LEVEL", "debug")]);
    let got = rendered_doc(r#"{"log_level": "${LOG_LEVEL}"}"#, &env);
    assert_eq!(got, doc(r#"{"log_level":"debug"}"#));
}

#[test]
fn resolve_is_idempotent_on_resolved_document() {
    let env = env_of(&[("INBOUNDS", r#"[{"port":1080}]"#)]);
    let template = r#"{"inbounds": ["{{INBOUNDS}}"], "x": [1, true, null]}"#;
    let once = render_template(template, &env).unwrap();
    let twice = render_template(&once, &env).unwrap();
    assert_eq!(once, twice);
}

#[test]
fn scalar_substitution_not_flattened() {
    let env = env_of(&[("PORTS", "[1080,1081]")]);
    let got = rendered_doc(r#"{"ports": "{{PORTS}}"}"#, &env);
    assert_eq!(got, doc(r#"{"ports":[1080,1081]}"#));
}

#[test]
fn scalar_substitution_object_value() {
    let env = env_of(&[("DNS", r#"{"servers":["1.1.1.1"]}"#)]);
    let got = rendered_doc(r#"{"dns": "{{DNS}}"}"#, &env);
    assert_eq!(got, doc(r#"{"dns":{"servers":["1.1.1.1"]}}"#));
}

#[test]
fn missing_placeholder_in_array_drops_element() {
    let env = env_of(&[]);
    let got = rendered_doc(r#"{"inbounds": ["{{MISSING}}", 7]}"#, &env);
    assert_eq!(got, doc(r#"{"inbounds":[7]}"#));
}

#[test]
fn missing_placeholder_in_scalar_keeps_literal() {
    let env = env_of(&[]);
    let got = rendered_doc(r#"{"x": "{{MISSING}}"}"#, &env);
    assert_eq!(got, doc(r#"{"x":"{{MISSING}}"}"#));
}

#[test]
fn empty_value_counts_as_missing() {
    let env = env_of(&[("BLANK", "   ")]);
    let got = rendered_doc(r#"{"a": ["{{BLANK}}"], "b": "{{BLANK}}"}"#, &env);
    assert_eq!(got, doc(r#"{"a":[],"b":"{{BLANK}}"}"#));
}

#[test]
fn non_array_splice_candidate_inserted_single() {
    let env = env_of(&[("ONE", r#"{"tag":"x"}"#)]);
    let got = rendered_doc(r#"["{{ONE}}", 2]"#, &env);
    assert_eq!(got, doc(r#"[{"tag":"x"},2]"#));
}

#[test]
fn structural_placeholder_tolerates_surrounding_whitespace() {
    let env = env_of(&[("N", "42")]);
    let got = rendered_doc(r#"{"n": "  {{ N }}  "}"#, &env);
    assert_eq!(got, doc(r#"{"n":42}"#));
}

#[test]
fn bad_env_json_aborts_render() {
    let env = env_of(&[("BROKEN", "{not json")]);
    let err = render_template(r#"{"x": "{{BROKEN}}"}"#, &env).unwrap_err();
    match err {
        RenderErr::Resolve(ResolveErr::BadEnvJson(name)) => {
            assert_eq!(name, str_chars("BROKEN"));
        },
        other => panic!("unexpected error: {:?}", other),
    }
}

#[test]
fn bad_env_json_in_array_aborts_render() {
    let env = env_of(&[("BROKEN", "[1,")]);
    let err = render_template(r#"["{{BROKEN}}"]"#, &env).unwrap_err();
    assert!(matches!(err, RenderErr::Resolve(ResolveErr::BadEnvJson(_))));
}

#[test]
fn cyclic_placeholder_chain_reports_too_deep() {
    let env = env_of(&[("A", r#""{{A}}""#)]);
    let err = render_template(r#"{"x": "{{A}}"}"#, &env).unwrap_err();
    assert!(matches!(err, RenderErr::Resolve(ResolveErr::TooDeep)));
}

#[test]
fn malformed_template_aborts_before_resolution() {
    let env = env_of(&[]);
    let err = render_template(r#"{"x": }"#, &env).unwrap_err();
    assert!(matches!(err, RenderErr::BadTemplate));
}

#[test]
fn comments_are_stripped_before_parsing() {
    let env = env_of(&[]);
    let template = "{\n  // a comment\n  \"a\": 1, /* block */ \"b\": 2\n}";
    let got = parse_json(&render_template(template, &env).unwrap()).unwrap();
    assert_eq!(got, doc(r#"{"a":1,"b":2}"#));
}

#[test]
fn nested_resolution_inside_substituted_value() {
    let env = env_of(&[("OUTER", r#"{"inner": "${NAME}"}"#), ("NAME", "deep")]);
    let got = rendered_doc(r#"{"o": "{{OUTER}}"}"#, &env);
    assert_eq!(got, doc(r#"{"o":{"inner":"deep"}}"#));
}

#[test]
fn first_entry_wins_on_duplicate_names() {
    let env = env_of(&[("K", "first"), ("K", "second")]);
    let got = rendered_doc(r#"{"k": "${K}"}"#, &env);
    assert_eq!(got, doc(r#"{"k":"first"}"#));
}

#[test]
fn resolve_keeps_malformed_openers_verbatim() {
    let env = env_of(&[("NAME", "value")]);
    let v = Json::str_of("tail ${NAME");
    assert_eq!(process_value(&v, &env).unwrap(), Json::str_of("tail ${NAME"));
    let got = rendered_doc(r#"{"x": "${NOT VALID}"}"#, &env);
    assert_eq!(got, doc(r#"{"x":"${NOT VALID}"}"#));
}

#[test]
fn warnings_report_every_recoverable_degradation_in_order() {
    let env = env_of(&[]);
    let mut warns: Vec<Warning> = Vec::new();
    let template = r#"{"a": ["{{M}}"], "b": "{{M}}", "c": "${X}"}"#;
    let out = render_template_report(template, &env, &mut warns).unwrap();
    assert_eq!(parse_json(&out).unwrap(), doc(r#"{"a":[],"b":"{{M}}","c":""}"#));
    assert_eq!(
        warns,
        vec![
            Warning::DroppedElement(str_chars("M")),
            Warning::KeptLiteral(str_chars("M")),
            Warning::AbsentName(str_chars("X")),
        ]
    );
}

#[test]
fn no_warnings_on_a_clean_render() {
    let env = env_of(&[("N", "1")]);
    let mut warns: Vec<Warning> = Vec::new();
    render_template_report(r#"{"n": "{{N}}"}"#, &env, &mut warns).unwrap();
    assert!(warns.is_empty());
}

#[test]
fn process_value_keeps_scalars() {
    let env = env_of(&[]);
    let v = Json::Bool(true);
    assert_eq!(process_value(&v, &env).unwrap(), Json::Bool(true));
    let n = Json::num_of("12.5e3");
    assert_eq!(process_value(&n, &env).unwrap(), Json::num_of("12.5e3"));
    assert_eq!(process_value(&Json::Null, &env).unwrap(), Json::Null);
}

#[test]
fn parse_template_strips_comments_then_parses() {
    let tree = sbc::render::parse_template("// header\n{\"a\": 1}").unwrap();
    let expected = Json::Obj(vec![(str_chars("a"), Json::num_of("1"))]);
    assert_eq!(tree, expected);
    assert!(sbc::render::parse_template("{\"a\": }").is_none());
}

#[test]
fn object_key_order_is_preserved() {
    let env = env_of(&[]);
    let got = rendered_doc(r#"{"z": 1, "a": 2, "m": 3}"#, &env);
    assert_eq!(got, doc(r#"{"z":1,"a":2,"m":3}"#));
}
