use jester::interpolate::interpolate_env;

fn vars(pairs: &[(&str, &str)]) -> Vec<(String, String)> {
    pairs.iter().map(|(k, v)| (k.to_string(), v.to_string())).collect()
}

#[test]
fn variable_value_replaces_placeholder() {
    let v = vars(&[("PORT", "8443"), ("PORT", "9"), ("HOST", "h")]);
    assert_eq!(interpolate_env("bind = \":${PORT}\"", &v), "bind = \":8443\"");
    assert_eq!(interpolate_env("${HOST}:${PORT:1}", &v), "h:8443");
}

#[test]
fn default_used_when_variable_unset() {
    assert_eq!(interpolate_env("a=${MISSING:fallback value}", &vars(&[])), "a=fallback value");
}

#[test]
fn unset_without_default_becomes_empty() {
    assert_eq!(interpolate_env("x${NOPE}y", &vars(&[])), "xy");
}

#[test]
fn malformed_placeholders_are_kept() {
    let v = vars(&[("A", "1")]);
    assert_eq!(interpolate_env("${A:}", &v), "${A:}");
    assert_eq!(interpolate_env("${a}", &v), "${a}");
    assert_eq!(interpolate_env("${A", &v), "${A");
    assert_eq!(interpolate_env("${}", &v), "${}");
    assert_eq!(interpolate_env("$${A}", &v), "$1");
}

#[test]
fn default_runs_to_first_brace() {
    assert_eq!(interpolate_env("${X:a${B}c}", &vars(&[])), "a${Bc}");
}
