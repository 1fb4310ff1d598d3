use polymenu::dictionary::Dictionary;
use polymenu::expansion::{
    env_expansion_context, expand_path, shell_expand, EnvironmentValue, ExpansionContext,
    ExpansionError,
};

fn context(home: Option<&str>, variables: &[(&str, Option<&str>)]) -> ExpansionContext {
    let mut environment = Dictionary::new();
    for (name, value) in variables {
        let value = match value {
            Some(text) => EnvironmentValue::Text(text.to_string()),
            None => EnvironmentValue::NotUnicode,
        };
        environment = environment.with(name.to_string(), value);
    }
    ExpansionContext { environment, home_dir: home.map(|h| h.to_string()) }
}

fn arguments(bindings: &[(&str, &str)]) -> Dictionary<String> {
    let mut map = Dictionary::new();
    for (name, value) in bindings {
        map = map.with(name.to_string(), value.to_string());
    }
    map
}

#[test]
fn argument_shadows_environment_variable() {
    let ctx = context(None, &[("NAME", Some("from-env"))]);
    let args = arguments(&[("NAME", "from-args")]);
    let expanded = shell_expand("say $NAME", Some(&args), &ctx);
    assert!(matches!(expanded, Ok(ref s) if s == "say from-args"));
    let braced = shell_expand("${NAME}!", Some(&args), &ctx);
    assert!(matches!(braced, Ok(ref s) if s == "from-args!"));
}

#[test]
fn environment_is_used_without_an_argument() {
    let ctx = context(None, &[("NAME", Some("from-env"))]);
    let args = arguments(&[("OTHER", "x")]);
    let expanded = shell_expand("$NAME/$OTHER", Some(&args), &ctx);
    assert!(matches!(expanded, Ok(ref s) if s == "from-env/x"));
    let none = shell_expand("$NAME", None, &ctx);
    assert!(matches!(none, Ok(ref s) if s == "from-env"));
}

#[test]
fn unknown_variable_is_unresolved() {
    let ctx = context(None, &[("A", Some("a"))]);
    let expanded = shell_expand("$A and $MISSING", None, &ctx);
    assert!(matches!(expanded, Err(ExpansionError::UnresolvedVariable(ref n)) if n == "MISSING"));
}

#[test]
fn non_unicode_value_is_invalid_encoding() {
    let ctx = context(None, &[("BAD", None)]);
    let expanded = shell_expand("${BAD}", None, &ctx);
    assert!(matches!(expanded, Err(ExpansionError::InvalidEncoding(ref n)) if n == "BAD"));
    let looked_up = env_expansion_context("BAD", None, &ctx.environment);
    assert!(matches!(looked_up, Err(ExpansionError::InvalidEncoding(ref n)) if n == "BAD"));
}

#[test]
fn lookup_prefers_arguments() {
    let ctx = context(None, &[("K", Some("env"))]);
    let args = arguments(&[("K", "arg")]);
    let value = env_expansion_context("K", Some(&args), &ctx.environment);
    assert!(matches!(value, Ok(Some(ref v)) if v == "arg"));
    let value = env_expansion_context("K", None, &ctx.environment);
    assert!(matches!(value, Ok(Some(ref v)) if v == "env"));
    let missing = env_expansion_context("Z", Some(&args), &ctx.environment);
    assert!(matches!(missing, Err(ExpansionError::UnresolvedVariable(ref n)) if n == "Z"));
}

#[test]
fn command_arguments_keep_their_tilde() {
    let ctx = context(Some("/home/user"), &[]);
    let expanded = shell_expand("~/bin", None, &ctx);
    assert!(matches!(expanded, Ok(ref s) if s == "~/bin"));
}

#[test]
fn path_expands_tilde_and_variables() {
    let ctx = context(Some("/home/user"), &[("DIR", Some("conf"))]);
    let expanded = expand_path("~/$DIR/app.toml", &ctx);
    assert!(matches!(expanded, Ok(ref s) if s == "/home/user/conf/app.toml"));
    let plain = expand_path("/etc/app.toml", &ctx);
    assert!(matches!(plain, Ok(ref s) if s == "/etc/app.toml"));
}

#[test]
fn path_without_home_keeps_tilde() {
    let ctx = context(None, &[]);
    let expanded = expand_path("~/x", &ctx);
    assert!(matches!(expanded, Ok(ref s) if s == "~/x"));
}

#[test]
fn path_with_unknown_variable_fails() {
    let ctx = context(Some("/home/user"), &[]);
    let expanded = expand_path("~/$NOPE", &ctx);
    assert!(matches!(expanded, Err(ExpansionError::UnresolvedVariable(ref n)) if n == "NOPE"));
}

#[test]
fn default_value_replaces_missing_variable() {
    let ctx = context(None, &[]);
    let expanded = shell_expand("${PORT:-8080}", None, &ctx);
    assert!(matches!(expanded, Ok(ref s) if s == "8080"));
}

#[test]
fn odd_templates_do_not_fail() {
    let ctx = context(Some("/home/user"), &[("A", Some("a"))]);
    let cases: [(&str, &str); 9] = [
        ("", ""),
        ("$", "$"),
        ("$$", "$"),
        ("${", "${"),
        ("${A", "${A"),
        ("a$", "a$"),
        ("${A}${A}", "aa"),
        ("$A$", "a$"),
        ("~", "~"),
    ];
    for (template, expected) in cases {
        let expanded = shell_expand(template, None, &ctx);
        assert!(matches!(expanded, Ok(ref s) if s == expected), "{template:?} gave {expanded:?}");
    }
    assert!(matches!(expand_path("~", &ctx), Ok(ref s) if s == "/home/user"));
    assert!(matches!(expand_path("~user/x", &ctx), Ok(ref s) if s == "~user/x"));
    assert!(matches!(expand_path("", &ctx), Ok(ref s) if s.is_empty()));
}

#[test]
fn variable_holding_a_tilde_is_not_expanded_again() {
    let ctx = context(Some("/home/user"), &[("T", Some("~"))]);
    assert!(matches!(expand_path("$T/x", &ctx), Ok(ref s) if s == "~/x"));
}
