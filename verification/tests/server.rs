use polymenu::command::Command;
use polymenu::config::Config;
use polymenu::dictionary::Dictionary;
use polymenu::expansion::{EnvironmentValue, ExpansionContext, ExpansionError};
use polymenu::io::{IOFormat, ReadRequest};
use polymenu::server::{
    command_parser, establish_session, plan_server, print_value, refusal, require_auth, route,
    AuthToken, Method, Mount, Route, ServerError, ServerPlan, SessionCookie, Status,
    SESSION_COOKIE_NAME, TOKEN_LENGTH, UI_SUBDIRECTORY,
};
use polymenu::value::StructuredValue;

fn strings(items: &[&str]) -> Vec<String> {
    items.iter().map(|s| s.to_string()).collect()
}

fn context() -> ExpansionContext {
    let environment = Dictionary::new()
        .with("SHARE".to_string(), EnvironmentValue::Text("/usr/share".to_string()));
    ExpansionContext { environment, home_dir: Some("/home/user".to_string()) }
}

fn token() -> AuthToken {
    AuthToken::from_secret("s3cret".to_string())
}

#[test]
fn generated_token_is_long_and_alphanumeric() {
    let token = AuthToken::generate();
    assert_eq!(TOKEN_LENGTH, 48);
    assert_eq!(token.value().chars().count(), 48);
    assert!(token.value().chars().all(|c| c.is_ascii_alphanumeric()));
    let other = AuthToken::generate();
    assert_ne!(token.value(), other.value());
}

#[test]
fn token_admits_only_itself() {
    assert!(token().admits("s3cret"));
    assert!(!token().admits("s3cre"));
    assert!(!token().admits("s3cret "));
    assert!(!token().admits(""));
    assert!(!token().admits("S3CRET"));
}

#[test]
fn request_without_credentials_is_refused() {
    assert!(!require_auth(None, None, &token()));
    assert!(!require_auth(Some("wrong"), None, &token()));
    assert!(!require_auth(None, Some("wrong"), &token()));
    assert!(!require_auth(Some("wrong"), Some("also wrong"), &token()));
}

#[test]
fn bearer_or_cookie_is_enough() {
    assert!(require_auth(None, Some("s3cret"), &token()));
    assert!(require_auth(Some("s3cret"), None, &token()));
    assert!(require_auth(Some("wrong"), Some("s3cret"), &token()));
    assert!(require_auth(Some("s3cret"), Some("wrong"), &token()));
}

#[test]
fn refusal_says_nothing_of_the_cause() {
    let (status, body) = refusal();
    assert_eq!(status, Status::Unauthorized);
    assert_eq!(status.code(), 401);
    assert_eq!(body, "unauthorized");
}

#[test]
fn status_codes() {
    assert_eq!(Status::Success.code(), 200);
    assert_eq!(Status::NoContent.code(), 204);
    assert_eq!(Status::NotFound.code(), 404);
    assert_eq!(Status::MethodNotAllowed.code(), 405);
    assert_eq!(Status::InternalServerError.code(), 500);
}

#[test]
fn session_is_opened_for_the_right_bearer() {
    let expected = SessionCookie {
        name: "session_id".to_string(),
        value: "s3cret".to_string(),
        http_only: true,
        same_site_strict: true,
    };
    match establish_session(Some("s3cret"), &token()) {
        Ok((cookie, status)) => {
            assert!(cookie == expected);
            assert_eq!(status, Status::NoContent);
        }
        Err(status) => panic!("refused with {:?}", status),
    }
    assert_eq!(SESSION_COOKIE_NAME, "session_id");
}

#[test]
fn session_is_refused_otherwise() {
    assert!(establish_session(Some("nope"), &token()) == Err(Status::Unauthorized));
    assert!(establish_session(None, &token()) == Err(Status::Unauthorized));
    assert!(establish_session(Some(""), &token()) == Err(Status::Unauthorized));
}

#[test]
fn routes_of_the_interface() {
    let mounts: Dictionary<String> = Dictionary::new();
    assert_eq!(route(Method::Post, "/session", &mounts), Route::Session);
    assert_eq!(route(Method::Get, "/options", &mounts), Route::Options);
    assert_eq!(route(Method::Get, "/input", &mounts), Route::Input);
    assert_eq!(route(Method::Put, "/print", &mounts), Route::Print);
    assert_eq!(route(Method::Put, "/close", &mounts), Route::Close);
    assert_eq!(route(Method::Post, "/command/build", &mounts), Route::Command("build".to_string()));
}

#[test]
fn routes_reject_other_methods() {
    let mounts: Dictionary<String> = Dictionary::new();
    assert_eq!(route(Method::Get, "/session", &mounts), Route::NotAllowed);
    assert_eq!(route(Method::Post, "/options", &mounts), Route::NotAllowed);
    assert_eq!(route(Method::Put, "/input", &mounts), Route::NotAllowed);
    assert_eq!(route(Method::Get, "/print", &mounts), Route::NotAllowed);
    assert_eq!(route(Method::Get, "/close", &mounts), Route::NotAllowed);
    assert_eq!(route(Method::Get, "/command/build", &mounts), Route::NotAllowed);
    assert_eq!(route(Method::Post, "/index.html", &mounts), Route::NotAllowed);
    assert_eq!(route(Method::Other, "/", &mounts), Route::NotAllowed);
}

#[test]
fn other_paths_are_files() {
    let mounts = Dictionary::new().with("icons".to_string(), "/usr/share/icons".to_string());
    assert_eq!(route(Method::Get, "/", &mounts), Route::Asset("/".to_string()));
    assert_eq!(
        route(Method::Get, "/assets/app.js", &mounts),
        Route::Asset("/assets/app.js".to_string())
    );
    assert_eq!(
        route(Method::Get, "/icons/a/b.png", &mounts),
        Route::Mounted("icons".to_string(), "/a/b.png".to_string())
    );
    assert_eq!(route(Method::Get, "/icons", &mounts), Route::Mounted("icons".to_string(), String::new()));
    assert_eq!(route(Method::Get, "/iconsx/a", &mounts), Route::Asset("/iconsx/a".to_string()));
    assert_eq!(route(Method::Get, "/command/", &mounts), Route::Asset("/command/".to_string()));
    assert_eq!(route(Method::Get, "/command/a/b", &mounts), Route::Asset("/command/a/b".to_string()));
    assert_eq!(route(Method::Get, "relative", &mounts), Route::Asset("relative".to_string()));
}

#[test]
fn only_the_session_route_is_open() {
    assert!(!Route::Session.needs_auth());
    assert!(Route::Options.needs_auth());
    assert!(Route::Input.needs_auth());
    assert!(Route::Command("x".to_string()).needs_auth());
    assert!(Route::Print.needs_auth());
    assert!(Route::Close.needs_auth());
    assert!(Route::Asset("/".to_string()).needs_auth());
    assert!(Route::Mounted("k".to_string(), String::new()).needs_auth());
}

#[test]
fn print_writes_one_value_per_line() {
    assert_eq!(print_value(&strings(&["a", "b c"])), "a\nb c\n");
    assert_eq!(print_value(&strings(&[])), "");
    assert_eq!(print_value(&strings(&[""])), "\n");
}

#[test]
fn command_parser_looks_the_name_up() {
    let mut config = Config::default();
    config.commands = Dictionary::new().with(
        "build".to_string(),
        Command { command: strings(&["echo", "$MSG"]), output_format: IOFormat::Json },
    );
    assert!(command_parser(&config, "missing").is_none());
    assert!(command_parser(&config, "Build").is_none());
    let parser = command_parser(&config, "build").unwrap();
    let args = Dictionary::new().with("MSG".to_string(), "[1]".to_string());
    match parser.request(Some(&args), None, "\n", &context()) {
        Ok(ReadRequest::Run(invocation)) => {
            assert_eq!(invocation.program, "echo");
            assert_eq!(invocation.arguments, strings(&["[1]"]));
        }
        other => panic!("unexpected request: {:?}", other),
    }
    assert_eq!(
        parser.decode(b"[1]"),
        Ok(StructuredValue::Array(vec![StructuredValue::Number("1".to_string())]))
    );
}

#[test]
fn server_plan_expands_paths() {
    let mut config = Config::default();
    config.port = "7777".to_string();
    config.src = Some("~/app".to_string());
    config.mount = Dictionary::new()
        .with("icons".to_string(), "$SHARE/icons".to_string())
        .with("docs".to_string(), "/srv/docs".to_string());
    assert_eq!(
        plan_server(&config, &context()),
        Ok(ServerPlan {
            address: "127.0.0.1:7777".to_string(),
            ui_root: "/home/user/app".to_string(),
            mounts: vec![
                Mount { key: "icons".to_string(), directory: "/usr/share/icons".to_string() },
                Mount { key: "docs".to_string(), directory: "/srv/docs".to_string() },
            ],
        })
    );
    assert_eq!(UI_SUBDIRECTORY, "dist");
}

#[test]
fn server_plan_fails_without_source_or_on_bad_paths() {
    let mut config = Config::default();
    assert_eq!(plan_server(&config, &context()), Err(ServerError::MissingSource));
    config.src = Some("$NOWHERE".to_string());
    assert_eq!(
        plan_server(&config, &context()),
        Err(ServerError::Source(ExpansionError::UnresolvedVariable("NOWHERE".to_string())))
    );
    config.src = Some("/app".to_string());
    config.mount = Dictionary::new()
        .with("a".to_string(), "/ok".to_string())
        .with("b".to_string(), "$BAD".to_string())
        .with("c".to_string(), "$WORSE".to_string());
    assert_eq!(
        plan_server(&config, &context()),
        Err(ServerError::Mount(ExpansionError::UnresolvedVariable("BAD".to_string())))
    );
}
