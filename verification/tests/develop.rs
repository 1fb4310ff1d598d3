use polymenu::command::{CommandError, Invocation};
use polymenu::config::Config;
use polymenu::develop::{
    compile_app, compile_verdict, dev_server_port, parse_port, run_dev_server, DevelopError,
    HealthProbe, Launch, ProbeAction, ProbeEvent, ProbeState, Supervision, Supervisor,
    SupervisorAction, SupervisorEvent, KILL_SIGNAL, RETRY_COUNT, RETRY_INTERVAL_MS,
    RETRY_TIMEOUT_MS,
};
use polymenu::dictionary::Dictionary;
use polymenu::expansion::{EnvironmentValue, ExpansionContext, ExpansionError};

fn strings(items: &[&str]) -> Vec<String> {
    items.iter().map(|s| s.to_string()).collect()
}

fn context() -> ExpansionContext {
    let environment = Dictionary::new()
        .with("PM".to_string(), EnvironmentValue::Text("pnpm".to_string()));
    ExpansionContext { environment, home_dir: Some("/home/user".to_string()) }
}

fn config() -> Config {
    let mut config = Config::default();
    config.port = "7777".to_string();
    config.dev_server_port = "7778".to_string();
    config.src = Some("~/app".to_string());
    config.develop_command = strings(&["$PM", "run", "dev"]);
    config
}

#[test]
fn port_numbers_are_parsed() {
    assert_eq!(parse_port("0"), Some(0));
    assert_eq!(parse_port("7778"), Some(7778));
    assert_eq!(parse_port("65535"), Some(65535));
    assert_eq!(parse_port("+80"), Some(80));
    assert_eq!(parse_port("0080"), Some(80));
    assert_eq!(parse_port("65536"), None);
    assert_eq!(parse_port("99999999999999999999"), None);
    assert_eq!(parse_port(""), None);
    assert_eq!(parse_port("+"), None);
    assert_eq!(parse_port("-1"), None);
    assert_eq!(parse_port("80 "), None);
    assert_eq!(parse_port(" 80"), None);
    assert_eq!(parse_port("8o"), None);
    assert_eq!(parse_port("++1"), None);
    assert_eq!(parse_port("１２"), None);
}

#[test]
fn port_parsing_agrees_with_std() {
    let samples: [&str; 12] =
        ["1", "65535", "65536", "070000", "+0", "+", "", "12a", "a12", "-0", "655350", "00000000001"];
    for sample in samples {
        assert_eq!(parse_port(sample), sample.parse::<u16>().ok());
    }
}

#[test]
fn dev_server_port_is_checked() {
    assert_eq!(dev_server_port(&config()), Ok(7778));
    let mut bad = config();
    bad.dev_server_port = "http".to_string();
    assert_eq!(dev_server_port(&bad), Err(DevelopError::InvalidPort("http".to_string())));
}

#[test]
fn dev_server_is_started_in_the_project_with_both_ports() {
    assert_eq!(
        run_dev_server(&config(), &context()),
        Ok(Launch {
            invocation: Invocation {
                program: "pnpm".to_string(),
                arguments: strings(&["run", "dev"]),
                stdin: None,
            },
            directory: "/home/user/app".to_string(),
            environment: vec![
                ("API_PORT".to_string(), "7777".to_string()),
                ("DEV_SERVER_PORT".to_string(), "7778".to_string()),
            ],
        })
    );
}

#[test]
fn dev_server_plan_fails_in_order() {
    let mut missing = config();
    missing.src = None;
    missing.develop_command = Vec::new();
    assert_eq!(run_dev_server(&missing, &context()), Err(DevelopError::MissingSource));
    let mut bad_source = config();
    bad_source.src = Some("$NOPE".to_string());
    bad_source.develop_command = Vec::new();
    assert_eq!(
        run_dev_server(&bad_source, &context()),
        Err(DevelopError::Source(ExpansionError::UnresolvedVariable("NOPE".to_string())))
    );
    let mut empty = config();
    empty.develop_command = Vec::new();
    assert_eq!(
        run_dev_server(&empty, &context()),
        Err(DevelopError::Command(CommandError::EmptyCommand))
    );
    let mut unbound = config();
    unbound.develop_command = strings(&["pnpm", "$SCRIPT"]);
    assert_eq!(
        run_dev_server(&unbound, &context()),
        Err(DevelopError::Command(CommandError::Expansion(ExpansionError::UnresolvedVariable(
            "SCRIPT".to_string()
        ))))
    );
}

#[test]
fn compile_runs_in_the_given_directory() {
    assert_eq!(
        compile_app(&strings(&["$PM", "build"]), "~/app", &context()),
        Ok(Launch {
            invocation: Invocation {
                program: "pnpm".to_string(),
                arguments: strings(&["build"]),
                stdin: None,
            },
            directory: "~/app".to_string(),
            environment: Vec::new(),
        })
    );
    assert_eq!(
        compile_app(&strings(&[]), "/app", &context()),
        Err(DevelopError::Command(CommandError::EmptyCommand))
    );
}

#[test]
fn compile_succeeds_on_status_zero_only() {
    assert_eq!(compile_verdict(Some(0)), Ok(()));
    assert_eq!(compile_verdict(Some(1)), Err(CommandError::CommandFailed(Some(1))));
    assert_eq!(compile_verdict(None), Err(CommandError::CommandFailed(None)));
}

#[test]
fn supervisor_kills_by_port_on_shutdown() {
    let mut supervisor = Supervisor::new(7778);
    assert_eq!(supervisor.state, Supervision::Watching);
    assert_eq!(
        supervisor.advance(SupervisorEvent::ShutdownRequested),
        SupervisorAction::KillByPort(7778)
    );
    assert_eq!(supervisor.state, Supervision::Killing);
    assert_eq!(supervisor.advance(SupervisorEvent::ShutdownRequested), SupervisorAction::Nothing);
    assert_eq!(supervisor.advance(SupervisorEvent::Killed), SupervisorAction::Finish);
    assert_eq!(supervisor.state, Supervision::Done);
    assert_eq!(supervisor.advance(SupervisorEvent::ShutdownRequested), SupervisorAction::Nothing);
    assert_eq!(KILL_SIGNAL, "SIGKILL");
}

#[test]
fn supervisor_reports_exit_of_the_child() {
    let mut supervisor = Supervisor::new(7778);
    assert_eq!(
        supervisor.advance(SupervisorEvent::ChildExited(Some(1))),
        SupervisorAction::ReportExit(Some(1))
    );
    assert_eq!(supervisor.state, Supervision::Done);
    assert_eq!(supervisor.advance(SupervisorEvent::ShutdownRequested), SupervisorAction::Nothing);
}

#[test]
fn supervisor_reports_failures() {
    let mut supervisor = Supervisor::new(1);
    assert_eq!(
        supervisor.advance(SupervisorEvent::WaitFailed("gone".to_string())),
        SupervisorAction::Fail(DevelopError::Wait("gone".to_string()))
    );
    let mut supervisor = Supervisor::new(1);
    supervisor.advance(SupervisorEvent::ShutdownRequested);
    assert_eq!(
        supervisor.advance(SupervisorEvent::KillFailed("denied".to_string())),
        SupervisorAction::Fail(DevelopError::Kill("denied".to_string()))
    );
    let mut supervisor = Supervisor::new(1);
    assert_eq!(supervisor.advance(SupervisorEvent::Killed), SupervisorAction::Nothing);
    assert_eq!(supervisor.state, Supervision::Watching);
}

#[test]
fn probe_is_ready_on_the_first_answer() {
    let mut probe = HealthProbe::new();
    assert_eq!(probe.advance(ProbeEvent::Begin), ProbeAction::Request);
    assert_eq!(probe.advance(ProbeEvent::Refused), ProbeAction::Rest(100));
    assert_eq!(probe.advance(ProbeEvent::Rested), ProbeAction::Request);
    assert_eq!(probe.requests, 2);
    assert_eq!(probe.advance(ProbeEvent::Answered), ProbeAction::Ready);
    assert_eq!(probe.state, ProbeState::Over);
    assert_eq!(probe.advance(ProbeEvent::Rested), ProbeAction::Nothing);
    assert_eq!(HealthProbe::verdict(ProbeAction::Ready), Some(Ok(())));
}

#[test]
fn probe_gives_up_after_all_requests() {
    assert_eq!(RETRY_COUNT, 100);
    assert_eq!(RETRY_INTERVAL_MS, 100);
    assert_eq!(RETRY_TIMEOUT_MS, 10000);
    let mut probe = HealthProbe::new();
    let mut action = probe.advance(ProbeEvent::Begin);
    let mut requests = 0;
    loop {
        match action {
            ProbeAction::Request => {
                requests += 1;
                action = probe.advance(ProbeEvent::Refused);
            }
            ProbeAction::Rest(ms) => {
                assert_eq!(ms, 100);
                action = probe.advance(ProbeEvent::Rested);
            }
            other => {
                assert_eq!(other, ProbeAction::Exhausted);
                break;
            }
        }
    }
    assert_eq!(requests, 100);
    assert_eq!(probe.requests, 100);
    assert_eq!(HealthProbe::verdict(ProbeAction::Exhausted), Some(Ok(())));
}

#[test]
fn probe_fails_on_timeout() {
    let mut probe = HealthProbe::new();
    probe.advance(ProbeEvent::Begin);
    assert_eq!(probe.advance(ProbeEvent::TimedOut), ProbeAction::GiveUp);
    assert_eq!(probe.advance(ProbeEvent::Answered), ProbeAction::Nothing);
    assert_eq!(HealthProbe::verdict(ProbeAction::GiveUp), Some(Err(DevelopError::ProbeTimeout)));
    assert_eq!(HealthProbe::verdict(ProbeAction::Request), None);
    assert_eq!(HealthProbe::verdict(ProbeAction::Rest(100)), None);
}

#[test]
fn probe_ignores_events_that_do_not_fit() {
    let mut probe = HealthProbe::new();
    assert_eq!(probe.advance(ProbeEvent::Answered), ProbeAction::Nothing);
    assert_eq!(probe.advance(ProbeEvent::Rested), ProbeAction::Nothing);
    assert_eq!(probe.state, ProbeState::Idle);
    probe.advance(ProbeEvent::Begin);
    assert_eq!(probe.advance(ProbeEvent::Begin), ProbeAction::Nothing);
    assert_eq!(probe.requests, 1);
}
