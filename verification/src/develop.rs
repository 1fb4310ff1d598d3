//! Development mode: starting the front end's development server,
//! probing it until it answers, ending it, and compiling the front end.
//!
//! Processes, sleeps and requests are the caller's: this module says what
//! to start and what to do after each event.

use vstd::prelude::*;
use crate::command::{Command, CommandError, Invocation};
use crate::config::Config;
use crate::expansion::{expand_path, is_failure_of, ExpansionContext, ExpansionError};
use crate::io::IOFormat;
use crate::server::expanded_path;
use crate::text::{chars_of, copy_texts};

verus! {

/// The variable that tells the development server the port of the API.
pub const API_PORT_VARIABLE: &'static str = "API_PORT";

/// The variable that tells the development server its own port.
pub const DEV_SERVER_PORT_VARIABLE: &'static str = "DEV_SERVER_PORT";

/// The signal that ends the process bound to the development server's
/// port.
pub const KILL_SIGNAL: &'static str = "SIGKILL";

/// A process to start in a directory, with variables added to its
/// environment.
#[derive(Debug, Clone, PartialEq, Eq)]
pub struct Launch {
    pub invocation: Invocation,
    pub directory: String,
    pub environment: Vec<(String, String)>,
}

/// Why development mode failed.
#[derive(Debug, Clone, PartialEq, Eq)]
pub enum DevelopError {
    /// No front-end project is configured.
    MissingSource,
    /// The path of the front-end project could not be expanded.
    Source(ExpansionError),
    /// The command is empty or could not be expanded.
    Command(CommandError),
    /// The port, given here, is not a number from 0 to 65535.
    InvalidPort(String),
    /// Waiting for the development server failed.
    Wait(String),
    /// The process bound to the port could not be ended.
    Kill(String),
    /// The development server did not answer in time.
    ProbeTimeout,
}

/// The variables of the environment as pairs of character sequences.
pub open spec fn bindings(environment: Seq<(String, String)>) -> Seq<(Seq<char>, Seq<char>)> {
    environment.map_values(|b: (String, String)| (b.0@, b.1@))
}

/// Whether `outcome` is the launch of `command` in the expanded directory
/// `src`, with `environment` added.
pub open spec fn is_launch(
    outcome: Result<Launch, DevelopError>,
    command: Command,
    src: Option<Seq<char>>,
    environment: Seq<(Seq<char>, Seq<char>)>,
    context: ExpansionContext,
) -> bool {
    match src {
        None => outcome matches Err(DevelopError::MissingSource),
        Some(path) => match expanded_path(path, context) {
            Err(name) => outcome matches Err(DevelopError::Source(e)) && is_failure_of(
                e,
                name,
                context.environment@,
            ),
            Ok(directory) => match outcome {
                Ok(launch) => {
                    &&& command.prepares(
                        Ok(launch.invocation),
                        Map::empty(),
                        None,
                        context.environment@,
                    )
                    &&& launch.directory@ == directory
                    &&& bindings(launch.environment@) == environment
                },
                Err(DevelopError::Command(e)) => command.prepares(
                    Err(e),
                    Map::empty(),
                    None,
                    context.environment@,
                ),
                Err(_) => false,
            },
        },
    }
}

/// The command that starts the development server.
pub open spec fn develop_command(config: Config) -> Command {
    Command { command: config.develop_command, output_format: IOFormat::Raw }
}

/// The variables that the development server is started with.
pub open spec fn develop_environment(config: Config) -> Seq<(Seq<char>, Seq<char>)> {
    seq![(API_PORT_VARIABLE@, config.port@), (DEV_SERVER_PORT_VARIABLE@, config.dev_server_port@)]
}

/// Plans the start of the development server: the configured command,
/// expanded, in the expanded directory of the front-end project, with the
/// two ports in its environment. The directory is looked at first, then
/// the command.
pub fn run_dev_server(config: &Config, context: &ExpansionContext) -> (outcome: Result<
    Launch,
    DevelopError,
>)
    ensures
        is_launch(
            outcome,
            develop_command(*config),
            crate::text::optional_text(config.src),
            develop_environment(*config),
            *context,
        ),
{
    let src = match &config.src {
        Some(src) => src,
        None => {
            return Err(DevelopError::MissingSource);
        },
    };
    let directory = match expand_path(src.as_str(), context) {
        Ok(directory) => directory,
        Err(e) => {
            return Err(DevelopError::Source(e));
        },
    };
    let command = Command {
        command: copy_texts(&config.develop_command),
        output_format: IOFormat::Raw,
    };
    let invocation = match command.prepare(None, None, "", context) {
        Ok(invocation) => invocation,
        Err(e) => {
            return Err(DevelopError::Command(e));
        },
    };
    let mut environment: Vec<(String, String)> = Vec::new();
    environment.push((String::from_str(API_PORT_VARIABLE), config.port.clone()));
    environment.push((String::from_str(DEV_SERVER_PORT_VARIABLE), config.dev_server_port.clone()));
    assert(bindings(environment@) =~= develop_environment(*config));
    Ok(Launch { invocation, directory, environment })
}

/// Plans the compilation of the front end: `command`, expanded, in the
/// directory `app_src`, which is taken as it is.
pub fn compile_app(command: &Vec<String>, app_src: &str, context: &ExpansionContext) -> (outcome:
    Result<Launch, DevelopError>)
    ensures
        match outcome {
            Ok(launch) => {
                &&& (Command { command: *command, output_format: IOFormat::Raw }).prepares(
                    Ok(launch.invocation),
                    Map::empty(),
                    None,
                    context.environment@,
                )
                &&& launch.directory@ == app_src@
                &&& launch.environment@.len() == 0
            },
            Err(DevelopError::Command(e)) => (Command {
                command: *command,
                output_format: IOFormat::Raw,
            }).prepares(Err(e), Map::empty(), None, context.environment@),
            Err(_) => false,
        },
{
    let template = Command { command: copy_texts(command), output_format: IOFormat::Raw };
    match template.prepare(None, None, "", context) {
        Ok(invocation) => Ok(
            Launch { invocation, directory: String::from_str(app_src), environment: Vec::new() },
        ),
        Err(e) => Err(DevelopError::Command(e)),
    }
}

/// The verdict on a compilation that ended with `status`: it succeeded
/// where the status is zero.
pub fn compile_verdict(status: Option<i32>) -> (verdict: Result<(), CommandError>)
    ensures
        match verdict {
            Ok(_) => status == Some(0i32),
            Err(CommandError::CommandFailed(s)) => status != Some(0i32) && s == status,
            Err(_) => false,
        },
{
    match status {
        Some(code) => {
            if code == 0 {
                Ok(())
            } else {
                Err(CommandError::CommandFailed(status))
            }
        },
        None => Err(CommandError::CommandFailed(status)),
    }
}

/// Whether `c` is a decimal digit.
pub open spec fn is_digit(c: char) -> bool {
    '0' <= c && c <= '9'
}

/// The number that the decimal digits stand for.
pub open spec fn decimal(digits: Seq<char>) -> int
    decreases digits.len(),
{
    if digits.len() == 0 {
        0
    } else {
        decimal(digits.drop_last()) * 10 + (digits.last() as int - '0' as int)
    }
}

/// The digits of a port: the text without a `+` at its start.
pub open spec fn port_digits(text: Seq<char>) -> Seq<char> {
    if text.len() > 0 && text[0] == '+' {
        text.subrange(1, text.len() as int)
    } else {
        text
    }
}

/// Whether all of `digits` are decimal digits.
pub open spec fn all_digits(digits: Seq<char>) -> bool {
    forall|i: int| 0 <= i < digits.len() ==> is_digit(#[trigger] digits[i])
}

/// The port that `text` stands for: one or more decimal digits, after a
/// `+` or not, that make a number up to 65535.
pub open spec fn port_of(text: Seq<char>) -> Option<u16> {
    let digits = port_digits(text);
    if digits.len() > 0 && all_digits(digits) && decimal(digits) <= 65535 {
        Some(decimal(digits) as u16)
    } else {
        None
    }
}

/// A number never gets smaller by more digits behind it.
pub proof fn lemma_decimal_grows(digits: Seq<char>, n: int)
    requires
        all_digits(digits),
        0 <= n <= digits.len(),
    ensures
        0 <= decimal(digits.subrange(0, n)) <= decimal(digits),
    decreases digits.len(),
{
    if digits.len() == 0 {
        assert(digits.subrange(0, n) =~= digits);
    } else if n == digits.len() {
        assert(digits.subrange(0, n) =~= digits);
        assert(all_digits(digits.drop_last())) by {
            assert forall|i: int| 0 <= i < digits.drop_last().len() implies is_digit(
                #[trigger] digits.drop_last()[i],
            ) by {
                assert(is_digit(digits[i]));
            }
        }
        lemma_decimal_grows(digits.drop_last(), n - 1);
        assert(is_digit(digits[digits.len() - 1]));
    } else {
        assert(all_digits(digits.drop_last())) by {
            assert forall|i: int| 0 <= i < digits.drop_last().len() implies is_digit(
                #[trigger] digits.drop_last()[i],
            ) by {
                assert(is_digit(digits[i]));
            }
        }
        lemma_decimal_grows(digits.drop_last(), n);
        assert(digits.drop_last().subrange(0, n) =~= digits.subrange(0, n));
        lemma_decimal_grows(digits.drop_last(), digits.len() - 1);
        assert(digits.drop_last().subrange(0, digits.len() - 1) =~= digits.drop_last());
        assert(is_digit(digits[digits.len() - 1]));
    }
}

/// Reads a port number.
pub fn parse_port(text: &str) -> (port: Option<u16>)
    ensures
        port == port_of(text@),
{
    let owned = chars_of(text);
    let chars = owned.as_slice();
    let length = chars.len();
    let start: usize = if length > 0 && chars[0] == '+' {
        1
    } else {
        0
    };
    let ghost digits = port_digits(text@);
    assert(digits =~= chars@.subrange(start as int, length as int));
    if start == length {
        return None;
    }
    let mut value: u32 = 0;
    let mut i: usize = start;
    while i < length
        invariant
            start <= i <= length,
            length == chars@.len(),
            digits == chars@.subrange(start as int, length as int),
            digits == port_digits(text@),
            all_digits(digits.subrange(0, i - start)),
            value == decimal(digits.subrange(0, i - start)),
            value <= 65535,
        decreases length - i,
    {
        let c = chars[i];
        if c < '0' || c > '9' {
            assert(!is_digit(digits[i - start]));
            return None;
        }
        let digit: u32 = (c as u32) - ('0' as u32);
        let ghost shorter = digits.subrange(0, i - start);
        let ghost longer = digits.subrange(0, i - start + 1);
        proof {
            assert(longer.drop_last() =~= shorter);
            assert(longer.last() == c);
            assert(all_digits(longer)) by {
                assert forall|j: int| 0 <= j < longer.len() implies is_digit(
                    #[trigger] longer[j],
                ) by {
                    if j < shorter.len() {
                        assert(is_digit(shorter[j]));
                    }
                }
            }
        }
        let next: u32 = value * 10 + digit;
        assert(next == decimal(longer));
        if next > 65535 {
            proof {
                if all_digits(digits) {
                    lemma_decimal_grows(digits, i - start + 1);
                }
            }
            return None;
        }
        value = next;
        i += 1;
    }
    assert(digits.subrange(0, length - start) =~= digits);
    Some(value as u16)
}

/// The port of the development server as a number.
pub fn dev_server_port(config: &Config) -> (port: Result<u16, DevelopError>)
    ensures
        match port {
            Ok(number) => port_of(config.dev_server_port@) == Some(number),
            Err(DevelopError::InvalidPort(text)) => port_of(config.dev_server_port@) is None
                && text@ == config.dev_server_port@,
            Err(_) => false,
        },
{
    match parse_port(config.dev_server_port.as_str()) {
        Some(number) => Ok(number),
        None => Err(DevelopError::InvalidPort(config.dev_server_port.clone())),
    }
}

/// Where the supervisor of the development server stands.
#[derive(Debug, Clone, Copy, PartialEq, Eq, Structural)]
pub enum Supervision {
    /// The server runs; the supervisor waits for its exit or for the
    /// shutdown signal.
    Watching,
    /// The process bound to the port is being ended.
    Killing,
    /// The supervisor is done.
    Done,
}

/// What the supervisor is told.
#[derive(Debug, Clone, PartialEq, Eq)]
pub enum SupervisorEvent {
    /// The server ended by itself with this status.
    ChildExited(Option<i32>),
    /// Waiting for the server failed.
    WaitFailed(String),
    /// The shutdown signal was triggered.
    ShutdownRequested,
    /// The process bound to the port was ended.
    Killed,
    /// The process bound to the port could not be ended.
    KillFailed(String),
}

/// What the supervisor asks for.
#[derive(Debug, Clone, PartialEq, Eq)]
pub enum SupervisorAction {
    /// Nothing.
    Nothing,
    /// End the process bound to this port, with [`KILL_SIGNAL`].
    KillByPort(u16),
    /// Report that the server ended with this status; the supervisor
    /// ends without error.
    ReportExit(Option<i32>),
    /// The supervisor ends without error.
    Finish,
    /// The supervisor ends with this error.
    Fail(DevelopError),
}

/// The supervisor of a development server that is bound to `port`.
#[derive(Debug, Clone, Copy, PartialEq, Eq, Structural)]
pub struct Supervisor {
    pub port: u16,
    pub state: Supervision,
}

impl Supervisor {
    /// Whether `action` and `next` are what `event` leads to from this
    /// state. On the shutdown signal the process bound to the port is
    /// ended, not the child alone; the exit of the child is reported and
    /// is no error; after the end, nothing is asked for.
    pub open spec fn leads_to(
        self,
        event: SupervisorEvent,
        next: Supervisor,
        action: SupervisorAction,
    ) -> bool {
        &&& next.port == self.port
        &&& match (self.state, event) {
            (Supervision::Watching, SupervisorEvent::ChildExited(status)) => next.state is Done
                && action == SupervisorAction::ReportExit(status),
            (Supervision::Watching, SupervisorEvent::WaitFailed(reason)) => {
                &&& next.state is Done
                &&& action matches SupervisorAction::Fail(DevelopError::Wait(r)) && r == reason
            },
            (Supervision::Watching, SupervisorEvent::ShutdownRequested) => next.state is Killing
                && action == SupervisorAction::KillByPort(self.port),
            (Supervision::Killing, SupervisorEvent::Killed) => next.state is Done && action
                == SupervisorAction::Finish,
            (Supervision::Killing, SupervisorEvent::KillFailed(reason)) => {
                &&& next.state is Done
                &&& action matches SupervisorAction::Fail(DevelopError::Kill(r)) && r == reason
            },
            _ => next.state == self.state && action == SupervisorAction::Nothing,
        }
    }

    /// The supervisor of a server that was just started.
    pub fn new(port: u16) -> (supervisor: Self)
        ensures
            supervisor.port == port,
            supervisor.state is Watching,
    {
        Supervisor { port, state: Supervision::Watching }
    }

    /// Takes `event` in and says what to do.
    pub fn advance(&mut self, event: SupervisorEvent) -> (action: SupervisorAction)
        ensures
            old(self).leads_to(event, *final(self), action),
    {
        match self.state {
            Supervision::Watching => match event {
                SupervisorEvent::ChildExited(status) => {
                    self.state = Supervision::Done;
                    SupervisorAction::ReportExit(status)
                },
                SupervisorEvent::WaitFailed(reason) => {
                    self.state = Supervision::Done;
                    SupervisorAction::Fail(DevelopError::Wait(reason))
                },
                SupervisorEvent::ShutdownRequested => {
                    self.state = Supervision::Killing;
                    SupervisorAction::KillByPort(self.port)
                },
                _ => SupervisorAction::Nothing,
            },
            Supervision::Killing => match event {
                SupervisorEvent::Killed => {
                    self.state = Supervision::Done;
                    SupervisorAction::Finish
                },
                SupervisorEvent::KillFailed(reason) => {
                    self.state = Supervision::Done;
                    SupervisorAction::Fail(DevelopError::Kill(reason))
                },
                _ => SupervisorAction::Nothing,
            },
            Supervision::Done => SupervisorAction::Nothing,
        }
    }
}

/// The number of requests that a probe makes at most.
pub const RETRY_COUNT: u32 = 100;

/// The time in milliseconds after which a probe is given up.
pub const RETRY_TIMEOUT_MS: u64 = 10000;

/// The time in milliseconds between a failed request and the next one.
pub const RETRY_INTERVAL_MS: u64 = 100;

/// What a probe is told.
#[derive(Debug, Clone, Copy, PartialEq, Eq, Structural)]
pub enum ProbeEvent {
    /// The probe begins.
    Begin,
    /// The request was answered.
    Answered,
    /// The request failed.
    Refused,
    /// The pause after a failed request is over.
    Rested,
    /// The time of the probe is up.
    TimedOut,
}

/// What a probe asks for.
#[derive(Debug, Clone, Copy, PartialEq, Eq, Structural)]
pub enum ProbeAction {
    /// Nothing: the probe is over, or the event does not fit.
    Nothing,
    /// Send a request to the development server.
    Request,
    /// Pause for this many milliseconds.
    Rest(u64),
    /// The server answered: go on.
    Ready,
    /// All requests failed: go on all the same.
    Exhausted,
    /// The time is up: startup fails.
    GiveUp,
}

/// Where a probe stands.
#[derive(Debug, Clone, Copy, PartialEq, Eq, Structural)]
pub enum ProbeState {
    /// Not begun.
    Idle,
    /// A request is under way.
    Requesting,
    /// A pause is under way.
    Resting,
    /// Over.
    Over,
}

/// A probe of the development server: requests with pauses between them
/// until one is answered, all have failed, or the time is up.
#[derive(Debug, Clone, Copy, PartialEq, Eq, Structural)]
pub struct HealthProbe {
    /// Where the probe stands.
    pub state: ProbeState,
    /// How many requests were asked for.
    pub requests: u32,
}

impl HealthProbe {
    /// The probe after `event`, and what to do.
    pub open spec fn after(self, event: ProbeEvent) -> (HealthProbe, ProbeAction) {
        match (self.state, event) {
            (ProbeState::Over, _) => (self, ProbeAction::Nothing),
            (_, ProbeEvent::TimedOut) => (
                HealthProbe { state: ProbeState::Over, requests: self.requests },
                ProbeAction::GiveUp,
            ),
            (ProbeState::Idle, ProbeEvent::Begin) => (
                HealthProbe { state: ProbeState::Requesting, requests: 1 },
                ProbeAction::Request,
            ),
            (ProbeState::Requesting, ProbeEvent::Answered) => (
                HealthProbe { state: ProbeState::Over, requests: self.requests },
                ProbeAction::Ready,
            ),
            (ProbeState::Requesting, ProbeEvent::Refused) => (
                HealthProbe { state: ProbeState::Resting, requests: self.requests },
                ProbeAction::Rest(RETRY_INTERVAL_MS),
            ),
            (ProbeState::Resting, ProbeEvent::Rested) => if self.requests < RETRY_COUNT {
                (
                    HealthProbe {
                        state: ProbeState::Requesting,
                        requests: (self.requests + 1) as u32,
                    },
                    ProbeAction::Request,
                )
            } else {
                (
                    HealthProbe { state: ProbeState::Over, requests: self.requests },
                    ProbeAction::Exhausted,
                )
            },
            _ => (self, ProbeAction::Nothing),
        }
    }

    /// A probe that has not begun.
    pub fn new() -> (probe: Self)
        ensures
            probe.state is Idle,
            probe.requests == 0,
    {
        HealthProbe { state: ProbeState::Idle, requests: 0 }
    }

    /// Takes `event` in and says what to do.
    pub fn advance(&mut self, event: ProbeEvent) -> (action: ProbeAction)
        ensures
            (*final(self), action) == old(self).after(event),
    {
        match (self.state, event) {
            (ProbeState::Over, _) => ProbeAction::Nothing,
            (_, ProbeEvent::TimedOut) => {
                self.state = ProbeState::Over;
                ProbeAction::GiveUp
            },
            (ProbeState::Idle, ProbeEvent::Begin) => {
                self.state = ProbeState::Requesting;
                self.requests = 1;
                ProbeAction::Request
            },
            (ProbeState::Requesting, ProbeEvent::Answered) => {
                self.state = ProbeState::Over;
                ProbeAction::Ready
            },
            (ProbeState::Requesting, ProbeEvent::Refused) => {
                self.state = ProbeState::Resting;
                ProbeAction::Rest(RETRY_INTERVAL_MS)
            },
            (ProbeState::Resting, ProbeEvent::Rested) => {
                if self.requests < RETRY_COUNT {
                    self.state = ProbeState::Requesting;
                    self.requests = self.requests + 1;
                    ProbeAction::Request
                } else {
                    self.state = ProbeState::Over;
                    ProbeAction::Exhausted
                }
            },
            _ => ProbeAction::Nothing,
        }
    }

    /// What the probe amounts to once it is over: startup goes on after an
    /// answer and after the last failed request, and fails when the time
    /// was up.
    pub fn verdict(action: ProbeAction) -> (verdict: Option<Result<(), DevelopError>>)
        ensures
            match action {
                ProbeAction::Ready | ProbeAction::Exhausted => verdict == Some(
                    Ok::<(), DevelopError>(()),
                ),
                ProbeAction::GiveUp => verdict == Some(
                    Err::<(), DevelopError>(DevelopError::ProbeTimeout),
                ),
                _ => verdict is None,
            },
    {
        match action {
            ProbeAction::Ready => Some(Ok(())),
            ProbeAction::Exhausted => Some(Ok(())),
            ProbeAction::GiveUp => Some(Err(DevelopError::ProbeTimeout)),
            _ => None,
        }
    }
}

/// A probe never asks for more than [`RETRY_COUNT`] requests: from a probe
/// that has asked for no more, no event leads to one that has.
pub proof fn lemma_requests_are_bounded(probe: HealthProbe, event: ProbeEvent)
    requires
        probe.requests <= RETRY_COUNT,
    ensures
        probe.after(event).0.requests <= RETRY_COUNT,
        probe.after(event).1 is Request ==> probe.after(event).0.requests == (if probe.state
            is Idle {
            1
        } else {
            probe.requests + 1
        }),
{
}

/// A probe that is over stays over and asks for nothing.
pub proof fn lemma_probe_ends_once(probe: HealthProbe, event: ProbeEvent)
    requires
        probe.state is Over,
    ensures
        probe.after(event) == (probe, ProbeAction::Nothing),
{
}

} // verus!
