//! Commands: an argument-vector template with the format of its output,
//! the invocation that it expands to, and the verdict on a finished run.
//!
//! Running the process is left to the caller: `prepare` says what to run,
//! `complete` says what the run amounts to.

use vstd::prelude::*;
use crate::expansion::{
    bound_arguments, is_failure_of, shell_expand, variable_expansion, variables, ArgumentMap,
    EnvironmentValue, ExpansionContext, ExpansionError,
};
use crate::io::IOFormat;
use crate::text::{first_error, lemma_first_error_is, texts};

verus! {

/// A command template: the program, then its arguments, each of which may
/// hold variables.
#[derive(Debug, Clone, PartialEq, Eq)]
pub struct Command {
    pub command: Vec<String>,
    pub output_format: IOFormat,
}

/// A process to start: the program, its arguments, and what to write to
/// its standard input before closing it.
#[derive(Debug, Clone, PartialEq, Eq)]
pub struct Invocation {
    pub program: String,
    pub arguments: Vec<String>,
    pub stdin: Option<String>,
}

/// How an attempt to run a process ended.
#[derive(Debug, Clone, PartialEq, Eq)]
pub enum ProcessOutcome {
    /// The process could not be started.
    SpawnFailed(String),
    /// Writing its input or reading its output failed.
    IoFailed(String),
    /// The process ran and ended with `status`, absent where it ended
    /// without an exit code.
    Exited { stdout: Vec<u8>, status: Option<i32> },
}

/// What a process printed, and its exit status.
#[derive(Debug, Clone, PartialEq, Eq)]
pub struct ProcessResult {
    pub stdout: Vec<u8>,
    pub exit_status: Option<i32>,
}

/// Why a command gave no result.
#[derive(Debug, Clone, PartialEq, Eq)]
pub enum CommandError {
    /// The template has no program.
    EmptyCommand,
    /// A part of the template could not be expanded.
    Expansion(ExpansionError),
    /// The process could not be started.
    SpawnError(String),
    /// Writing to the process or reading from it failed.
    IOError(String),
    /// The process ended with a status other than zero, or with none.
    CommandFailed(Option<i32>),
}

/// The expansion of each template.
pub open spec fn expansions(templates: Seq<Seq<char>>, values: Map<Seq<char>, Seq<char>>) -> Seq<
    Result<Seq<char>, Seq<char>>,
> {
    templates.map_values(|t: Seq<char>| variable_expansion(t, values))
}

/// Whether `outcome` is what expanding all `templates` in order gives: all
/// the expanded texts, or the error of the first template that fails.
pub open spec fn is_expansion_of_all(
    outcome: Result<Vec<String>, ExpansionError>,
    templates: Seq<Seq<char>>,
    args: Map<Seq<char>, String>,
    environment: Map<Seq<char>, EnvironmentValue>,
) -> bool {
    let results = expansions(templates, variables(args, environment));
    let failed = first_error(results);
    match outcome {
        Ok(expanded) => {
            &&& failed == templates.len()
            &&& expanded@.len() == templates.len()
            &&& forall|i: int|
                0 <= i < templates.len() ==> results[i] == Ok::<Seq<char>, Seq<char>>(
                    #[trigger] expanded@[i]@,
                )
        },
        Err(e) => {
            &&& failed < templates.len()
            &&& results[failed] matches Err(name) && is_failure_of(e, name, environment)
        },
    }
}

/// Expands every template in order and stops at the first that fails.
pub fn expand_all(
    templates: &Vec<String>,
    args: Option<&ArgumentMap>,
    context: &ExpansionContext,
) -> (outcome: Result<Vec<String>, ExpansionError>)
    ensures
        is_expansion_of_all(
            outcome,
            texts(templates@),
            bound_arguments(args),
            context.environment@,
        ),
{
    let ghost results = expansions(
        texts(templates@),
        variables(bound_arguments(args), context.environment@),
    );
    let mut expanded: Vec<String> = Vec::new();
    let mut i: usize = 0;
    while i < templates.len()
        invariant
            0 <= i <= templates@.len(),
            results == expansions(
                texts(templates@),
                variables(bound_arguments(args), context.environment@),
            ),
            expanded@.len() == i,
            forall|j: int|
                0 <= j < i ==> results[j] == Ok::<Seq<char>, Seq<char>>(#[trigger] expanded@[j]@),
        decreases templates@.len() - i,
    {
        match shell_expand(templates[i].as_str(), args, context) {
            Ok(text) => {
                expanded.push(text);
            },
            Err(e) => {
                proof {
                    assert(results[i as int] is Err);
                    assert forall|j: int| 0 <= j < i implies results[j] is Ok by {
                        assert(results[j] == Ok::<Seq<char>, Seq<char>>(expanded@[j]@));
                    }
                    lemma_first_error_is(results, i as int);
                }
                return Err(e);
            },
        }
        i += 1;
    }
    proof {
        assert forall|j: int| 0 <= j < templates@.len() implies results[j] is Ok by {
            assert(results[j] == Ok::<Seq<char>, Seq<char>>(expanded@[j]@));
        }
        lemma_first_error_is(results, templates@.len() as int);
    }
    Ok(expanded)
}

/// The lines with `separator` between each two of them.
pub open spec fn joined(lines: Seq<Seq<char>>, separator: Seq<char>) -> Seq<char>
    decreases lines.len(),
{
    if lines.len() == 0 {
        Seq::empty()
    } else if lines.len() == 1 {
        lines[0]
    } else {
        joined(lines.drop_last(), separator) + separator + lines.last()
    }
}

/// Joins `lines` with `separator` between each two of them.
pub fn join_lines(lines: &Vec<String>, separator: &str) -> (text: String)
    ensures
        text@ == joined(texts(lines@), separator@),
{
    let mut text = String::new();
    let mut i: usize = 0;
    while i < lines.len()
        invariant
            0 <= i <= lines@.len(),
            text@ == joined(texts(lines@).subrange(0, i as int), separator@),
        decreases lines@.len() - i,
    {
        let ghost before = texts(lines@).subrange(0, i as int);
        let ghost after = texts(lines@).subrange(0, i + 1);
        proof {
            assert(after.drop_last() =~= before);
            assert(after.last() == lines@[i as int]@);
        }
        if i > 0 {
            text.append(separator);
        }
        text.append(lines[i].as_str());
        proof {
            if i == 0 {
                assert(text@ =~= lines@[0]@);
            }
        }
        i += 1;
    }
    assert(texts(lines@).subrange(0, lines@.len() as int) =~= texts(lines@));
    text
}

/// What is written to standard input: the lines joined by `line_ending`,
/// where there are lines.
pub open spec fn stdin_text(lines: Option<Vec<String>>, line_ending: Seq<char>) -> Option<
    Seq<char>,
> {
    match lines {
        Some(list) => Some(joined(texts(list@), line_ending)),
        None => None,
    }
}

/// Whether `verdict` is the verdict on a run whose exit status matters:
/// its output where it ended with status zero, else the error that says
/// why not.
pub open spec fn is_verdict(verdict: Result<ProcessResult, CommandError>, outcome: ProcessOutcome) -> bool {
    match outcome {
        ProcessOutcome::SpawnFailed(reason) => verdict matches Err(CommandError::SpawnError(r))
            && r == reason,
        ProcessOutcome::IoFailed(reason) => verdict matches Err(CommandError::IOError(r)) && r
            == reason,
        ProcessOutcome::Exited { stdout, status } => if status == Some(0i32) {
            verdict matches Ok(result) && result.stdout == stdout && result.exit_status == status
        } else {
            verdict matches Err(CommandError::CommandFailed(s)) && s == status
        },
    }
}

/// Whether `verdict` is the verdict on a run of which only the output
/// matters: whatever the process printed, with the status it ended with.
pub open spec fn is_output(verdict: Result<ProcessResult, CommandError>, outcome: ProcessOutcome) -> bool {
    match outcome {
        ProcessOutcome::SpawnFailed(reason) => verdict matches Err(CommandError::SpawnError(r))
            && r == reason,
        ProcessOutcome::IoFailed(reason) => verdict matches Err(CommandError::IOError(r)) && r
            == reason,
        ProcessOutcome::Exited { stdout, status } => verdict matches Ok(result) && result.stdout
            == stdout && result.exit_status == status,
    }
}

impl Invocation {
    /// Whether this invocation runs `program` with `arguments` and writes
    /// `stdin`.
    pub open spec fn runs(
        self,
        program: Seq<char>,
        arguments: Seq<Seq<char>>,
        stdin: Option<Seq<char>>,
    ) -> bool {
        &&& self.program@ == program
        &&& texts(self.arguments@) == arguments
        &&& crate::text::optional_text(self.stdin) == stdin
    }
}

/// The texts that the expansions hold, where all of them succeeded.
pub open spec fn expanded_texts(results: Seq<Result<Seq<char>, Seq<char>>>) -> Seq<Seq<char>> {
    results.map_values(|r: Result<Seq<char>, Seq<char>>| r->Ok_0)
}

impl Command {
    /// Whether `outcome` is what preparing this command gives.
    pub open spec fn prepares(
        self,
        outcome: Result<Invocation, CommandError>,
        args: Map<Seq<char>, String>,
        stdin: Option<Seq<char>>,
        environment: Map<Seq<char>, EnvironmentValue>,
    ) -> bool {
        let results = expansions(texts(self.command@), variables(args, environment));
        let failed = first_error(results);
        match outcome {
            Ok(invocation) => {
                &&& self.command@.len() > 0
                &&& failed == self.command@.len()
                &&& invocation.runs(
                    expanded_texts(results)[0],
                    expanded_texts(results).drop_first(),
                    stdin,
                )
            },
            Err(CommandError::EmptyCommand) => self.command@.len() == 0,
            Err(CommandError::Expansion(e)) => {
                &&& failed < self.command@.len()
                &&& results[failed] matches Err(name) && is_failure_of(e, name, environment)
            },
            Err(_) => false,
        }
    }

    /// Expands the template into the process to start. The program and
    /// the arguments are expanded in order, and the first failure is the
    /// error; `stdin_lines` are joined by `line_ending`.
    pub fn prepare(
        &self,
        args: Option<&ArgumentMap>,
        stdin_lines: Option<Vec<String>>,
        line_ending: &str,
        context: &ExpansionContext,
    ) -> (outcome: Result<Invocation, CommandError>)
        ensures
            self.prepares(
                outcome,
                bound_arguments(args),
                stdin_text(stdin_lines, line_ending@),
                context.environment@,
            ),
    {
        if self.command.len() == 0 {
            return Err(CommandError::EmptyCommand);
        }
        let ghost results = expansions(
            texts(self.command@),
            variables(bound_arguments(args), context.environment@),
        );
        match expand_all(&self.command, args, context) {
            Err(e) => Err(CommandError::Expansion(e)),
            Ok(mut expanded) => {
                let ghost all = expanded@;
                let program = expanded.remove(0);
                let stdin = match stdin_lines {
                    Some(lines) => Some(join_lines(&lines, line_ending)),
                    None => None,
                };
                proof {
                    assert(texts(all) =~= expanded_texts(results)) by {
                        assert forall|i: int| 0 <= i < all.len() implies texts(all)[i]
                            == expanded_texts(results)[i] by {
                            assert(results[i] == Ok::<Seq<char>, Seq<char>>(all[i]@));
                        }
                    }
                    assert(texts(expanded@) =~= texts(all).drop_first());
                }
                Ok(Invocation { program, arguments: expanded, stdin })
            },
        }
    }

    /// The verdict on a run whose exit status matters: its output where it
    /// ended with status zero, else the error that says why not.
    pub fn complete(outcome: ProcessOutcome) -> (verdict: Result<ProcessResult, CommandError>)
        ensures
            is_verdict(verdict, outcome),
    {
        match outcome {
            ProcessOutcome::SpawnFailed(reason) => Err(CommandError::SpawnError(reason)),
            ProcessOutcome::IoFailed(reason) => Err(CommandError::IOError(reason)),
            ProcessOutcome::Exited { stdout, status } => {
                match status {
                    Some(code) => {
                        if code == 0 {
                            Ok(ProcessResult { stdout, exit_status: status })
                        } else {
                            Err(CommandError::CommandFailed(status))
                        }
                    },
                    None => Err(CommandError::CommandFailed(status)),
                }
            },
        }
    }

    /// The verdict on a run of which only the output matters: whatever the
    /// process printed, with the status it ended with.
    pub fn complete_unchecked(outcome: ProcessOutcome) -> (verdict: Result<
        ProcessResult,
        CommandError,
    >)
        ensures
            is_output(verdict, outcome),
    {
        match outcome {
            ProcessOutcome::SpawnFailed(reason) => Err(CommandError::SpawnError(reason)),
            ProcessOutcome::IoFailed(reason) => Err(CommandError::IOError(reason)),
            ProcessOutcome::Exited { stdout, status } => Ok(
                ProcessResult { stdout, exit_status: status },
            ),
        }
    }

    /// Whether `verdict` is what calling this command gives when `run`
    /// carries out the invocation: the error of the preparation, or the
    /// verdict on what `run` reports of the prepared invocation.
    pub open spec fn calls<F: FnOnce(&Invocation) -> ProcessOutcome>(
        self,
        verdict: Result<ProcessResult, CommandError>,
        args: Map<Seq<char>, String>,
        stdin: Option<Seq<char>>,
        environment: Map<Seq<char>, EnvironmentValue>,
        run: F,
    ) -> bool {
        ||| verdict matches Err(e) && self.prepares(Err(e), args, stdin, environment)
        ||| exists|invocation: Invocation, outcome: ProcessOutcome|
            {
                &&& self.prepares(Ok(invocation), args, stdin, environment)
                &&& #[trigger] run.ensures((&invocation,), outcome)
                &&& is_verdict(verdict, outcome)
            }
    }

    /// Prepares the command and has `run` start the process and report how
    /// it ended. The answer is what the process printed where it ended
    /// with status zero, else the error that says what went wrong.
    pub fn call<F: FnOnce(&Invocation) -> ProcessOutcome>(
        &self,
        args: Option<&ArgumentMap>,
        stdin_lines: Option<Vec<String>>,
        line_ending: &str,
        context: &ExpansionContext,
        run: F,
    ) -> (verdict: Result<ProcessResult, CommandError>)
        requires
            forall|invocation: &Invocation| run.requires((invocation,)),
        ensures
            self.calls(
                verdict,
                bound_arguments(args),
                stdin_text(stdin_lines, line_ending@),
                context.environment@,
                run,
            ),
    {
        let invocation = match self.prepare(args, stdin_lines, line_ending, context) {
            Ok(invocation) => invocation,
            Err(e) => {
                return Err(e);
            },
        };
        let outcome = run(&invocation);
        Command::complete(outcome)
    }
}

/// A run has a result exactly when the process ended with status zero,
/// whatever it printed and were it nothing; in every other case the
/// verdict is one of the three errors of a run.
pub proof fn lemma_verdict_is_classified(
    verdict: Result<ProcessResult, CommandError>,
    outcome: ProcessOutcome,
)
    requires
        is_verdict(verdict, outcome),
    ensures
        verdict is Ok <==> (outcome matches ProcessOutcome::Exited { status, .. } && status == Some(
            0i32,
        )),
        verdict matches Ok(result) ==> outcome matches ProcessOutcome::Exited { stdout, .. }
            && result.stdout == stdout,
        verdict matches Err(e) ==> e is SpawnError || e is IOError || e is CommandFailed,
{
}

} // verus!
