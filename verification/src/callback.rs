//! A callback: a command that is run anew for each query, with the query
//! in place of every argument that is the query variable.

use vstd::prelude::*;
use crate::command::{is_output, CommandError, Invocation, ProcessOutcome, ProcessResult};
use crate::text::{optional_text, text_eq, texts};

verus! {

/// The argument that stands for the current query.
pub const QUERY_VAR_NAME: &'static str = "$QUERY";

/// A program and the arguments it is called with.
#[derive(Debug)]
pub struct Callback {
    program: String,
    args: Vec<String>,
}

/// The arguments with `query` in place of each one that is the query
/// variable.
pub open spec fn with_query(args: Seq<Seq<char>>, query: Seq<char>) -> Seq<Seq<char>> {
    args.map_values(
        |a: Seq<char>|
            if a == QUERY_VAR_NAME@ {
                query
            } else {
                a
            },
    )
}

impl Callback {
    /// The program that is run.
    pub closed spec fn program(&self) -> Seq<char> {
        self.program@
    }

    /// The arguments as they were given.
    pub closed spec fn arguments(&self) -> Seq<Seq<char>> {
        texts(self.args@)
    }

    /// A callback from a command line: the program first, then its
    /// arguments.
    pub fn new(cli_args: Vec<String>) -> (callback: Self)
        requires
            cli_args@.len() > 0,
        ensures
            callback.program() == cli_args@[0]@,
            callback.arguments() == texts(cli_args@).drop_first(),
    {
        let mut args = cli_args;
        let ghost all = args@;
        let program = args.remove(0);
        assert(texts(args@) =~= texts(all).drop_first());
        Callback { program, args }
    }

    /// The process to start for `query`.
    pub fn prepare(&self, query: &str) -> (invocation: Invocation)
        ensures
            invocation.runs(self.program(), with_query(self.arguments(), query@), None),
    {
        let mut arguments: Vec<String> = Vec::new();
        let mut i: usize = 0;
        while i < self.args.len()
            invariant
                0 <= i <= self.args@.len(),
                texts(arguments@) == with_query(texts(self.args@), query@).subrange(0, i as int),
            decreases self.args@.len() - i,
        {
            let ghost before = texts(arguments@);
            let argument = if text_eq(self.args[i].as_str(), QUERY_VAR_NAME) {
                String::from_str(query)
            } else {
                self.args[i].clone()
            };
            arguments.push(argument);
            assert(texts(arguments@) =~= before.push(
                with_query(texts(self.args@), query@)[i as int],
            ));
            assert(texts(arguments@) =~= with_query(texts(self.args@), query@).subrange(
                0,
                i + 1,
            ));
            i += 1;
        }
        assert(with_query(texts(self.args@), query@).subrange(0, self.args@.len() as int)
            =~= with_query(texts(self.args@), query@));
        let invocation = Invocation { program: self.program.clone(), arguments, stdin: None };
        assert(optional_text(invocation.stdin) == None::<Seq<char>>);
        invocation
    }

    /// The verdict on a run: what the process printed, whatever status it
    /// ended with.
    pub fn complete(outcome: ProcessOutcome) -> (verdict: Result<ProcessResult, CommandError>)
        ensures
            is_output(verdict, outcome),
    {
        crate::command::Command::complete_unchecked(outcome)
    }

    /// Runs the callback for `query` with `run`, which starts the process
    /// and says how it ended, and gives the verdict on that run.
    pub fn call<F: FnOnce(&Invocation) -> ProcessOutcome>(&self, query: &str, run: F) -> (verdict:
        Result<ProcessResult, CommandError>)
        requires
            forall|invocation: &Invocation| run.requires((invocation,)),
        ensures
            exists|invocation: Invocation, outcome: ProcessOutcome|
                {
                    &&& invocation.runs(self.program(), with_query(self.arguments(), query@), None)
                    &&& #[trigger] run.ensures((&invocation,), outcome)
                    &&& is_output(verdict, outcome)
                },
    {
        let invocation = self.prepare(query);
        let outcome = run(&invocation);
        Callback::complete(outcome)
    }
}

} // verus!
