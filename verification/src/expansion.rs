//! Expansion of `~`, environment variables and named arguments inside path
//! and command-argument templates.
//!
//! The grammar of the templates is the one of the `shellexpand` crate; what
//! this module decides is where a variable's value comes from, and which
//! error a variable without a value gives.

use vstd::prelude::*;
use crate::dictionary::Dictionary;

verus! {

/// What the process environment holds under one name.
#[derive(Debug, Clone, PartialEq, Eq)]
pub enum EnvironmentValue {
    /// A value that is valid Unicode.
    Text(String),
    /// A value that is not valid Unicode and so cannot be substituted.
    NotUnicode,
}

/// The named arguments of one invocation.
pub type ArgumentMap = Dictionary<String>;

/// A snapshot of what expansion consults besides the arguments.
#[derive(Debug, PartialEq, Eq)]
pub struct ExpansionContext {
    /// The environment variables, by name.
    pub environment: Dictionary<EnvironmentValue>,
    /// The user's home directory, where it is known and valid Unicode.
    pub home_dir: Option<String>,
}

/// Why a template could not be expanded.
#[derive(Debug, Clone, PartialEq, Eq)]
pub enum ExpansionError {
    /// The named variable is neither an argument nor in the environment.
    UnresolvedVariable(String),
    /// The named variable is in the environment with a value that is not
    /// valid Unicode.
    InvalidEncoding(String),
}

/// The bindings of the arguments that are present, as a map.
pub open spec fn bound_arguments(args: Option<&ArgumentMap>) -> Map<Seq<char>, String> {
    match args {
        Some(map) => map@,
        None => Map::empty(),
    }
}

/// The values that variables expand to: an argument's binding where there
/// is one, else the environment's value where that is text.
pub open spec fn variables(
    args: Map<Seq<char>, String>,
    environment: Map<Seq<char>, EnvironmentValue>,
) -> Map<Seq<char>, Seq<char>> {
    Map::new(
        |name: Seq<char>|
            args.contains_key(name) || (environment.contains_key(name)
                && environment[name] is Text),
        |name: Seq<char>|
            if args.contains_key(name) {
                args[name]@
            } else {
                environment[name]->Text_0@
            },
    )
}

/// Whether `error` is the error that the variable `name`, which has no
/// value, gives in `environment`.
pub open spec fn is_failure_of(
    error: ExpansionError,
    name: Seq<char>,
    environment: Map<Seq<char>, EnvironmentValue>,
) -> bool {
    if environment.contains_key(name) {
        error matches ExpansionError::InvalidEncoding(n) && n@ == name
    } else {
        error matches ExpansionError::UnresolvedVariable(n) && n@ == name
    }
}

/// Whether `result` is the outcome `expected`, given as character
/// sequences with the name of the failing variable as the error.
pub open spec fn is_expansion(
    result: Result<String, ExpansionError>,
    expected: Result<Seq<char>, Seq<char>>,
    environment: Map<Seq<char>, EnvironmentValue>,
) -> bool {
    match expected {
        Ok(text) => result matches Ok(s) && s@ == text,
        Err(name) => result matches Err(e) && is_failure_of(e, name, environment),
    }
}

/// What `shellexpand::env_with_context` makes of `template` when each
/// variable in the domain of `variables` has that value and a lookup of any
/// other variable fails: the expanded text, or the name of the variable
/// whose lookup failed.
pub uninterp spec fn variable_expansion(
    template: Seq<char>,
    variables: Map<Seq<char>, Seq<char>>,
) -> Result<Seq<char>, Seq<char>>;

/// What `shellexpand::full_with_context` makes of `template` with the home
/// directory `home` and the variables as for [`variable_expansion`].
pub uninterp spec fn path_expansion(
    template: Seq<char>,
    home: Option<Seq<char>>,
    variables: Map<Seq<char>, Seq<char>>,
) -> Result<Seq<char>, Seq<char>>;

/// The home directory as a character sequence.
pub open spec fn home_view(home: Option<String>) -> Option<Seq<char>> {
    match home {
        Some(dir) => Some(dir@),
        None => None,
    }
}

/// Looks one variable up: first among the arguments, then in the
/// environment. A variable without a value is an error, never `Ok(None)`.
pub fn env_expansion_context(
    s: &str,
    args: Option<&ArgumentMap>,
    environment: &Dictionary<EnvironmentValue>,
) -> (r: Result<Option<String>, ExpansionError>)
    ensures
        match r {
            Ok(Some(value)) => {
                &&& variables(bound_arguments(args), environment@).contains_key(s@)
                &&& value@ == variables(bound_arguments(args), environment@)[s@]
            },
            Ok(None) => false,
            Err(e) => {
                &&& !variables(bound_arguments(args), environment@).contains_key(s@)
                &&& is_failure_of(e, s@, environment@)
            },
        },
        bound_arguments(args).contains_key(s@) ==> (r matches Ok(Some(value)) && value@
            == bound_arguments(args)[s@]@),
{
    if let Some(map) = args {
        if let Some(value) = map.get(s) {
            return Ok(Some(value.clone()));
        }
    }
    match environment.get(s) {
        Some(EnvironmentValue::Text(value)) => Ok(Some(value.clone())),
        Some(EnvironmentValue::NotUnicode) => Err(
            ExpansionError::InvalidEncoding(String::from_str(s)),
        ),
        None => Err(ExpansionError::UnresolvedVariable(String::from_str(s))),
    }
}

/// Calls `shellexpand::env_with_context` on `template`, with
/// [`env_expansion_context`] as the lookup. The contract names the result
/// and adds what the crate's source shows of a failure: the lookup of the
/// variable it names has failed.
#[verifier::external_body]
fn expand_variables(
    template: &str,
    args: Option<&ArgumentMap>,
    environment: &Dictionary<EnvironmentValue>,
) -> (r: Result<String, String>)
    ensures
        match variable_expansion(template@, variables(bound_arguments(args), environment@)) {
            Ok(text) => r matches Ok(s) && s@ == text,
            Err(name) => r matches Err(n) && n@ == name,
        },
        r matches Err(n) ==> !variables(bound_arguments(args), environment@).contains_key(n@),
{
    let lookup = |name: &str| env_expansion_context(name, args, environment);
    match shellexpand::env_with_context(template, lookup) {
        Ok(text) => Ok(text.into_owned()),
        Err(failure) => Err(failure.var_name),
    }
}

/// Calls `shellexpand::full_with_context` on `template`, with the home
/// directory of `context` and [`env_expansion_context`] without arguments
/// as the lookup. The contract names the result and adds what the crate's
/// source shows of a failure: the lookup of the variable it names has
/// failed.
#[verifier::external_body]
fn expand_home_and_variables(template: &str, context: &ExpansionContext) -> (r: Result<
    String,
    String,
>)
    ensures
        match path_expansion(
            template@,
            home_view(context.home_dir),
            variables(Map::empty(), context.environment@),
        ) {
            Ok(text) => r matches Ok(s) && s@ == text,
            Err(name) => r matches Err(n) && n@ == name,
        },
        r matches Err(n) ==> !variables(Map::empty(), context.environment@).contains_key(n@),
{
    let home = || context.home_dir.as_ref();
    let lookup = |name: &str| env_expansion_context(name, None, &context.environment);
    match shellexpand::full_with_context(template, home, lookup) {
        Ok(text) => Ok(text.into_owned()),
        Err(failure) => Err(failure.var_name),
    }
}

/// The error of the variable `name`, of which an expansion has said that
/// it has no value.
fn failure_of(
    name: String,
    args: Option<&ArgumentMap>,
    environment: &Dictionary<EnvironmentValue>,
) -> (e: ExpansionError)
    requires
        !variables(bound_arguments(args), environment@).contains_key(name@),
    ensures
        is_failure_of(e, name@, environment@),
{
    match env_expansion_context(name.as_str(), args, environment) {
        Err(e) => e,
        Ok(_) => ExpansionError::UnresolvedVariable(name),
    }
}

/// Expands the variables of one command-argument template. A variable
/// takes its value from `args` where they bind it, else from the
/// environment; `~` is left as it stands.
pub fn shell_expand(item: &str, args: Option<&ArgumentMap>, context: &ExpansionContext) -> (r:
    Result<String, ExpansionError>)
    ensures
        is_expansion(
            r,
            variable_expansion(item@, variables(bound_arguments(args), context.environment@)),
            context.environment@,
        ),
{
    match expand_variables(item, args, &context.environment) {
        Ok(text) => Ok(text),
        Err(name) => Err(failure_of(name, args, &context.environment)),
    }
}

/// Expands a path: a leading `~` to the home directory, and variables from
/// the environment.
pub fn expand_path(path: &str, context: &ExpansionContext) -> (r: Result<String, ExpansionError>)
    ensures
        is_expansion(
            r,
            path_expansion(
                path@,
                home_view(context.home_dir),
                variables(Map::empty(), context.environment@),
            ),
            context.environment@,
        ),
{
    match expand_home_and_variables(path, context) {
        Ok(text) => Ok(text),
        Err(name) => Err(failure_of(name, None, &context.environment)),
    }
}

/// A variable that the arguments bind has the arguments' value, whatever
/// the environment holds under its name.
pub proof fn lemma_arguments_take_precedence(
    name: Seq<char>,
    args: Map<Seq<char>, String>,
    environment: Map<Seq<char>, EnvironmentValue>,
)
    requires
        args.contains_key(name),
    ensures
        variables(args, environment).contains_key(name),
        variables(args, environment)[name] == args[name]@,
{
}

/// Two environments that differ only under names that the arguments bind
/// give every template the same expansion.
pub proof fn lemma_shadowed_environment_is_irrelevant(
    template: Seq<char>,
    args: Map<Seq<char>, String>,
    first: Map<Seq<char>, EnvironmentValue>,
    second: Map<Seq<char>, EnvironmentValue>,
)
    requires
        forall|name: Seq<char>|
            !args.contains_key(name) ==> (first.contains_key(name) == second.contains_key(name)
                && (first.contains_key(name) ==> first[name] == second[name])),
    ensures
        variables(args, first) == variables(args, second),
        variable_expansion(template, variables(args, first)) == variable_expansion(
            template,
            variables(args, second),
        ),
{
    assert(variables(args, first) =~= variables(args, second));
}

} // verus!
