//! The gateway's rules: who may pass, which route a request is for, what
//! the server serves from where, and which parser answers a request.

use vstd::prelude::*;
use crate::command::Command;
use crate::config::Config;
use crate::dictionary::Dictionary;
use crate::expansion::{
    expand_path, home_view, is_failure_of, path_expansion, variables, ExpansionContext,
    ExpansionError,
};
use crate::io::{DataParser, DataSourceKind};
use crate::text::{
    chars_of, copy_texts, find_first, first_error, first_position, lemma_first_error_is,
    sub_text, text_eq, texts,
};

verus! {

/// The number of characters of the secret.
pub const TOKEN_LENGTH: usize = 48;

/// The name of the cookie that carries the secret.
pub const SESSION_COOKIE_NAME: &'static str = "session_id";

/// Whether `c` is an ASCII letter or digit.
pub open spec fn is_alphanumeric(c: char) -> bool {
    ('0' <= c && c <= '9') || ('a' <= c && c <= 'z') || ('A' <= c && c <= 'Z')
}

/// Draws `length` characters from `rand::rng()` with the distribution
/// `rand::distr::Alphanumeric`. Whatever is drawn, there are `length`
/// characters and each is an ASCII letter or digit.
#[verifier::external_body]
fn random_alphanumeric(length: usize) -> (text: String)
    ensures
        text@.len() == length,
        forall|i: int| 0 <= i < text@.len() ==> is_alphanumeric(#[trigger] text@[i]),
{
    rand::Rng::sample_iter(rand::rng(), &rand::distr::Alphanumeric)
        .take(length)
        .map(char::from)
        .collect()
}

/// The secret that a request has to carry. It cannot be printed.
#[derive(Clone, PartialEq, Eq)]
pub struct AuthToken {
    secret: String,
}

impl AuthToken {
    /// The secret.
    pub closed spec fn secret(&self) -> Seq<char> {
        self.secret@
    }

    /// A fresh random secret.
    pub fn generate() -> (token: Self)
        ensures
            token.secret().len() == TOKEN_LENGTH,
            forall|i: int|
                0 <= i < token.secret().len() ==> is_alphanumeric(#[trigger] token.secret()[i]),
    {
        AuthToken { secret: random_alphanumeric(TOKEN_LENGTH) }
    }

    /// The token with the given secret.
    pub fn from_secret(secret: String) -> (token: Self)
        ensures
            token.secret() == secret@,
    {
        AuthToken { secret }
    }

    /// The secret.
    pub fn value(&self) -> (secret: &str)
        ensures
            secret@ == self.secret(),
    {
        self.secret.as_str()
    }

    /// Whether `candidate` is the secret.
    pub fn admits(&self, candidate: &str) -> (yes: bool)
        ensures
            yes == (candidate@ == self.secret()),
    {
        text_eq(candidate, self.secret.as_str())
    }
}

/// The status of a response.
#[derive(Debug, Clone, Copy, PartialEq, Eq, Structural)]
pub enum Status {
    Success,
    NoContent,
    Unauthorized,
    NotFound,
    MethodNotAllowed,
    InternalServerError,
}

impl Status {
    /// The number of the status.
    pub fn code(&self) -> (code: u16)
        ensures
            code == (match *self {
                Status::Success => 200u16,
                Status::NoContent => 204u16,
                Status::Unauthorized => 401u16,
                Status::NotFound => 404u16,
                Status::MethodNotAllowed => 405u16,
                Status::InternalServerError => 500u16,
            }),
    {
        match self {
            Status::Success => 200,
            Status::NoContent => 204,
            Status::Unauthorized => 401,
            Status::NotFound => 404,
            Status::MethodNotAllowed => 405,
            Status::InternalServerError => 500,
        }
    }
}

/// The cookie that a session is kept in. It carries the secret and cannot
/// be printed.
#[derive(Clone, PartialEq, Eq)]
pub struct SessionCookie {
    pub name: String,
    pub value: String,
    /// Whether scripts are kept from reading the cookie.
    pub http_only: bool,
    /// Whether the cookie is sent with same-site requests only.
    pub same_site_strict: bool,
}

/// The text of an optional string slice.
pub open spec fn presented(credential: Option<&str>) -> Option<Seq<char>> {
    match credential {
        Some(text) => Some(text@),
        None => None,
    }
}

/// Whether a request that carries these credentials may pass: the bearer
/// header or the session cookie has to be the secret.
pub open spec fn is_authorized(
    cookie: Option<Seq<char>>,
    bearer: Option<Seq<char>>,
    secret: Seq<char>,
) -> bool {
    bearer == Some(secret) || cookie == Some(secret)
}

/// Whether a request may pass, given its session cookie and its bearer
/// header, where it has them.
pub fn require_auth(cookie: Option<&str>, bearer: Option<&str>, token: &AuthToken) -> (pass: bool)
    ensures
        pass == is_authorized(presented(cookie), presented(bearer), token.secret()),
{
    let ok_header = match bearer {
        Some(candidate) => token.admits(candidate),
        None => false,
    };
    let ok_cookie = match cookie {
        Some(candidate) => token.admits(candidate),
        None => false,
    };
    ok_header || ok_cookie
}

/// The status of a refusal. A missing credential and a wrong one get the
/// same answer.
pub fn refusal() -> (answer: (Status, String))
    ensures
        answer.0 == Status::Unauthorized,
        answer.1@ == "unauthorized"@,
{
    (Status::Unauthorized, String::from_str("unauthorized"))
}

/// Opens a session for a request whose bearer header is the secret: the
/// answer has no content and sets a strict, http-only cookie that carries
/// the secret. Any other request is unauthorized.
pub fn establish_session(bearer: Option<&str>, token: &AuthToken) -> (answer: Result<
    (SessionCookie, Status),
    Status,
>)
    ensures
        match answer {
            Ok((cookie, status)) => {
                &&& presented(bearer) == Some(token.secret())
                &&& status == Status::NoContent
                &&& cookie.name@ == SESSION_COOKIE_NAME@
                &&& cookie.value@ == token.secret()
                &&& cookie.http_only
                &&& cookie.same_site_strict
            },
            Err(status) => presented(bearer) != Some(token.secret()) && status
                == Status::Unauthorized,
        },
{
    let admitted = match bearer {
        Some(candidate) => token.admits(candidate),
        None => false,
    };
    if !admitted {
        return Err(Status::Unauthorized);
    }
    let cookie = SessionCookie {
        name: String::from_str(SESSION_COOKIE_NAME),
        value: String::from_str(token.value()),
        http_only: true,
        same_site_strict: true,
    };
    Ok((cookie, Status::NoContent))
}

/// The method of a request.
#[derive(Debug, Clone, Copy, PartialEq, Eq, Structural)]
pub enum Method {
    Get,
    Post,
    Put,
    Other,
}

/// What a request is for.
#[derive(Debug, Clone, PartialEq, Eq)]
pub enum Route {
    /// `POST /session`: open a session.
    Session,
    /// `GET /options`: the options of the configuration.
    Options,
    /// `GET /input`: the configured input.
    Input,
    /// `POST /command/{name}`: run the command of that name.
    Command(String),
    /// `PUT /print`: print the values of the body.
    Print,
    /// `PUT /close`: trigger the shutdown signal.
    Close,
    /// `GET /{key}/...`: a file of the mount `key`, at the path that
    /// follows the key.
    Mounted(String, String),
    /// Any other `GET`: a file of the front end.
    Asset(String),
    /// A path of the interface with a method that it does not take, or a
    /// file with a method other than `GET`.
    NotAllowed,
}

impl Route {
    /// Whether a request for this route has to carry the secret: every
    /// route but the one that opens a session.
    pub fn needs_auth(&self) -> (needed: bool)
        ensures
            needed == !(*self is Session),
    {
        match self {
            Route::Session => false,
            _ => true,
        }
    }
}

/// The name of the command in a path of the form `/command/{name}`, where
/// the name is not empty and holds no `/`.
pub open spec fn command_name(path: Seq<char>) -> Option<Seq<char>> {
    if path.len() > 9 && path.subrange(0, 9) == "/command/"@ && first_position(
        path.subrange(9, path.len() as int),
        '/',
    ) == path.len() - 9 {
        Some(path.subrange(9, path.len() as int))
    } else {
        None
    }
}

/// The first segment of a path that begins with `/`, and what follows it,
/// beginning with the next `/` or empty.
pub open spec fn first_segment(path: Seq<char>) -> Option<(Seq<char>, Seq<char>)> {
    if path.len() > 0 && path[0] == '/' {
        let rest = path.subrange(1, path.len() as int);
        let end = first_position(rest, '/');
        Some((rest.subrange(0, end), rest.subrange(end, rest.len() as int)))
    } else {
        None
    }
}

/// Whether `route` is what a request with `method` for `path` is for,
/// `mounts` being the keys of the mounted directories.
pub open spec fn is_route(
    route: Route,
    method: Method,
    path: Seq<char>,
    mounts: Set<Seq<char>>,
) -> bool {
    if path == "/session"@ {
        if method == Method::Post {
            route is Session
        } else {
            route is NotAllowed
        }
    } else if path == "/options"@ {
        if method == Method::Get {
            route is Options
        } else {
            route is NotAllowed
        }
    } else if path == "/input"@ {
        if method == Method::Get {
            route is Input
        } else {
            route is NotAllowed
        }
    } else if path == "/print"@ {
        if method == Method::Put {
            route is Print
        } else {
            route is NotAllowed
        }
    } else if path == "/close"@ {
        if method == Method::Put {
            route is Close
        } else {
            route is NotAllowed
        }
    } else if command_name(path) is Some {
        if method == Method::Post {
            route matches Route::Command(name) && name@ == command_name(path)->Some_0
        } else {
            route is NotAllowed
        }
    } else if method != Method::Get {
        route is NotAllowed
    } else if first_segment(path) is Some && mounts.contains(first_segment(path)->Some_0.0) {
        route matches Route::Mounted(key, rest) && key@ == first_segment(path)->Some_0.0 && rest@
            == first_segment(path)->Some_0.1
    } else {
        route matches Route::Asset(file) && file@ == path
    }
}

/// Says what a request is for.
pub fn route<V>(method: Method, path: &str, mounts: &Dictionary<V>) -> (found: Route)
    ensures
        is_route(found, method, path@, mounts@.dom()),
{
    if text_eq(path, "/session") {
        return if method == Method::Post {
            Route::Session
        } else {
            Route::NotAllowed
        };
    }
    if text_eq(path, "/options") {
        return if method == Method::Get {
            Route::Options
        } else {
            Route::NotAllowed
        };
    }
    if text_eq(path, "/input") {
        return if method == Method::Get {
            Route::Input
        } else {
            Route::NotAllowed
        };
    }
    if text_eq(path, "/print") {
        return if method == Method::Put {
            Route::Print
        } else {
            Route::NotAllowed
        };
    }
    if text_eq(path, "/close") {
        return if method == Method::Put {
            Route::Close
        } else {
            Route::NotAllowed
        };
    }
    let owned = chars_of(path);
    let chars = owned.as_slice();
    let length = chars.len();
    if length > 9 {
        let prefix = sub_text(chars, 0, 9);
        if text_eq(prefix.as_str(), "/command/") {
            let tail = vstd::slice::slice_subrange(chars, 9, length);
            if find_first(tail, '/').is_none() {
                return if method == Method::Post {
                    Route::Command(sub_text(chars, 9, length))
                } else {
                    Route::NotAllowed
                };
            }
        }
    }
    assert(command_name(path@) is None);
    if method != Method::Get {
        return Route::NotAllowed;
    }
    if length > 0 && chars[0] == '/' {
        let rest = vstd::slice::slice_subrange(chars, 1, length);
        let end = match find_first(rest, '/') {
            Some(at) => at,
            None => rest.len(),
        };
        let key = sub_text(rest, 0, end);
        if mounts.contains_key(key.as_str()) {
            let below = sub_text(rest, end, rest.len());
            return Route::Mounted(key, below);
        }
    }
    Route::Asset(String::from_str(path))
}

/// The text that `PUT /print` writes to standard output: each value
/// followed by a newline.
pub open spec fn printed(values: Seq<Seq<char>>) -> Seq<char>
    decreases values.len(),
{
    if values.len() == 0 {
        Seq::empty()
    } else {
        printed(values.drop_last()) + values.last() + seq!['\n']
    }
}

/// The text to write for the values of a print request.
pub fn print_value(values: &Vec<String>) -> (text: String)
    ensures
        text@ == printed(texts(values@)),
{
    let mut text = String::new();
    let mut i: usize = 0;
    while i < values.len()
        invariant
            0 <= i <= values@.len(),
            text@ == printed(texts(values@).subrange(0, i as int)),
        decreases values@.len() - i,
    {
        proof {
            let after = texts(values@).subrange(0, i + 1);
            assert(after.drop_last() =~= texts(values@).subrange(0, i as int));
            assert(after.last() == values@[i as int]@);
            reveal_strlit("\n");
            assert("\n"@ =~= seq!['\n']);
        }
        text.append(values[i].as_str());
        text.append("\n");
        i += 1;
    }
    assert(texts(values@).subrange(0, values@.len() as int) =~= texts(values@));
    text
}

/// The parser that answers `POST /command/{name}`: it reads the output of
/// the command of that name in the command's own format, without column
/// names. There is none where no command has that name.
pub fn command_parser(config: &Config, name: &str) -> (parser: Option<DataParser>)
    ensures
        match parser {
            Some(p) => {
                &&& config.commands@.contains_key(name@)
                &&& p.kind() matches DataSourceKind::Command(c)
                &&& c.command@ == config.commands@[name@].command@
                &&& c.output_format == config.commands@[name@].output_format
                &&& p.format() == config.commands@[name@].output_format
                &&& p.headers() is None
            },
            None => !config.commands@.contains_key(name@),
        },
{
    match config.commands.get(name) {
        Some(command) => {
            let copy = Command {
                command: copy_texts(&command.command),
                output_format: command.output_format,
            };
            Some(DataParser::new(DataSourceKind::Command(copy), command.output_format, None))
        },
        None => None,
    }
}

/// A directory that is served below a route.
#[derive(Debug, Clone, PartialEq, Eq)]
pub struct Mount {
    /// The key of the mount: the first segment of the paths it serves.
    pub key: String,
    /// The directory, expanded.
    pub directory: String,
}

/// What the server binds to and serves.
#[derive(Debug, Clone, PartialEq, Eq)]
pub struct ServerPlan {
    /// The address to bind to.
    pub address: String,
    /// The root of the front-end project, expanded; its built files are
    /// in the subdirectory [`UI_SUBDIRECTORY`].
    pub ui_root: String,
    /// The mounted directories, in the order of the configuration.
    pub mounts: Vec<Mount>,
}

/// The subdirectory of the front-end project that holds its built files.
pub const UI_SUBDIRECTORY: &'static str = "dist";

/// Why the server cannot start.
#[derive(Debug, Clone, PartialEq, Eq)]
pub enum ServerError {
    /// No front-end project is configured.
    MissingSource,
    /// The path of the front-end project could not be expanded.
    Source(ExpansionError),
    /// The path of a mount could not be expanded.
    Mount(ExpansionError),
}

/// The expansion of a path in `context`.
pub open spec fn expanded_path(path: Seq<char>, context: ExpansionContext) -> Result<
    Seq<char>,
    Seq<char>,
> {
    path_expansion(
        path,
        home_view(context.home_dir),
        variables(Map::empty(), context.environment@),
    )
}

/// The expansion of the path of each mount.
pub open spec fn mount_expansions(
    mounts: Seq<(Seq<char>, String)>,
    context: ExpansionContext,
) -> Seq<Result<Seq<char>, Seq<char>>> {
    mounts.map_values(|m: (Seq<char>, String)| expanded_path(m.1@, context))
}

/// Whether `outcome` is the plan of the server for `config`.
pub open spec fn is_server_plan(
    outcome: Result<ServerPlan, ServerError>,
    config: Config,
    context: ExpansionContext,
) -> bool {
    let results = mount_expansions(config.mount.pairs(), context);
    let failed = first_error(results);
    match config.src {
        None => outcome matches Err(ServerError::MissingSource),
        Some(src) => match expanded_path(src@, context) {
            Err(name) => outcome matches Err(ServerError::Source(e)) && is_failure_of(
                e,
                name,
                context.environment@,
            ),
            Ok(root) => match outcome {
                Ok(plan) => {
                    &&& failed == results.len()
                    &&& plan.ui_root@ == root
                    &&& plan.address@ == "127.0.0.1:"@ + config.port@
                    &&& plan.mounts@.len() == results.len()
                    &&& forall|i: int|
                        0 <= i < results.len() ==> (#[trigger] plan.mounts@[i]).key@
                            == config.mount.pairs()[i].0 && results[i] == Ok::<
                            Seq<char>,
                            Seq<char>,
                        >(plan.mounts@[i].directory@)
                },
                Err(ServerError::Mount(e)) => {
                    &&& failed < results.len()
                    &&& results[failed] matches Err(name) && is_failure_of(
                        e,
                        name,
                        context.environment@,
                    )
                },
                Err(_) => false,
            },
        },
    }
}

/// Plans the server: the address, the expanded root of the front end, and
/// the expanded directory of each mount, in order. The first path that
/// cannot be expanded is the error.
pub fn plan_server(config: &Config, context: &ExpansionContext) -> (outcome: Result<
    ServerPlan,
    ServerError,
>)
    ensures
        is_server_plan(outcome, *config, *context),
{
    let src = match &config.src {
        Some(src) => src,
        None => {
            return Err(ServerError::MissingSource);
        },
    };
    let ui_root = match expand_path(src.as_str(), context) {
        Ok(root) => root,
        Err(e) => {
            return Err(ServerError::Source(e));
        },
    };
    let ghost results = mount_expansions(config.mount.pairs(), *context);
    let count = config.mount.len();
    let mut mounts: Vec<Mount> = Vec::new();
    let mut i: usize = 0;
    while i < count
        invariant
            0 <= i <= count,
            count == config.mount.pairs().len(),
            results == mount_expansions(config.mount.pairs(), *context),
            config.src == Some(*src),
            expanded_path(src@, *context) == Ok::<Seq<char>, Seq<char>>(ui_root@),
            mounts@.len() == i,
            forall|j: int|
                0 <= j < i ==> (#[trigger] mounts@[j]).key@ == config.mount.pairs()[j].0
                    && results[j] == Ok::<Seq<char>, Seq<char>>(mounts@[j].directory@),
        decreases count - i,
    {
        let ghost so_far = mounts@;
        let key = String::from_str(config.mount.key_at(i));
        let path = config.mount.value_at(i);
        assert(results[i as int] == expanded_path(path@, *context));
        match expand_path(path.as_str(), context) {
            Ok(directory) => {
                mounts.push(Mount { key, directory });
            },
            Err(e) => {
                proof {
                    assert forall|j: int| 0 <= j < i implies results[j] is Ok by {
                        assert(results[j] == Ok::<Seq<char>, Seq<char>>(so_far[j].directory@));
                    }
                    lemma_first_error_is(results, i as int);
                }
                return Err(ServerError::Mount(e));
            },
        }
        i += 1;
    }
    proof {
        assert forall|j: int| 0 <= j < results.len() implies results[j] is Ok by {
            assert(results[j] == Ok::<Seq<char>, Seq<char>>(mounts@[j].directory@));
        }
        lemma_first_error_is(results, results.len() as int);
    }
    Ok(ServerPlan { address: config.server_url(), ui_root, mounts })
}

} // verus!
