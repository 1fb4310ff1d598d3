//! The configuration that the file and the command line make together.

use vstd::prelude::*;
use vstd::utf8::encode_utf8;
use crate::command::Command;
use crate::dictionary::Dictionary;
use crate::io::IOFormat;
use crate::text::{split_once, split_once_spec, texts};
use crate::value::{json_document, parse_json, StructuredValue};

verus! {

/// Takes over from another value of the same type every field that the
/// other has set, that is, that differs from the field's default.
pub trait UpdateFromOther: Sized {
    /// What `current` becomes when it takes over from `other`.
    spec fn updated(current: Self, other: Self) -> Self;

    fn update_from_other(&mut self, other: Self)
        ensures
            *final(self) == Self::updated(*old(self), other),
    ;
}

/// Where the window stands and how it looks.
#[derive(Debug, Clone, Copy, PartialEq, Eq, Structural)]
pub struct WindowOptions {
    /// Width in pixels.
    pub width: Option<u32>,
    /// Height in pixels.
    pub height: Option<u32>,
    /// Horizontal position in pixels.
    pub x: Option<u32>,
    /// Vertical position in pixels.
    pub y: Option<u32>,
    /// Whether the window is opaque rather than transparent.
    pub opaque: bool,
    /// Whether the window is kept from taking the focus.
    pub no_focus: bool,
    /// Whether the window has decorations.
    pub decorations: bool,
}

impl Default for WindowOptions {
    fn default() -> (options: Self)
        ensures
            options == WindowOptions::unset(),
    {
        WindowOptions {
            width: None,
            height: None,
            x: None,
            y: None,
            opaque: false,
            no_focus: false,
            decorations: false,
        }
    }
}

impl WindowOptions {
    /// The options with nothing set.
    pub open spec fn unset() -> Self {
        WindowOptions {
            width: None,
            height: None,
            x: None,
            y: None,
            opaque: false,
            no_focus: false,
            decorations: false,
        }
    }

    /// Width and height, where both are set.
    pub fn size(&self) -> (size: Option<(u32, u32)>)
        ensures
            size == (match (self.width, self.height) {
                (Some(width), Some(height)) => Some((width, height)),
                _ => None,
            }),
    {
        match (self.width, self.height) {
            (Some(width), Some(height)) => Some((width, height)),
            _ => None,
        }
    }

    /// Horizontal and vertical position, where both are set.
    pub fn position(&self) -> (position: Option<(u32, u32)>)
        ensures
            position == (match (self.x, self.y) {
                (Some(x), Some(y)) => Some((x, y)),
                _ => None,
            }),
    {
        match (self.x, self.y) {
            (Some(x), Some(y)) => Some((x, y)),
            _ => None,
        }
    }
}

/// The port that the server binds to where none is configured.
pub fn default_port() -> (port: String)
    ensures
        port@ == "7777"@,
{
    String::from_str("7777")
}

/// The port that the development server binds to where none is
/// configured.
pub fn default_dev_server_port() -> (port: String)
    ensures
        port@ == "7778"@,
{
    String::from_str("7778")
}

/// The command that starts the development server where none is
/// configured.
pub fn default_develop_command() -> (command: Vec<String>)
    ensures
        texts(command@) == seq!["pnpm"@, "run"@, "dev"@],
{
    let mut command: Vec<String> = Vec::new();
    command.push(String::from_str("pnpm"));
    command.push(String::from_str("run"));
    command.push(String::from_str("dev"));
    assert(texts(command@) =~= seq!["pnpm"@, "run"@, "dev"@]);
    command
}

/// Everything that is configured.
#[derive(Debug, PartialEq, Eq)]
pub struct Config {
    /// The file that the configuration is read from.
    pub config: Option<String>,
    /// The root of the front-end project.
    pub src: Option<String>,
    /// The file that input is read from in place of standard input.
    pub file: Option<String>,
    /// The format of the input.
    pub format: Option<IOFormat>,
    /// The names of the columns of the input.
    pub headers: Option<Vec<String>>,
    /// Options handed to the front end as they are.
    pub options: Dictionary<StructuredValue>,
    /// Directories that are served under their key.
    pub mount: Dictionary<String>,
    /// Commands that the front end may run, by name.
    pub commands: Dictionary<Command>,
    /// The window.
    pub window: WindowOptions,
    /// The port that the server binds to.
    pub port: String,
    /// Whether the front end is served by its development server.
    pub develop: bool,
    /// The port that the development server binds to.
    pub dev_server_port: String,
    /// The command that starts the development server.
    pub develop_command: Vec<String>,
    /// Options given on the command line, each as `KEY=VALUE`.
    pub options_cli: Vec<String>,
    /// Mounts given on the command line, each as `NAME:PATH`.
    pub mounts_cli: Vec<String>,
    /// Whether help was asked for.
    pub help: Option<bool>,
}

impl Default for Config {
    fn default() -> (config: Self)
        ensures
            config.config is None,
            config.src is None,
            config.file is None,
            config.format is None,
            config.headers is None,
            config.options.pairs().len() == 0,
            config.mount.pairs().len() == 0,
            config.commands.pairs().len() == 0,
            config.window == WindowOptions::unset(),
            config.port@.len() == 0,
            !config.develop,
            config.dev_server_port@.len() == 0,
            config.develop_command@.len() == 0,
            config.options_cli@.len() == 0,
            config.mounts_cli@.len() == 0,
            config.help is None,
    {
        Config {
            config: None,
            src: None,
            file: None,
            format: None,
            headers: None,
            options: Dictionary::new(),
            mount: Dictionary::new(),
            commands: Dictionary::new(),
            window: WindowOptions::default(),
            port: String::new(),
            develop: false,
            dev_server_port: String::new(),
            develop_command: Vec::new(),
            options_cli: Vec::new(),
            mounts_cli: Vec::new(),
            help: None,
        }
    }
}

impl UpdateFromOther for Config {
    open spec fn updated(current: Self, other: Self) -> Self {
        Config {
            config: if other.config is Some {
                other.config
            } else {
                current.config
            },
            src: if other.src is Some {
                other.src
            } else {
                current.src
            },
            file: if other.file is Some {
                other.file
            } else {
                current.file
            },
            format: if other.format is Some {
                other.format
            } else {
                current.format
            },
            headers: if other.headers is Some {
                other.headers
            } else {
                current.headers
            },
            options: if other.options.pairs().len() > 0 {
                other.options
            } else {
                current.options
            },
            mount: if other.mount.pairs().len() > 0 {
                other.mount
            } else {
                current.mount
            },
            commands: if other.commands.pairs().len() > 0 {
                other.commands
            } else {
                current.commands
            },
            window: if other.window != WindowOptions::unset() {
                other.window
            } else {
                current.window
            },
            port: if other.port@.len() > 0 {
                other.port
            } else {
                current.port
            },
            develop: other.develop || current.develop,
            dev_server_port: if other.dev_server_port@.len() > 0 {
                other.dev_server_port
            } else {
                current.dev_server_port
            },
            develop_command: if other.develop_command@.len() > 0 {
                other.develop_command
            } else {
                current.develop_command
            },
            options_cli: if other.options_cli@.len() > 0 {
                other.options_cli
            } else {
                current.options_cli
            },
            mounts_cli: if other.mounts_cli@.len() > 0 {
                other.mounts_cli
            } else {
                current.mounts_cli
            },
            help: if other.help is Some {
                other.help
            } else {
                current.help
            },
        }
    }

    fn update_from_other(&mut self, other: Self) {
        take_over_option(&mut self.config, other.config);
        take_over_option(&mut self.src, other.src);
        take_over_option(&mut self.file, other.file);
        take_over_option(&mut self.format, other.format);
        take_over_option(&mut self.headers, other.headers);
        take_over_dictionary(&mut self.options, other.options);
        take_over_dictionary(&mut self.mount, other.mount);
        take_over_dictionary(&mut self.commands, other.commands);
        if other.window != WindowOptions::default() {
            self.window = other.window;
        }
        take_over_text(&mut self.port, other.port);
        self.develop = other.develop || self.develop;
        take_over_text(&mut self.dev_server_port, other.dev_server_port);
        take_over_list(&mut self.develop_command, other.develop_command);
        take_over_list(&mut self.options_cli, other.options_cli);
        take_over_list(&mut self.mounts_cli, other.mounts_cli);
        take_over_option(&mut self.help, other.help);
    }
}

/// Replaces `target` by `other` where `other` is set.
fn take_over_option<T>(target: &mut Option<T>, other: Option<T>)
    ensures
        *final(target) == (if other is Some {
            other
        } else {
            *old(target)
        }),
{
    if other.is_some() {
        *target = other;
    }
}

/// Replaces `target` by `other` where `other` is not empty.
fn take_over_text(target: &mut String, other: String)
    ensures
        *final(target) == (if other@.len() > 0 {
            other
        } else {
            *old(target)
        }),
{
    if !other.as_str().is_empty() {
        *target = other;
    }
}

/// Replaces `target` by `other` where `other` is not empty.
fn take_over_list<T>(target: &mut Vec<T>, other: Vec<T>)
    ensures
        *final(target) == (if other@.len() > 0 {
            other
        } else {
            *old(target)
        }),
{
    if other.len() > 0 {
        *target = other;
    }
}

/// Replaces `target` by `other` where `other` is not empty.
fn take_over_dictionary<V>(target: &mut Dictionary<V>, other: Dictionary<V>)
    ensures
        *final(target) == (if other.pairs().len() > 0 {
            other
        } else {
            *old(target)
        }),
{
    if !other.is_empty() {
        *target = other;
    }
}

impl Config {
    /// The address that the window loads: the development server's port
    /// in development mode, else the server's.
    pub open spec fn gui_target(self) -> Seq<char> {
        "http://localhost:"@ + (if self.develop {
            self.dev_server_port@
        } else {
            self.port@
        })
    }

    /// The address that the window loads.
    pub fn gui_target_url(&self) -> (url: String)
        ensures
            url@ == self.gui_target(),
    {
        let mut url = String::from_str("http://localhost:");
        if self.develop {
            url.append(self.dev_server_port.as_str());
        } else {
            url.append(self.port.as_str());
        }
        url
    }

    /// The address that the server binds to.
    pub fn server_url(&self) -> (url: String)
        ensures
            url@ == "127.0.0.1:"@ + self.port@,
    {
        let mut url = String::from_str("127.0.0.1:");
        url.append(self.port.as_str());
        url
    }
}

/// What one `KEY=VALUE` entry of the command line says.
pub enum OptionEntry {
    /// The option `key` has `value`.
    Assigns(Seq<char>, StructuredValue),
    /// The entry, given in full, has no `=`.
    Malformed(Seq<char>),
    /// The text behind the `=`, given here, is not a JSON value.
    InvalidValue(Seq<char>),
}

/// Reads one `KEY=VALUE` entry: the key is what stands before the first
/// `=`, the value is the JSON value behind it.
pub open spec fn option_entry(entry: Seq<char>) -> OptionEntry {
    match split_once_spec(entry, '=') {
        None => OptionEntry::Malformed(entry),
        Some((key, text)) => match json_document(encode_utf8(text)) {
            Some(value) => OptionEntry::Assigns(key, value),
            None => OptionEntry::InvalidValue(text),
        },
    }
}

/// The options after the first `n` entries were applied in order.
pub open spec fn options_after(
    options: Map<Seq<char>, StructuredValue>,
    entries: Seq<Seq<char>>,
    n: nat,
) -> Map<Seq<char>, StructuredValue>
    decreases n,
{
    if n == 0 {
        options
    } else {
        match option_entry(entries[n - 1]) {
            OptionEntry::Assigns(key, value) => options_after(options, entries, (n - 1) as nat).insert(
                key,
                value,
            ),
            _ => options_after(options, entries, (n - 1) as nat),
        }
    }
}

/// The mounts after the first `n` `NAME:PATH` entries were applied in
/// order: the name is what stands before the first `:`.
pub open spec fn mounts_after(
    mounts: Map<Seq<char>, Seq<char>>,
    entries: Seq<Seq<char>>,
    n: nat,
) -> Map<Seq<char>, Seq<char>>
    decreases n,
{
    if n == 0 {
        mounts
    } else {
        match split_once_spec(entries[n - 1], ':') {
            Some((name, path)) => mounts_after(mounts, entries, (n - 1) as nat).insert(name, path),
            None => mounts_after(mounts, entries, (n - 1) as nat),
        }
    }
}

/// Whether every one of the first `n` entries sets an option.
pub open spec fn options_well_formed(entries: Seq<Seq<char>>, n: int) -> bool {
    forall|i: int| 0 <= i < n ==> (#[trigger] option_entry(entries[i])) is Assigns
}

/// Whether every one of the first `n` entries names a mount.
pub open spec fn mounts_well_formed(entries: Seq<Seq<char>>, n: int) -> bool {
    forall|i: int| 0 <= i < n ==> (#[trigger] split_once_spec(entries[i], ':')) is Some
}

/// The paths of the mounts as character sequences.
pub open spec fn mount_paths(mounts: Map<Seq<char>, String>) -> Map<Seq<char>, Seq<char>> {
    mounts.map_values(|path: String| path@)
}

/// Why the command line could not be applied.
#[derive(Debug, Clone, PartialEq, Eq)]
pub enum ConfigError {
    /// The option, given in full, is not of the form `KEY=VALUE`.
    MalformedOption(String),
    /// The value of an option, given here, is not a JSON value.
    InvalidOptionValue(String),
    /// The mount, given in full, is not of the form `NAME:PATH`.
    MalformedMount(String),
}

/// Applies the `KEY=VALUE` entries to `options` in order and stops at the
/// first that is not well-formed.
pub fn apply_options(options: Dictionary<StructuredValue>, entries: &Vec<String>) -> (outcome:
    Result<Dictionary<StructuredValue>, ConfigError>)
    ensures
        match outcome {
            Ok(applied) => {
                &&& options_well_formed(texts(entries@), entries@.len() as int)
                &&& applied@ == options_after(options@, texts(entries@), entries@.len() as nat)
            },
            Err(ConfigError::MalformedOption(entry)) => exists|i: int|
                0 <= i < entries@.len() && options_well_formed(texts(entries@), i)
                    && #[trigger] option_entry(texts(entries@)[i]) == OptionEntry::Malformed(
                    entry@,
                ),
            Err(ConfigError::InvalidOptionValue(text)) => exists|i: int|
                0 <= i < entries@.len() && options_well_formed(texts(entries@), i)
                    && #[trigger] option_entry(texts(entries@)[i]) == OptionEntry::InvalidValue(
                    text@,
                ),
            Err(_) => false,
        },
{
    let mut applied = options;
    let mut i: usize = 0;
    while i < entries.len()
        invariant
            0 <= i <= entries@.len(),
            options_well_formed(texts(entries@), i as int),
            applied@ == options_after(options@, texts(entries@), i as nat),
        decreases entries@.len() - i,
    {
        let ghost entry = texts(entries@)[i as int];
        match split_once(entries[i].as_str(), '=') {
            None => {
                assert(option_entry(entry) == OptionEntry::Malformed(entries@[i as int]@));
                return Err(ConfigError::MalformedOption(entries[i].clone()));
            },
            Some((key, text)) => match parse_json(text.as_str().as_bytes()) {
                None => {
                    assert(option_entry(entry) == OptionEntry::InvalidValue(text@));
                    return Err(ConfigError::InvalidOptionValue(text));
                },
                Some(value) => {
                    assert(option_entry(entry) == OptionEntry::Assigns(key@, value));
                    applied = applied.with(key, value);
                },
            },
        }
        i += 1;
    }
    Ok(applied)
}

/// Applies the `NAME:PATH` entries to `mounts` in order and stops at the
/// first that is not well-formed.
pub fn apply_mounts(mounts: Dictionary<String>, entries: &Vec<String>) -> (outcome: Result<
    Dictionary<String>,
    ConfigError,
>)
    ensures
        match outcome {
            Ok(applied) => {
                &&& mounts_well_formed(texts(entries@), entries@.len() as int)
                &&& mount_paths(applied@) == mounts_after(
                    mount_paths(mounts@),
                    texts(entries@),
                    entries@.len() as nat,
                )
            },
            Err(ConfigError::MalformedMount(entry)) => exists|i: int|
                0 <= i < entries@.len() && mounts_well_formed(texts(entries@), i) && entry@
                    == texts(entries@)[i] && (#[trigger] split_once_spec(texts(entries@)[i], ':'))
                    is None,
            Err(_) => false,
        },
{
    let mut applied = mounts;
    let mut i: usize = 0;
    while i < entries.len()
        invariant
            0 <= i <= entries@.len(),
            mounts_well_formed(texts(entries@), i as int),
            mount_paths(applied@) == mounts_after(mount_paths(mounts@), texts(entries@), i as nat),
        decreases entries@.len() - i,
    {
        let ghost entry = texts(entries@)[i as int];
        let ghost before = applied@;
        match split_once(entries[i].as_str(), ':') {
            None => {
                assert(split_once_spec(entry, ':') is None);
                return Err(ConfigError::MalformedMount(entries[i].clone()));
            },
            Some((name, path)) => {
                assert(split_once_spec(entry, ':') is Some);
                applied = applied.with(name, path);
                assert(mount_paths(applied@) =~= mount_paths(before).insert(name@, path@));
            },
        }
        i += 1;
    }
    Ok(applied)
}

impl Config {
    /// Applies the options and mounts that were given on the command line,
    /// options first, and stops at the first entry that is not
    /// well-formed. Nothing else changes.
    pub fn apply_cli_overrides(self) -> (outcome: Result<Self, ConfigError>)
        ensures
            match outcome {
                Ok(config) => {
                    &&& options_well_formed(texts(self.options_cli@), self.options_cli@.len() as int)
                    &&& mounts_well_formed(texts(self.mounts_cli@), self.mounts_cli@.len() as int)
                    &&& config.options@ == options_after(
                        self.options@,
                        texts(self.options_cli@),
                        self.options_cli@.len() as nat,
                    )
                    &&& mount_paths(config.mount@) == mounts_after(
                        mount_paths(self.mount@),
                        texts(self.mounts_cli@),
                        self.mounts_cli@.len() as nat,
                    )
                    &&& config.config == self.config
                    &&& config.src == self.src
                    &&& config.file == self.file
                    &&& config.format == self.format
                    &&& config.headers == self.headers
                    &&& config.commands == self.commands
                    &&& config.window == self.window
                    &&& config.port == self.port
                    &&& config.develop == self.develop
                    &&& config.dev_server_port == self.dev_server_port
                    &&& config.develop_command == self.develop_command
                    &&& config.options_cli == self.options_cli
                    &&& config.mounts_cli == self.mounts_cli
                    &&& config.help == self.help
                },
                Err(_) => !options_well_formed(
                    texts(self.options_cli@),
                    self.options_cli@.len() as int,
                ) || !mounts_well_formed(texts(self.mounts_cli@), self.mounts_cli@.len() as int),
            },
    {
        let mut config = self;
        let options = match apply_options(config.options, &config.options_cli) {
            Ok(options) => options,
            Err(e) => {
                return Err(e);
            },
        };
        let mount = match apply_mounts(config.mount, &config.mounts_cli) {
            Ok(mount) => mount,
            Err(e) => {
                return Err(e);
            },
        };
        config.options = options;
        config.mount = mount;
        Ok(config)
    }
}

} // verus!
