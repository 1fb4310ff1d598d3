//! The control plane of a desktop launcher whose front end runs in a
//! webview: it expands variables in paths and commands, plans the
//! processes to start and judges how they ended, decodes input in several
//! formats into one structured value, decides who may pass the local HTTP
//! gateway and what a request is for, and coordinates the shutdown of all
//! of it. Beside that it holds the rules of the menu itself: items, their
//! ranking, the selection, key bindings and images.
//!
//! Nothing here starts a process, opens a file or a socket, or sleeps. A
//! function says what has to be done and what the outcome amounts to; the
//! program around the library does it and reports back. Every function
//! states what it returns as a contract that is proved from its body; what
//! the crates `shellexpand`, `csv`, `serde_json`, `fuzzy_matcher`, `rand`
//! and `base64` compute is taken on trust, each behind one small function
//! that says what is assumed of it.
//!
//! - [`expansion`], [`command`], [`callback`]: variables, commands and
//!   their verdicts.
//! - [`io`], [`value`]: formats and the structured value.
//! - [`config`]: the configuration and the command-line overrides.
//! - [`server`]: the gateway's rules.
//! - [`shutdown`], [`develop`]: the lifecycle, the development server and
//!   its probe.
//! - [`item`], [`item_source`], [`matcher`]: items read from the input and
//!   their scores.
//! - [`menu`], [`menu_source`], [`selection`], [`highlight`],
//!   [`keybinds`], [`image`]: the menu that the front end shows.
//! - [`dictionary`], [`text`]: maps keyed by text, and text helpers.

pub mod text;
pub mod dictionary;
pub mod value;
pub mod expansion;
pub mod io;
pub mod command;
pub mod callback;
pub mod config;
pub mod shutdown;
pub mod server;
pub mod develop;
pub mod item;
pub mod item_source;
pub mod keybinds;
pub mod matcher;
pub mod image;
pub mod menu;
pub mod menu_source;
pub mod selection;
pub mod highlight;
