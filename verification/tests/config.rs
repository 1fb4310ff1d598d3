use polymenu::command::Command;
use polymenu::config::{
    apply_mounts, apply_options, default_dev_server_port, default_develop_command, default_port,
    Config, ConfigError, UpdateFromOther, WindowOptions,
};
use polymenu::dictionary::Dictionary;
use polymenu::io::IOFormat;
use polymenu::value::StructuredValue;

fn strings(items: &[&str]) -> Vec<String> {
    items.iter().map(|s| s.to_string()).collect()
}

#[test]
fn defaults_are_as_documented() {
    assert_eq!(default_port(), "7777");
    assert_eq!(default_dev_server_port(), "7778");
    assert_eq!(default_develop_command(), strings(&["pnpm", "run", "dev"]));
    let config = Config::default();
    assert_eq!(config.port, "");
    assert_eq!(config.window, WindowOptions::default());
    assert!(!config.develop);
    assert!(config.options.is_empty());
}

#[test]
fn window_size_needs_both_dimensions() {
    let mut window = WindowOptions::default();
    assert_eq!(window.size(), None);
    assert_eq!(window.position(), None);
    window.width = Some(800);
    assert_eq!(window.size(), None);
    window.height = Some(600);
    assert_eq!(window.size(), Some((800, 600)));
    window.y = Some(5);
    assert_eq!(window.position(), None);
    window.x = Some(3);
    assert_eq!(window.position(), Some((3, 5)));
}

#[test]
fn urls_use_the_right_port() {
    let mut config = Config::default();
    config.port = "7777".to_string();
    config.dev_server_port = "7778".to_string();
    assert_eq!(config.server_url(), "127.0.0.1:7777");
    assert_eq!(config.gui_target_url(), "http://localhost:7777");
    config.develop = true;
    assert_eq!(config.gui_target_url(), "http://localhost:7778");
    assert_eq!(config.server_url(), "127.0.0.1:7777");
}

#[test]
fn update_takes_over_what_the_other_has_set() {
    let mut config = Config::default();
    config.port = "9000".to_string();
    config.src = Some("/from/file".to_string());
    config.file = Some("file.csv".to_string());
    config.develop_command = strings(&["npm", "start"]);
    config.mount = Dictionary::new().with("icons".to_string(), "/usr/share/icons".to_string());
    config.window.opaque = true;
    let mut cli = Config::default();
    cli.port = "7777".to_string();
    cli.src = Some("/from/cli".to_string());
    cli.develop = true;
    cli.format = Some(IOFormat::Json);
    cli.options_cli = strings(&["a=1"]);
    config.update_from_other(cli);
    assert_eq!(config.port, "7777");
    assert_eq!(config.src, Some("/from/cli".to_string()));
    assert_eq!(config.file, Some("file.csv".to_string()));
    assert!(config.develop);
    assert_eq!(config.format, Some(IOFormat::Json));
    assert_eq!(config.develop_command, strings(&["npm", "start"]));
    assert_eq!(config.mount.get("icons"), Some(&"/usr/share/icons".to_string()));
    assert_eq!(config.options_cli, strings(&["a=1"]));
    assert!(config.window.opaque);
}

#[test]
fn update_with_defaults_changes_nothing() {
    let mut config = Config::default();
    config.port = "9000".to_string();
    config.develop = true;
    config.headers = Some(strings(&["a"]));
    config.window.width = Some(1);
    config.update_from_other(Config::default());
    assert_eq!(config.port, "9000");
    assert!(config.develop);
    assert_eq!(config.headers, Some(strings(&["a"])));
    assert_eq!(config.window.width, Some(1));
}

#[test]
fn update_replaces_the_window_as_a_whole() {
    let mut config = Config::default();
    config.window.width = Some(10);
    config.window.height = Some(20);
    let mut cli = Config::default();
    cli.window.decorations = true;
    config.update_from_other(cli);
    assert_eq!(config.window.width, None);
    assert!(config.window.decorations);
}

#[test]
fn options_are_parsed_as_json_values() {
    let options = Dictionary::new().with("kept".to_string(), StructuredValue::Bool(true));
    let applied = apply_options(options, &strings(&["n=3", "s=\"x=y\"", "kept=null", "l=[1]"]));
    let applied = applied.unwrap();
    assert_eq!(applied.len(), 4);
    assert_eq!(applied.get("n"), Some(&StructuredValue::Number("3".to_string())));
    assert_eq!(applied.get("s"), Some(&StructuredValue::Text("x=y".to_string())));
    assert_eq!(applied.get("kept"), Some(&StructuredValue::Null));
    assert_eq!(
        applied.get("l"),
        Some(&StructuredValue::Array(vec![StructuredValue::Number("1".to_string())]))
    );
}

#[test]
fn malformed_options_are_rejected() {
    let none: Dictionary<StructuredValue> = Dictionary::new();
    assert_eq!(
        apply_options(none, &strings(&["a=1", "novalue"])),
        Err(ConfigError::MalformedOption("novalue".to_string()))
    );
    let none: Dictionary<StructuredValue> = Dictionary::new();
    assert_eq!(
        apply_options(none, &strings(&["a=bare words", "b"])),
        Err(ConfigError::InvalidOptionValue("bare words".to_string()))
    );
}

#[test]
fn mounts_split_at_the_first_colon() {
    let mounts = apply_mounts(Dictionary::new(), &strings(&["icons:/usr/share/icons", "w:C:/x"]));
    let mounts = mounts.unwrap();
    assert_eq!(mounts.get("icons"), Some(&"/usr/share/icons".to_string()));
    assert_eq!(mounts.get("w"), Some(&"C:/x".to_string()));
    assert_eq!(
        apply_mounts(Dictionary::new(), &strings(&["nocolon"])),
        Err(ConfigError::MalformedMount("nocolon".to_string()))
    );
}

#[test]
fn cli_overrides_are_applied_in_order() {
    let mut config = Config::default();
    config.port = "1".to_string();
    config.commands = Dictionary::new().with(
        "build".to_string(),
        Command { command: strings(&["make"]), output_format: IOFormat::Raw },
    );
    config.options = Dictionary::new().with("a".to_string(), StructuredValue::Null);
    config.options_cli = strings(&["a=1", "a=2", "b=true"]);
    config.mounts_cli = strings(&["m:/one", "m:/two"]);
    let config = config.apply_cli_overrides().unwrap();
    assert_eq!(config.options.get("a"), Some(&StructuredValue::Number("2".to_string())));
    assert_eq!(config.options.get("b"), Some(&StructuredValue::Bool(true)));
    assert_eq!(config.mount.get("m"), Some(&"/two".to_string()));
    assert_eq!(config.port, "1");
    assert!(config.commands.contains_key("build"));
    assert_eq!(config.options_cli, strings(&["a=1", "a=2", "b=true"]));
}

#[test]
fn cli_overrides_fail_on_a_malformed_entry() {
    let mut config = Config::default();
    config.options_cli = strings(&["a"]);
    assert_eq!(
        config.apply_cli_overrides(),
        Err(ConfigError::MalformedOption("a".to_string()))
    );
    let mut config = Config::default();
    config.mounts_cli = strings(&["a"]);
    assert_eq!(config.apply_cli_overrides(), Err(ConfigError::MalformedMount("a".to_string())));
}
