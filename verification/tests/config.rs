use fetch_rs::config::{Config, CFG_FILE};
use fetch_rs::util::ExitCode;

fn defaults(flake_dir: &str, owner: &str, repo: &str) -> Config {
    Config {
        flake_dir: flake_dir.to_string(),
        owner: owner.to_string(),
        repo: repo.to_string(),
        branch: "main".to_string(),
        workflow: "build.yaml".to_string(),
        rebuild_system: "nixos".to_string(),
        rebuild_cmd: "switch".to_string(),
        notify: false,
        ntfy_url: "ntfy.sh".to_string(),
        ntfy_topic: "".to_string(),
    }
}

#[test]
fn new_fills_in_the_defaults() {
    let c = Config::new("/home/u/etc/nixos", "camdenboren", "nixos");
    assert_eq!(c, defaults("/home/u/etc/nixos", "camdenboren", "nixos"));
}

#[test]
fn config_file_name() {
    assert_eq!(CFG_FILE, "config.toml");
}

#[test]
fn unparsable_config_falls_back_to_empty_defaults() {
    assert_eq!(Config::from_parsed(None), defaults("", "", ""));
}

#[test]
fn parsed_config_is_kept() {
    let mut c = defaults("/f", "o", "r");
    c.branch = "dev".to_string();
    c.notify = true;
    assert_eq!(Config::from_parsed(Some(c.clone())), c);
}

#[test]
fn flake_dir_with_tilde_is_refused() {
    assert_eq!(
        Config::validate_flake_dir("~/etc/nixos".to_string()),
        Err(ExitCode::NoOp)
    );
}

#[test]
fn absolute_flake_dir_is_accepted() {
    assert_eq!(
        Config::validate_flake_dir("/home/u/etc/nixos".to_string()),
        Ok("/home/u/etc/nixos".to_string())
    );
    assert_eq!(
        Config::validate_flake_dir("/home/u/~x".to_string()),
        Ok("/home/u/~x".to_string())
    );
    assert_eq!(Config::validate_flake_dir("".to_string()), Ok("".to_string()));
}

#[test]
fn initial_config_without_override() {
    assert_eq!(Config::initial("/f", "o", "r", None), Ok(defaults("/f", "o", "r")));
}

#[test]
fn initial_config_takes_flake_variable() {
    assert_eq!(
        Config::initial("/f", "o", "r", Some("/g".to_string())),
        Ok(defaults("/g", "o", "r"))
    );
}

#[test]
fn initial_config_refuses_ambiguous_flake_variable() {
    assert_eq!(
        Config::initial("/f", "o", "r", Some("~/g".to_string())),
        Err(ExitCode::NoOp)
    );
}

#[test]
fn rebuild_command_of_defaults() {
    let c = defaults("/etc/nixos", "o", "r");
    let (program, args) = c.rebuild_command();
    assert_eq!(program, "nixos-rebuild");
    assert_eq!(args, vec!["switch".to_string(), "--flake".to_string(), "/etc/nixos".to_string()]);
}

#[test]
fn rebuild_command_of_darwin_boot() {
    let mut c = defaults("/f", "o", "r");
    c.rebuild_system = "darwin".to_string();
    c.rebuild_cmd = "boot".to_string();
    let (program, args) = c.rebuild_command();
    assert_eq!(program, "darwin-rebuild");
    assert_eq!(args, vec!["boot".to_string(), "--flake".to_string(), "/f".to_string()]);
}
