//! The tool's configuration: its defaults, and which flake directories it accepts.
use vstd::prelude::*;

use crate::text::{chars_of, starts_with, starts_with_chars};
use crate::util::ExitCode;

verus! {

/// The name of the configuration file, under `$F_RS_CONFIG`.
pub const CFG_FILE: &'static str = "config.toml";

/// Settings of one machine: where its flake lives, which GitHub repository,
/// branch and workflow it follows, how it rebuilds, and whether and where it
/// sends a notification when a rebuild fails.
#[derive(Clone, Debug, PartialEq, Eq)]
pub struct Config {
    pub flake_dir: String,
    pub owner: String,
    pub repo: String,
    pub branch: String,
    pub workflow: String,
    pub rebuild_system: String,
    pub rebuild_cmd: String,
    pub notify: bool,
    pub ntfy_url: String,
    pub ntfy_topic: String,
}

/// The contents of a `Config`.
pub struct ConfigView {
    pub flake_dir: Seq<char>,
    pub owner: Seq<char>,
    pub repo: Seq<char>,
    pub branch: Seq<char>,
    pub workflow: Seq<char>,
    pub rebuild_system: Seq<char>,
    pub rebuild_cmd: Seq<char>,
    pub notify: bool,
    pub ntfy_url: Seq<char>,
    pub ntfy_topic: Seq<char>,
}

impl View for Config {
    type V = ConfigView;

    open spec fn view(&self) -> ConfigView {
        ConfigView {
            flake_dir: self.flake_dir@,
            owner: self.owner@,
            repo: self.repo@,
            branch: self.branch@,
            workflow: self.workflow@,
            rebuild_system: self.rebuild_system@,
            rebuild_cmd: self.rebuild_cmd@,
            notify: self.notify,
            ntfy_url: self.ntfy_url@,
            ntfy_topic: self.ntfy_topic@,
        }
    }
}

/// The configuration of a flake in `flake_dir` of the GitHub repository
/// `owner/repo`, with every other setting at its default: branch `main`,
/// workflow `build.yaml`, `nixos-rebuild switch`, notifications off, sent to
/// `ntfy.sh` with no topic.
pub open spec fn default_config(flake_dir: Seq<char>, owner: Seq<char>, repo: Seq<char>) -> ConfigView {
    ConfigView {
        flake_dir: flake_dir,
        owner: owner,
        repo: repo,
        branch: "main"@,
        workflow: "build.yaml"@,
        rebuild_system: "nixos"@,
        rebuild_cmd: "switch"@,
        notify: false,
        ntfy_url: "ntfy.sh"@,
        ntfy_topic: ""@,
    }
}

/// A flake directory that cannot be used: one that begins with `~`, which
/// names a different home for each of the users the tool runs as.
pub open spec fn ambiguous_flake_dir(dir: Seq<char>) -> bool {
    starts_with(dir, "~"@)
}

/// A flake directory is refused exactly when its first character is `~`:
/// every other directory, a trailing `/` or a `~` further on included, is
/// accepted.
pub proof fn lemma_ambiguous_is_leading_tilde(dir: Seq<char>)
    ensures
        ambiguous_flake_dir(dir) <==> (dir.len() > 0 && dir[0] == '~'),
{
    reveal_strlit("~");
    if dir.len() > 0 && dir[0] == '~' {
        assert(dir.take(1) =~= "~"@);
    }
    if ambiguous_flake_dir(dir) {
        assert(dir.take(1)[0] == dir[0]);
    }
}

impl Config {
    /// The configuration with default settings for the flake in `flake_dir`
    /// of the GitHub repository `owner/repo`.
    pub fn new(flake_dir: &str, owner: &str, repo: &str) -> (r: Config)
        ensures
            r@ == default_config(flake_dir@, owner@, repo@),
    {
        Config {
            flake_dir: flake_dir.to_owned(),
            owner: owner.to_owned(),
            repo: repo.to_owned(),
            branch: "main".to_owned(),
            workflow: "build.yaml".to_owned(),
            rebuild_system: "nixos".to_owned(),
            rebuild_cmd: "switch".to_owned(),
            notify: false,
            ntfy_url: "ntfy.sh".to_owned(),
            ntfy_topic: "".to_owned(),
        }
    }

    /// The configuration in use, given what parsing the configuration file
    /// gave (`None` where it could not be parsed): the parsed one, else the
    /// defaults with an empty flake directory, owner and repository.
    pub fn from_parsed(parsed: Option<Config>) -> (r: Config)
        ensures
            r@ == match parsed {
                Some(c) => c@,
                None => default_config(""@, ""@, ""@),
            },
    {
        match parsed {
            Some(c) => c,
            None => Config::new("", "", ""),
        }
    }

    /// The flake directory `dir`, refused with `NoOp` where it begins with `~`.
    pub fn validate_flake_dir(dir: String) -> (r: Result<String, ExitCode>)
        ensures
            ambiguous_flake_dir(dir@) ==> r == Err::<String, ExitCode>(ExitCode::NoOp),
            !ambiguous_flake_dir(dir@) ==> (r matches Ok(d) && d@ == dir@),
            dir@.len() > 0 && dir@[0] == '~' ==> r == Err::<String, ExitCode>(ExitCode::NoOp),
            !(dir@.len() > 0 && dir@[0] == '~') ==> (r matches Ok(d) && d@ == dir@),
    {
        proof {
            lemma_ambiguous_is_leading_tilde(dir@);
        }
        let ambiguous = starts_with_chars(&chars_of(dir.as_str()), &chars_of("~"));
        if ambiguous {
            Err(ExitCode::NoOp)
        } else {
            Ok(dir)
        }
    }

    /// The configuration first written for the flake in `flake_dir` of the
    /// repository `owner/repo`: the defaults, with the flake directory taken
    /// from `$F_RS_FLAKE` (`flake_var`) where that is set; refused with
    /// `NoOp` where the variable names an ambiguous directory.
    pub fn initial(flake_dir: &str, owner: &str, repo: &str, flake_var: Option<String>) -> (r:
        Result<Config, ExitCode>)
        ensures
            match flake_var {
                Some(v) => if v@.len() > 0 && v@[0] == '~' {
                    r == Err::<Config, ExitCode>(ExitCode::NoOp)
                } else {
                    r matches Ok(c) && c.flake_dir@ == v@
                },
                None => r matches Ok(c) && c.flake_dir@ == flake_dir@,
            },
            match flake_var {
                None => r matches Ok(c) && c@ == default_config(flake_dir@, owner@, repo@),
                Some(v) => if ambiguous_flake_dir(v@) {
                    r == Err::<Config, ExitCode>(ExitCode::NoOp)
                } else {
                    r matches Ok(c) && c@ == ConfigView {
                        flake_dir: v@,
                        ..default_config(flake_dir@, owner@, repo@)
                    }
                },
            },
    {
        if let Some(v) = &flake_var {
            proof {
                lemma_ambiguous_is_leading_tilde(v@);
            }
        }
        let mut config = Config::new(flake_dir, owner, repo);
        if let Some(v) = flake_var {
            match Config::validate_flake_dir(v) {
                Ok(d) => {
                    config.flake_dir = d;
                },
                Err(e) => {
                    return Err(e);
                },
            }
        }
        Ok(config)
    }

    /// The program and the arguments that rebuild the system from its flake:
    /// `<rebuild_system>-rebuild <rebuild_cmd> --flake <flake_dir>`.
    pub fn rebuild_command(&self) -> (r: (String, Vec<String>))
        ensures
            r.0@ == self.rebuild_system@ + "-rebuild"@,
            r.1.deep_view() == seq![self.rebuild_cmd@, "--flake"@, self.flake_dir@],
    {
        let program = self.rebuild_system.clone().concat("-rebuild");
        let mut args: Vec<String> = Vec::new();
        args.push(self.rebuild_cmd.clone());
        args.push("--flake".to_owned());
        args.push(self.flake_dir.clone());
        assert(args.deep_view() =~= seq![self.rebuild_cmd@, "--flake"@, self.flake_dir@]);
        (program, args)
    }
}

} // verus!
