use hab::engine::{Engine, ENGINE_LONG_HELP};

fn app(windows: bool) -> clap::App<'static, 'static> {
    clap::App::new("hab-pkg-export").arg(Engine::cli_arg(windows))
}

fn matches_of(args: &[&str]) -> clap::Result<clap::ArgMatches<'static>> {
    app(false).get_matches_from_safe(args)
}

fn long_help_of(windows: bool) -> String {
    let mut help: Vec<u8> = Vec::new();
    app(windows).write_long_help(&mut help).unwrap();
    String::from_utf8(help).unwrap()
}

/// A command line whose engine takes any value, or none.
fn unchecked(args: &[&str]) -> clap::ArgMatches<'static> {
    clap::App::new("hab-pkg-export")
        .arg(
            clap::Arg::with_name("ENGINE")
                .long("engine")
                .takes_value(true),
        )
        .arg(clap::Arg::with_name("OTHER").long("other").takes_value(true))
        .get_matches_from(args)
}

#[test]
fn engine_names() {
    assert_eq!(Engine::Docker.to_string(), "docker");
    assert_eq!(Engine::Buildah.to_string(), "buildah");
    assert_eq!(Engine::from_str(false, "docker"), Ok(Engine::Docker));
    assert_eq!(Engine::from_str(false, "buildah"), Ok(Engine::Buildah));
    for engine in [Engine::Docker, Engine::Buildah] {
        assert_eq!(Engine::from_str(false, &engine.to_string()), Ok(engine));
    }
}

#[test]
fn windows_has_one_engine() {
    assert_eq!(Engine::from_str(true, "docker"), Ok(Engine::Docker));
    assert_eq!(
        Engine::from_str(true, "buildah"),
        Err("LOLWUT".to_string())
    );
    assert_eq!(Engine::valid_engine(true, "docker".to_string()), Ok(()));
    assert_eq!(
        Engine::valid_engine(true, "buildah".to_string()),
        Err("LOLWUT".to_string())
    );
    let matches = unchecked(&["export", "--engine", "buildah"]);
    assert_eq!(Engine::find_in_cli_matches(true, &matches), None);
    let matches = unchecked(&["export", "--engine", "docker"]);
    assert_eq!(Engine::new_from_cli_matches(true, &matches), Engine::Docker);
}

#[test]
fn unknown_engine() {
    for windows in [false, true] {
        for name in ["Docker", "docker ", "", "podman"] {
            assert_eq!(
                Engine::from_str(windows, name),
                Err("LOLWUT".to_string())
            );
            assert_eq!(
                Engine::valid_engine(windows, name.to_string()),
                Err("LOLWUT".to_string())
            );
        }
    }
    assert_eq!(Engine::valid_engine(false, "buildah".to_string()), Ok(()));
}

#[test]
fn build_subcommands() {
    assert_eq!(Engine::Docker.build_subcommand(), "build");
    assert_eq!(Engine::Buildah.build_subcommand(), "build-using-dockerfile");
}

#[test]
fn argument_for_the_engine() {
    let arg = Engine::cli_arg(false);
    assert_eq!(arg.b.name, "ENGINE");
    assert_eq!(arg.s.long, Some("engine"));
    assert_eq!(arg.s.short, None);
    assert!(arg.is_set(clap::ArgSettings::Required));
    assert!(arg.is_set(clap::ArgSettings::TakesValue));
    assert!(!arg.is_set(clap::ArgSettings::Multiple));
    assert!(!arg.is_set(clap::ArgSettings::Hidden));
    assert_eq!(arg.v.default_val.unwrap().to_str(), Some("docker"));
    assert_eq!(
        arg.b.help,
        Some("The name of the container creation engine to use.")
    );
    assert_eq!(arg.b.long_help, Some(ENGINE_LONG_HELP));
    assert_eq!(arg.v.possible_vals, Some(vec!["docker", "buildah"]));
    assert!(ENGINE_LONG_HELP.starts_with(
        "Using the `docker` engine allows you to use Docker to create\nyour container images."
    ));
    assert!(ENGINE_LONG_HELP
        .ends_with("Both engines create equivalent OCI-compliant container images.\n"));
}

#[test]
fn argument_checks_its_values() {
    for windows in [false, true] {
        let arg = Engine::cli_arg(windows);
        let check = arg.v.validator.unwrap();
        let offered = arg.v.possible_vals.unwrap();
        for name in ["docker", "buildah", "podman"] {
            assert_eq!(check(name.to_string()).is_ok(), offered.contains(&name));
        }
        assert_eq!(check("podman".to_string()), Err("LOLWUT".to_string()));
    }
}

#[test]
fn argument_for_the_engine_on_windows() {
    let arg = Engine::cli_arg(true);
    assert_eq!(arg.v.possible_vals, Some(vec!["docker"]));
    assert!(arg.is_set(clap::ArgSettings::Hidden));
    assert_eq!(arg.b.long_help, None);
    assert_eq!(arg.v.default_val.unwrap().to_str(), Some("docker"));
    assert!(app(true)
        .get_matches_from_safe(&["export", "--engine", "buildah"])
        .is_err());
}

#[test]
fn help_shows_the_argument_away_from_windows() {
    let help = long_help_of(false);
    assert!(help.contains("--engine <ENGINE>"));
    assert!(help.contains("Please see https://buildah.io for more details."));
    let about = "The name of the container creation engine to use.";
    assert!(!long_help_of(true).contains(about));
    assert!(!long_help_of(true).contains("https://buildah.io"));
}

#[test]
fn engine_is_chosen_once() {
    assert!(matches_of(&["export", "--engine", "docker", "--engine", "buildah"]).is_err());
}

#[test]
fn engine_of_a_command_line() {
    let matches = matches_of(&["export", "--engine", "buildah"]).unwrap();
    assert_eq!(Engine::new_from_cli_matches(false, &matches), Engine::Buildah);
    let matches = matches_of(&["export", "--engine=docker"]).unwrap();
    assert_eq!(Engine::new_from_cli_matches(false, &matches), Engine::Docker);
}

#[test]
fn docker_is_the_default() {
    let matches = matches_of(&["export"]).unwrap();
    assert_eq!(Engine::new_from_cli_matches(false, &matches), Engine::Docker);
    assert_eq!(Engine::find_in_cli_matches(false, &matches), Some(Engine::Docker));
}

#[test]
fn command_line_with_an_unknown_engine_is_refused() {
    assert!(matches_of(&["export", "--engine", "podman"]).is_err());
}

#[test]
fn engine_is_looked_for_in_any_command_line() {
    assert_eq!(Engine::find_in_cli_matches(false, &unchecked(&["export"])), None);
    assert_eq!(
        Engine::find_in_cli_matches(false, &unchecked(&["export", "--engine", "podman"])),
        None
    );
    assert_eq!(
        Engine::find_in_cli_matches(false, &unchecked(&["export", "--other", "docker"])),
        None
    );
    assert_eq!(
        Engine::find_in_cli_matches(false, &unchecked(&["export", "--engine", "buildah"])),
        Some(Engine::Buildah)
    );
}
