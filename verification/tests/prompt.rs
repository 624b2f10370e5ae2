use hab::prompt::{
    ask_create_origin, ask_default_auth_token, ask_default_builder_instance,
    ask_default_ctl_secret, ask_default_origin, is_origin_in_cache, judge_url, prompt_auth_token,
    prompt_ctl_secret, prompt_origin, prompt_url, valid_url, write_cli_config_auth_token,
    write_cli_config_bldr_url, write_cli_config_ctl_secret, write_cli_config_origin, CliConfig,
    Environment, LatestPair, Prompt, Prompting, Say, YesNo,
};
use hab::setup::{write_cli_config, ConfigEntry};

fn config() -> CliConfig {
    CliConfig {
        auth_token: None,
        origin: None,
        ctl_secret: None,
        bldr_url: None,
    }
}

fn environment() -> Environment {
    Environment {
        auth_token: Some("env token".to_string()),
        origin: Some("env-origin".to_string()),
        user: Some("user".to_string()),
        ctl_secret: Some("env secret".to_string()),
        bldr_url: Some("https://env.example".to_string()),
    }
}

fn bare() -> Environment {
    Environment {
        auth_token: None,
        origin: None,
        user: None,
        ctl_secret: None,
        bldr_url: None,
    }
}

fn asks(question: &str, default: Option<&str>) -> Prompting {
    Prompting {
        says: vec![],
        prompt: Prompt {
            question: question.to_string(),
            default: default.map(|d| d.to_string()),
        },
    }
}

fn remarks(remark: &str, question: &str, default: &str) -> Prompting {
    Prompting {
        says: vec![Say::Para(remark.to_string())],
        prompt: Prompt {
            question: question.to_string(),
            default: Some(default.to_string()),
        },
    }
}

fn yes_no(question: &str, default: bool) -> YesNo {
    YesNo {
        question: question.to_string(),
        default: Some(default),
    }
}

#[test]
fn questions() {
    assert_eq!(ask_default_origin(), yes_no("Set up a default origin?", true));
    assert_eq!(
        ask_default_builder_instance(),
        yes_no("Connect to an on-premises Builder instance?", false)
    );
    assert_eq!(
        ask_create_origin("acme"),
        yes_no("Create an origin key for `acme'?", true)
    );
    assert_eq!(
        ask_default_auth_token(),
        yes_no("Set up a default Builder personal access token?", false)
    );
    assert_eq!(
        ask_default_ctl_secret(),
        yes_no(
            "Set up a default Habitat Supervisor control gateway secret?",
            false
        )
    );
}

#[test]
fn each_value_goes_to_its_entry() {
    let mut written = config();
    write_cli_config_origin(&mut written, "acme");
    assert_eq!(
        written,
        CliConfig {
            origin: Some("acme".to_string()),
            ..config()
        }
    );
    write_cli_config_bldr_url(&mut written, "https://bldr.example");
    write_cli_config_auth_token(&mut written, "token");
    write_cli_config_ctl_secret(&mut written, "secret");
    assert_eq!(
        written,
        CliConfig {
            auth_token: Some("token".to_string()),
            origin: Some("acme".to_string()),
            ctl_secret: Some("secret".to_string()),
            bldr_url: Some("https://bldr.example".to_string()),
        }
    );
}

#[test]
fn entries_by_name() {
    let mut written = config();
    write_cli_config(&mut written, ConfigEntry::Origin, "acme");
    write_cli_config(&mut written, ConfigEntry::BldrUrl, "https://bldr.example");
    write_cli_config(&mut written, ConfigEntry::AuthToken, "token");
    write_cli_config(&mut written, ConfigEntry::CtlSecret, "secret");
    write_cli_config(&mut written, ConfigEntry::Origin, "other");
    assert_eq!(
        written,
        CliConfig {
            auth_token: Some("token".to_string()),
            origin: Some("other".to_string()),
            ctl_secret: Some("secret".to_string()),
            bldr_url: Some("https://bldr.example".to_string()),
        }
    );
}

#[test]
fn environment_fills_in() {
    assert_eq!(
        prompt_origin(config(), environment()),
        asks("Default origin name", Some("env-origin"))
    );
    assert_eq!(
        prompt_url(config(), environment()),
        asks("Private builder url", Some("https://env.example"))
    );
    assert_eq!(
        prompt_auth_token(config(), environment()),
        asks("Habitat personal access token", Some("env token"))
    );
    assert_eq!(
        prompt_ctl_secret(config(), environment()),
        asks("Habitat Supervisor control gateway secret", Some("env secret"))
    );
}

#[test]
fn user_is_the_last_resort_for_an_origin() {
    let env = Environment {
        user: Some("user".to_string()),
        ..bare()
    };
    assert_eq!(
        prompt_origin(config(), env),
        asks("Default origin name", Some("user"))
    );
    assert_eq!(
        prompt_origin(config(), bare()),
        asks("Default origin name", None)
    );
}

#[test]
fn nothing_configured_and_nothing_in_the_environment() {
    assert_eq!(prompt_url(config(), bare()), asks("Private builder url", None));
    assert_eq!(
        prompt_auth_token(config(), bare()),
        asks("Habitat personal access token", None)
    );
    assert_eq!(
        prompt_ctl_secret(config(), bare()),
        asks("Habitat Supervisor control gateway secret", None)
    );
}

#[test]
fn written_value_is_the_next_default() {
    let written = || CliConfig {
        auth_token: Some("token".to_string()),
        origin: Some("acme".to_string()),
        ctl_secret: Some("secret".to_string()),
        bldr_url: Some("https://bldr.example".to_string()),
    };
    assert_eq!(
        prompt_origin(written(), environment()),
        remarks(
            "You already have a default origin set up as `acme', but feel free to change it if \
             you wish.",
            "Default origin name",
            "acme"
        )
    );
    assert_eq!(
        prompt_url(written(), environment()),
        remarks(
            "You already have a default builder url set up, but feel free to change it if you \
             wish.",
            "Private builder url",
            "https://bldr.example"
        )
    );
    assert_eq!(
        prompt_auth_token(written(), environment()),
        remarks(
            "You already have a default auth token set up, but feel free to change it if you \
             wish.",
            "Habitat personal access token",
            "token"
        )
    );
    assert_eq!(
        prompt_ctl_secret(written(), environment()),
        remarks(
            "You already have a default control gateway secret set up, but feel free to change \
             it\n                if you wish.",
            "Habitat Supervisor control gateway secret",
            "secret"
        )
    );
}

#[test]
fn urls() {
    assert_eq!(valid_url("https://bldr.habitat.sh"), Ok(()));
    assert_eq!(valid_url("http://localhost:9636/v1"), Ok(()));
    assert_eq!(
        valid_url("bldr.habitat.sh"),
        Err("URL: 'bldr.habitat.sh' is not valid".to_string())
    );
    assert_eq!(valid_url(""), Err("URL: '' is not valid".to_string()));
    assert_eq!(
        valid_url("https://"),
        Err("URL: 'https://' is not valid".to_string())
    );
}

#[test]
fn judgement_of_a_url() {
    assert_eq!(judge_url("anything", true), Ok(()));
    assert_eq!(
        judge_url("anything", false),
        Err("URL: 'anything' is not valid".to_string())
    );
}

#[test]
fn key_is_there_with_its_secret_only() {
    assert!(is_origin_in_cache(LatestPair::Found { secret: true }));
    assert!(!is_origin_in_cache(LatestPair::Found { secret: false }));
    assert!(!is_origin_in_cache(LatestPair::Missing));
}
