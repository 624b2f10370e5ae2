use hab::prompt::{CliConfig, Environment, LatestPair, Prompt, Say, YesNo};
use hab::setup::{start, write_cli_config, ConfigEntry, Event, Request, Setup};

fn config() -> Event {
    Event::Config(
        CliConfig {
            auth_token: None,
            origin: None,
            ctl_secret: None,
            bldr_url: None,
        },
        Environment {
            auth_token: None,
            origin: None,
            user: Some("user".to_string()),
            ctl_secret: None,
            bldr_url: None,
        },
    )
}

fn text(text: &str) -> Event {
    Event::Text(text.to_string())
}

fn question(request: Request) -> String {
    match request {
        Request::YesNo(YesNo { question, .. }) => question,
        other => panic!("{:?} is no question", other),
    }
}

fn headings(says: &[Say]) -> Vec<&str> {
    says.iter()
        .filter_map(|s| match s {
            Say::Heading(text) => Some(text.as_str()),
            _ => None,
        })
        .collect()
}

/// A dialogue at the question for the origin.
fn at_origin() -> Setup {
    let (mut setup, _) = start(None);
    setup.step(Event::Answer(false));
    setup
}

/// A dialogue that waits for the keys of the origin `acme`.
fn at_keys() -> Setup {
    let mut setup = at_origin();
    setup.step(Event::Answer(true));
    setup.step(config());
    setup.step(text("acme"));
    setup.step(Event::Written);
    setup
}

/// A dialogue at the question for the access token.
fn at_token(binlink: Option<String>) -> Setup {
    let (mut setup, _) = start(binlink);
    setup.step(Event::Answer(false));
    setup.step(Event::Answer(false));
    setup
}

/// A dialogue at the question for the binlinks.
fn at_binlink() -> Setup {
    let mut setup = at_token(Some("C:\\hab\\bin".to_string()));
    setup.step(Event::Answer(false));
    setup.step(Event::Answer(false));
    setup
}

#[test]
fn dialogue_opens_with_the_builder() {
    let (setup, says) = start(None);
    assert_eq!(
        says,
        vec![
            Say::Br,
            Say::Title("Habitat CLI Setup".to_string()),
            Say::Para("Welcome to hab setup. Let's get started.".to_string()),
            Say::Heading("Habitat Builder Instance".to_string()),
            Say::Para(
                "Habitat packages can be stored in either the public builder instance \
                 https://bldr.habitat.sh or in an on-premises builder depot instance. If you do \
                 not set a builder URL now, the `hab` CLI will default to using the public \
                 builder instance. This can be overridden at any time after setup."
                    .to_string()
            ),
        ]
    );
    assert_eq!(
        setup.request(),
        Request::YesNo(YesNo {
            question: "Connect to an on-premises Builder instance?".to_string(),
            default: Some(false),
        })
    );
}

#[test]
fn declining_everything_changes_nothing() {
    let (mut setup, _) = start(None);
    let says = setup.step(Event::Answer(false));
    assert_eq!(
        says[0..3],
        [
            Say::Br,
            Say::Para(
                "Alright, maybe another time. You can also set a `HAB_BLDR_URL` environment \
                 variable or pass the `--url` flag to the cli."
                    .to_string()
            ),
            Say::Heading("Set up a default origin".to_string()),
        ]
    );
    assert_eq!(says.len(), 6);
    assert_eq!(question(setup.request()), "Set up a default origin?");
    let says = setup.step(Event::Answer(false));
    assert_eq!(
        says[0],
        Say::Para(
            "Alright, maybe another time. You can also set a `HAB_ORIGIN` environment variable \
             when using the cli."
                .to_string()
        )
    );
    assert_eq!(headings(&says), vec!["Habitat Personal Access Token"]);
    assert_eq!(says.len(), 6);
    assert_eq!(
        question(setup.request()),
        "Set up a default Builder personal access token?"
    );
    let says = setup.step(Event::Answer(false));
    assert_eq!(
        says[0],
        Say::Para(
            "Alright, maybe another time. You can also set a `HAB_AUTH_TOKEN` environment \
             variable or pass the `--auth` flag to the cli."
                .to_string()
        )
    );
    assert_eq!(headings(&says), vec!["Supervisor Control Gateway Secret"]);
    assert_eq!(
        question(setup.request()),
        "Set up a default Habitat Supervisor control gateway secret?"
    );
    let says = setup.step(Event::Answer(false));
    assert_eq!(
        says,
        vec![
            Say::Para(
                "Alright, maybe another time. You can also set a `HAB_CTL_SECRET` environment \
                 variable when issuing commands to a remote Supervisor."
                    .to_string()
            ),
            Say::Heading("CLI Setup Complete".to_string()),
            Say::Para("That's all for now. Thanks for using Habitat!".to_string()),
        ]
    );
    assert_eq!(setup.request(), Request::Done);
}

#[test]
fn url_is_asked_for_until_it_is_valid() {
    let (mut setup, _) = start(None);
    assert_eq!(
        setup.step(Event::Answer(true)),
        vec![
            Say::Br,
            Say::Para(
                "Enter the url of your builder instance. The default is \
                 https://bldr.habitat.sh. The configured endpoint can be overridden any time \
                 with a `HAB_BLDR_URL` environment variable or a --url flag on the cli."
                    .to_string()
            ),
        ]
    );
    assert_eq!(setup.request(), Request::LoadConfig);
    setup.step(config());
    assert_eq!(
        setup.request(),
        Request::Ask(Prompt {
            question: "Private builder url".to_string(),
            default: None,
        })
    );
    assert_eq!(
        setup.step(text("nowhere")),
        vec![
            Say::Br,
            Say::Fatal("nowhere: is invalid, please provide a valid url".to_string()),
            Say::Br,
        ]
    );
    assert_eq!(setup.request(), Request::LoadConfig);
    setup.step(config());
    assert_eq!(setup.step(text("https://bldr.example")), vec![]);
    assert_eq!(
        setup.request(),
        Request::Write(ConfigEntry::BldrUrl, "https://bldr.example".to_string())
    );
    assert_eq!(
        headings(&setup.step(Event::Written)),
        vec!["Set up a default origin"]
    );
}

#[test]
fn judged_url() {
    let (mut setup, _) = start(None);
    setup.step(Event::Answer(true));
    setup.step(config());
    assert_eq!(setup.step_judged(text("https://bldr.example"), false).len(), 3);
    setup.step(config());
    setup.step_judged(text("nowhere"), true);
    assert_eq!(
        setup.request(),
        Request::Write(ConfigEntry::BldrUrl, "nowhere".to_string())
    );
}

#[test]
fn origin_is_asked_for_until_it_is_valid() {
    let mut setup = at_origin();
    assert_eq!(
        setup.step(Event::Answer(true)),
        vec![
            Say::Br,
            Say::Para(
                "Enter the name of your origin. If you plan to publish your packages publicly, \
                 we recommend that you select one that is not already in use on the Habitat \
                 build service found at https://bldr.habitat.sh/."
                    .to_string()
            ),
            Say::Para(
                "Origins must begin with a lowercase letter or number. Allowed characters \
                 include lowercase letters, numbers, _, -. No more than 255 characters."
                    .to_string()
            ),
        ]
    );
    setup.step(config());
    assert_eq!(
        setup.request(),
        Request::Ask(Prompt {
            question: "Default origin name".to_string(),
            default: Some("user".to_string()),
        })
    );
    assert_eq!(
        setup.step(text("_acme")),
        vec![Say::Br, Say::InvalidOrigin("_acme".to_string()), Say::Br]
    );
    setup.step(config());
    setup.step(text("acme"));
    assert_eq!(
        setup.request(),
        Request::Write(ConfigEntry::Origin, "acme".to_string())
    );
    assert_eq!(setup.step(Event::Written), vec![Say::Br]);
    assert_eq!(setup.request(), Request::LookUpKey("acme".to_string()));
}

#[test]
fn key_that_is_there_is_not_created() {
    let mut setup = at_keys();
    let says = setup.step(Event::Key(LatestPair::Found { secret: true }));
    assert_eq!(
        says[0],
        Say::Para(
            "You already have an origin key for acme created and installed. Great work!"
                .to_string()
        )
    );
    assert_eq!(headings(&says), vec!["Habitat Personal Access Token"]);
}

#[test]
fn missing_key_is_created_where_wanted() {
    for pair in [LatestPair::Missing, LatestPair::Found { secret: false }] {
        let mut setup = at_keys();
        let says = setup.step(Event::Key(pair));
        assert_eq!(
            says,
            vec![
                Say::Heading("Create origin key pair".to_string()),
                Say::Para(
                    "It doesn't look like you have a signing key for the origin `acme'. Without \
                     it, you won't be able to build new packages successfully."
                        .to_string()
                ),
                Say::Para(
                    "You can either create a new signing key now, or, if you are building \
                     packages for an origin that already exists, ask the owner to give you the \
                     signing key."
                        .to_string()
                ),
                Say::Para(
                    "For more information on the use of origin keys, please consult the \
                     documentation at https://www.habitat.sh/docs/concepts-keys/#origin-keys"
                        .to_string()
                ),
            ]
        );
        assert_eq!(
            question(setup.request()),
            "Create an origin key for `acme'?"
        );
        setup.step(Event::Answer(true));
        assert_eq!(setup.request(), Request::GenerateKey("acme".to_string()));
        let says = setup.step(Event::Generated(true));
        assert_eq!(says[0], Say::Br);
        assert_eq!(headings(&says), vec!["Habitat Personal Access Token"]);
    }
}

#[test]
fn missing_key_is_not_created_unasked() {
    let mut setup = at_keys();
    setup.step(Event::Key(LatestPair::Missing));
    let says = setup.step(Event::Answer(false));
    assert_eq!(
        says[0],
        Say::Para(
            "You might want to create an origin key later with: `hab origin key generate acme'"
                .to_string()
        )
    );
    assert_eq!(headings(&says), vec!["Habitat Personal Access Token"]);
}

#[test]
fn failed_key_ends_the_dialogue() {
    let mut setup = at_keys();
    setup.step(Event::Key(LatestPair::Missing));
    setup.step(Event::Answer(true));
    assert_eq!(setup.step(Event::Generated(false)), vec![Say::Br]);
    assert_eq!(setup.request(), Request::KeyFailed);
    assert_eq!(setup.step(Event::Generated(true)), vec![]);
    assert_eq!(setup.request(), Request::KeyFailed);
}

#[test]
fn token_and_secret_are_written_as_given() {
    let mut setup = at_token(None);
    assert_eq!(
        setup.step(Event::Answer(true)),
        vec![
            Say::Br,
            Say::Para("Enter your Habitat Personal Access Token.".to_string())
        ]
    );
    setup.step(config());
    setup.step(text("not a url"));
    assert_eq!(
        setup.request(),
        Request::Write(ConfigEntry::AuthToken, "not a url".to_string())
    );
    assert_eq!(
        headings(&setup.step(Event::Written)),
        vec!["Supervisor Control Gateway Secret"]
    );
    assert_eq!(
        setup.step(Event::Answer(true)),
        vec![
            Say::Br,
            Say::Para("Enter your Habitat Supervisor control gateway secret.".to_string())
        ]
    );
    setup.step(config());
    setup.step(text(""));
    assert_eq!(
        setup.request(),
        Request::Write(ConfigEntry::CtlSecret, "".to_string())
    );
    assert_eq!(
        headings(&setup.step(Event::Written)),
        vec!["CLI Setup Complete"]
    );
    assert_eq!(setup.request(), Request::Done);
}

#[test]
fn binlinks_are_put_on_the_path() {
    let mut setup = at_token(Some("C:\\hab\\bin".to_string()));
    setup.step(Event::Answer(false));
    assert_eq!(
        headings(&setup.step(Event::Answer(false))),
        vec!["Habitat Binlink Path"]
    );
    assert_eq!(
        setup.request(),
        Request::YesNo(YesNo {
            question: "Add binlink directory to PATH?".to_string(),
            default: Some(true),
        })
    );
    setup.step(Event::Answer(true));
    assert_eq!(setup.request(), Request::AmIRoot);
    setup.step(Event::Root(true));
    assert_eq!(setup.request(), Request::SetBinlinkPath);
    let says = setup.step(Event::BinlinkSet);
    assert_eq!(
        says[0],
        Say::Para(
            "C:\\hab\\bin has been added to your path. You will need to open a new console \
             window for this added entry to take effect."
                .to_string()
        )
    );
    assert_eq!(headings(&says), vec!["CLI Setup Complete"]);
    assert_eq!(setup.request(), Request::Done);
}

#[test]
fn binlinks_need_an_administrator() {
    let mut setup = at_binlink();
    setup.step(Event::Answer(true));
    let says = setup.step(Event::Root(false));
    assert_eq!(
        says[0],
        Say::Fatal(
            "You must be in an elevated console running as an administrator in order to set the \
             machine's PATH. Please open a new console running as administrator and run setup \
             again to add the Habitat binlink directory to your path."
                .to_string()
        )
    );
    assert_eq!(setup.request(), Request::Done);
}

#[test]
fn binlinks_are_declined() {
    let mut setup = at_binlink();
    let says = setup.step(Event::Answer(false));
    assert_eq!(
        says[0],
        Say::Para("Alright, maybe another time.".to_string())
    );
    assert_eq!(setup.request(), Request::Done);
}

#[test]
fn other_answers_change_nothing() {
    let (mut setup, _) = start(None);
    assert_eq!(setup.step(text("https://bldr.example")), vec![]);
    assert_eq!(setup.step(Event::Written), vec![]);
    assert_eq!(
        question(setup.request()),
        "Connect to an on-premises Builder instance?"
    );
}

#[test]
fn longest_dialogue_without_rejections() {
    let (mut setup, _) = start(Some("C:\\hab\\bin".to_string()));
    let mut answers = 0;
    let mut entries = Vec::new();
    loop {
        let event = match setup.request() {
            Request::YesNo(_) => Event::Answer(true),
            Request::LoadConfig => config(),
            Request::Ask(prompt) if prompt.question == "Private builder url" => {
                text("https://bldr.example")
            }
            Request::Ask(_) => text("acme"),
            Request::Write(entry, _) => {
                entries.push(entry);
                Event::Written
            }
            Request::LookUpKey(_) => Event::Key(LatestPair::Missing),
            Request::GenerateKey(_) => Event::Generated(true),
            Request::AmIRoot => Event::Root(true),
            Request::SetBinlinkPath => Event::BinlinkSet,
            Request::KeyFailed => panic!("the keys were created"),
            Request::Done => break,
        };
        setup.step(event);
        answers += 1;
    }
    assert_eq!(answers, 22);
    assert_eq!(
        entries,
        vec![
            ConfigEntry::BldrUrl,
            ConfigEntry::Origin,
            ConfigEntry::AuthToken,
            ConfigEntry::CtlSecret,
        ]
    );
}

/// Holds a dialogue with these answers to its questions and prompts, and returns what it makes of
/// a configuration and for which origins it creates keys.
fn hold(
    answers: &[bool],
    texts: &[&str],
    pair: LatestPair,
    mut config: CliConfig,
) -> (CliConfig, Vec<String>) {
    let (mut setup, _) = start(None);
    let mut answers = answers.iter();
    let mut texts = texts.iter();
    let mut created = Vec::new();
    loop {
        let event = match setup.request() {
            Request::YesNo(_) => Event::Answer(*answers.next().unwrap()),
            Request::LoadConfig => self::config(),
            Request::Ask(_) => text(texts.next().unwrap()),
            Request::Write(entry, value) => {
                write_cli_config(&mut config, entry, &value);
                Event::Written
            }
            Request::LookUpKey(_) => Event::Key(pair),
            Request::GenerateKey(origin) => {
                created.push(origin);
                Event::Generated(true)
            }
            Request::Done => return (config, created),
            other => panic!("{:?} is not expected", other),
        };
        setup.step(event);
    }
}

fn configured() -> CliConfig {
    CliConfig {
        auth_token: Some("old token".to_string()),
        origin: Some("old".to_string()),
        ctl_secret: None,
        bldr_url: Some("https://old.example".to_string()),
    }
}

#[test]
fn configuration_holds_the_last_texts_given() {
    let (config, created) = hold(
        &[true, true, true, false, true],
        &[
            "nowhere",
            "https://new.example",
            "_no",
            "No",
            "acme",
            "secret",
        ],
        LatestPair::Missing,
        configured(),
    );
    assert_eq!(
        config,
        CliConfig {
            auth_token: Some("old token".to_string()),
            origin: Some("acme".to_string()),
            ctl_secret: Some("secret".to_string()),
            bldr_url: Some("https://new.example".to_string()),
        }
    );
    assert_eq!(created, vec!["acme"]);
}

#[test]
fn keys_are_created_where_missing_and_wanted() {
    let only_origin = |answers: &[bool], pair| hold(answers, &["acme"], pair, configured()).1;
    let found = LatestPair::Found { secret: true };
    assert_eq!(only_origin(&[false, true, false, false], found), Vec::<String>::new());
    let missing = LatestPair::Found { secret: false };
    assert_eq!(
        only_origin(&[false, true, false, false, false], missing),
        Vec::<String>::new()
    );
    assert_eq!(only_origin(&[false, true, true, false, false], missing), vec!["acme"]);
}

#[test]
fn declined_entries_stay() {
    let (config, created) = hold(&[false; 4], &[], LatestPair::Missing, configured());
    assert_eq!(config, configured());
    assert_eq!(created, Vec::<String>::new());
}
