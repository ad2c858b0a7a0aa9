use domain::cli::{config_sources, load_failure_message, Args, Command};
use domain::mail::{mailbox, MailSender};

#[test]
fn mailboxes_are_name_then_address() {
    assert_eq!(mailbox("Ann Lee", "ann@example.com"), "Ann Lee <ann@example.com>");
}

#[test]
fn composed_mail_goes_from_sender_to_one_recipient() {
    let sender = MailSender::new("no-reply@example.com".into(), "Example".into());
    let m = sender.compose("bob@example.com", "Bob", "Hello", "<p>Hi</p>");
    assert_eq!(m.from, "Example <no-reply@example.com>");
    assert_eq!(m.to, vec!["Bob <bob@example.com>".to_string()]);
    assert_eq!((m.subject.as_str(), m.html.as_str()), ("Hello", "<p>Hi</p>"));
}

#[test]
fn configuration_names_are_read_from_config_directory() {
    let sources = config_sources(&vec!["default".to_string(), "local".to_string()]);
    assert_eq!(sources, vec!["config/default".to_string(), "config/local".to_string()]);
}

#[test]
fn load_failure_lists_expected_files() {
    let m = load_failure_message(&vec!["default".to_string(), "local".to_string()], "server");
    assert_eq!(
        m,
        "failed to load config. Expected files:\n\n  config/default.toml\n  config/local.toml\n\nRun `server init` to generate a default config."
    );
    let empty = load_failure_message(&vec![], "server");
    assert_eq!(empty, "failed to load config. Expected files:\n\n\n\nRun `server init` to generate a default config.");
}

#[test]
fn command_line_holds_configs_and_command() {
    let a = Args { configs: vec!["default".into()], command: Some(Command::PrintConfig) };
    assert_eq!(a.command, Some(Command::PrintConfig));
    assert_ne!(Command::Init, Command::PrintConfig);
}
