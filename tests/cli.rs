use timesync::cli::{long_help_message, CliArg, LogLevel, NtpDaemonAction, NtpDaemonOptions};

fn args(a: &[&str]) -> Vec<String> {
    a.iter().map(|s| s.to_string()).collect()
}

#[test]
fn cli_no_arguments() {
    let arguments: [String; 0] = [];
    let parsed_empty = NtpDaemonOptions::try_parse_from(arguments.to_vec()).unwrap();

    assert!(parsed_empty.config.is_none());
    assert!(parsed_empty.log_level.is_none());
    assert_eq!(parsed_empty.action, NtpDaemonAction::Run);
}

#[test]
fn cli_external_config() {
    let arguments = &["/usr/bin/ntp-daemon", "--config", "other.toml"];
    let parsed_empty = NtpDaemonOptions::try_parse_from(args(arguments)).unwrap();

    assert_eq!(parsed_empty.config, Some("other.toml".into()));
    assert!(parsed_empty.log_level.is_none());
    assert_eq!(parsed_empty.action, NtpDaemonAction::Run);

    let arguments = &["/usr/bin/ntp-daemon", "-c", "other.toml"];
    let parsed_empty = NtpDaemonOptions::try_parse_from(args(arguments)).unwrap();

    assert_eq!(parsed_empty.config, Some("other.toml".into()));
    assert!(parsed_empty.log_level.is_none());
    assert_eq!(parsed_empty.action, NtpDaemonAction::Run);
}

#[test]
fn cli_log_level() {
    let arguments = &["/usr/bin/ntp-daemon", "--log-level", "debug"];
    let parsed_empty = NtpDaemonOptions::try_parse_from(args(arguments)).unwrap();

    assert!(parsed_empty.config.is_none());
    assert_eq!(parsed_empty.log_level.unwrap(), LogLevel::Debug);

    let arguments = &["/usr/bin/ntp-daemon", "-l", "debug"];
    let parsed_empty = NtpDaemonOptions::try_parse_from(args(arguments)).unwrap();

    assert!(parsed_empty.config.is_none());
    assert_eq!(parsed_empty.log_level.unwrap(), LogLevel::Debug);
}

#[test]
fn cli_help_wins_over_version() {
    let parsed = NtpDaemonOptions::try_parse_from(args(&["ntp-daemon", "-vh"])).unwrap();
    assert!(parsed.help);
    assert!(parsed.version);
    assert_eq!(parsed.action, NtpDaemonAction::Help);

    let parsed = NtpDaemonOptions::try_parse_from(args(&["ntp-daemon", "--version"])).unwrap();
    assert_eq!(parsed.action, NtpDaemonAction::Version);
}

#[test]
fn cli_unknown_options_are_refused() {
    let err = NtpDaemonOptions::try_parse_from(args(&["ntp-daemon", "--frobnicate"])).unwrap_err();
    assert_eq!(err, "invalid option provided: --frobnicate");

    let err = NtpDaemonOptions::try_parse_from(args(&["ntp-daemon", "-x"])).unwrap_err();
    assert_eq!(err, "invalid option provided: -x");

    let err = NtpDaemonOptions::try_parse_from(args(&["ntp-daemon", "--log-level", "loud"])).unwrap_err();
    assert_eq!(err, "invalid log level");
}

#[test]
fn normalize_long_forms() {
    let takes = ["--config", "--log-level"];
    let shorts = ['c', 'l'];
    let r = CliArg::normalize_arguments(&takes, &shorts, args(&["prog", "--config=a.toml", "--help"])).unwrap();
    assert_eq!(
        r,
        vec![
            CliArg::Argument("--config".to_string(), "a.toml".to_string()),
            CliArg::Flag("--help".to_string()),
        ]
    );

    let err = CliArg::normalize_arguments(&takes, &shorts, args(&["prog", "--help=yes"])).unwrap_err();
    assert_eq!(err, "invalid option: '--help=yes'");

    let err = CliArg::normalize_arguments(&takes, &shorts, args(&["prog", "--config"])).unwrap_err();
    assert_eq!(err, "'--config' expects an argument");
}

#[test]
fn normalize_short_forms_and_rest() {
    let takes = ["--config", "--log-level"];
    let shorts = ['c', 'l'];
    let r = CliArg::normalize_arguments(&takes, &shorts, args(&["prog", "-hc  x.toml ", "pos", "--", "-v"])).unwrap();
    assert_eq!(
        r,
        vec![
            CliArg::Flag("-h".to_string()),
            CliArg::Argument("-c".to_string(), "x.toml".to_string()),
            CliArg::Rest(vec!["pos".to_string(), "-v".to_string()]),
        ]
    );

    let err = CliArg::normalize_arguments(&takes, &shorts, args(&["prog", "-c=x"])).unwrap_err();
    assert_eq!(err, "invalid option '='");

    let err = CliArg::normalize_arguments(&takes, &shorts, args(&["prog", "-l"])).unwrap_err();
    assert_eq!(err, "'-l' expects an argument");

    let r = CliArg::normalize_arguments(&takes, &['h'], args(&["prog", "-h"])).unwrap();
    assert_eq!(r, vec![CliArg::Flag("-h".to_string())]);
}

#[test]
fn help_message_lists_options() {
    let msg = long_help_message();
    assert!(msg.starts_with("ntp-daemon - synchronize system time\n\nusage: ntp-daemon"));
    assert!(msg.contains("-c, --config=PATH"));
    assert!(msg.ends_with("display version information"));
}

#[test]
fn log_levels_by_name() {
    assert_eq!(LogLevel::from_name("trace"), Some(LogLevel::Trace));
    assert_eq!(LogLevel::from_name("warn"), Some(LogLevel::Warn));
    assert_eq!(LogLevel::from_name("error"), Some(LogLevel::Error));
    assert_eq!(LogLevel::from_name("Info"), None);
}
