use lazyreq::config::{ends_with, Config, ConfigError};

fn args(list: &[&str]) -> Vec<String> {
    list.iter().map(|s| s.to_string()).collect()
}

#[test]
fn config_reads_file_and_target() {
    let c = Config::parse(&args(&["prog", "api.lreq", "ping"])).ok().unwrap();
    assert_eq!(c.filename, "api.lreq");
    assert_eq!(c.target, "ping");
    assert!(!c.export_curl);
    let c = Config::new(&args(&["prog", "api.lreq", "ping"]));
    assert_eq!((c.filename.as_str(), c.target.as_str(), c.export_curl), ("api.lreq", "ping", false));
}

#[test]
fn config_flag_may_stand_anywhere() {
    for list in [
        ["prog", "--curl", "api.lreq", "ping"],
        ["prog", "api.lreq", "--curl", "ping"],
        ["prog", "api.lreq", "ping", "--curl"],
    ] {
        let c = Config::parse(&args(&list)).ok().unwrap();
        assert_eq!((c.filename.as_str(), c.target.as_str(), c.export_curl), ("api.lreq", "ping", true));
    }
}

#[test]
fn config_ignores_empty_and_extra_arguments() {
    let c = Config::parse(&args(&["prog", "", "api.lreq", "", "ping", "more"])).ok().unwrap();
    assert_eq!((c.filename.as_str(), c.target.as_str()), ("api.lreq", "ping"));
}

#[test]
fn config_errors() {
    assert!(matches!(Config::parse(&args(&[])), Err(ConfigError::NotEnoughArguments)));
    assert!(matches!(Config::parse(&args(&["prog", "a.lreq"])), Err(ConfigError::NotEnoughArguments)));
    assert!(matches!(
        Config::parse(&args(&["prog", "a.lreq", "--curl"])),
        Err(ConfigError::InvalidArguments)
    ));
    assert!(matches!(Config::parse(&args(&["prog", "", ""])), Err(ConfigError::InvalidArguments)));
    assert!(matches!(
        Config::parse(&args(&["prog", "a.txt", "ping"])),
        Err(ConfigError::InvalidFilename)
    ));
    assert!(matches!(
        Config::parse(&args(&["prog", "ping", "a.lreq"])),
        Err(ConfigError::InvalidFilename)
    ));
}

#[test]
fn ends_with_compares_the_tail() {
    assert!(ends_with("a.lreq", ".lreq"));
    assert!(ends_with(".lreq", ".lreq"));
    assert!(!ends_with("lreq", ".lreq"));
    assert!(!ends_with("a.lreq ", ".lreq"));
    assert!(ends_with("abc", ""));
}

#[test]
fn config_error_messages() {
    assert_eq!(ConfigError::NotEnoughArguments.message(), "not enough arguments");
    assert_eq!(ConfigError::InvalidArguments.message(), "invalid arguments");
    assert_eq!(ConfigError::InvalidFilename.message(), "invalid filename provided");
}
