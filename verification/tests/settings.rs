use std::path::PathBuf;
use taskmeister::client::{
    Config as ClientConfig, ParsedArgumets, DEFAULT_CONFIG_PATH, DEFAULT_HISTORY_FILE,
    DEFAULT_PROMPT, DEFAULT_SERVER_ADDR,
};
use taskmeister::config::{Config, ConfigError, Include, Start, CONFIG_PATH, SERVER_ADDR};
use taskmeister::dir_utils::{expand_home_dir, parse_config_path};
use taskmeister::io_router::{clear_fd_flag, set_fd_flag};
use taskmeister::logger::{LogLevel, Logger};
use taskmeister::{Request, Response, ResponsePart};

fn texts(items: &[&str]) -> Vec<String> {
    items.iter().map(|s| s.to_string()).collect()
}

#[test]
fn root_names_reach_the_protocol_types() {
    let request =
        Request { command: "ls".to_string(), flags: vec![], args: vec![], stream: None };
    assert_eq!(request.command, "ls");
    let response: Response = vec![ResponsePart::Info("OK".to_string())];
    assert_eq!(response.len(), 1);
}

#[test]
fn fd_flag_words() {
    assert_eq!(set_fd_flag(0o2, 0o4000), 0o4002);
    assert_eq!(set_fd_flag(0o4002, 0o4000), 0o4002);
    assert_eq!(clear_fd_flag(0o4002, 0o4000), 0o2);
    assert_eq!(clear_fd_flag(0o2, 0o4000), 0o2);
    assert_eq!(clear_fd_flag(-1, 1), -2);
    assert_eq!(set_fd_flag(i32::MIN, 1), i32::MIN + 1);
}

#[test]
fn server_arguments() {
    assert_eq!(parse_config_path(&texts(&[])), (None, None));
    assert_eq!(
        parse_config_path(&texts(&["127.0.0.1:1"])),
        (None, Some("127.0.0.1:1".to_string()))
    );
    assert_eq!(
        parse_config_path(&texts(&["127.0.0.1:1", "-f", "x"])),
        (None, Some("127.0.0.1:1".to_string()))
    );
    assert_eq!(parse_config_path(&texts(&["-f"])), (None, None));
    assert_eq!(parse_config_path(&texts(&["-f", "cfg"])), (Some("cfg".to_string()), None));
    assert_eq!(
        parse_config_path(&texts(&["-f", "cfg", "addr", "more"])),
        (Some("cfg".to_string()), Some("addr".to_string()))
    );
}

#[test]
fn home_expansion_agrees_with_path_push() {
    let cases = [
        ("~/x/y", "/home/u"),
        ("~/x", "/home/u/"),
        ("~/", "/home/u"),
        ("~//abs", "/home/u"),
        ("~/x", ""),
        ("~/x", "/"),
        ("~/.config/app.toml", "/root"),
    ];
    for (path, home) in cases {
        let mut expected = PathBuf::from(home);
        expected.push(PathBuf::from(path.strip_prefix("~/").unwrap()));
        assert_eq!(
            expand_home_dir(path, Some(home)),
            expected.to_str().unwrap(),
            "{path:?} under {home:?}"
        );
    }
}

#[test]
fn home_expansion_leaves_other_paths_alone() {
    assert_eq!(expand_home_dir("~/x/y", Some("/home/u")), "/home/u/x/y");
    assert_eq!(expand_home_dir("/etc/x", Some("/home/u")), "/etc/x");
    assert_eq!(expand_home_dir("~x", Some("/home/u")), "~x");
    assert_eq!(expand_home_dir("~", Some("/home/u")), "~");
    assert_eq!(expand_home_dir("a/~/b", Some("/home/u")), "a/~/b");
    assert_eq!(expand_home_dir("", Some("/home/u")), "");
    assert_eq!(expand_home_dir("~/x", None), "~/x");
}

#[test]
fn log_levels_are_ordered_by_gravity() {
    let levels = [LogLevel::Error, LogLevel::Warning, LogLevel::Info];
    for (i, message) in levels.iter().enumerate() {
        for (j, limit) in levels.iter().enumerate() {
            assert_eq!(message.passes(*limit), i <= j, "{message:?} under {limit:?}");
        }
    }
    assert_eq!(LogLevel::Info.prefix(), "[INFO]");
    assert_eq!(LogLevel::Warning.prefix(), "[WARN]");
    assert_eq!(LogLevel::Error.prefix(), "[ERROR]");
}

#[test]
fn logger_lets_grave_messages_through() {
    let logger = Logger::new(LogLevel::Warning, true);
    assert!(logger.uses_syslog());
    assert_eq!(
        logger.send(LogLevel::Error, "disk full", "[1/1/1970 0:0:0 UTC]"),
        Some("[1/1/1970 0:0:0 UTC] [WARN]: disk full".to_string())
    );
    assert_eq!(
        logger.send(LogLevel::Warning, "", "now"),
        Some("now [WARN]: ".to_string())
    );
    assert_eq!(logger.send(LogLevel::Info, "chatter", "now"), None);
    let quiet = Logger::new(LogLevel::Error, false);
    assert!(!quiet.uses_syslog());
    assert_eq!(quiet.send(LogLevel::Warning, "w", "now"), None);
    assert_eq!(quiet.send(LogLevel::Error, "e", "now"), Some("now [ERROR]: e".to_string()));
}

fn read_config() -> Config {
    Config {
        config_path: String::new(),
        server_addr: "10.0.0.1:9".to_string(),
        logs: Some("/var/log/tm.log".to_string()),
        syslog: true,
        log_level: LogLevel::Error,
        includes: Include { paths: texts(&["/etc/tm.d"]) },
        start: Start { services: texts(&["web", "db"]) },
    }
}

#[test]
fn server_configuration_is_located() {
    assert_eq!(CONFIG_PATH, "~/.config/taskmeiker/server.toml");
    assert_eq!(SERVER_ADDR, "127.0.0.1:14242");
    assert_eq!(
        Config::locate(Some("/tmp/s.toml".to_string()), Some("/home/u")),
        ("/tmp/s.toml".to_string(), true)
    );
    assert_eq!(
        Config::locate(None, Some("/home/u")),
        ("/home/u/.config/taskmeiker/server.toml".to_string(), false)
    );
    assert_eq!(Config::locate(None, None), (CONFIG_PATH.to_string(), false));
}

#[test]
fn server_configuration_that_exists_is_taken() {
    let (config, created) =
        Config::load(true, "/tmp/s.toml".to_string(), Some(read_config())).unwrap();
    assert!(!created);
    assert_eq!(config.config_path, "/tmp/s.toml");
    assert_eq!(config.server_addr, "10.0.0.1:9");
    assert_eq!(config.logs.as_deref(), Some("/var/log/tm.log"));
    assert!(config.syslog);
    assert_eq!(config.log_level, LogLevel::Error);
    assert_eq!(config.get_includes(), &texts(&["/etc/tm.d"]));
    assert_eq!(config.get_start(), &texts(&["web", "db"]));
}

#[test]
fn missing_server_configuration() {
    match Config::load(true, "/tmp/s.toml".to_string(), None) {
        Err(ConfigError::Missing(file)) => assert_eq!(file, "/tmp/s.toml"),
        other => panic!("unexpected outcome {other:?}"),
    }
    let (config, created) = Config::load(false, "/home/u/s.toml".to_string(), None).unwrap();
    assert!(created);
    assert_eq!(config.config_path, "/home/u/s.toml");
    assert_eq!(config.server_addr, SERVER_ADDR);
    assert_eq!(config.logs, None);
    assert!(!config.syslog);
    assert_eq!(config.log_level, LogLevel::Info);
    assert!(config.get_includes().is_empty());
    assert!(config.get_start().is_empty());
}

#[test]
fn client_configuration() {
    assert_eq!(DEFAULT_CONFIG_PATH, "~/.config/taskmeister/client.toml");
    assert_eq!(
        ClientConfig::locate(None, Some("/home/u")),
        ("/home/u/.config/taskmeister/client.toml".to_string(), false)
    );
    assert_eq!(
        ClientConfig::locate(Some("c.toml".to_string()), None),
        ("c.toml".to_string(), true)
    );
    let (config, created) =
        ClientConfig::load(false, "x".to_string(), None, None, Some("/home/u")).unwrap();
    assert!(created);
    assert_eq!(config.server_addr, DEFAULT_SERVER_ADDR);
    assert_eq!(config.prompt, DEFAULT_PROMPT);
    assert_eq!(config.history_file, "/home/u/.taskmeister_history");
    let (config, _) =
        ClientConfig::load(false, "x".to_string(), None, Some("1.2.3.4:5".to_string()), None)
            .unwrap();
    assert_eq!(config.server_addr, "1.2.3.4:5");
    assert_eq!(config.history_file, DEFAULT_HISTORY_FILE);
    let read = ClientConfig {
        server_addr: "9.9.9.9:9".to_string(),
        prompt: "> ".to_string(),
        history_file: "/h".to_string(),
    };
    let (config, created) =
        ClientConfig::load(true, "x".to_string(), Some(read), None, None).unwrap();
    assert!(!created);
    assert_eq!(config.server_addr, "9.9.9.9:9");
    assert_eq!(config.prompt, "> ");
    assert_eq!(config.history_file, "/h");
    assert!(matches!(
        ClientConfig::load(true, "x".to_string(), None, None, None),
        Err(ConfigError::Missing(file)) if file == "x"
    ));
}

#[test]
fn client_arguments() {
    let parsed = ParsedArgumets::new(&texts(&[])).unwrap();
    assert_eq!(parsed.command, None);
    assert_eq!(parsed.config_file, None);
    assert!(parsed.server_addr.is_empty());
    assert!(!parsed.help);

    let parsed =
        ParsedArgumets::new(&texts(&["-f", "c.toml", "1.2.3.4:5", "-c", "status web", "h:1"]))
            .unwrap();
    assert_eq!(parsed.command.as_deref(), Some("status web"));
    assert_eq!(parsed.config_file.as_deref(), Some("c.toml"));
    assert_eq!(parsed.server_addr, texts(&["1.2.3.4:5", "h:1"]));
    assert!(!parsed.help);

    // `-h` ends the reading; `-f` takes whatever follows it.
    let parsed = ParsedArgumets::new(&texts(&["-f", "-h", "-h", "-c"])).unwrap();
    assert_eq!(parsed.config_file.as_deref(), Some("-h"));
    assert!(parsed.help);
    assert_eq!(parsed.command, None);

    assert_eq!(ParsedArgumets::new(&texts(&["a", "-f"])).unwrap_err(), texts(&["a"]));
    assert_eq!(ParsedArgumets::new(&texts(&["-c"])).unwrap_err(), texts(&[]));
    assert_eq!(
        ParsedArgumets::new(&texts(&["a", "-c", "x", "b", "-c"])).unwrap_err(),
        texts(&["a", "b"])
    );
}
