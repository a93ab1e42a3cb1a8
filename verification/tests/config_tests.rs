use rat::config::ClientOverrides;
use rat::config::LogLevel;
use rat::config::ServerOverrides;
use rat::config::apply_client_overrides;
use rat::config::apply_server_overrides;
use rat::config::client_config_defaults;
use rat::config::get_client_config_filename;
use rat::config::get_client_log_filename;
use rat::config::get_server_config_filename;
use rat::config::get_server_log_filename;
use rat::config::parse_log_level;
use rat::config::server_config_defaults;
use rat::error::RatError;

fn no_client_overrides() -> ClientOverrides {
    ClientOverrides {
        log_level_stderr: None,
        log_level_file: None,
        dst_ip: None,
        dst_port: None,
        name: None,
    }
}

#[test]
fn log_level_names_parse_in_any_case() {
    assert_eq!(parse_log_level("error"), Some(LogLevel::Error));
    assert_eq!(parse_log_level("ERROR"), Some(LogLevel::Error));
    assert_eq!(parse_log_level("Warn"), Some(LogLevel::Warn));
    assert_eq!(parse_log_level("info"), Some(LogLevel::Info));
    assert_eq!(parse_log_level("dEbUg"), Some(LogLevel::Debug));
    assert_eq!(parse_log_level("trace"), Some(LogLevel::Trace));
    assert_eq!(parse_log_level("verbose"), None);
    assert_eq!(parse_log_level(""), None);
    assert_eq!(parse_log_level("errors"), None);
}

#[test]
fn client_defaults_match_the_layout() {
    let c = client_config_defaults();
    assert_eq!(c.log_level_stderr, LogLevel::Error);
    assert_eq!(c.log_level_file, LogLevel::Debug);
    assert!(c.dst_ip.is_none());
    assert_eq!(c.dst_port, 18888);
    assert_eq!(c.name, "anonymous");
}

#[test]
fn server_defaults_match_the_layout() {
    let c = server_config_defaults();
    assert_eq!(c.log_level_stderr, LogLevel::Info);
    assert_eq!(c.log_level_file, LogLevel::Debug);
    assert_eq!(c.src_ip, "0.0.0.0");
    assert_eq!(c.src_port, 18888);
}

#[test]
fn client_overrides_replace_only_what_they_name() {
    let mut c = client_config_defaults();
    let o = ClientOverrides {
        log_level_stderr: Some("TRACE".to_string()),
        dst_ip: Some("127.0.0.1".to_string()),
        dst_port: Some(2000),
        ..no_client_overrides()
    };
    apply_client_overrides(&mut c, &o).expect("the levels are known");
    assert_eq!(c.log_level_stderr, LogLevel::Trace);
    assert_eq!(c.log_level_file, LogLevel::Debug);
    assert_eq!(c.dst_ip.as_deref(), Some("127.0.0.1"));
    assert_eq!(c.dst_port, 2000);
    assert_eq!(c.name, "anonymous");
}

#[test]
fn an_unknown_level_leaves_the_client_config_whole() {
    let mut c = client_config_defaults();
    let o = ClientOverrides {
        log_level_file: Some("loud".to_string()),
        dst_port: Some(2000),
        ..no_client_overrides()
    };
    match apply_client_overrides(&mut c, &o) {
        Err(RatError::UnknownOption(m)) => assert_eq!(m, "loud"),
        _ => panic!("expected the unknown level to be refused"),
    }
    assert_eq!(c.dst_port, 18888, "a refused layer must change nothing");
}

#[test]
fn server_overrides_replace_only_what_they_name() {
    let mut c = server_config_defaults();
    let o = ServerOverrides {
        log_level_stderr: None,
        log_level_file: Some("warn".to_string()),
        src_ip: Some("10.0.0.1".to_string()),
        src_port: None,
    };
    apply_server_overrides(&mut c, &o).expect("the level is known");
    assert_eq!(c.log_level_stderr, LogLevel::Info);
    assert_eq!(c.log_level_file, LogLevel::Warn);
    assert_eq!(c.src_ip, "10.0.0.1");
    assert_eq!(c.src_port, 18888);
}

#[test]
fn filenames_sit_in_the_platform_config_directory() {
    for (r, tail) in [
        (get_client_log_filename(), "/Client.log"),
        (get_client_config_filename(), "/ClientConfig.toml"),
        (get_server_log_filename(), "/Server.log"),
        (get_server_config_filename(), "/ServerConfig.toml"),
    ] {
        match r {
            Ok(path) => assert!(path.ends_with(tail), "{} should end with {}", path, tail),
            Err(e) => assert!(matches!(e, RatError::ConfigDir)),
        }
    }
}
