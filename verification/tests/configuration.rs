use studio_project_manager::config::{
    default_database_path, default_grpc_port, default_log_level, default_max_audio_file_size,
    default_max_cover_art_size, process_user_home_placeholders, validate_path_length,
    validate_single_path, validate_windows_path, Config, ConfigProbe, PathStatus,
};
use studio_project_manager::errors::ConfigError;

fn config(paths: &[&str]) -> Config {
    Config {
        paths: paths.iter().map(|p| p.to_string()).collect(),
        database_path: Some("C:\\db\\sets.db".to_string()),
        live_database_dir: "C:\\Live Database".to_string(),
        grpc_port: 50051,
        log_level: "info".to_string(),
        media_storage_dir: "C:\\media".to_string(),
        max_cover_art_size_mb: None,
        max_audio_file_size_mb: Some(50),
    }
}

fn probe(entries: Vec<(&str, PathStatus)>) -> ConfigProbe {
    ConfigProbe { existing: entries.into_iter().map(|(p, s)| (p.to_string(), s)).collect() }
}

#[test]
fn defaults() {
    assert_eq!(default_grpc_port(), 50051);
    assert_eq!(default_log_level(), "info");
    assert_eq!(default_database_path(), None);
    assert_eq!(default_max_cover_art_size(), None);
    assert_eq!(default_max_audio_file_size(), None);
}

#[test]
fn setup_state_and_status() {
    let empty = config(&[]);
    assert!(empty.needs_setup());
    assert!(!empty.is_ready_for_operation());
    assert_eq!(
        empty.get_status_message(),
        "Configuration incomplete: No project paths specified. Please add paths to begin scanning projects."
    );
    let two = config(&["C:\\a", "C:\\b"]);
    assert!(!two.needs_setup());
    assert!(two.is_ready_for_operation());
    assert_eq!(two.get_status_message(), "Configuration ready: 2 project path(s) configured");
}

#[test]
fn path_checks() {
    assert!(validate_path_length(&"a".repeat(260)).is_ok());
    match validate_path_length(&"a".repeat(261)) {
        Err(ConfigError::InvalidPath(m)) => assert!(m.starts_with("Path exceeds limit of 260 characters: aaa")),
        other => panic!("unexpected {:?}", other),
    }
    // 131 two-byte characters are 262 bytes.
    assert!(validate_path_length(&"é".repeat(131)).is_err());
    assert!(validate_windows_path("C:\\Users").is_ok());
    match validate_windows_path("/usr/local") {
        Err(ConfigError::InvalidPath(m)) => {
            assert_eq!(m, "Unix-style absolute path not supported on Windows: /usr/local")
        }
        other => panic!("unexpected {:?}", other),
    }
    match validate_single_path("/x", "Project path") {
        Err(ConfigError::InvalidPath(m)) => assert_eq!(
            m,
            "Project path: Invalid path in config: Unix-style absolute path not supported on Windows: /x"
        ),
        other => panic!("unexpected {:?}", other),
    }
    assert!(Config::validate_single_path("C:\\ok", "Project path").is_ok());
}

#[test]
fn validation_warnings() {
    let c = config(&["C:\\a", "C:\\b", "C:\\c"]);
    let p = probe(vec![
        ("C:\\a", PathStatus::Directory { writable: true }),
        ("C:\\b", PathStatus::Directory { writable: false }),
        ("C:\\Live Database", PathStatus::Directory { writable: true }),
    ]);
    let warnings = c.validate(&p).unwrap();
    assert_eq!(
        warnings,
        vec!["Directory is not writable: C:\\b".to_string(), "Path does not exist: C:\\c".to_string()]
    );
}

#[test]
fn validation_of_empty_configuration() {
    let c = config(&[]);
    let warnings = c.validate(&probe(vec![])).unwrap();
    assert_eq!(
        warnings,
        vec![
            "No project paths configured - application will run in setup mode".to_string(),
            "Live database directory does not exist: C:\\Live Database".to_string(),
        ]
    );
}

#[test]
fn validation_errors() {
    let mut c = config(&["C:\\a"]);
    c.grpc_port = 0;
    assert!(matches!(c.validate(&probe(vec![])), Err(ConfigError::PortOutOfRange(0))));
    let mut c = config(&["C:\\a"]);
    c.log_level = "loud".to_string();
    match c.validate(&probe(vec![])) {
        Err(ConfigError::InvalidValue(m)) => assert_eq!(
            m,
            "Invalid log level 'loud'. Must be one of: [\"error\", \"warn\", \"info\", \"debug\", \"trace\"]"
        ),
        other => panic!("unexpected {:?}", other),
    }
    let c = config(&["C:\\file.txt"]);
    assert!(matches!(
        c.validate(&probe(vec![("C:\\file.txt", PathStatus::NotADirectory)])),
        Err(ConfigError::InvalidDirectory(p)) if p == "C:\\file.txt"
    ));
    assert!(matches!(
        c.validate(&probe(vec![("C:\\file.txt", PathStatus::PermissionDenied)])),
        Err(ConfigError::PermissionDenied(_))
    ));
    let mut c = config(&[]);
    c.media_storage_dir = "/media".to_string();
    assert!(matches!(c.validate(&probe(vec![])), Err(ConfigError::InvalidPath(m)) if m.starts_with("Media storage directory: ")));
}

#[test]
fn adding_a_path_twice() {
    let mut c = config(&["C:\\a"]);
    let p = probe(vec![("C:\\a", PathStatus::Directory { writable: true }), ("C:\\b", PathStatus::Directory { writable: true })]);
    let w = c.add_path("C:\\b".to_string(), &p).unwrap();
    assert!(w.iter().all(|m| !m.contains("C:\\b")));
    assert_eq!(c.paths, vec!["C:\\a".to_string(), "C:\\b".to_string()]);
    let w = c.add_path("C:\\b".to_string(), &p).unwrap();
    assert_eq!(w, vec!["Path already exists in configuration".to_string()]);
    assert_eq!(c.paths, vec!["C:\\a".to_string(), "C:\\b".to_string()]);
}

#[test]
fn removing_a_path() {
    let mut c = config(&["C:\\a", "C:\\b", "C:\\a"]);
    c.remove_path("C:\\a", &probe(vec![])).unwrap();
    assert_eq!(c.paths, vec!["C:\\b".to_string()]);
    c.remove_path("C:\\a", &probe(vec![])).unwrap();
    assert_eq!(c.paths, vec!["C:\\b".to_string()]);
}

#[test]
fn adding_then_removing_restores_paths() {
    let mut c = config(&["C:\\a"]);
    let p = probe(vec![]);
    c.add_path("C:\\new".to_string(), &p).unwrap();
    c.remove_path("C:\\new", &p).unwrap();
    assert_eq!(c.paths, vec!["C:\\a".to_string()]);
}

#[test]
fn updating_paths_and_settings() {
    let mut c = config(&["C:\\a"]);
    c.update_paths(vec!["C:\\x".to_string()], &probe(vec![])).unwrap();
    assert_eq!(c.paths, vec!["C:\\x".to_string()]);
    let r = c.update_settings(None, None, Some(0), Some("debug".to_string()), None, Some(Some(5)), None, &probe(vec![]));
    assert!(matches!(r, Err(ConfigError::PortOutOfRange(0))));
    assert_eq!(c.grpc_port, 0);
    assert_eq!(c.log_level, "debug");
    assert_eq!(c.max_cover_art_size_mb, Some(5));
    assert_eq!(c.max_audio_file_size_mb, Some(50));
}

#[test]
fn user_home_placeholders() {
    let mut c = config(&["{USER_HOME}\\Music", "D:\\x"]);
    c.database_path = Some("{USER_HOME}\\db".to_string());
    c.media_storage_dir = "{USER_HOME}\\{USER_HOME}".to_string();
    process_user_home_placeholders(&mut c, "C:\\Users\\me");
    assert_eq!(c.paths, vec!["C:\\Users\\me\\Music".to_string(), "D:\\x".to_string()]);
    assert_eq!(c.database_path.as_deref(), Some("C:\\Users\\me\\db"));
    assert_eq!(c.media_storage_dir, "C:\\Users\\me\\C:\\Users\\me");
    assert_eq!(c.live_database_dir, "C:\\Live Database");
}

#[test]
fn default_database_path_needed() {
    let mut c = config(&[]);
    assert!(!c.needs_default_database_path());
    c.database_path = Some(" \t".to_string());
    assert!(c.needs_default_database_path());
    c.database_path = None;
    assert!(c.needs_default_database_path());
}

#[test]
fn default_configuration_file() {
    let text = studio_project_manager::config::generate_default_config("C:\\Local\\Ableton\\Live Database", "C:\\Roaming\\Seula\\media");
    assert!(text.starts_with("# config.toml\n"));
    assert!(text.contains("# use {USER_HOME} as a shortcut to your user folder\n"));
    let value: toml::Value = toml::from_str(&text).unwrap();
    assert_eq!(value["grpc_port"].as_integer(), Some(50051));
    assert_eq!(value["log_level"].as_str(), Some("info"));
    assert_eq!(value["live_database_dir"].as_str(), Some("C:\\Local\\Ableton\\Live Database"));
    assert_eq!(value["media_storage_dir"].as_str(), Some("C:\\Roaming\\Seula\\media"));
    assert_eq!(value["paths"].as_array().map(|a| a.len()), Some(0));
}

#[test]
fn environment_overrides() {
    let c = config(&[]);
    assert_eq!(c.grpc_port(None), 50051);
    assert_eq!(c.grpc_port(Some("8080")), 8080);
    assert_eq!(c.grpc_port(Some("70000")), 50051);
    assert_eq!(c.grpc_port(Some("x")), 50051);
    assert_eq!(c.log_level(Some("trace".to_string())), "trace");
    assert_eq!(c.log_level(None), "info");
    assert_eq!(c.database_path(None).as_deref(), Some("C:\\db\\sets.db"));
    assert_eq!(c.database_path(Some("D:\\x.db".to_string())).as_deref(), Some("D:\\x.db"));
}

#[test]
fn path_validation_alone() {
    let c = config(&["C:\\a"]);
    let w = c.validate_paths(&probe(vec![])).unwrap();
    assert_eq!(
        w,
        vec![
            "Path does not exist: C:\\a".to_string(),
            "Live database directory does not exist: C:\\Live Database".to_string(),
        ]
    );
    let mut bad = config(&[]);
    bad.grpc_port = 0;
    assert!(bad.validate_paths(&probe(vec![])).is_ok());
}
