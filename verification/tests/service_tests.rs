use kewr_panel::config::{is_development, DirKind, WorkingDirectoryConfig};
use kewr_panel::database::DatabaseService;
use kewr_panel::file_manager::{FileAccessError, FileInfo, FileManagerService};
use kewr_panel::probe::CommandOutput;

fn production_dirs() -> WorkingDirectoryConfig {
    WorkingDirectoryConfig::from_settings(false, None, None, None, None, None)
}

#[test]
fn development_mode_by_default() {
    assert!(is_development(None));
    assert!(is_development(Some("development")));
    assert!(!is_development(Some("production")));
    assert!(!is_development(Some("Development")));
    assert!(!is_development(Some("")));
}

#[test]
fn environment_keys() {
    assert_eq!(DirKind::Base.env_key(true), "DEV_BASE_DIR");
    assert_eq!(DirKind::Logs.env_key(true), "DEV_LOG_DIR");
    assert_eq!(DirKind::Run.env_key(true), "DEV_RUNTIME_DIR");
    assert_eq!(DirKind::Www.env_key(false), "WWW_DIR");
    assert_eq!(DirKind::Config.env_key(false), "CONFIG_DIR");
    assert_eq!(DirKind::Run.env_key(false), "RUNTIME_DIR");
}

#[test]
fn default_directories() {
    let dev = WorkingDirectoryConfig::from_settings(true, None, None, None, None, None);
    assert_eq!(dev.base_dir, "./");
    assert_eq!(dev.www_dir, "./www");
    assert_eq!(dev.logs_dir, "./logs");
    assert_eq!(dev.config_dir, "./config");
    assert_eq!(dev.run_dir, "./run");
    let prod = production_dirs();
    assert_eq!(prod.base_dir, "/opt/kewr-panel");
    assert_eq!(prod.www_dir, "/var/lib/kewr-panel");
    assert_eq!(prod.logs_dir, "/var/log/kewr-panel");
    assert_eq!(prod.config_dir, "/etc/kewr-panel");
    assert_eq!(prod.run_dir, "/var/run/kewr-panel");
}

#[test]
fn settings_override_defaults() {
    let cfg = WorkingDirectoryConfig::from_settings(
        false,
        Some("/srv/panel".to_string()),
        None,
        Some("/tmp/logs".to_string()),
        None,
        None,
    );
    assert_eq!(cfg.base_dir, "/srv/panel");
    assert_eq!(cfg.www_dir, "/var/lib/kewr-panel");
    assert_eq!(cfg.logs_dir, "/tmp/logs");
    assert_eq!(cfg.dir(DirKind::Logs), "/tmp/logs");
    assert_eq!(
        cfg.dirs(),
        vec!["/srv/panel", "/var/lib/kewr-panel", "/tmp/logs", "/etc/kewr-panel", "/var/run/kewr-panel"]
    );
}

#[test]
fn relative_paths_resolve_under_base() {
    let svc = FileManagerService::new(production_dirs());
    assert_eq!(svc.resolve("www/index.html"), Ok("/opt/kewr-panel/www/index.html".to_string()));
    assert_eq!(svc.resolve(""), Ok("/opt/kewr-panel/".to_string()));
    assert_eq!(svc.resolve("../../etc/shadow"), Ok("/opt/kewr-panel/../../etc/shadow".to_string()));
}

#[test]
fn absolute_paths_are_checked() {
    let svc = FileManagerService::new(production_dirs());
    assert_eq!(svc.resolve("/etc/passwd"), Err(FileAccessError::AccessDenied));
    assert_eq!(svc.resolve("/etc/kewr-panel/app.toml"), Ok("/etc/kewr-panel/app.toml".to_string()));
    assert_eq!(svc.resolve("/var/log/kewr-panel"), Ok("/var/log/kewr-panel".to_string()));
    assert_eq!(svc.resolve("/var/log/kewr-panel2/x"), Err(FileAccessError::AccessDenied));
    assert_eq!(FileAccessError::AccessDenied.message(), "Access denied");
}

#[test]
fn allowed_paths() {
    let svc = FileManagerService::new(production_dirs());
    assert!(svc.is_path_allowed("/opt/kewr-panel"));
    assert!(svc.is_path_allowed("/var/run/kewr-panel/pid"));
    assert!(!svc.is_path_allowed("/var/run"));
    assert!(!svc.is_path_allowed("opt/kewr-panel"));
    let dev = FileManagerService::new(WorkingDirectoryConfig::from_settings(true, None, None, None, None, None));
    assert!(dev.is_path_allowed("./notes.txt"));
    assert!(!dev.is_path_allowed("notes.txt"));
    assert_eq!(dev.working_dirs().base_dir, "./");
}

#[test]
fn file_info_renders_modified_time() {
    let info = FileInfo::new("a.txt".to_string(), "/opt/kewr-panel/a.txt".to_string(), false, 12, 1700000123);
    assert_eq!(info.modified, "1700000123");
    assert_eq!(info.name, "a.txt");
    assert_eq!(info.size, 12);
    assert!(!info.is_dir);
}

fn output(success: bool, text: &str) -> Option<CommandOutput> {
    Some(CommandOutput { success, stdout: text.as_bytes().to_vec() })
}

#[test]
fn database_installed_and_running() {
    let db = DatabaseService::new(
        output(true, "psql (PostgreSQL) 15.3\n"),
        output(true, "UID PID CMD\npostgres 812 /usr/lib/postgresql/15/bin/postgres\n"),
    );
    assert!(db.postgres_installed);
    assert_eq!(db.postgres_version, "15.3");
    assert!(db.postgres_running);
}

#[test]
fn database_missing() {
    let db = DatabaseService::new(None, output(true, "UID PID CMD\nroot 1 /sbin/init\n"));
    assert!(!db.postgres_installed);
    assert_eq!(db.postgres_version, "");
    assert!(!db.postgres_running);
    let failed = DatabaseService::new(output(false, "psql (PostgreSQL) 15.3"), None);
    assert!(!failed.postgres_installed);
    assert_eq!(failed.postgres_version, "");
}

#[test]
fn database_short_version_output() {
    let db = DatabaseService::new(output(true, "psql\n"), output(false, "postgres"));
    assert!(db.postgres_installed);
    assert_eq!(db.postgres_version, "");
    assert!(db.postgres_running);
}

#[test]
fn database_recheck_keeps_what_is_not_reported() {
    let mut db = DatabaseService::new(output(true, "psql (PostgreSQL) 14.9"), output(true, "postgres"));
    db.check_postgres_status(None, None);
    assert!(db.postgres_installed);
    assert_eq!(db.postgres_version, "14.9");
    assert!(db.postgres_running);
    db.check_postgres_status(output(true, "psql (PostgreSQL) 16.1"), output(true, "nothing here"));
    assert_eq!(db.postgres_version, "16.1");
    assert!(!db.postgres_running);
}

#[test]
fn invalid_utf8_output_is_replaced() {
    let db = DatabaseService::new(
        Some(CommandOutput { success: true, stdout: vec![b'p', b's', b'q', b'l', b' ', b'x', b' ', 0xff, b'9'] }),
        None,
    );
    assert_eq!(db.postgres_version, "\u{fffd}9");
}

#[test]
fn database_same_outcomes_twice_change_nothing() {
    let psql = output(true, "psql (PostgreSQL) 13.2");
    let ps = output(true, "postgres: checkpointer");
    let mut db = DatabaseService::new(psql.clone(), ps.clone());
    let (installed, version, running) = (db.postgres_installed, db.postgres_version.clone(), db.postgres_running);
    db.check_postgres_status(psql, ps);
    assert_eq!(db.postgres_installed, installed);
    assert_eq!(db.postgres_version, version);
    assert_eq!(db.postgres_running, running);
}
