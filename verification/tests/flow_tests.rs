use kewr_panel::config::WorkingDirectoryConfig;
use kewr_panel::install::{install_command, outcome_event, output_event, start_failure_message};
use kewr_panel::node::NodeInfo;
use kewr_panel::permissions::{
    permission_check_next, permission_check_start, test_file_contents, CheckStage, CheckStep, CheckTask,
};
use kewr_panel::pm2::{OsType, PM2Info};
use kewr_panel::probe::{probe_next, probe_start, trimmed_text, CommandOutput, ProbeStage, ProbeStep, ToolReport};
use kewr_panel::system::{DiskReading, ResourceTotals};

fn output(success: bool, text: &str) -> Option<CommandOutput> {
    Some(CommandOutput { success, stdout: text.as_bytes().to_vec() })
}

#[test]
fn probe_starts_with_which() {
    match probe_start("node") {
        ProbeStep::Run { program, args, stage } => {
            assert_eq!(program, "which");
            assert_eq!(args, vec!["node".to_string()]);
            assert_eq!(stage, ProbeStage::Locating);
        }
        ProbeStep::Done(_) => panic!("a probe starts by running which"),
    }
}

#[test]
fn probe_runs_found_path() {
    match probe_next(ProbeStage::Locating, output(true, "/usr/bin/node\n")) {
        ProbeStep::Run { program, args, stage } => {
            assert_eq!(program, "/usr/bin/node");
            assert_eq!(args, vec!["--version".to_string()]);
            assert_eq!(stage, ProbeStage::Querying);
        }
        ProbeStep::Done(_) => panic!("expected the version query"),
    }
}

#[test]
fn probe_reports_version() {
    match probe_next(ProbeStage::Querying, output(true, "v18.17.1\n")) {
        ProbeStep::Done(report) => {
            assert!(report.installed);
            assert_eq!(report.version, Some("v18.17.1".to_string()));
        }
        ProbeStep::Run { .. } => panic!("expected the end of the probe"),
    }
}

#[test]
fn probe_reports_absence() {
    for (stage, outcome) in [
        (ProbeStage::Locating, output(false, "")),
        (ProbeStage::Locating, None),
        (ProbeStage::Querying, output(false, "v1")),
        (ProbeStage::Querying, None),
    ] {
        match probe_next(stage, outcome) {
            ProbeStep::Done(report) => {
                assert!(!report.installed);
                assert_eq!(report.version, None);
            }
            ProbeStep::Run { .. } => panic!("expected the end of the probe"),
        }
    }
}

#[test]
fn trimmed_text_of_output() {
    assert_eq!(trimmed_text(&b"  10.2.3 \n".to_vec()), "10.2.3");
    assert_eq!(trimmed_text(&vec![0xc3, 0x28]), "\u{fffd}(");
}

#[test]
fn node_and_pm2_info() {
    let node = ToolReport { installed: true, version: Some("v20.1.0".to_string()) };
    let npm = ToolReport { installed: false, version: None };
    let info = NodeInfo::from_reports(node, npm);
    assert!(info.installed);
    assert_eq!(info.version, Some("v20.1.0".to_string()));
    assert!(!info.npm_installed);
    assert_eq!(info.npm_version, None);
    let pm2 = PM2Info::from_report(ToolReport { installed: true, version: Some("5.3.0".to_string()) }, OsType::Linux);
    assert!(pm2.installed);
    assert_eq!(pm2.version, Some("5.3.0".to_string()));
    assert_eq!(pm2.os_type, OsType::Linux);
}

#[test]
fn os_types() {
    assert_eq!(OsType::from_target_os("windows"), OsType::Windows);
    assert_eq!(OsType::from_target_os("macos"), OsType::MacOS);
    assert_eq!(OsType::from_target_os("linux"), OsType::Linux);
    assert_eq!(OsType::from_target_os("freebsd"), OsType::Unknown);
    assert_eq!(OsType::Windows.label(), "Windows");
    assert_eq!(OsType::MacOS.label(), "MacOS");
    assert_eq!(OsType::Linux.label(), "Linux");
    assert_eq!(OsType::Unknown.label(), "Unknown");
}

fn dirs() -> WorkingDirectoryConfig {
    WorkingDirectoryConfig::from_settings(false, None, None, None, None, None)
}

fn expect_write(step: CheckStep, want_stage: CheckStage, want_path: &str) {
    match step {
        CheckStep::Perform { stage, task: CheckTask::WriteTestFile { path } } => {
            assert_eq!(stage, want_stage);
            assert_eq!(path, want_path);
        }
        other => panic!("unexpected step {:?}", other),
    }
}

#[test]
fn permission_check_visits_every_directory() {
    let d = dirs();
    match permission_check_start() {
        CheckStep::Perform { stage: CheckStage::Directories, task: CheckTask::EnsureDirectories } => {}
        other => panic!("unexpected first step {:?}", other),
    }
    expect_write(permission_check_next(&d, CheckStage::Directories, Ok(())), CheckStage::Www, "/var/lib/kewr-panel/www_test.txt");
    expect_write(permission_check_next(&d, CheckStage::Www, Ok(())), CheckStage::Logs, "/var/log/kewr-panel/log_test.txt");
    expect_write(permission_check_next(&d, CheckStage::Logs, Ok(())), CheckStage::Config, "/etc/kewr-panel/config_test.txt");
    expect_write(permission_check_next(&d, CheckStage::Config, Ok(())), CheckStage::Run, "/var/run/kewr-panel/run_test.txt");
    match permission_check_next(&d, CheckStage::Run, Ok(())) {
        CheckStep::Finish(Ok(())) => {}
        other => panic!("unexpected last step {:?}", other),
    }
    assert_eq!(test_file_contents(), "Test content");
}

#[test]
fn permission_check_stops_at_first_failure() {
    let d = dirs();
    let cases = [
        (CheckStage::Directories, "Failed to create directories: denied"),
        (CheckStage::Www, "WWW directory test failed: denied"),
        (CheckStage::Logs, "Logs directory test failed: denied"),
        (CheckStage::Config, "Config directory test failed: denied"),
        (CheckStage::Run, "Run directory test failed: denied"),
    ];
    for (stage, message) in cases {
        match permission_check_next(&d, stage, Err("denied".to_string())) {
            CheckStep::Finish(Err(m)) => assert_eq!(m, message),
            other => panic!("unexpected step {:?}", other),
        }
    }
}

#[test]
fn resource_totals_sum_disks() {
    let disks = vec![
        DiskReading { total_space: 1000, available_space: 400 },
        DiskReading { total_space: 500, available_space: 500 },
        DiskReading { total_space: 250, available_space: 0 },
    ];
    let t = ResourceTotals::from_readings(8192, 4096, &disks);
    assert_eq!(t.memory_total, 8192);
    assert_eq!(t.memory_used, 4096);
    assert_eq!(t.disk_total, 1750);
    assert_eq!(t.disk_used, 850);
    let empty = ResourceTotals::from_readings(1, 0, &Vec::new());
    assert_eq!(empty.disk_total, 0);
    assert_eq!(empty.disk_used, 0);
}

#[test]
fn install_stream_messages() {
    let (program, args) = install_command();
    assert_eq!(program, "npm");
    assert_eq!(args, vec!["install", "-g", "pm2"]);
    assert_eq!(output_event("added 1 package"), "data: added 1 package\n\n");
    assert_eq!(outcome_event(true), "data: PM2 installation completed successfully. Refreshing page...\n\n");
    assert_eq!(outcome_event(false), "data: PM2 installation failed.\n\n");
    assert_eq!(start_failure_message(), "Failed to start PM2 installation");
}
