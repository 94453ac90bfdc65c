use cs2_dumper::{
    auto_update_log, DumpConfig, FileTypesState, LogLevel, LogLine, Tab, UiApp, UiLogger,
    UpdateOutcome, UpdateStats,
};

#[test]
fn dump_config_default() {
    let c = DumpConfig::default();
    assert_eq!(c.connector, None);
    assert_eq!(c.connector_args, None);
    assert_eq!(c.file_types, vec!["cs", "hpp", "json", "rs", "zig"]);
    assert_eq!(c.indent_size, 4);
    assert_eq!(c.output, "output");
    assert_eq!(c.process_name, "cs2.exe");
}

#[test]
fn initial_window_state() {
    let app = UiApp::initial();
    assert_eq!(app.output_path, "output");
    assert_eq!(app.process_name, "cs2.exe");
    assert_eq!(app.indent_size, 4);
    assert_eq!(app.file_types, FileTypesState::default());
    assert_eq!(app.selected_tab, Tab::Dumper);
    assert!(!app.cs2_running);
    assert!(app.selected_offset_file.is_none());
    assert!(app.update_status.is_empty());
    assert!(!app.auto_update_on_dump);
    assert!(app.console_auto_scroll);
}

#[test]
fn selected_file_types_keep_their_order() {
    let mut app = UiApp::initial();
    assert_eq!(app.get_selected_file_types(), vec!["cs", "hpp", "json", "rs", "zig"]);
    app.file_types.hpp = false;
    app.file_types.rs = false;
    assert_eq!(app.get_selected_file_types(), vec!["cs", "json", "zig"]);
    app.file_types = FileTypesState { cs: false, hpp: false, json: false, rs: false, zig: false };
    assert!(app.get_selected_file_types().is_empty());
}

#[test]
fn dump_config_from_window() {
    let mut app = UiApp::initial();
    app.output_path = "out/dir".to_string();
    app.process_name = "game.exe".to_string();
    app.file_types.cs = false;
    let c = app.dump_config();
    assert_eq!(c.connector, None);
    assert_eq!(c.file_types, vec!["hpp", "json", "rs", "zig"]);
    assert_eq!(c.indent_size, 4);
    assert_eq!(c.output, "out/dir");
    assert_eq!(c.process_name, "game.exe");
}

#[test]
fn choosing_a_header_clears_the_report() {
    let mut app = UiApp::initial();
    app.update_status = "[ERROR] Scan Failed".to_string();
    app.update_details = "Error: x".to_string();
    app.select_offset_file("offsets.hpp".to_string());
    assert_eq!(app.selected_offset_file.as_deref(), Some("offsets.hpp"));
    assert!(app.update_status.is_empty());
    assert!(app.update_details.is_empty());
}

#[test]
fn auto_update_only_when_switched_on() {
    let mut app = UiApp::initial();
    app.select_offset_file("h.hpp".to_string());
    assert_eq!(app.auto_update_target(), None);
    app.auto_update_on_dump = true;
    assert_eq!(app.auto_update_target().as_deref(), Some("h.hpp"));
    let app2 = UiApp { auto_update_on_dump: true, ..UiApp::initial() };
    assert_eq!(app2.auto_update_target(), None);
}

#[test]
fn update_report_on_success() {
    let mut app = UiApp::initial();
    let stats = UpdateStats { total: 12, updated: 10, missing: 2 };
    let (level, line) = app.finish_offset_update(&UpdateOutcome::Updated { summary: "S".to_string(), stats });
    assert_eq!(app.update_status, "[SUCCESS] Update complete");
    assert_eq!(app.update_details, "S\n\nDetails:\nTotal offsets: 12");
    assert_eq!(level, LogLevel::Info);
    assert_eq!(line, "Offsets updated: S");
}

#[test]
fn update_report_on_failures() {
    let mut app = UiApp::initial();
    let (level, line) = app.finish_offset_update(&UpdateOutcome::ScanFailed("no dir".to_string()));
    assert_eq!(app.update_status, "[ERROR] Scan Failed");
    assert_eq!(app.update_details, "Error: no dir");
    assert_eq!((level, line.as_str()), (LogLevel::Error, "Scan failed: no dir"));
    let (level, line) = app.finish_offset_update(&UpdateOutcome::UpdateFailed("denied".to_string()));
    assert_eq!(app.update_status, "[ERROR] Update Failed");
    assert_eq!(app.update_details, "Error: denied");
    assert_eq!((level, line.as_str()), (LogLevel::Error, "Update failed: denied"));
}

#[test]
fn auto_update_log_lines() {
    let stats = UpdateStats { total: 1, updated: 1, missing: 0 };
    let (l, m) = auto_update_log(&UpdateOutcome::Updated { summary: "ok".to_string(), stats });
    assert_eq!((l, m.as_str()), (LogLevel::Info, "Auto-update: ok"));
    let (l, m) = auto_update_log(&UpdateOutcome::ScanFailed("e".to_string()));
    assert_eq!((l, m.as_str()), (LogLevel::Error, "Scan failed: e"));
    let (l, m) = auto_update_log(&UpdateOutcome::UpdateFailed("e".to_string()));
    assert_eq!((l, m.as_str()), (LogLevel::Error, "Auto-update failed: e"));
}

#[test]
fn log_lines_are_labelled() {
    let mut logger = UiLogger::new(Vec::new());
    assert!(logger.enabled());
    logger.log(LogLevel::Info, "Dump completed successfully");
    logger.log(LogLevel::Warn, "w");
    let lines = logger.entries();
    assert_eq!(lines.len(), 2);
    assert_eq!(lines[0].message, "[INFO] Dump completed successfully");
    assert_eq!(lines[1].level, LogLevel::Warn);
    assert_eq!(lines[1].message, "[WARN] w");
    logger.clear();
    assert!(logger.entries().is_empty());
}

#[test]
fn log_drops_oldest_lines_past_the_limit() {
    let start: Vec<LogLine> = (0..2000)
        .map(|i| LogLine { level: LogLevel::Debug, message: format!("{}", i) })
        .collect();
    let mut logger = UiLogger::new(start);
    logger.log(LogLevel::Error, "boom");
    let lines = logger.entries();
    assert_eq!(lines.len(), 1501);
    assert_eq!(lines[0].message, "500");
    assert_eq!(lines[1499].message, "1999");
    assert_eq!(lines[1500].message, "[ERROR] boom");
}

#[test]
fn level_labels_and_colours() {
    assert_eq!(LogLevel::Error.label(), "ERROR");
    assert_eq!(LogLevel::Trace.label(), "TRACE");
    assert_eq!(LogLevel::Error.rgb(), (255, 80, 80));
    assert_eq!(LogLevel::Warn.rgb(), (255, 200, 50));
    assert_eq!(LogLevel::Info.rgb(), (100, 220, 120));
    assert_eq!(LogLevel::Debug.rgb(), (130, 180, 255));
    assert_eq!(LogLevel::Trace.rgb(), (160, 160, 160));
}
