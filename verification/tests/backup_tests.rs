use autobackup::{
    archive_name, begin_run, contains_string, copy_decision, extension_of, file_skipped,
    finish_run, folder_skipped, hour_check, join_with, parse_bool, parse_state, save_log,
    serialize_record, serialize_state, split_on_char, AppState, BackupApp, BackupError,
    EntryAction, Schedule,
};

fn sample_schedule(source: &str, use_zip: bool) -> Schedule {
    Schedule::new(
        source.to_string(),
        "/backup/dest".to_string(),
        "daily".to_string(),
        "*.tmp *.log".to_string(),
        "node_modules .git".to_string(),
        use_zip,
    )
}

fn two_record_state() -> AppState {
    let mut state = AppState::new();
    state.add_schedule(sample_schedule("/data/a", true));
    state.add_schedule(sample_schedule("/data/b", false));
    state
}

#[test]
fn new_schedule_has_never_run() {
    let s = sample_schedule("/data/a", true);
    assert_eq!(s.s_dir_source, "/data/a");
    assert_eq!(s.s_dir_dest, "/backup/dest");
    assert_eq!(s.s_period, "daily");
    assert_eq!(s.s_skip_file, "*.tmp *.log");
    assert_eq!(s.s_skip_folder, "node_modules .git");
    assert!(s.b_use_zip);
    assert_eq!(s.dt_last_time, "");
}

#[test]
fn new_state_is_empty() {
    let state = AppState::new();
    assert!(state.list_schedule.is_empty());
    assert_eq!(state.n_sel_index, -1);
    assert!(state.logs.is_empty());
}

#[test]
fn add_schedule_appends_in_order() {
    let state = two_record_state();
    assert_eq!(state.list_schedule.len(), 2);
    assert_eq!(state.list_schedule[0].s_dir_source, "/data/a");
    assert_eq!(state.list_schedule[1].s_dir_source, "/data/b");
}

#[test]
fn backup_app_wraps_state_with_blank_input() {
    let app = BackupApp::new(two_record_state());
    assert_eq!(app.state.list_schedule.len(), 2);
    assert_eq!(app.new_schedule.s_dir_source, "");
    assert!(!app.new_schedule.b_use_zip);
}

#[test]
fn serialize_state_renders_store_format() {
    let state = two_record_state();
    let text = serialize_state(&state);
    assert_eq!(
        text,
        "Count\n2\n\
         /data/a,/backup/dest,daily,*.tmp *.log,node_modules .git,true\n\
         /data/b,/backup/dest,daily,*.tmp *.log,node_modules .git,false\n"
    );
}

#[test]
fn serialize_record_joins_six_fields() {
    let line = serialize_record(&sample_schedule("/data/a", false));
    assert_eq!(
        line,
        "/data/a,/backup/dest,daily,*.tmp *.log,node_modules .git,false"
    );
}

#[test]
fn save_then_load_round_trips() {
    let state = two_record_state();
    let text = serialize_state(&state);
    let loaded = parse_state(&text).unwrap();
    assert_eq!(loaded.list_schedule.len(), 2);
    for (orig, back) in state.list_schedule.iter().zip(loaded.list_schedule.iter()) {
        assert_eq!(back.s_dir_source, orig.s_dir_source);
        assert_eq!(back.s_dir_dest, orig.s_dir_dest);
        assert_eq!(back.s_period, orig.s_period);
        assert_eq!(back.s_skip_file, orig.s_skip_file);
        assert_eq!(back.s_skip_folder, orig.s_skip_folder);
        assert_eq!(back.b_use_zip, orig.b_use_zip);
        assert_eq!(back.dt_last_time, "");
    }
}

#[test]
fn parse_skips_malformed_lines() {
    let text = "Count\n3\na,b,c,d,e,true\nonly,five,fields,here,now\nf,g,h,i,j,false\n";
    let loaded = parse_state(text).unwrap();
    assert_eq!(loaded.list_schedule.len(), 2);
    assert_eq!(loaded.list_schedule[0].s_dir_source, "a");
    assert_eq!(loaded.list_schedule[1].s_dir_source, "f");
}

#[test]
fn parse_unreadable_boolean_falls_back_to_false() {
    let text = "Count\n1\na,b,c,d,e,maybe\n";
    let loaded = parse_state(text).unwrap();
    assert_eq!(loaded.list_schedule.len(), 1);
    assert!(!loaded.list_schedule[0].b_use_zip);
}

#[test]
fn parse_stops_after_count_records() {
    let text = "Count\n1\na,b,c,d,e,true\nf,g,h,i,j,true\n";
    let loaded = parse_state(text).unwrap();
    assert_eq!(loaded.list_schedule.len(), 1);
    assert_eq!(loaded.list_schedule[0].s_dir_source, "a");
}

#[test]
fn parse_tolerates_short_files() {
    let text = "Count\n5\na,b,c,d,e,true\n";
    let loaded = parse_state(text).unwrap();
    assert_eq!(loaded.list_schedule.len(), 1);
}

#[test]
fn parse_without_count_line_fails() {
    let err = parse_state("Count").unwrap_err();
    assert!(matches!(err, BackupError::Parse(_)));
}

#[test]
fn parse_with_unreadable_count_fails() {
    let err = parse_state("Count\nnot-a-number\na,b,c,d,e,true\n").unwrap_err();
    assert!(matches!(err, BackupError::Parse(_)));
}

#[test]
fn parse_ignores_header_text() {
    let loaded = parse_state("AnythingGoesHere\n1\na,b,c,d,e,true\n").unwrap();
    assert_eq!(loaded.list_schedule.len(), 1);
}

#[test]
fn skip_folder_matches_exact_name_only() {
    let folders = vec!["node_modules".to_string(), ".git".to_string()];
    assert!(folder_skipped("node_modules", &folders));
    assert!(!folder_skipped("node_modules_extra", &folders));
    assert!(!folder_skipped("node", &folders));
}

#[test]
fn skip_file_matches_exact_extension_only() {
    let files = vec!["*.tmp".to_string()];
    assert!(file_skipped("a.tmp", &files));
    assert!(!file_skipped("a.tmp.bak", &files));
    assert!(!file_skipped("atmp", &files));
    assert!(!file_skipped("tmp", &files));
}

#[test]
fn files_without_extension_are_never_skipped() {
    let files = vec!["*.tmp".to_string(), "*.".to_string()];
    assert!(!file_skipped("Makefile", &files));
    assert!(!file_skipped(".gitignore", &files));
}

#[test]
fn extension_of_reads_text_after_last_dot() {
    assert_eq!(extension_of("a.tmp"), Some("tmp".to_string()));
    assert_eq!(extension_of("a.tar.gz"), Some("gz".to_string()));
    assert_eq!(extension_of("a."), Some("".to_string()));
    assert_eq!(extension_of("a"), None);
    assert_eq!(extension_of(".bashrc"), None);
    assert_eq!(extension_of(""), None);
}

#[test]
fn copy_decision_covers_all_four_cases() {
    let files = vec!["*.tmp".to_string()];
    let folders = vec!["node_modules".to_string()];
    assert_eq!(
        copy_decision("node_modules", true, &files, &folders),
        EntryAction::SkipEntry
    );
    assert_eq!(
        copy_decision("node_modules_extra", true, &files, &folders),
        EntryAction::RecurseInto
    );
    assert_eq!(
        copy_decision("a.tmp", false, &files, &folders),
        EntryAction::SkipEntry
    );
    assert_eq!(
        copy_decision("a.tmp.bak", false, &files, &folders),
        EntryAction::CopyFile
    );
}

#[test]
fn hour_check_treats_empty_as_zero() {
    assert_eq!(hour_check("", "2024-01-01T10:00:00Z").unwrap(), 0);
    assert_eq!(hour_check("2024-01-01T10:00:00Z", "").unwrap(), 0);
    assert_eq!(hour_check("", "").unwrap(), 0);
}

#[test]
fn hour_check_truncates_whole_hours() {
    assert_eq!(
        hour_check("2024-01-01T10:00:00Z", "2024-01-01T13:30:00Z").unwrap(),
        3
    );
    assert_eq!(
        hour_check("2024-01-01T10:00:00Z", "2024-01-01T10:59:59Z").unwrap(),
        0
    );
    assert_eq!(
        hour_check("2024-01-01T10:00:00Z", "2024-01-03T10:00:00Z").unwrap(),
        48
    );
}

#[test]
fn hour_check_can_be_negative() {
    assert_eq!(
        hour_check("2024-01-01T13:30:00Z", "2024-01-01T10:00:00Z").unwrap(),
        -3
    );
}

#[test]
fn hour_check_rejects_unparsable_dates() {
    let err = hour_check("yesterday", "2024-01-01T10:00:00Z").unwrap_err();
    assert!(matches!(err, BackupError::Parse(_)));
}

#[test]
fn save_log_stamps_and_appends() {
    let mut state = AppState::new();
    save_log(&mut state, "hello");
    save_log(&mut state, "world");
    assert_eq!(state.logs.len(), 2);
    assert!(state.logs[0].starts_with('['));
    assert!(state.logs[0].ends_with("] hello"));
    assert!(state.logs[1].ends_with("] world"));
}

#[test]
fn invalid_index_fails_and_changes_nothing() {
    let mut state = two_record_state();
    let before_logs = state.logs.clone();
    let result = begin_run(&mut state, 99);
    assert!(matches!(result, Err(BackupError::InvalidScheduleIndex)));
    assert_eq!(state.logs, before_logs);
    assert_eq!(state.list_schedule.len(), 2);
    assert_eq!(state.list_schedule[0].dt_last_time, "");
    assert_eq!(state.list_schedule[1].dt_last_time, "");
    let finish = finish_run(&mut state, 2);
    assert!(matches!(finish, Err(BackupError::InvalidScheduleIndex)));
    assert_eq!(state.logs, before_logs);
}

#[test]
fn begin_run_logs_start_and_parses_skip_lists() {
    let mut state = two_record_state();
    let plan = begin_run(&mut state, 0).unwrap();
    assert_eq!(plan.source, "/data/a");
    assert_eq!(plan.dest, "/backup/dest");
    assert_eq!(plan.skip_files, vec!["*.tmp".to_string(), "*.log".to_string()]);
    assert_eq!(
        plan.skip_folders,
        vec!["node_modules".to_string(), ".git".to_string()]
    );
    assert!(plan.use_zip);
    assert_eq!(state.logs.len(), 1);
    assert!(state.logs[0].ends_with("] backup started: /data/a"));
    assert_eq!(state.list_schedule[0].dt_last_time, "");
}

#[test]
fn failed_copy_leaves_dangling_start_entry() {
    let mut state = two_record_state();
    let _plan = begin_run(&mut state, 1).unwrap();
    // The copy step failed: the run stops here, without finish_run.
    assert_eq!(state.logs.len(), 1);
    assert!(state.logs[0].ends_with("] backup started: /data/b"));
    assert!(!state.logs.iter().any(|l| l.contains("backup completed")));
    assert_eq!(state.list_schedule[1].dt_last_time, "");
}

#[test]
fn finish_run_logs_completion_and_stamps_record() {
    let mut state = two_record_state();
    let _plan = begin_run(&mut state, 0).unwrap();
    finish_run(&mut state, 0).unwrap();
    assert_eq!(state.logs.len(), 2);
    assert!(state.logs[0].ends_with("] backup started: /data/a"));
    assert!(state.logs[1].ends_with("] backup completed: /data/a"));
    assert!(!state.list_schedule[0].dt_last_time.is_empty());
    assert_eq!(state.list_schedule[1].dt_last_time, "");
    // The fresh last-run stamp parses, and the elapsed time is zero hours.
    let stamp = state.list_schedule[0].dt_last_time.clone();
    let now = chrono::Local::now().to_string();
    assert_eq!(hour_check(&stamp, &now).unwrap(), 0);
}

#[test]
fn archive_name_is_dest_stamp_zip() {
    assert_eq!(archive_name("/backup/dest", "24010113"), "/backup/dest_24010113.zip");
}

#[test]
fn split_on_char_keeps_empty_tokens() {
    assert_eq!(split_on_char("a,b,,c", ','), vec!["a", "b", "", "c"]);
    assert_eq!(split_on_char("", ','), vec![""]);
    assert_eq!(split_on_char("abc", ','), vec!["abc"]);
}

#[test]
fn join_with_is_inverse_of_split() {
    let parts = vec!["a".to_string(), "".to_string(), "bc".to_string()];
    let joined = join_with(&parts, ",");
    assert_eq!(joined, "a,,bc");
    assert_eq!(split_on_char(&joined, ','), parts);
}

#[test]
fn contains_string_is_exact() {
    let list = vec!["one".to_string(), "two".to_string()];
    assert!(contains_string(&list, "two"));
    assert!(!contains_string(&list, "tw"));
    assert!(!contains_string(&list, "twos"));
}

#[test]
fn parse_bool_accepts_only_the_true_literal() {
    assert!(parse_bool("true"));
    assert!(!parse_bool("false"));
    assert!(!parse_bool("True"));
    assert!(!parse_bool(""));
}

#[test]
fn error_messages_name_their_class() {
    assert_eq!(BackupError::Io("gone".to_string()).message(), "I/O error: gone");
    assert_eq!(
        BackupError::InvalidScheduleIndex.message(),
        "Invalid schedule index"
    );
    assert_eq!(
        BackupError::ConfigSaveError("full".to_string()).message(),
        "Failed to save config: full"
    );
    assert_eq!(BackupError::Parse("bad".to_string()).message(), "Parse error: bad");
    assert_eq!(BackupError::Path("odd".to_string()).message(), "Path error: odd");
    assert_eq!(
        BackupError::Execute("no tool".to_string()).message(),
        "Execution error: no tool"
    );
    assert_eq!(BackupError::Other("misc".to_string()).message(), "misc");
}
