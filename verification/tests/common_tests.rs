use picture_vault::common::{
    current_time_millis, file_mode, locale_from_output, log_debug, log_error, log_info, millis_from_timespec,
    owner_argument, program_candidates,
};

#[test]
fn log_messages() {
    assert_eq!(
        log_info("media.rs", "new", 12, "opened"),
        "Info from media.rs, function new at line 12 with message opened"
    );
    assert_eq!(
        log_error("db.rs", "init", 0, "failed"),
        "Error in db.rs, function init at line 0 with message failed"
    );
    assert_eq!(
        log_debug("a", "b", 4294967295, ""),
        "Debug message from a, function b at line 4294967295 with message "
    );
}

#[test]
fn millis_from_seconds_and_nanoseconds() {
    assert_eq!(millis_from_timespec(1, 999_999_999), 1999);
    assert_eq!(millis_from_timespec(1_600_000_000, 5_000_000), 1_600_000_000_005);
    assert_eq!(millis_from_timespec(0, 0), 0);
}

#[test]
fn current_time_is_after_2020() {
    assert!(current_time_millis() > 1_577_836_800_000);
}

#[test]
fn locale_is_read_from_lang_line() {
    assert_eq!(locale_from_output("LANG=de_DE.UTF-8\nLC_ALL=\n"), "de_DE.UTF-8");
    assert_eq!(locale_from_output("LANGUAGE=\n  LANG=\"en_GB.UTF-8\"\n"), "en_GB.UTF-8");
    assert_eq!(locale_from_output("LC_ALL=C\n"), "en");
    assert_eq!(locale_from_output(""), "en");
}

#[test]
fn program_candidates_per_path_entry() {
    assert_eq!(
        program_candidates("/usr/bin:/bin", "MP4Box"),
        vec!["/usr/bin/MP4Box".to_string(), "/bin/MP4Box".to_string()]
    );
}

#[test]
fn owner_argument_joins_user_and_group() {
    assert_eq!(owner_argument("alice", "family"), "alice:family");
}

#[test]
fn file_modes() {
    assert_eq!(file_mode(true, true), "770");
    assert_eq!(file_mode(true, false), "700");
    assert_eq!(file_mode(false, true), "660");
    assert_eq!(file_mode(false, false), "600");
}
