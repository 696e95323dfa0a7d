use vapor_shell::diagnostics::{
    civil_from_days, date_text, diagnostics_dir, diagnostics_root_from_run_dir, fallback_app_root, finish_upload_status,
    format_timestamp, is_sensitive_name, latest_file, latest_pointer, log_line, plan_run, redact_text, redact_word,
    redact_words, run_directory, run_from_pointer, sanitize_component, split_whitespace, token_from_bytes,
    token_from_time, trim_vec, upload, utc_date, zero_padded_string, FutureHttpServerTransport, LocalRun,
};

fn run(dir: &str) -> LocalRun {
    LocalRun {
        run_id: "1-linux-ab".to_owned(),
        run_dir: dir.to_owned(),
        metadata_path: format!("{dir}/metadata.toml"),
        log_path: format!("{dir}/vapor.log"),
    }
}

#[test]
fn civil_dates_round_trip_known_days() {
    assert_eq!(civil_from_days(0), (1970, 1, 1));
    assert_eq!(civil_from_days(31), (1970, 2, 1));
    assert_eq!(civil_from_days(11016), (2000, 2, 29));
    assert_eq!(civil_from_days(11017), (2000, 3, 1));
    assert_eq!(civil_from_days(19723), (2024, 1, 1));
    assert_eq!(civil_from_days(19782), (2024, 2, 29));
    assert_eq!(civil_from_days(47541), (2100, 3, 1));
    assert_eq!(civil_from_days(47540), (2100, 2, 28));
}

#[test]
fn dates_and_timestamps_are_zero_padded() {
    assert_eq!(utc_date(0), "1970-01-01");
    assert_eq!(utc_date(1_704_067_199), "2023-12-31");
    assert_eq!(utc_date(1_704_067_200), "2024-01-01");
    assert_eq!(date_text(987, 3, 9), "0987-03-09");
    assert_eq!(format_timestamp(5, 42), "5.000000042Z");
    assert_eq!(format_timestamp(1_704_067_200, 999_999_999), "1704067200.999999999Z");
    assert_eq!(zero_padded_string(12345, 2), "12345");
    assert_eq!(zero_padded_string(7, 3), "007");
}

#[test]
fn components_are_sanitized_for_paths() {
    assert_eq!(sanitize_component("linux-x86_64"), "linux-x86_64");
    assert_eq!(sanitize_component("--a b//c--"), "a-b-c");
    assert_eq!(sanitize_component(""), "unknown");
    assert_eq!(sanitize_component("!!!"), "unknown");
    assert_eq!(sanitize_component("v1.2 (beta)"), "v1.2-beta");
    let once = sanitize_component("  x  y ");
    assert_eq!(sanitize_component(&once), once);
}

#[test]
fn run_tokens_are_hex() {
    assert_eq!(token_from_bytes(0xde, 0xad, 0xbe, 0xef), "deadbeef");
    assert_eq!(token_from_bytes(0, 1, 2, 255), "000102ff");
    assert_eq!(token_from_time(255, 16), "ff10");
    assert_eq!(token_from_time(0, 0), "00");
}

#[test]
fn runs_are_planned_under_the_day_directory() {
    let plan = plan_run("/app", 1_704_067_205, 7, "linux x86_64", "ab/cd", true);
    assert_eq!(plan.local.run_id, "1704067205-linux-x86_64-ab/cd");
    assert_eq!(plan.local.run_dir, "/app/.vapor/diagnostics/runs/2024-01-01/1704067205-linux-x86_64-ab-cd");
    assert_eq!(plan.local.metadata_path, "/app/.vapor/diagnostics/runs/2024-01-01/1704067205-linux-x86_64-ab-cd/metadata.toml");
    assert_eq!(plan.local.log_path, "/app/.vapor/diagnostics/runs/2024-01-01/1704067205-linux-x86_64-ab-cd/vapor.log");
    assert_eq!(plan.timestamp, "1704067205.000000007Z");
    assert_eq!(plan.app_manifest, "/app/App.vapor.toml");
    assert_eq!(plan.upload_status, "requested");
    assert_eq!(plan_run("/app", 0, 0, "p", "t", false).upload_status, "not-requested");
    assert_eq!(diagnostics_root_from_run_dir(&plan.local.run_dir), Some("/app/.vapor/diagnostics".to_owned()));
    assert_eq!(diagnostics_dir("/app"), "/app/.vapor/diagnostics");
    assert_eq!(run_directory("/app"), "/app/.vapor/diagnostics/runs");
    assert_eq!(latest_file("/app"), "/app/.vapor/diagnostics/latest.toml");
}

#[test]
fn the_app_root_is_guessed_from_the_executable() {
    assert_eq!(fallback_app_root("/app/bin/vapor"), Some("/app".to_owned()));
    assert_eq!(fallback_app_root("/app/bin/x86_64-unknown-linux-gnu/vapor"), Some("/app".to_owned()));
    assert_eq!(fallback_app_root("/opt/tools/vapor"), Some("/opt".to_owned()));
}

#[test]
fn secrets_are_redacted_from_recorded_text() {
    assert_eq!(redact_text("login --password hunter2 user"), "login --password <redacted> user");
    assert_eq!(redact_text("token=abc api_key=xyz monkey=1"), "token=<redacted> api_key=<redacted> monkey=1");
    assert_eq!(redact_text("auth: secret-value next"), "auth:<redacted> <redacted> next");
    assert_eq!(redact_text("  a \t  b \n"), "a b");
    assert_eq!(redact_text("--steam-ticket=T1"), "--steam-ticket=<redacted>");
    assert_eq!(redact_text("name=MySessionTicket"), "name=<redacted>");
    assert_eq!(redact_word("--token"), ("--token".to_owned(), true));
    assert_eq!(redact_word("plain"), ("plain".to_owned(), false));
    assert!(is_sensitive_name("Authorization"));
    assert!(is_sensitive_name("x-api-key"));
    assert!(!is_sensitive_name("keyboard"));
    assert!(!is_sensitive_name("monkey"));
    assert_eq!(
        redact_words(&["-p".to_owned(), "--secret".to_owned(), "s3".to_owned(), "x".to_owned()]),
        vec!["-p".to_owned(), "--secret".to_owned(), "<redacted>".to_owned(), "x".to_owned()]
    );
    assert_eq!(split_whitespace(" a  bc d"), vec!["a".to_owned(), "bc".to_owned(), "d".to_owned()]);
    assert_eq!(log_line("1.0Z", "token=t"), "[1.0Z] token=<redacted>");
}

#[test]
fn only_the_newest_entries_are_kept() {
    let mut v: Vec<String> = (0..5).map(|i| i.to_string()).collect();
    trim_vec(&mut v, 2);
    assert_eq!(v, vec!["3".to_owned(), "4".to_owned()]);
    let mut w = vec!["a".to_owned()];
    trim_vec(&mut w, 2);
    assert_eq!(w, vec!["a".to_owned()]);
}

#[test]
fn uploads_never_send_in_this_build() {
    let t = FutureHttpServerTransport;
    assert_eq!(t.name(), "future-http-server");
    assert!(!t.configured());
    assert_eq!(
        upload(None, None, "/app", true).err(),
        Some("no diagnostics runs found in /app/.vapor/diagnostics/runs".to_owned())
    );
    let report = upload(None, Some(run("/r/2")), "/app", true).unwrap();
    assert!(!report.sent() && report.dry_run());
    assert_eq!(report.run().run_dir(), "/r/2");
    let current_first = upload(Some(run("/r/1")), Some(run("/r/2")), "/app", true).unwrap();
    assert_eq!(current_first.run().run_dir(), "/r/1");
    assert_eq!(
        upload(Some(run("/r/1")), None, "/app", false).err(),
        Some("diagnostics upload transport is not configured in this build; future server upload will attach here; local run is at /r/1".to_owned())
    );
    let (status, detail) = finish_upload_status(&run("/r/1"));
    assert_eq!(status, "not-configured");
    assert_eq!(
        detail,
        Some("diagnostics upload transport is not configured in this build; future server upload will attach here".to_owned())
    );
}

#[test]
fn the_latest_pointer_round_trips_a_run() {
    let r = run("/app/.vapor/diagnostics/runs/2024-01-01/x");
    let p = latest_pointer(&r, "9.0Z");
    assert_eq!(p.schema, 1);
    assert_eq!(p.updated_at, "9.0Z");
    let back = run_from_pointer(p.clone(), true).unwrap();
    assert_eq!(back.run_dir, r.run_dir);
    assert_eq!(back.log_path, r.log_path);
    assert!(run_from_pointer(p, false).is_none());
}
