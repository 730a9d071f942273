use geo_store::auth::{
    check_token_valid, complete_login, delete_auth_token, get_auth_token, get_token, get_token_at,
    is_token_expired, is_token_expired_at, parse_expiry, save_auth_token, AuthTable, LoginFailure,
    LoginResponse,
};
use geo_store::clock::{later_than, UtcInstant};
use geo_store::csv::escape_csv_field;
use geo_store::error::StoreError;
use geo_store::export::{export_logs, render_csv, CSV_HEADER};
use geo_store::logs::{
    clear_logs, get_log_stats, get_logs, log_message, LogEntry, LogFilter, LogTable,
};
use geo_store::greeting::greet;
use geo_store::schema::{init, schema_statements, LATEST_VERSION};
use geo_store::text::contains_substring;

fn add(t: &mut LogTable, ts: &str, level: &str, message: &str) -> i64 {
    t.append(ts.to_string(), level.to_string(), None, message.to_string(), None, None)
        .unwrap()
}

fn all(t: &LogTable) -> Vec<LogEntry> {
    get_logs(t, None, None, None, None, None, -1, 0)
}

fn messages(v: &[LogEntry]) -> Vec<String> {
    v.iter().map(|e| e.message.clone()).collect()
}

/// Reads one CSV line into its fields, by the usual quoting rules.
fn parse_csv_line(line: &str) -> Vec<String> {
    let mut fields = Vec::new();
    let mut cur = String::new();
    let mut quoted = false;
    let chars: Vec<char> = line.chars().collect();
    let mut i = 0;
    while i < chars.len() {
        let c = chars[i];
        if quoted {
            if c == '"' {
                if i + 1 < chars.len() && chars[i + 1] == '"' {
                    cur.push('"');
                    i += 1;
                } else {
                    quoted = false;
                }
            } else {
                cur.push(c);
            }
        } else if c == '"' {
            quoted = true;
        } else if c == ',' {
            fields.push(std::mem::take(&mut cur));
        } else {
            cur.push(c);
        }
        i += 1;
    }
    fields.push(cur);
    fields
}

#[test]
fn save_then_get_returns_pair() {
    let mut t = AuthTable::new();
    save_auth_token(&mut t, "tok-1", "2999-01-01T00:00:00Z");
    assert_eq!(
        get_auth_token(&t),
        Some(("tok-1".to_string(), "2999-01-01T00:00:00Z".to_string()))
    );
}

#[test]
fn save_twice_keeps_only_second() {
    let mut t = AuthTable::new();
    save_auth_token(&mut t, "first", "2020-01-01T00:00:00Z");
    save_auth_token(&mut t, "second", "2999-01-01 00:00:00");
    assert_eq!(t.rows.len(), 1);
    assert_eq!(
        get_auth_token(&t),
        Some(("second".to_string(), "2999-01-01 00:00:00".to_string()))
    );
}

#[test]
fn delete_after_save_clears() {
    let mut t = AuthTable::new();
    save_auth_token(&mut t, "tok", "2999-01-01 00:00:00");
    delete_auth_token(&mut t);
    assert_eq!(get_auth_token(&t), None);
    assert_eq!(is_token_expired(&t), Ok(true));
    delete_auth_token(&mut t);
    assert_eq!(get_auth_token(&t), None);
}

#[test]
fn empty_store_is_expired() {
    let t = AuthTable::new();
    assert_eq!(is_token_expired(&t), Ok(true));
    assert_eq!(check_token_valid(&t), Ok(false));
}

#[test]
fn rfc3339_past_is_expired() {
    let mut t = AuthTable::new();
    save_auth_token(&mut t, "tok", "2020-01-01T00:00:00Z");
    assert_eq!(is_token_expired(&t), Ok(true));
}

#[test]
fn naive_future_is_not_expired() {
    let mut t = AuthTable::new();
    save_auth_token(&mut t, "tok", "2999-01-01 00:00:00");
    assert_eq!(is_token_expired(&t), Ok(false));
    assert_eq!(check_token_valid(&t), Ok(true));
}

#[test]
fn unparseable_expiry_is_format_error() {
    let mut t = AuthTable::new();
    save_auth_token(&mut t, "tok", "not a time");
    assert_eq!(is_token_expired(&t), Err(StoreError::TimestampFormat));
    assert_eq!(check_token_valid(&t), Err(StoreError::TimestampFormat));
}

#[test]
fn expiry_encodings_in_order() {
    // 2020-01-01T00:00:00Z is 1577836800 seconds after the epoch.
    assert_eq!(
        parse_expiry("2020-01-01T08:00:00+08:00"),
        Ok(UtcInstant { secs: 1577836800, nanos: 0 })
    );
    assert_eq!(
        parse_expiry("Wed, 01 Jan 2020 00:00:00 +0000"),
        Ok(UtcInstant { secs: 1577836800, nanos: 0 })
    );
    assert_eq!(
        parse_expiry("2020-01-01 00:00:01"),
        Ok(UtcInstant { secs: 1577836801, nanos: 0 })
    );
    assert_eq!(
        parse_expiry("2020-01-01T00:00:00.5Z"),
        Ok(UtcInstant { secs: 1577836800, nanos: 500_000_000 })
    );
    assert_eq!(parse_expiry(""), Err(StoreError::TimestampFormat));
}

#[test]
fn expiry_is_strictly_before_now() {
    let mut t = AuthTable::new();
    save_auth_token(&mut t, "tok", "2020-01-01 00:00:00");
    let at = UtcInstant { secs: 1577836800, nanos: 0 };
    assert_eq!(is_token_expired_at(&t, at), Ok(false));
    let after = UtcInstant { secs: 1577836800, nanos: 1 };
    assert_eq!(is_token_expired_at(&t, after), Ok(true));
    assert!(later_than(after, at));
    assert!(!later_than(at, at));
}

#[test]
fn get_token_reports_validity() {
    let mut t = AuthTable::new();
    assert!(matches!(get_token(&t), Err(StoreError::NotFound)));
    save_auth_token(&mut t, "abc", "2999-01-01 00:00:00");
    let info = get_token(&t).unwrap();
    assert_eq!(info.token, "abc");
    assert_eq!(info.expires_at, "2999-01-01 00:00:00");
    assert!(info.is_valid);
    save_auth_token(&mut t, "abc", "garbage");
    let now = UtcInstant { secs: 0, nanos: 0 };
    assert!(!get_token_at(&t, now).unwrap().is_valid);
}

#[test]
fn login_outcomes() {
    let mut t = AuthTable::new();
    let ok = LoginResponse { success: true, token: "T".to_string(), expires_at: "E".to_string() };
    let r = complete_login(&mut t, 200, Some(ok)).unwrap();
    assert_eq!(r.token, "T");
    assert_eq!(get_auth_token(&t), Some(("T".to_string(), "E".to_string())));
    let refused = LoginResponse { success: false, token: String::new(), expires_at: String::new() };
    assert!(matches!(complete_login(&mut t, 200, Some(refused)), Err(LoginFailure::BadCredentials)));
    assert!(matches!(complete_login(&mut t, 200, None), Err(LoginFailure::InvalidResponse)));
    assert!(matches!(complete_login(&mut t, 401, None), Err(LoginFailure::BadCredentials)));
    assert!(matches!(complete_login(&mut t, 500, None), Err(LoginFailure::Http(500))));
    assert_eq!(get_auth_token(&t), Some(("T".to_string(), "E".to_string())));
}

#[test]
fn query_all_newest_first() {
    let mut t = LogTable::new();
    add(&mut t, "2024-01-01 10:00:02", "INFO", "b");
    add(&mut t, "2024-01-01 10:00:01", "INFO", "a");
    add(&mut t, "2024-01-01 10:00:03", "INFO", "c");
    add(&mut t, "2024-01-01 10:00:03", "INFO", "d");
    let v = all(&t);
    assert_eq!(messages(&v), vec!["d", "c", "b", "a"]);
    assert_eq!(v.len(), 4);
}

#[test]
fn level_filter_keeps_recency_order() {
    let mut t = LogTable::new();
    add(&mut t, "2024-01-01 10:00:01", "ERROR", "e1");
    add(&mut t, "2024-01-01 10:00:02", "INFO", "i1");
    add(&mut t, "2024-01-01 10:00:03", "ERROR", "e2");
    let v = get_logs(&t, Some("ERROR".to_string()), None, None, None, None, 100, 0);
    assert_eq!(messages(&v), vec!["e2", "e1"]);
}

#[test]
fn module_time_and_keyword_filters() {
    let mut t = LogTable::new();
    t.append("2024-01-01 10:00:01".to_string(), "INFO".to_string(), Some("net".to_string()),
        "Connected".to_string(), None, None).unwrap();
    t.append("2024-01-02 10:00:00".to_string(), "INFO".to_string(), Some("net".to_string()),
        "connection lost".to_string(), None, Some(7)).unwrap();
    t.append("2024-01-03 10:00:00".to_string(), "INFO".to_string(), None,
        "Connected again".to_string(), None, None).unwrap();
    let by_module = get_logs(&t, None, Some("net".to_string()), None, None, None, -1, 0);
    assert_eq!(messages(&by_module), vec!["connection lost", "Connected"]);
    let by_kw = get_logs(&t, None, None, None, None, Some("Connect".to_string()), -1, 0);
    assert_eq!(messages(&by_kw), vec!["Connected again", "Connected"]);
    let ranged = get_logs(&t, None, None, Some("2024-01-02 10:00:00".to_string()),
        Some("2024-01-03 10:00:00".to_string()), None, -1, 0);
    assert_eq!(messages(&ranged), vec!["Connected again", "connection lost"]);
    let none = get_logs(&t, Some("DEBUG".to_string()), None, None, None, None, -1, 0);
    assert!(none.is_empty());
}

#[test]
fn pagination() {
    let mut t = LogTable::new();
    for i in 0..5 {
        add(&mut t, &format!("2024-01-01 10:00:0{}", i), "INFO", &format!("m{}", i));
    }
    let v = get_logs(&t, None, None, None, None, None, 2, 1);
    assert_eq!(messages(&v), vec!["m3", "m2"]);
    let v = get_logs(&t, None, None, None, None, None, 10, 4);
    assert_eq!(messages(&v), vec!["m0"]);
    let v = get_logs(&t, None, None, None, None, None, 3, 9);
    assert!(v.is_empty());
    let v = get_logs(&t, None, None, None, None, None, 0, 0);
    assert!(v.is_empty());
}

#[test]
fn ids_are_assigned_in_order() {
    let mut t = LogTable::new();
    assert_eq!(add(&mut t, "2024-01-01 10:00:00", "INFO", "a"), 1);
    assert_eq!(add(&mut t, "2023-01-01 10:00:00", "INFO", "b"), 2);
    let v = all(&t);
    assert_eq!(v[0].id, 1);
    assert_eq!(v[1].id, 2);
}

#[test]
fn stats_count_unknown_level_in_total_only() {
    let mut t = LogTable::new();
    add(&mut t, "2024-01-01 10:00:00", "DEBUG", "d");
    add(&mut t, "2024-01-01 10:00:01", "INFO", "i");
    add(&mut t, "2024-01-01 10:00:02", "WARN", "w");
    add(&mut t, "2024-01-02 10:00:03", "ERROR", "e");
    add(&mut t, "2024-01-02 10:00:04", "TRACE", "t");
    let s = t.stats_on("2024-01-02");
    assert_eq!(s.total, 5);
    assert_eq!((s.debug, s.info, s.warn, s.error), (1, 1, 1, 1));
    assert_eq!(s.today_count, 2);
    let live = get_log_stats(&t).unwrap();
    assert_eq!(live.total, 5);
    assert_eq!(live.today_count, 0);
}

#[test]
fn log_message_stamps_now() {
    let mut t = LogTable::new();
    log_message(&mut t, "WARN", Some("ui"), "hello", Some("detail"), Some(3)).unwrap();
    let v = all(&t);
    assert_eq!(v.len(), 1);
    let ts = &v[0].timestamp;
    assert_eq!(ts.len(), 19);
    assert_eq!(&ts[4..5], "-");
    assert_eq!(&ts[10..11], " ");
    assert_eq!(v[0].module.as_deref(), Some("ui"));
    assert_eq!(v[0].error_detail.as_deref(), Some("detail"));
    assert_eq!(v[0].task_id, Some(3));
    let s = get_log_stats(&t).unwrap();
    assert_eq!(s.today_count, 1);
    assert_eq!(s.warn, 1);
}

#[test]
fn prune_keeps_two_most_recent() {
    let mut t = LogTable::new();
    for i in [3, 0, 4, 1, 2] {
        add(&mut t, &format!("2024-01-01 10:00:0{}", i), "INFO", &format!("m{}", i));
    }
    clear_logs(&mut t, 2);
    assert_eq!(t.len(), 2);
    assert_eq!(messages(&all(&t)), vec!["m4", "m3"]);
}

#[test]
fn prune_large_keep_is_noop() {
    let mut t = LogTable::new();
    for i in 0..5 {
        add(&mut t, &format!("2024-01-01 10:00:0{}", i), "INFO", &format!("m{}", i));
    }
    clear_logs(&mut t, 100);
    assert_eq!(messages(&all(&t)), vec!["m4", "m3", "m2", "m1", "m0"]);
}

#[test]
fn prune_zero_or_negative_deletes_all() {
    let mut t = LogTable::new();
    add(&mut t, "2024-01-01 10:00:00", "INFO", "a");
    clear_logs(&mut t, 0);
    assert_eq!(t.len(), 0);
    add(&mut t, "2024-01-01 10:00:00", "INFO", "a");
    clear_logs(&mut t, -3);
    assert_eq!(t.len(), 0);
}

#[test]
fn escape_plain_and_special_fields() {
    assert_eq!(escape_csv_field("plain"), "plain");
    assert_eq!(escape_csv_field(""), "");
    assert_eq!(escape_csv_field("a,b"), "\"a,b\"");
    assert_eq!(escape_csv_field("line\nbreak"), "\"line\nbreak\"");
    assert_eq!(escape_csv_field("say \"hi\""), "\"say \"\"hi\"\"\"");
}

#[test]
fn export_quotes_and_parses_back() {
    let mut t = LogTable::new();
    let msg = "disk full, said \"df\"";
    t.append("2024-01-01 10:00:00".to_string(), "ERROR".to_string(), Some("io".to_string()),
        msg.to_string(), None, Some(42)).unwrap();
    let csv = export_logs(&t, None, None, None, None);
    let mut lines = csv.split('\n');
    assert_eq!(lines.next(), Some("时间,级别,模块,消息,错误详情,任务ID"));
    let row = lines.next().unwrap();
    assert_eq!(row, "2024-01-01 10:00:00,ERROR,io,\"disk full, said \"\"df\"\"\",,42");
    let fields = parse_csv_line(row);
    assert_eq!(fields[3], msg);
    assert_eq!(fields[5], "42");
}

#[test]
fn export_header_only_and_negative_task() {
    let t = LogTable::new();
    assert_eq!(export_logs(&t, None, None, None, None), CSV_HEADER);
    let e = LogEntry {
        id: 1,
        timestamp: "ts".to_string(),
        level: "INFO".to_string(),
        module: None,
        message: "m".to_string(),
        error_detail: Some("x".to_string()),
        task_id: Some(-120),
    };
    let out = render_csv(&vec![e]);
    assert_eq!(out, format!("{}ts,INFO,,m,x,-120\n", CSV_HEADER));
    let e = LogEntry {
        id: 2,
        timestamp: "ts".to_string(),
        level: "INFO".to_string(),
        module: None,
        message: "m".to_string(),
        error_detail: None,
        task_id: Some(i64::MIN),
    };
    let out = render_csv(&vec![e]);
    assert_eq!(out, format!("{}ts,INFO,,m,,-9223372036854775808\n", CSV_HEADER));
}

#[test]
fn export_filters_by_level() {
    let mut t = LogTable::new();
    add(&mut t, "2024-01-01 10:00:00", "INFO", "keep");
    add(&mut t, "2024-01-01 10:00:01", "DEBUG", "drop");
    let csv = export_logs(&t, Some("INFO".to_string()), None, None, None);
    assert_eq!(csv, format!("{}2024-01-01 10:00:00,INFO,,keep,,\n", CSV_HEADER));
}

#[test]
fn substring_is_case_sensitive() {
    assert!(contains_substring("Hello world", "o w"));
    assert!(contains_substring("abc", ""));
    assert!(!contains_substring("Hello", "hello"));
    assert!(!contains_substring("ab", "abc"));
}

#[test]
fn schema_migration_decision() {
    assert_eq!(init(None), Some(LATEST_VERSION));
    assert_eq!(init(Some(0)), Some(LATEST_VERSION));
    assert_eq!(init(Some(LATEST_VERSION)), None);
    assert_eq!(init(Some(5)), None);
    let stmts = schema_statements();
    assert_eq!(stmts.len(), 12);
    assert!(stmts[0].starts_with("CREATE TABLE IF NOT EXISTS auth"));
    assert!(stmts.iter().any(|s| s.contains("idx_logs_task_id")));
}

#[test]
fn filter_struct_query() {
    let mut t = LogTable::new();
    add(&mut t, "2024-01-01 10:00:00", "INFO", "x");
    let f = LogFilter { level: None, module: None, start_time: None, end_time: None, keyword: Some("x".to_string()) };
    assert_eq!(t.query(&f, -1, 0).len(), 1);
}

#[test]
fn greeting_text() {
    assert_eq!(greet("Ann"), "Hello, Ann! You've been greeted from Rust!");
}
