use pane::devin::QuotaWindow::{Daily, Weekly};
use pane::devin::{
    credentials_from_toml, devin_credentials, plan_status_text, quota_rows, status_failure,
    status_request, status_url, window_label, window_period_ms, zero_when_omitted, QuotaWindow,
};
use pane::devin_usage::{event_timestamp, usage_event_plans, ChatRow};
use pane::seen_messages::SeenMessages;
use pane::text::{is_blank_str, starts_with, str_eq, trim_end_matches_char};
use pane::usage_cache::{FileStamp, UsageCache};

#[test]
fn omitted_quota_percent_with_reset_means_exhausted() {
    // Exhausted week: percent omitted, reset present → 0% remaining.
    assert_eq!(zero_when_omitted(None, Some(1_786_262_400.0)), Some(0.0));
    // Percent present → passes through untouched.
    assert_eq!(zero_when_omitted(Some(37.0), Some(1.0)), Some(37.0));
    // Neither field → genuinely no such quota window.
    assert_eq!(zero_when_omitted::<f64>(None, None), None);
}

#[test]
fn credentials_default_server_and_trailing_slashes() {
    let c = devin_credentials(Some("k".to_string()), None).ok().unwrap();
    assert_eq!(c.api_key, "k");
    assert_eq!(c.server, "https://server.codeium.com");
    let c = devin_credentials(Some("k".to_string()), Some("https://x.example//".to_string()))
        .ok()
        .unwrap();
    assert_eq!(c.server, "https://x.example");
    assert_eq!(
        status_url(&c.server),
        "https://x.example/exa.seat_management_pb.SeatManagementService/GetUserStatus"
    );
    let e = devin_credentials(None, Some("https://x.example".to_string())).err().unwrap();
    assert_eq!(e, "credentials.toml has no windsurf_api_key");
}

#[test]
fn credentials_only_go_to_an_https_server() {
    let e = devin_credentials(Some("k".to_string()), Some("http://example.com".to_string()))
        .err()
        .unwrap();
    assert_eq!(e, "credentials.toml api_server_url is not an https:// URL");
    let e = devin_credentials(Some("k".to_string()), Some("server.example".to_string()))
        .err()
        .unwrap();
    assert_eq!(e, "credentials.toml api_server_url is not an https:// URL");
}

#[test]
fn credentials_file_text() {
    let c = credentials_from_toml("windsurf_api_key = \"sk-1\"\napi_server_url = \"https://a.example/\"\n")
        .ok()
        .unwrap();
    assert_eq!(c.api_key, "sk-1");
    assert_eq!(c.server, "https://a.example");
    let c = credentials_from_toml("windsurf_api_key = \"sk-2\"\n").ok().unwrap();
    assert_eq!(c.server, "https://server.codeium.com");
    assert_eq!(
        credentials_from_toml("api_server_url = \"https://a.example\"\n").err().unwrap(),
        "credentials.toml has no windsurf_api_key"
    );
    // A key that is not a string is no key.
    assert_eq!(
        credentials_from_toml("windsurf_api_key = 5\n").err().unwrap(),
        "credentials.toml has no windsurf_api_key"
    );
    let e = credentials_from_toml("windsurf_api_key = \"unterminated\n").err().unwrap();
    assert!(e.starts_with("parse credentials.toml: "), "{e}");
    assert_eq!(
        credentials_from_toml("windsurf_api_key = \"k\"\napi_server_url = \"http://a.example\"\n")
            .err()
            .unwrap(),
        "credentials.toml api_server_url is not an https:// URL"
    );
}

#[test]
fn status_request_carries_the_key_and_client_identity() {
    let c = devin_credentials(Some("sk-9".to_string()), None).ok().unwrap();
    let req = status_request(&c);
    assert_eq!(
        req.url,
        "https://server.codeium.com/exa.seat_management_pb.SeatManagementService/GetUserStatus"
    );
    assert_eq!(
        req.headers,
        vec![
            ("Content-Type".to_string(), "application/json".to_string()),
            ("Connect-Protocol-Version".to_string(), "1".to_string()),
        ]
    );
    let pairs = |v: &[(&str, &str)]| -> Vec<(String, String)> {
        v.iter().map(|(k, x)| (k.to_string(), x.to_string())).collect()
    };
    assert_eq!(
        req.metadata,
        pairs(&[
            ("apiKey", "sk-9"),
            ("ideName", "devin"),
            ("ideVersion", "1.108.2"),
            ("extensionName", "devin"),
            ("extensionVersion", "1.108.2"),
            ("locale", "en"),
        ])
    );
    assert!(req.url.starts_with("https://"));
}

#[test]
fn plan_fields_of_a_status_answer() {
    let p = plan_status_text(
        r#"{"userStatus":{"planStatus":{"planInfo":{"planName":"Pro","hideDailyQuota":true},"weeklyQuotaRemainingPercent":40}}}"#,
    )
    .ok()
    .unwrap();
    assert_eq!(p.plan.as_deref(), Some("Pro"));
    assert!(p.hide_daily);
    let p = plan_status_text(r#"{"userStatus":{"planStatus":{}}}"#).ok().unwrap();
    assert_eq!(p.plan, None);
    assert!(!p.hide_daily);
    assert_eq!(
        plan_status_text(r#"{"userStatus":{}}"#).err().unwrap(),
        "response has no userStatus.planStatus"
    );
    let e = plan_status_text("not json").err().unwrap();
    assert!(e.starts_with("status parse: "), "{e}");
}

#[test]
fn status_codes_map_to_errors() {
    assert_eq!(
        status_failure(401, "401 Unauthorized").unwrap(),
        "Devin credentials were rejected — sign in with the Devin CLI again"
    );
    assert!(status_failure(403, "403 Forbidden").is_some());
    assert_eq!(status_failure(500, "500 Internal Server Error").unwrap(), "status endpoint: HTTP 500 Internal Server Error");
    assert!(status_failure(200, "200 OK").is_none());
    assert!(status_failure(204, "204 No Content").is_none());
    assert!(status_failure(302, "302 Found").is_some());
}

fn layout(hide: bool, daily: Option<f64>, weekly: Option<f64>, overage: bool) -> Result<Vec<(QuotaWindow, f64)>, String> {
    quota_rows(hide, daily, weekly, overage).map(|rows| rows.iter().map(|r| (r.window, r.remaining)).collect())
}

#[test]
fn quota_rows_follow_the_plan() {
    let rows = layout(false, Some(80.0), Some(30.0), false).unwrap();
    assert!(rows.len() == 2 && rows[0].0 == Daily && rows[0].1 == 80.0 && rows[1].0 == Weekly && rows[1].1 == 30.0);
    let rows = layout(true, Some(80.0), Some(30.0), false).unwrap();
    assert!(rows.len() == 1 && rows[0].0 == Weekly && rows[0].1 == 30.0);
    // No weekly quota: the hidden daily quota takes the weekly row.
    let rows = layout(true, Some(80.0), None, false).unwrap();
    assert!(rows.len() == 1 && rows[0].0 == Weekly && rows[0].1 == 80.0);
    let rows = layout(false, None, None, true).unwrap();
    assert!(rows.is_empty());
    assert_eq!(layout(false, None, None, false).err().unwrap(), "no quota data in response");
    assert_eq!(window_label(Daily), "Daily");
    assert_eq!(window_label(Weekly), "Weekly");
    assert_eq!(window_period_ms(Daily), 86_400_000);
    assert_eq!(window_period_ms(Weekly), 604_800_000);
}

fn field(key: &str, value: Option<&str>) -> String {
    match value {
        Some(v) => format!(",\"{key}\":\"{v}\""),
        None => String::new(),
    }
}

/// A stored chat message as the session store keeps it: JSON text.
fn message(role: &str, id: Option<&str>, created_at: Option<&str>, model: Option<&str>) -> String {
    format!(
        "{{\"role\":\"{role}\"{}\"metadata\":{{\"metrics\":{{\"input_tokens\":10}}{}{}}}}}",
        field("message_id", id).to_string() + ",",
        field("created_at", created_at),
        field("generation_model", model),
    )
}

fn row(session: &str, node_s: i64, message: Option<String>) -> ChatRow {
    ChatRow {
        session_id: session.to_string(),
        message: message.unwrap_or_else(|| "not json".to_string()),
        node_created_s: node_s,
        session_model: "sonnet-4".to_string(),
    }
}

#[test]
fn usage_rows_dedupe_by_session_and_message() {
    let rows = vec![
        row("s1", 1_757_116_800, Some(message("assistant", Some("m1"), Some("2026-09-06T00:00:00Z"), None))),
        // The same message on another branch of the forest.
        row("s1", 1_757_116_900, Some(message("assistant", Some("m1"), None, None))),
        // The same message id in another session is another message.
        row("s2", 1_757_116_800, Some(message("assistant", Some("m1"), None, Some("gpt-5")))),
        row("s2", 1, Some(message("user", Some("m2"), None, None))),
        row("s2", 1, None),
        // No id at all: never deduplicated.
        row("s3", 2, Some(message("assistant", None, None, Some("  ")))),
        row("s3", 2, Some(message("assistant", None, None, None))),
    ];
    let plans = usage_event_plans(&rows).unwrap();
    let got: Vec<(usize, i64, String)> = plans.iter().map(|p| (p.row, p.ts_ms, p.model.clone())).collect();
    assert_eq!(got, vec![
        (0, 1_788_652_800_000, "sonnet-4".to_string()),
        (2, 1_757_116_800_000, "gpt-5".to_string()),
        (5, 2_000, "sonnet-4".to_string()),
        (6, 2_000, "sonnet-4".to_string()),
    ]);
}

#[test]
fn request_id_stands_in_for_a_missing_message_id() {
    let a = r#"{"role":"assistant","metadata":{"metrics":{},"request_id":"r1"}}"#.to_string();
    let b = r#"{"role":"assistant","metadata":{"metrics":{},"request_id":"r1"}}"#.to_string();
    let no_metrics = r#"{"role":"assistant","message_id":"m9","metadata":{}}"#.to_string();
    let rows = vec![row("s", 3, Some(a)), row("s", 4, Some(b)), row("s", 5, Some(no_metrics))];
    let plans = usage_event_plans(&rows).unwrap();
    assert_eq!(plans.len(), 1);
    assert_eq!(plans[0].row, 0);
    assert_eq!(plans[0].ts_ms, 3_000);
}

#[test]
fn unrepresentable_row_times_are_reported() {
    let rows = vec![row("s", i64::MAX, Some(message("assistant", Some("m"), None, None)))];
    assert!(usage_event_plans(&rows).is_none());
    // A parsable created_at makes the row time irrelevant.
    let rows = vec![row("s", i64::MAX, Some(message("assistant", Some("m"), Some("1970-01-01T00:00:01Z"), None)))];
    assert_eq!(usage_event_plans(&rows).unwrap()[0].ts_ms, 1_000);
    assert_eq!(event_timestamp(Some(7), i64::MAX), 7);
    assert_eq!(event_timestamp(None, -3), -3_000);
}

#[test]
fn seen_messages_report_first_insertions_only() {
    let mut seen = SeenMessages::new();
    assert!(seen.insert("s", "m"));
    assert!(!seen.insert("s", "m"));
    assert!(seen.insert("s", "n"));
    assert!(seen.insert("t", "m"));
    assert!(!seen.insert("t", "m"));
}

#[test]
fn text_helpers() {
    assert!(str_eq("abc", "abc"));
    assert!(!str_eq("abc", "abd"));
    assert!(!str_eq("ab", "abc"));
    assert!(starts_with("sub2api@x", "sub2api@"));
    assert!(!starts_with("sub2api", "sub2api@"));
    assert!(is_blank_str(" \t\u{3000}\n"));
    assert!(!is_blank_str(" x "));
    assert!(is_blank_str(""));
    assert_eq!(trim_end_matches_char("a//b///", '/'), "a//b");
    assert_eq!(trim_end_matches_char("///", '/'), "");
}

#[test]
fn usage_cache_reuses_a_read_while_stamps_hold() {
    let db = FileStamp { modified_ns: 10, len: 4096 };
    let wal = FileStamp { modified_ns: 0, len: 0 };
    let mut cache: UsageCache<u32> = UsageCache::new();
    assert!(cache.fresh(db, wal).is_none());
    assert!(cache.shown().is_empty());
    cache.store(db, wal, vec![1, 2, 3]);
    assert_eq!(cache.fresh(db, wal).unwrap(), &vec![1, 2, 3]);
    let grown = FileStamp { modified_ns: 10, len: 8192 };
    assert!(cache.fresh(grown, wal).is_none());
    assert_eq!(cache.shown(), &[1, 2, 3]);
}

#[test]
fn usage_cache_keeps_the_last_good_read_after_a_failure() {
    let db = FileStamp { modified_ns: 1, len: 10 };
    let wal = FileStamp { modified_ns: 0, len: 0 };
    let later = FileStamp { modified_ns: 2, len: 20 };
    let mut cache: UsageCache<u32> = UsageCache::new();
    cache.settle(db, wal, Err("database is locked".to_string()));
    assert!(cache.shown().is_empty());
    assert!(cache.fresh(db, wal).is_none());
    cache.settle(db, wal, Ok(vec![7, 8]));
    assert_eq!(cache.shown(), &[7, 8]);
    assert_eq!(cache.fresh(db, wal).unwrap(), &vec![7, 8]);
    cache.settle(later, wal, Err("database is locked".to_string()));
    assert_eq!(cache.shown(), &[7, 8]);
    assert!(cache.fresh(later, wal).is_none());
    cache.settle(later, wal, Ok(vec![9]));
    assert_eq!(cache.shown(), &[9]);
    assert!(cache.fresh(db, wal).is_none());
}
