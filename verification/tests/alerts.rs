use pane::alerts::{
    evaluate, forget_snapshot, has_state_for_test, insert_state_for_test, metric_key_of,
    period_changed, Alert, AlertConfig, Locale, Metric, Reading, Snapshot, Verdict,
};
use pane::metric_state::AlertStates;
use pane::pace::{pace_window, pace_window_at, pace_window_now, PaceWindow};

/// The classified reading of a row reporting `used` percent with no reset
/// time: under half a percent left runs out, otherwise it is on track with
/// everything left to spare.
fn reading_for(used: f64) -> Option<Reading> {
    if !used.is_finite() || used < 0.0 {
        return None;
    }
    let left = (100.0 - used.clamp(0.0, 100.0)).max(0.0);
    let (pace, spare) = if left < 0.5 { (Verdict::RunOut, 0.0) } else { (Verdict::OnTrack, left) };
    Some(Reading {
        pace,
        almost_out: left < 10.0,
        spare: format!("{spare:.0}"),
        left: format!("{left:.0}"),
    })
}

fn progress(label: &str, used: f64) -> Metric {
    Metric {
        kind: "progress".to_string(),
        label: label.to_string(),
        display_label: label.to_string(),
        resets_at: None,
        reading: reading_for(used),
    }
}

fn text_row(label: &str) -> Metric {
    Metric {
        kind: "text".to_string(),
        label: label.to_string(),
        display_label: label.to_string(),
        resets_at: None,
        reading: None,
    }
}

fn ok_snapshot(id: &str, name: &str, metrics: Vec<Metric>) -> Snapshot {
    Snapshot {
        id: id.to_string(),
        name: name.to_string(),
        status: "ok".to_string(),
        stale: false,
        has_warning: false,
        metrics,
    }
}

fn almost_out_only(disabled: &[&str]) -> AlertConfig {
    AlertConfig {
        notify_almost_out: true,
        notify_cutting_close: false,
        notify_will_run_out: false,
        disabled: disabled.iter().map(|s| s.to_string()).collect(),
        locale: Locale::En,
    }
}

fn all_on(locale: Locale) -> AlertConfig {
    AlertConfig {
        notify_almost_out: true,
        notify_cutting_close: true,
        notify_will_run_out: true,
        disabled: Vec::new(),
        locale,
    }
}

fn reading(pace: Verdict, almost_out: bool, spare: &str, left: &str) -> Option<Reading> {
    Some(Reading { pace, almost_out, spare: spare.to_string(), left: left.to_string() })
}

fn metric_with(label: &str, resets_at: Option<i64>, r: Option<Reading>) -> Metric {
    Metric {
        kind: "progress".to_string(),
        label: label.to_string(),
        display_label: label.to_string(),
        resets_at,
        reading: r,
    }
}

fn texts(alerts: &[Alert]) -> Vec<(String, String)> {
    alerts.iter().map(|a| (a.title.clone(), a.body.clone())).collect()
}

#[test]
fn sub2api_alerts_ignore_stale_disabled_and_nonfinite_observations() {
    let mut states = AlertStates::new();
    let id = "sub2api@alert-eligibility";
    let cfg = almost_out_only(&[]);
    let make = |used| ok_snapshot(id, "Site · Key", vec![progress("Total quota", used)]);
    forget_snapshot(&mut states, id);
    assert!(evaluate(&mut states, &[make(50.0)], &cfg).is_empty());
    let mut stale = make(95.0);
    stale.stale = true;
    assert!(evaluate(&mut states, &[stale], &cfg).is_empty());
    assert!(evaluate(&mut states, &[make(f64::NAN)], &cfg).is_empty());
    for disabled in ["sub2api", id] {
        let off = almost_out_only(&[disabled]);
        assert!(evaluate(&mut states, &[make(95.0)], &off).is_empty());
    }
    assert_eq!(evaluate(&mut states, &[make(95.0)], &cfg).len(), 1);
    forget_snapshot(&mut states, id);
}

#[test]
fn sub2api_thresholds_are_independent_for_equal_keys_and_each_allowance() {
    let mut states = AlertStates::new();
    let ids = ["sub2api@alert-a", "sub2api@alert-b"];
    let cfg = almost_out_only(&[]);
    let make = |id: &str, used| {
        ok_snapshot(id, id, vec![progress("5h", used), progress("1d", used)])
    };
    for id in ids {
        forget_snapshot(&mut states, id);
    }
    assert!(evaluate(&mut states, &[make(ids[0], 40.0), make(ids[1], 40.0)], &cfg).is_empty());
    let alerts = evaluate(&mut states, &[make(ids[0], 95.0), make(ids[1], 95.0)], &cfg);
    assert_eq!(alerts.len(), 4);
    assert_eq!(alerts.iter().filter(|alert| alert.body.contains(ids[0])).count(), 2);
    assert!(evaluate(&mut states, &[make(ids[0], 95.0), make(ids[1], 95.0)], &cfg).is_empty());
    let wallet = ok_snapshot(ids[0], "Wallet", vec![text_row("Balance")]);
    assert!(evaluate(&mut states, &[wallet], &cfg).is_empty());
    for id in ids {
        forget_snapshot(&mut states, id);
    }
}

#[test]
fn forget_snapshot_drops_that_id_only() {
    let mut states = AlertStates::new();
    insert_state_for_test(&mut states, "onenewapi@ticket07-abc:Usage");
    insert_state_for_test(&mut states, "onenewapi@ticket07-abc:Expiry");
    insert_state_for_test(&mut states, "onenewapi@ticket07-abcd:Usage");
    forget_snapshot(&mut states, "onenewapi@ticket07-abc");
    assert!(!has_state_for_test(&states, "onenewapi@ticket07-abc:Usage"));
    assert!(!has_state_for_test(&states, "onenewapi@ticket07-abc:Expiry"));
    assert!(has_state_for_test(&states, "onenewapi@ticket07-abcd:Usage"));
    forget_snapshot(&mut states, "onenewapi@ticket07-abcd");
    assert_eq!(states.len(), 0);
}

#[test]
fn first_reading_after_launch_is_a_silent_baseline() {
    let mut states = AlertStates::new();
    let cfg = all_on(Locale::En);
    let snap = ok_snapshot("codex", "Codex", vec![metric_with(
        "Weekly",
        None,
        reading(Verdict::RunOut, true, "0", "0"),
    )]);
    assert!(evaluate(&mut states, &[snap], &cfg).is_empty());
    assert!(has_state_for_test(&states, "codex:Weekly"));
}

#[test]
fn will_run_out_beats_cutting_close_and_almost_out_adds_on_with_exact_texts() {
    let mut states = AlertStates::new();
    let cfg = all_on(Locale::En);
    let calm = ok_snapshot("gemini", "Gemini", vec![metric_with(
        "Session",
        Some(10_000_000),
        reading(Verdict::OnTrack, false, "40", "60"),
    )]);
    assert!(evaluate(&mut states, &[calm], &cfg).is_empty());
    let bad = ok_snapshot("gemini", "Gemini", vec![metric_with(
        "Session",
        Some(10_000_000),
        reading(Verdict::RunOut, true, "0", "7"),
    )]);
    let alerts = evaluate(&mut states, &[bad], &cfg);
    assert_eq!(texts(&alerts), vec![
        (
            "Will Run Out".to_string(),
            "Gemini Session is on pace to hit its limit before the reset.".to_string(),
        ),
        ("Almost Out".to_string(), "Gemini Session is under 10% remaining (7% left).".to_string()),
    ]);
}

#[test]
fn cutting_close_text_in_each_locale() {
    let expectations = [
        (Locale::En, "Cutting It Close", "Grok Weekly is on pace to finish with only ~6% spare."),
        (Locale::Zh, "余量紧张", "Grok Weekly 按当前速度重置时大约只剩 6%。"),
        (Locale::Ru, "Запас на исходе", "Grok Weekly к сбросу останется примерно 6%."),
    ];
    for (locale, title, body) in expectations {
        let mut states = AlertStates::new();
        let cfg = all_on(locale);
        let snap = |r| ok_snapshot("grok", "Grok", vec![metric_with("Weekly", Some(5), r)]);
        assert!(evaluate(&mut states, &[snap(reading(Verdict::OnTrack, false, "50", "50"))], &cfg)
            .is_empty());
        let alerts = evaluate(&mut states, &[snap(reading(Verdict::Close, false, "6", "30"))], &cfg);
        assert_eq!(texts(&alerts), vec![(title.to_string(), body.to_string())]);
    }
}

#[test]
fn alerts_fire_once_per_state_and_rearm_after_recovery() {
    let mut states = AlertStates::new();
    let cfg = almost_out_only(&[]);
    let snap = |almost: bool| {
        ok_snapshot("cursor", "Cursor", vec![metric_with(
            "Usage",
            Some(1_000_000),
            reading(Verdict::OnTrack, almost, "1", if almost { "5" } else { "50" }),
        )])
    };
    assert!(evaluate(&mut states, &[snap(false)], &cfg).is_empty());
    assert_eq!(evaluate(&mut states, &[snap(true)], &cfg).len(), 1);
    assert!(evaluate(&mut states, &[snap(true)], &cfg).is_empty());
    assert!(evaluate(&mut states, &[snap(false)], &cfg).is_empty());
    assert_eq!(evaluate(&mut states, &[snap(true)], &cfg).len(), 1);
}

#[test]
fn a_new_reset_period_wipes_the_slate() {
    let mut states = AlertStates::new();
    let cfg = almost_out_only(&[]);
    let snap = |resets_at: i64, almost: bool| {
        ok_snapshot("copilot", "Copilot", vec![metric_with(
            "Premium",
            Some(resets_at),
            reading(Verdict::OnTrack, almost, "0", "3"),
        )])
    };
    assert!(evaluate(&mut states, &[snap(0, false)], &cfg).is_empty());
    // A drift of ten minutes is the same period.
    assert_eq!(evaluate(&mut states, &[snap(600_000, true)], &cfg).len(), 1);
    // Moving by more than ten minutes starts a new period: a silent baseline.
    assert!(evaluate(&mut states, &[snap(1_200_001, true)], &cfg).is_empty());
    assert!(evaluate(&mut states, &[snap(1_200_001, false)], &cfg).is_empty());
    assert_eq!(evaluate(&mut states, &[snap(1_200_001, true)], &cfg).len(), 1);
}

#[test]
fn everything_off_means_no_alerts_and_no_memory() {
    let mut states = AlertStates::new();
    let cfg = AlertConfig {
        notify_almost_out: false,
        notify_cutting_close: false,
        notify_will_run_out: false,
        disabled: Vec::new(),
        locale: Locale::En,
    };
    let snap = ok_snapshot("kimi", "Kimi", vec![progress("Weekly", 99.0)]);
    assert!(evaluate(&mut states, &[snap], &cfg).is_empty());
    assert!(!has_state_for_test(&states, "kimi:Weekly"));
}

#[test]
fn restored_kimi_api_rows_and_failed_cards_are_ignored() {
    let mut states = AlertStates::new();
    let cfg = almost_out_only(&[]);
    let mut kimi = ok_snapshot("kimi", "Kimi", vec![progress("API", 95.0), progress("Credits used", 95.0), progress("Weekly", 95.0)]);
    kimi.has_warning = true;
    let mut failed = ok_snapshot("devin", "Devin", vec![progress("Weekly", 95.0)]);
    failed.status = "error".to_string();
    assert!(evaluate(&mut states, &[kimi, failed], &cfg).is_empty());
    assert!(!has_state_for_test(&states, "kimi:API"));
    assert!(!has_state_for_test(&states, "kimi:Credits used"));
    assert!(has_state_for_test(&states, "kimi:Weekly"));
    assert!(!has_state_for_test(&states, "devin:Weekly"));
}

#[test]
fn period_changed_needs_both_times_and_more_than_ten_minutes() {
    assert!(!period_changed(None, Some(5)));
    assert!(!period_changed(Some(5), None));
    assert!(!period_changed(Some(1_000_000), Some(1_600_000)));
    assert!(period_changed(Some(1_000_000), Some(1_600_001)));
    assert!(period_changed(Some(1_600_001), Some(1_000_000)));
    assert!(period_changed(Some(i64::MIN), Some(i64::MAX)));
}

#[test]
fn metric_key_joins_id_and_label_with_a_colon() {
    assert_eq!(metric_key_of("sub2api@x", "Total quota"), "sub2api@x:Total quota");
}

#[test]
fn pace_window_is_none_without_figures_or_early_in_the_period() {
    let day = 86_400_000;
    assert!(pace_window(None, Some(day), 0).is_none());
    assert!(pace_window(Some(day), None, 0).is_none());
    assert!(pace_window(Some(day), Some(0), 0).is_none());
    // Four minutes into the period.
    assert!(pace_window(Some(day - 240_000), Some(day), 0).is_none());
    let w: PaceWindow = pace_window(Some(day / 2), Some(day), 0).unwrap();
    assert_eq!((w.elapsed_ms, w.period_ms), (day / 2, day));
    // A reset already passed counts the whole period as elapsed.
    let w = pace_window(Some(-5), Some(day), 0).unwrap();
    assert_eq!(w.elapsed_ms, day);
}

#[test]
fn a_refresh_of_several_cards_rearms_one_almost_out_per_row() {
    let mut states = AlertStates::new();
    let cfg = almost_out_only(&[]);
    let card = |id: &str, almost: bool| {
        ok_snapshot(id, id, vec![metric_with(
            "Usage",
            Some(1_000_000),
            reading(Verdict::OnTrack, almost, "1", if almost { "4" } else { "60" }),
        )])
    };
    // Baseline for both cards, already low on "a".
    assert!(evaluate(&mut states, &[card("a", true), card("b", false)], &cfg).is_empty());
    // "a" recovers while "b" stays fine.
    assert!(evaluate(&mut states, &[card("a", false), card("b", false)], &cfg).is_empty());
    // "a" drops again: exactly one Almost Out, for "a" only.
    let alerts = evaluate(&mut states, &[card("a", true), card("b", false)], &cfg);
    assert_eq!(texts(&alerts), vec![(
        "Almost Out".to_string(),
        "a Usage is under 10% remaining (4% left).".to_string(),
    )]);
    assert!(evaluate(&mut states, &[card("a", true), card("b", false)], &cfg).is_empty());
}

#[test]
fn a_new_period_in_one_card_of_a_refresh_is_a_silent_baseline_for_that_row() {
    let mut states = AlertStates::new();
    let cfg = almost_out_only(&[]);
    let card = |id: &str, resets_at: i64, almost: bool| {
        ok_snapshot(id, id, vec![metric_with(
            "Usage",
            Some(resets_at),
            reading(Verdict::OnTrack, almost, "1", if almost { "2" } else { "60" }),
        )])
    };
    assert!(evaluate(&mut states, &[card("a", 0, false), card("b", 0, false)], &cfg).is_empty());
    // "a" moves to a new period while low; "b" drops in its same period.
    let alerts = evaluate(&mut states, &[card("a", 3_600_000, true), card("b", 0, true)], &cfg);
    assert_eq!(texts(&alerts), vec![(
        "Almost Out".to_string(),
        "b Usage is under 10% remaining (2% left).".to_string(),
    )]);
    // The wiped slate of "a" now holds the low reading: no alert for it.
    assert!(evaluate(&mut states, &[card("a", 3_600_000, true), card("b", 0, true)], &cfg).is_empty());
}

#[test]
fn forgetting_a_card_spares_an_id_that_extends_it() {
    let mut states = AlertStates::new();
    insert_state_for_test(&mut states, "wallet@x:Balance");
    insert_state_for_test(&mut states, "wallet@xy:Balance");
    insert_state_for_test(&mut states, "wallet@x-1:Balance");
    forget_snapshot(&mut states, "wallet@x");
    assert!(!has_state_for_test(&states, "wallet@x:Balance"));
    assert!(has_state_for_test(&states, "wallet@xy:Balance"));
    assert!(has_state_for_test(&states, "wallet@x-1:Balance"));
    assert_eq!(states.len(), 2);
}

#[test]
fn pace_window_needs_a_clock_reading_after_1970() {
    let day: i64 = 86_400_000;
    assert!(pace_window_at(Some(day / 2), Some(day), None).is_none());
    assert!(pace_window_at(Some(day / 2), Some(day), Some(u128::MAX)).is_none());
    assert!(pace_window_at(Some(day / 2), Some(day), Some(i64::MAX as u128 + 1)).is_none());
    let w = pace_window_at(Some(day / 2 + 1_000), Some(day), Some(1_000)).unwrap();
    assert_eq!((w.elapsed_ms, w.period_ms), (day / 2, day));
    // No figures: no window, whatever the clock says.
    assert!(pace_window_now(None, Some(day)).is_none());
    assert!(pace_window_now(Some(day), Some(-1)).is_none());
    // A reset long past: the whole period has elapsed by now.
    let w = pace_window_now(Some(0), Some(day)).unwrap();
    assert_eq!((w.elapsed_ms, w.period_ms), (day, day));
}
