use volcengine_status::settings::{
    autostart_action, autostart_changed, default_tray_plans, effective_refresh_interval,
    period_label_for, AutostartAction, DEFAULT_REFRESH_INTERVAL_SECS, PERIOD_MONTHLY, PERIOD_SHORT,
    PERIOD_WEEKLY,
};
use volcengine_status::text::{decimal_string, str_eq};
use volcengine_status::tray::{
    compute_title, menu_action, status_item_title, PeriodSummary, PlanSummary, TrayMenuAction,
};

fn period(label: &str, remaining: Option<u64>) -> PeriodSummary {
    PeriodSummary { label: label.into(), remaining_whole: remaining }
}

fn sample_plans() -> Vec<PlanSummary> {
    vec![
        PlanSummary {
            product: "agent-plan".into(),
            periods: vec![period("5h", Some(96)), period("weekly", Some(80)), period("monthly", Some(76))],
        },
        PlanSummary {
            product: "coding-plan".into(),
            periods: vec![period("session", Some(97)), period("weekly", None), period("monthly", Some(99))],
        },
    ]
}

#[test]
fn period_labels() {
    assert_eq!(period_label_for("agent-plan", PERIOD_WEEKLY), "weekly");
    assert_eq!(period_label_for("coding-plan", PERIOD_MONTHLY), "monthly");
    assert_eq!(period_label_for("agent-plan", PERIOD_SHORT), "5h");
    assert_eq!(period_label_for("coding-plan", PERIOD_SHORT), "session");
    assert_eq!(period_label_for("coding-plan", "unknown"), "session");
}

#[test]
fn title_for_both_plans() {
    let plans = sample_plans();
    let both = vec!["agent-plan".to_string(), "coding-plan".to_string()];
    assert_eq!(compute_title(&plans, &both, PERIOD_MONTHLY), "A 76%  C 99%");
    assert_eq!(compute_title(&plans, &both, PERIOD_SHORT), "A 96%  C 97%");
    // A missing figure shows a dash.
    assert_eq!(compute_title(&plans, &both, PERIOD_WEEKLY), "A 80%  C —");
    // Order follows the settings; unknown products get "?".
    let order = vec!["coding-plan".to_string(), "other".to_string(), "agent-plan".to_string()];
    assert_eq!(compute_title(&plans, &order, PERIOD_MONTHLY), "C 99%  ? —  A 76%");
}

#[test]
fn title_empty_without_selection_or_plans() {
    let plans = sample_plans();
    assert_eq!(compute_title(&plans, &vec![], PERIOD_MONTHLY), "");
    assert_eq!(compute_title(&vec![], &vec!["agent-plan".to_string()], PERIOD_MONTHLY), "");
}

#[test]
fn title_uses_first_matching_plan_and_period() {
    let plans = vec![
        PlanSummary { product: "agent-plan".into(), periods: vec![period("monthly", Some(5)), period("monthly", Some(6))] },
        PlanSummary { product: "agent-plan".into(), periods: vec![period("monthly", Some(7))] },
    ];
    let sel = vec!["agent-plan".to_string()];
    assert_eq!(compute_title(&plans, &sel, PERIOD_MONTHLY), "A 5%");
    let no_period = vec![PlanSummary { product: "agent-plan".into(), periods: vec![] }];
    assert_eq!(compute_title(&no_period, &sel, PERIOD_MONTHLY), "A —");
}

#[test]
fn status_item_text() {
    assert_eq!(status_item_title(""), "");
    assert_eq!(status_item_title("A 1%"), " A 1%");
}

#[test]
fn menu_actions() {
    assert_eq!(menu_action("quit"), TrayMenuAction::Quit);
    assert_eq!(menu_action("refresh"), TrayMenuAction::Refresh);
    assert_eq!(menu_action("settings"), TrayMenuAction::OpenSettings);
    assert_eq!(menu_action("other"), TrayMenuAction::Ignore);
}

#[test]
fn refresh_interval_floor() {
    assert_eq!(effective_refresh_interval(0), 30);
    assert_eq!(effective_refresh_interval(29), 30);
    assert_eq!(effective_refresh_interval(30), 30);
    assert_eq!(effective_refresh_interval(300), 300);
}

#[test]
fn autostart_sync_converges() {
    for enabled in [false, true] {
        for currently in [false, true] {
            let after = match autostart_action(enabled, currently) {
                AutostartAction::Enable => true,
                AutostartAction::Disable => false,
                AutostartAction::Keep => currently,
            };
            assert_eq!(after, enabled);
        }
    }
    assert_eq!(autostart_action(true, true), AutostartAction::Keep);
    assert!(autostart_changed(false, true));
    assert!(!autostart_changed(true, true));
}

#[test]
fn decimals_and_equality() {
    assert_eq!(decimal_string(0), "0");
    assert_eq!(decimal_string(7), "7");
    assert_eq!(decimal_string(1234567890), "1234567890");
    assert_eq!(decimal_string(u128::MAX), u128::MAX.to_string());
    assert!(str_eq("千tokens", "千tokens"));
    assert!(!str_eq("a", "ab"));
}

#[test]
fn default_settings_values() {
    assert_eq!(default_tray_plans(), vec!["agent-plan".to_string(), "coding-plan".to_string()]);
    assert_eq!(DEFAULT_REFRESH_INTERVAL_SECS, 300);
    assert_eq!(effective_refresh_interval(DEFAULT_REFRESH_INTERVAL_SECS), 300);
}
