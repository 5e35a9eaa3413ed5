//! Settings and the decisions they drive: which period a tray title
//! reflects, how often usage refreshes and launch-at-login.

use vstd::prelude::*;
use crate::text::str_eq;

verus! {

/// Tray-period selector for the short window (5h for Agent Plan, session for Coding Plan).
pub const PERIOD_SHORT: &'static str = "short";
/// Tray-period selector for the weekly window.
pub const PERIOD_WEEKLY: &'static str = "weekly";
/// Tray-period selector for the monthly window.
pub const PERIOD_MONTHLY: &'static str = "monthly";

/// The period label that a tray-period selector picks for `product`.
pub open spec fn spec_period_label_for(product: Seq<char>, tray_period: Seq<char>) -> Seq<char> {
    if tray_period == "weekly"@ {
        "weekly"@
    } else if tray_period == "monthly"@ {
        "monthly"@
    } else if product == "coding-plan"@ {
        "session"@
    } else {
        "5h"@
    }
}

/// Map a tray-period selector to the concrete period label for a given product.
pub fn period_label_for(product: &str, tray_period: &str) -> (r: &'static str)
    ensures
        r@ == spec_period_label_for(product@, tray_period@),
{
    if str_eq(tray_period, PERIOD_WEEKLY) {
        "weekly"
    } else if str_eq(tray_period, PERIOD_MONTHLY) {
        "monthly"
    } else if str_eq(product, "coding-plan") {
        "session"
    } else {
        "5h"
    }
}


/// The weekly and monthly selectors name the period "weekly" and "monthly"
/// for every product; only the short selector depends on the product: the
/// session window for Coding Plan and the 5h window for any other plan.
pub proof fn lemma_period_label_by_selector(product: Seq<char>)
    ensures
        spec_period_label_for(product, PERIOD_WEEKLY@) == "weekly"@,
        spec_period_label_for(product, PERIOD_MONTHLY@) == "monthly"@,
        spec_period_label_for("coding-plan"@, PERIOD_SHORT@) == "session"@,
        product != "coding-plan"@ ==> spec_period_label_for(product, PERIOD_SHORT@) == "5h"@,
{
    reveal_strlit("weekly");
    reveal_strlit("monthly");
    reveal_strlit("short");
}

/// The refresh interval a fresh installation starts with, in seconds.
pub const DEFAULT_REFRESH_INTERVAL_SECS: u64 = 300;

/// The plans a fresh installation shows in the tray title, in order.
pub fn default_tray_plans() -> (r: Vec<String>)
    ensures
        r@.map_values(|s: String| s@) == seq!["agent-plan"@, "coding-plan"@],
{
    let mut r: Vec<String> = Vec::new();
    r.push(String::from_str("agent-plan"));
    r.push(String::from_str("coding-plan"));
    assert(r@.map_values(|s: String| s@) =~= seq!["agent-plan"@, "coding-plan"@]);
    r
}

/// The shortest pause between two automatic refreshes, in seconds, so a
/// misconfigured interval cannot hammer arkcli.
pub const MIN_REFRESH_INTERVAL_SECS: u64 = 30;

/// The pause before the next automatic refresh for a configured interval.
pub fn effective_refresh_interval(configured_secs: u64) -> (r: u64)
    ensures
        r == if configured_secs < MIN_REFRESH_INTERVAL_SECS { MIN_REFRESH_INTERVAL_SECS } else { configured_secs },
{
    if configured_secs < MIN_REFRESH_INTERVAL_SECS {
        MIN_REFRESH_INTERVAL_SECS
    } else {
        configured_secs
    }
}

/// What to do to the launch-at-login registration.
#[derive(Clone, Copy, Debug, PartialEq, Eq)]
pub enum AutostartAction {
    Enable,
    Disable,
    Keep,
}

/// The registration state after `action` is carried out on `currently`.
pub open spec fn after_action(currently: bool, action: AutostartAction) -> bool {
    match action {
        AutostartAction::Enable => true,
        AutostartAction::Disable => false,
        AutostartAction::Keep => currently,
    }
}

/// The step that brings launch-at-login from `currently` to `enabled`; it
/// touches the registration only when the two differ.
pub open spec fn spec_autostart_action(enabled: bool, currently: bool) -> AutostartAction {
    if enabled && !currently {
        AutostartAction::Enable
    } else if !enabled && currently {
        AutostartAction::Disable
    } else {
        AutostartAction::Keep
    }
}

/// Decide how to synchronise launch-at-login with the setting `enabled`,
/// given whether it is `currently` registered.
pub fn autostart_action(enabled: bool, currently: bool) -> (a: AutostartAction)
    ensures
        a == spec_autostart_action(enabled, currently),
{
    if enabled && !currently {
        AutostartAction::Enable
    } else if !enabled && currently {
        AutostartAction::Disable
    } else {
        AutostartAction::Keep
    }
}

/// Carrying out the chosen step always leaves launch-at-login as requested,
/// and a registration that already matches is left alone.
pub proof fn lemma_autostart_converges(enabled: bool, currently: bool)
    ensures
        after_action(currently, spec_autostart_action(enabled, currently)) == enabled,
        enabled == currently ==> spec_autostart_action(enabled, currently) == AutostartAction::Keep,
{
}

/// Whether saving `next` over `prev` must resynchronise launch-at-login.
pub fn autostart_changed(prev_autostart: bool, next_autostart: bool) -> (r: bool)
    ensures
        r == (prev_autostart != next_autostart),
{
    prev_autostart != next_autostart
}

} // verus!
