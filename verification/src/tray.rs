//! The tray title: remaining percent (100 − used) for the plans and period
//! selected in the settings, e.g. "A 76%  C 99%", and the tray menu's commands.

use vstd::prelude::*;
use crate::settings::{period_label_for, spec_period_label_for};
use crate::text::{decimal, decimal_string, str_eq};

verus! {

/// One period of a plan as the title reads it: its label and the remaining
/// percent rounded to a whole number (absent when arkcli reported none).
#[derive(Clone, Debug, PartialEq, Eq)]
pub struct PeriodSummary {
    pub label: String,
    pub remaining_whole: Option<u64>,
}

/// One plan as the title reads it.
#[derive(Clone, Debug, PartialEq, Eq)]
pub struct PlanSummary {
    pub product: String,
    pub periods: Vec<PeriodSummary>,
}

/// Separator between the parts of a title.
pub const TITLE_SEPARATOR: &'static str = "  ";

/// The letter a product is shown with.
pub open spec fn plan_prefix(product: Seq<char>) -> Seq<char> {
    if product == "agent-plan"@ {
        "A"@
    } else if product == "coding-plan"@ {
        "C"@
    } else {
        "?"@
    }
}

/// The first plan at or after `i` whose product is `product`.
pub open spec fn find_plan_from(plans: Seq<PlanSummary>, product: Seq<char>, i: int) -> Option<PlanSummary>
    decreases plans.len() - i,
{
    if i < 0 || i >= plans.len() {
        None
    } else if plans[i].product@ == product {
        Some(plans[i])
    } else {
        find_plan_from(plans, product, i + 1)
    }
}

/// The first period at or after `i` whose label is `label`.
pub open spec fn find_period_from(periods: Seq<PeriodSummary>, label: Seq<char>, i: int) -> Option<PeriodSummary>
    decreases periods.len() - i,
{
    if i < 0 || i >= periods.len() {
        None
    } else if periods[i].label@ == label {
        Some(periods[i])
    } else {
        find_period_from(periods, label, i + 1)
    }
}

/// The value shown for `product`: its remaining percent in the selected
/// period, or "—" when the plan, the period or the figure is missing.
pub open spec fn title_value(plans: Seq<PlanSummary>, product: Seq<char>, tray_period: Seq<char>) -> Seq<char> {
    match find_plan_from(plans, product, 0) {
        None => "—"@,
        Some(plan) => match find_period_from(plan.periods@, spec_period_label_for(product, tray_period), 0) {
            None => "—"@,
            Some(period) => match period.remaining_whole {
                None => "—"@,
                Some(n) => decimal(n as nat) + "%"@,
            },
        },
    }
}

/// The part of the title for one selected product.
pub open spec fn title_part(plans: Seq<PlanSummary>, product: Seq<char>, tray_period: Seq<char>) -> Seq<char> {
    plan_prefix(product) + " "@ + title_value(plans, product, tray_period)
}

/// `parts` joined with `sep` between neighbours.
pub open spec fn join(parts: Seq<Seq<char>>, sep: Seq<char>) -> Seq<char>
    decreases parts.len(),
{
    if parts.len() == 0 {
        Seq::empty()
    } else if parts.len() == 1 {
        parts[0]
    } else {
        join(parts.drop_last(), sep) + sep + parts.last()
    }
}

/// The views of a list of strings.
pub open spec fn views(v: Seq<String>) -> Seq<Seq<char>> {
    v.map_values(|s: String| s@)
}

/// The title for the selected products, in their order.
pub open spec fn spec_title(plans: Seq<PlanSummary>, tray_plans: Seq<Seq<char>>, tray_period: Seq<char>) -> Seq<char> {
    if tray_plans.len() == 0 || plans.len() == 0 {
        Seq::empty()
    } else {
        join(tray_plans.map_values(|p: Seq<char>| title_part(plans, p, tray_period)), TITLE_SEPARATOR@)
    }
}

/// The first plan named `product` is what `find_plan_from` finds, and a
/// product no plan has finds nothing.
proof fn lemma_find_plan(plans: Seq<PlanSummary>, product: Seq<char>, from: int, i: int)
    requires
        0 <= from <= i <= plans.len(),
        forall|j: int| from <= j < i ==> plans[j].product@ != product,
    ensures
        i < plans.len() && plans[i].product@ == product ==> find_plan_from(plans, product, from) == Some(plans[i]),
        i == plans.len() ==> find_plan_from(plans, product, from) is None,
    decreases i - from,
{
    if from < i {
        lemma_find_plan(plans, product, from + 1, i);
    }
}

/// The first period labelled `label` is what `find_period_from` finds, and a
/// label no period has finds nothing.
proof fn lemma_find_period(periods: Seq<PeriodSummary>, label: Seq<char>, from: int, k: int)
    requires
        0 <= from <= k <= periods.len(),
        forall|j: int| from <= j < k ==> periods[j].label@ != label,
    ensures
        k < periods.len() && periods[k].label@ == label ==> find_period_from(periods, label, from) == Some(periods[k]),
        k == periods.len() ==> find_period_from(periods, label, from) is None,
    decreases k - from,
{
    if from < k {
        lemma_find_period(periods, label, from + 1, k);
    }
}

/// A decimal notation is never empty.
proof fn lemma_decimal_nonempty(n: nat)
    ensures
        decimal(n).len() > 0,
    decreases n,
{
    reveal_strlit("0"); reveal_strlit("1"); reveal_strlit("2"); reveal_strlit("3"); reveal_strlit("4");
    reveal_strlit("5"); reveal_strlit("6"); reveal_strlit("7"); reveal_strlit("8"); reveal_strlit("9");
    if n >= 10 {
        lemma_decimal_nonempty(n / 10);
    }
}

/// When the first plan named `product` has, as its first period with the
/// selected label, a remaining figure `n`, the title shows `n` followed by
/// "%", whatever `n` is; this never reads as the dash for a missing figure.
pub proof fn lemma_title_shows_figure(
    plans: Seq<PlanSummary>,
    product: Seq<char>,
    tray_period: Seq<char>,
    i: int,
    k: int,
    n: u64,
)
    requires
        0 <= i < plans.len(),
        plans[i].product@ == product,
        forall|j: int| 0 <= j < i ==> plans[j].product@ != product,
        0 <= k < plans[i].periods@.len(),
        plans[i].periods@[k].label@ == spec_period_label_for(product, tray_period),
        forall|j: int| 0 <= j < k ==> plans[i].periods@[j].label@ != spec_period_label_for(product, tray_period),
        plans[i].periods@[k].remaining_whole == Some(n),
    ensures
        title_value(plans, product, tray_period) == decimal(n as nat) + "%"@,
        title_value(plans, product, tray_period) != "—"@,
        title_part(plans, product, tray_period) == plan_prefix(product) + " "@ + decimal(n as nat) + "%"@,
{
    lemma_find_plan(plans, product, 0, i);
    lemma_find_period(plans[i].periods@, spec_period_label_for(product, tray_period), 0, k);
    reveal_strlit("—");
    reveal_strlit("%");
    lemma_decimal_nonempty(n as nat);
    assert((decimal(n as nat) + "%"@).len() >= 2);
}

/// The dash appears when no plan is named `product`, when the first such
/// plan has no period with the selected label, or when that period carries
/// no figure.
pub proof fn lemma_title_dash_when_missing(plans: Seq<PlanSummary>, product: Seq<char>, tray_period: Seq<char>)
    ensures
        (forall|j: int| 0 <= j < plans.len() ==> plans[j].product@ != product) ==> title_value(plans, product, tray_period) == "—"@,
        forall|i: int| #![trigger plans[i]]
            0 <= i < plans.len() && plans[i].product@ == product
            && (forall|j: int| 0 <= j < i ==> plans[j].product@ != product)
            && (forall|k: int| 0 <= k < plans[i].periods@.len() ==> plans[i].periods@[k].label@ != spec_period_label_for(product, tray_period))
            ==> title_value(plans, product, tray_period) == "—"@,
        forall|i: int, k: int| #![trigger plans[i].periods@[k]]
            0 <= i < plans.len() && plans[i].product@ == product
            && (forall|j: int| 0 <= j < i ==> plans[j].product@ != product)
            && 0 <= k < plans[i].periods@.len()
            && plans[i].periods@[k].label@ == spec_period_label_for(product, tray_period)
            && (forall|j: int| 0 <= j < k ==> plans[i].periods@[j].label@ != spec_period_label_for(product, tray_period))
            && plans[i].periods@[k].remaining_whole is None
            ==> title_value(plans, product, tray_period) == "—"@,
{
    let label = spec_period_label_for(product, tray_period);
    if forall|j: int| 0 <= j < plans.len() ==> plans[j].product@ != product {
        lemma_find_plan(plans, product, 0, plans.len() as int);
    }
    assert forall|i: int| #![trigger plans[i]]
        0 <= i < plans.len() && plans[i].product@ == product
        && (forall|j: int| 0 <= j < i ==> plans[j].product@ != product)
        && (forall|k: int| 0 <= k < plans[i].periods@.len() ==> plans[i].periods@[k].label@ != label)
        implies title_value(plans, product, tray_period) == "—"@ by {
        lemma_find_plan(plans, product, 0, i);
        lemma_find_period(plans[i].periods@, label, 0, plans[i].periods@.len() as int);
    }
    assert forall|i: int, k: int| #![trigger plans[i].periods@[k]]
        0 <= i < plans.len() && plans[i].product@ == product
        && (forall|j: int| 0 <= j < i ==> plans[j].product@ != product)
        && 0 <= k < plans[i].periods@.len()
        && plans[i].periods@[k].label@ == label
        && (forall|j: int| 0 <= j < k ==> plans[i].periods@[j].label@ != label)
        && plans[i].periods@[k].remaining_whole is None
        implies title_value(plans, product, tray_period) == "—"@ by {
        lemma_find_plan(plans, product, 0, i);
        lemma_find_period(plans[i].periods@, label, 0, k);
    }
}

/// The title lists one part per selected product, in selection order, two
/// spaces apart: one selected product gives its part alone, and selecting a
/// further product appends two spaces and that product's part.
pub proof fn lemma_title_parts(plans: Seq<PlanSummary>, selected: Seq<Seq<char>>, next: Seq<char>, tray_period: Seq<char>)
    requires
        plans.len() > 0,
    ensures
        spec_title(plans, seq![next], tray_period) == plan_prefix(next) + " "@ + title_value(plans, next, tray_period),
        selected.len() > 0 ==> spec_title(plans, selected.push(next), tray_period)
            == spec_title(plans, selected, tray_period) + "  "@ + title_part(plans, next, tray_period),
        spec_title(plans, Seq::empty(), tray_period).len() == 0,
        spec_title(Seq::empty(), selected, tray_period).len() == 0,
{
    let f = |p: Seq<char>| title_part(plans, p, tray_period);
    assert(seq![next].map_values(f) =~= seq![title_part(plans, next, tray_period)]);
    if selected.len() > 0 {
        let parts = selected.push(next).map_values(f);
        assert(parts.drop_last() =~= selected.map_values(f));
        assert(parts.len() > 1);
    }
}

fn prefix_for(product: &str) -> (r: &'static str)
    ensures
        r@ == plan_prefix(product@),
{
    if str_eq(product, "agent-plan") {
        "A"
    } else if str_eq(product, "coding-plan") {
        "C"
    } else {
        "?"
    }
}

fn value_for(plans: &Vec<PlanSummary>, product: &str, tray_period: &str) -> (r: String)
    ensures
        r@ == title_value(plans@, product@, tray_period@),
{
    let mut i: usize = 0;
    while i < plans.len()
        invariant
            i <= plans.len(),
            find_plan_from(plans@, product@, 0) == find_plan_from(plans@, product@, i as int),
        decreases plans.len() - i,
    {
        if str_eq(plans[i].product.as_str(), product) {
            let label = period_label_for(product, tray_period);
            let periods = &plans[i].periods;
            let mut j: usize = 0;
            while j < periods.len()
                invariant
                    i < plans.len(),
                    find_plan_from(plans@, product@, 0) == Some(plans@[i as int]),
                    periods@ == plans@[i as int].periods@,
                    label@ == spec_period_label_for(product@, tray_period@),
                    j <= periods.len(),
                    find_period_from(periods@, label@, 0) == find_period_from(periods@, label@, j as int),
                decreases periods.len() - j,
            {
                if str_eq(periods[j].label.as_str(), label) {
                    return match periods[j].remaining_whole {
                        Some(n) => decimal_string(n as u128).concat("%"),
                        None => String::from_str("—"),
                    };
                }
                j = j + 1;
            }
            return String::from_str("—");
        }
        i = i + 1;
    }
    String::from_str("—")
}

/// Tray title = remaining % for each selected plan/period, e.g. "A 76%  C 99%";
/// empty when no plan is selected or the usage holds no plan.
pub fn compute_title(plans: &Vec<PlanSummary>, tray_plans: &Vec<String>, tray_period: &str) -> (r: String)
    ensures
        r@ == spec_title(plans@, views(tray_plans@), tray_period@),
{
    if tray_plans.len() == 0 || plans.len() == 0 {
        return String::new();
    }
    let ghost parts = views(tray_plans@).map_values(|p: Seq<char>| title_part(plans@, p, tray_period@));
    let mut title = String::new();
    let mut i: usize = 0;
    while i < tray_plans.len()
        invariant
            0 < tray_plans.len(),
            i <= tray_plans.len(),
            parts == views(tray_plans@).map_values(|p: Seq<char>| title_part(plans@, p, tray_period@)),
            title@ == join(parts.take(i as int), TITLE_SEPARATOR@),
        decreases tray_plans.len() - i,
    {
        let product = tray_plans[i].as_str();
        let mut part = String::from_str(prefix_for(product));
        part.append(" ");
        part.append(value_for(plans, product, tray_period).as_str());
        assert(part@ == parts[i as int]);
        if i > 0 {
            title.append(TITLE_SEPARATOR);
        }
        title.append(part.as_str());
        assert(parts.take(i + 1).drop_last() =~= parts.take(i as int));
        i = i + 1;
    }
    assert(parts.take(tray_plans.len() as int) =~= parts);
    title
}

/// The text handed to the status item: empty collapses it to icon-only, and
/// a title is set off from the icon by one space.
pub fn status_item_title(title: &str) -> (r: String)
    ensures
        title@.len() == 0 ==> r@.len() == 0,
        title@.len() > 0 ==> r@ == " "@ + title@,
{
    if title.is_empty() {
        String::new()
    } else {
        String::from_str(" ").concat(title)
    }
}

/// What a tray-menu entry asks for.
#[derive(Clone, Copy, Debug, PartialEq, Eq)]
pub enum TrayMenuAction {
    Quit,
    Refresh,
    OpenSettings,
    Ignore,
}

/// The action for the menu entry with id `id`.
pub fn menu_action(id: &str) -> (a: TrayMenuAction)
    ensures
        a == (if id@ == "quit"@ {
            TrayMenuAction::Quit
        } else if id@ == "refresh"@ {
            TrayMenuAction::Refresh
        } else if id@ == "settings"@ {
            TrayMenuAction::OpenSettings
        } else {
            TrayMenuAction::Ignore
        }),
{
    if str_eq(id, "quit") {
        TrayMenuAction::Quit
    } else if str_eq(id, "refresh") {
        TrayMenuAction::Refresh
    } else if str_eq(id, "settings") {
        TrayMenuAction::OpenSettings
    } else {
        TrayMenuAction::Ignore
    }
}

} // verus!
