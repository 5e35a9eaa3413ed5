use volcengine_status::billing::{billing_list_args, group_by_model, BillingLine};

fn line(name: &str, unit: &str) -> BillingLine {
    BillingLine { config_name: name.into(), unit: unit.into() }
}

#[test]
fn aggregates_real_sample_by_model() {
    // Three line items, all Doubao-Seed-Evolving on one endpoint, split by
    // input / KVcache-hit / output charge items.
    let lines = vec![
        line("Doubao-Seed-Evolving", "千tokens"),
        line("Doubao-Seed-Evolving", "千tokens"),
        line("Doubao-Seed-Evolving", "千tokens"),
    ];
    let groups = group_by_model(&lines);
    assert_eq!(groups.len(), 1);
    let m = &groups[0];
    assert_eq!(m.model, "Doubao-Seed-Evolving");
    assert_eq!(m.members.len(), 3);
    assert_eq!(m.members, vec![0, 1, 2]);
    assert!(m.all_tokens);
}

#[test]
fn aggregates_multiple_models_sorted() {
    let lines = vec![
        line("Model-B", "千tokens"),
        line("Model-A", "千tokens"),
        line("Model-A", "千tokens"),
    ];
    let groups = group_by_model(&lines);
    // Sorted by model: Model-A first.
    assert_eq!(groups[0].model, "Model-A");
    assert_eq!(groups[0].members, vec![1, 2]);
    assert_eq!(groups[1].model, "Model-B");
    assert_eq!(groups[1].members, vec![0]);
}

#[test]
fn tokens_none_when_units_mixed() {
    let lines = vec![line("M", "千tokens"), line("M", "次")];
    let groups = group_by_model(&lines);
    assert_eq!(groups.len(), 1);
    // Mixed 千tokens / 次 -> tokens suppressed.
    assert!(!groups[0].all_tokens);
    assert_eq!(groups[0].members.len(), 2);
}

#[test]
fn handles_empty_items_and_missing_fields() {
    assert!(group_by_model(&vec![]).is_empty());
    // Missing fields default to empty strings.
    let lines = vec![line("", ""), line("M", "")];
    let groups = group_by_model(&lines);
    assert_eq!(groups.len(), 2); // "" and "M"
    assert_eq!(groups[0].model, "");
    assert!(!groups[0].all_tokens);
}

#[test]
fn orders_models_like_string_ord() {
    let names = ["b", "a", "é", "ab", "A", "z", "a", "中", "Z"];
    let lines: Vec<BillingLine> = names.iter().map(|n| line(n, "次")).collect();
    let groups = group_by_model(&lines);
    let mut expected: Vec<String> = names.iter().map(|n| n.to_string()).collect();
    expected.sort();
    expected.dedup();
    let got: Vec<String> = groups.iter().map(|g| g.model.clone()).collect();
    assert_eq!(got, expected);
    let total: usize = groups.iter().map(|g| g.members.len()).sum();
    assert_eq!(total, names.len());
}

#[test]
fn billing_args() {
    assert_eq!(
        billing_list_args("2026-07"),
        vec!["billing", "list", "--start", "2026-07", "--billing-mode", "2", "--interval", "month", "--limit", "50"]
    );
}
