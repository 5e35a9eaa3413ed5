//! Pay-as-you-go billing: rolling the month's split-bill line items up by model.
//!
//! Amounts and token counts arrive as decimal strings and are summed as
//! floating-point numbers; this module decides which line items belong
//! together, in which order the models are listed and whether a model's
//! token counts may be summed at all.

use vstd::prelude::*;
use crate::text::{char_vec, str_eq};

verus! {

/// The unit of a line item whose `Count` is thousands of tokens.
pub const TOKEN_UNIT: &'static str = "千tokens";

/// What grouping reads of a billing line item.
#[derive(Clone, Debug, PartialEq, Eq)]
pub struct BillingLine {
    /// arkcli `ConfigName` (e.g. "Doubao-Seed-Evolving").
    pub config_name: String,
    /// arkcli `Unit` (e.g. "千tokens", or "次" for image calls).
    pub unit: String,
}

/// The line items of one model.
#[derive(Clone, Debug, PartialEq, Eq)]
pub struct ModelGroup {
    pub model: String,
    /// Positions of the model's line items, in input order.
    pub members: Vec<usize>,
    /// Every line item of the model counts thousands of tokens, so their
    /// counts may be summed; a month that mixes units sums none.
    pub all_tokens: bool,
}

/// Strict order of strings as Rust orders `String` (lexicographic by code
/// point, which is the byte order of their UTF-8 encodings).
pub open spec fn lex_lt(a: Seq<char>, b: Seq<char>) -> bool
    decreases a.len(),
{
    if a.len() == 0 {
        b.len() > 0
    } else if b.len() == 0 {
        false
    } else if a[0] != b[0] {
        (a[0] as int) < (b[0] as int)
    } else {
        lex_lt(a.drop_first(), b.drop_first())
    }
}

/// No string comes before itself.
pub proof fn lemma_lex_irreflexive(a: Seq<char>)
    ensures
        !lex_lt(a, a),
    decreases a.len(),
{
    if a.len() > 0 {
        lemma_lex_irreflexive(a.drop_first());
    }
}

/// The order is transitive.
pub proof fn lemma_lex_transitive(a: Seq<char>, b: Seq<char>, c: Seq<char>)
    requires
        lex_lt(a, b),
        lex_lt(b, c),
    ensures
        lex_lt(a, c),
    decreases a.len(),
{
    if a.len() > 0 && b.len() > 0 && c.len() > 0 && a[0] == b[0] && b[0] == c[0] {
        lemma_lex_transitive(a.drop_first(), b.drop_first(), c.drop_first());
    }
}

/// Any two different strings are ordered one way or the other.
pub proof fn lemma_lex_total(a: Seq<char>, b: Seq<char>)
    requires
        a != b,
    ensures
        lex_lt(a, b) || lex_lt(b, a),
    decreases a.len(),
{
    if a.len() > 0 && b.len() > 0 {
        if a[0] == b[0] {
            if a.drop_first() == b.drop_first() {
                assert(a =~= seq![a[0]] + a.drop_first());
                assert(b =~= seq![b[0]] + b.drop_first());
            }
            lemma_lex_total(a.drop_first(), b.drop_first());
        } else {
            assert((a[0] as int) != (b[0] as int));
        }
    } else if a.len() == 0 && b.len() == 0 {
        assert(a =~= b);
    }
}

/// Whether `a` comes before `b`.
fn lex_less(a: &Vec<char>, b: &Vec<char>) -> (r: bool)
    ensures
        r == lex_lt(a@, b@),
{
    let mut i: usize = 0;
    assert(a@.skip(0) =~= a@ && b@.skip(0) =~= b@);
    while i < a.len() && i < b.len()
        invariant
            i <= a.len(),
            i <= b.len(),
            lex_lt(a@, b@) == lex_lt(a@.skip(i as int), b@.skip(i as int)),
        decreases a.len() - i,
    {
        let x = a[i];
        let y = b[i];
        assert(a@.skip(i as int)[0] == x && b@.skip(i as int)[0] == y);
        if x != y {
            return x < y;
        }
        assert(a@.skip(i as int).drop_first() =~= a@.skip(i + 1));
        assert(b@.skip(i as int).drop_first() =~= b@.skip(i + 1));
        i = i + 1;
    }
    i == a.len() && i < b.len()
}


/// The line item counts thousands of tokens.
pub open spec fn is_token_line(line: BillingLine) -> bool {
    line.unit@ == TOKEN_UNIT@
}

/// `g` holds, in input order, exactly the line items among the first `k`
/// whose `ConfigName` is its model, and `all_tokens` tells whether they all
/// count tokens.
pub open spec fn group_covers(lines: Seq<BillingLine>, g: ModelGroup, k: int) -> bool {
    &&& g.members@.len() > 0
    &&& forall|t: int| 0 <= t < g.members@.len() ==> {
        &&& 0 <= #[trigger] g.members@[t] < k
        &&& lines[g.members@[t] as int].config_name@ == g.model@
    }
    &&& forall|t: int, u: int| 0 <= t < u < g.members@.len() ==> g.members@[t] < g.members@[u]
    &&& forall|m: int| 0 <= m < k && #[trigger] lines[m].config_name@ == g.model@ ==> g.members@.contains(m as usize)
    &&& g.all_tokens == forall|t: int| 0 <= t < g.members@.len() ==> is_token_line(#[trigger] lines[g.members@[t] as int])
}

/// `groups` is the grouping of the first `k` line items: one group per
/// distinct `ConfigName`, ordered by model name.
pub open spec fn grouping_of(lines: Seq<BillingLine>, groups: Seq<ModelGroup>, k: int) -> bool {
    &&& forall|i: int| 0 <= i < groups.len() ==> group_covers(lines, #[trigger] groups[i], k)
    &&& forall|i: int, j: int| 0 <= i < j < groups.len() ==> lex_lt(#[trigger] groups[i].model@, #[trigger] groups[j].model@)
    &&& forall|m: int| 0 <= m < k ==> exists|i: int| 0 <= i < groups.len() && #[trigger] groups[i].model@ == #[trigger] lines[m].config_name@
}

/// Where a model stands among sorted groups: at `p` if `found`, otherwise
/// `p` is where it would be inserted.
fn locate(groups: &Vec<ModelGroup>, name: &Vec<char>) -> (r: (usize, bool))
    requires
        forall|i: int, j: int| 0 <= i < j < groups@.len() ==> lex_lt(#[trigger] groups@[i].model@, #[trigger] groups@[j].model@),
    ensures
        r.0 <= groups@.len(),
        r.1 ==> r.0 < groups@.len() && groups@[r.0 as int].model@ == name@,
        !r.1 ==> forall|q: int| 0 <= q < r.0 ==> lex_lt(#[trigger] groups@[q].model@, name@),
        !r.1 ==> forall|q: int| r.0 <= q < groups@.len() ==> lex_lt(name@, #[trigger] groups@[q].model@),
{
    let mut p: usize = 0;
    while p < groups.len()
        invariant
            p <= groups@.len(),
            forall|i: int, j: int| 0 <= i < j < groups@.len() ==> lex_lt(#[trigger] groups@[i].model@, #[trigger] groups@[j].model@),
            forall|q: int| 0 <= q < p ==> lex_lt(#[trigger] groups@[q].model@, name@),
        decreases groups.len() - p,
    {
        let model = char_vec(groups[p].model.as_str());
        let mut same = model.len() == name.len();
        if same {
            let mut t: usize = 0;
            while t < model.len()
                invariant
                    model.len() == name.len(),
                    t <= model.len(),
                    same == forall|u: int| 0 <= u < t ==> model@[u] == name@[u],
                decreases model.len() - t,
            {
                if model[t] != name[t] {
                    same = false;
                }
                t = t + 1;
            }
        }
        if same {
            assert(model@ =~= name@);
            return (p, true);
        }
        if lex_less(name, &model) {
            assert forall|q: int| p <= q < groups@.len() implies lex_lt(name@, #[trigger] groups@[q].model@) by {
                if q > p {
                    lemma_lex_transitive(name@, groups@[p as int].model@, groups@[q].model@);
                }
            }
            return (p, false);
        }
        proof {
            if model@ == name@ {
                assert(model@.len() == name@.len());
                assert(forall|u: int| 0 <= u < model@.len() ==> model@[u] == name@[u]);
            }
            lemma_lex_total(model@, name@);
        }
        p = p + 1;
    }
    (p, false)
}

/// A group whose model differs from line item `k` still covers the first `k + 1`.
proof fn lemma_group_unaffected(lines: Seq<BillingLine>, h: ModelGroup, k: int)
    requires
        0 <= k < lines.len(),
        group_covers(lines, h, k),
        lines[k].config_name@ != h.model@,
    ensures
        group_covers(lines, h, k + 1),
{
}

/// Appending line item `k` to the group of its model keeps the grouping.
proof fn lemma_extend_group(lines: Seq<BillingLine>, old: Seq<ModelGroup>, p: int, k: int, g: ModelGroup)
    requires
        0 <= k < lines.len(),
        k <= usize::MAX,
        grouping_of(lines, old, k),
        0 <= p < old.len(),
        old[p].model@ == lines[k].config_name@,
        g.model == old[p].model,
        g.members@ == old[p].members@.push(k as usize),
        g.all_tokens == (old[p].all_tokens && is_token_line(lines[k])),
    ensures
        grouping_of(lines, old.update(p, g), k + 1),
{
    let old_g = old[p];
    assert(group_covers(lines, old_g, k));
    assert forall|t: int| 0 <= t < g.members@.len() implies is_token_line(#[trigger] lines[g.members@[t] as int]) == (
        if t < old_g.members@.len() { is_token_line(lines[old_g.members@[t] as int]) } else { is_token_line(lines[k]) }) by {
        if t < old_g.members@.len() {
            assert(g.members@[t] == old_g.members@[t]);
        } else {
            assert(g.members@[t] == k as usize);
        }
    }
    if g.all_tokens {
        assert forall|t: int| 0 <= t < g.members@.len() implies is_token_line(#[trigger] lines[g.members@[t] as int]) by {
            if t < old_g.members@.len() {
                assert(g.members@[t] == old_g.members@[t]);
                assert(is_token_line(lines[old_g.members@[t] as int]));
            } else {
                assert(g.members@[t] == k as usize);
            }
        }
    } else if !old_g.all_tokens {
        let t = choose|t: int| 0 <= t < old_g.members@.len() && !is_token_line(#[trigger] lines[old_g.members@[t] as int]);
        assert(g.members@[t] == old_g.members@[t]);
        assert(!is_token_line(lines[g.members@[t] as int]));
    } else {
        let t = old_g.members@.len() as int;
        assert(g.members@[t] == k as usize);
        assert(!is_token_line(lines[g.members@[t] as int]));
    }
    assert forall|t: int| 0 <= t < g.members@.len() implies {
        &&& 0 <= #[trigger] g.members@[t] < k + 1
        &&& lines[g.members@[t] as int].config_name@ == g.model@
    } by {
        if t < old_g.members@.len() {
            assert(g.members@[t] == old_g.members@[t]);
        }
    }
    assert forall|t: int, u: int| 0 <= t < u < g.members@.len() implies g.members@[t] < g.members@[u] by {
        assert(g.members@[t] == old_g.members@[t]);
        if u < old_g.members@.len() {
            assert(g.members@[u] == old_g.members@[u]);
        }
    }
    assert forall|m: int| 0 <= m < k + 1 && #[trigger] lines[m].config_name@ == g.model@ implies g.members@.contains(m as usize) by {
        if m < k {
            assert(old_g.members@.contains(m as usize));
            let t = choose|t: int| 0 <= t < old_g.members@.len() && old_g.members@[t] == m as usize;
            assert(g.members@[t] == m as usize);
        } else {
            assert(g.members@[old_g.members@.len() as int] == m as usize);
        }
    }
    assert(group_covers(lines, g, k + 1));
    let new = old.update(p, g);
    assert forall|i: int| 0 <= i < new.len() implies group_covers(lines, #[trigger] new[i], k + 1) by {
        if i != p {
            assert(group_covers(lines, old[i], k));
            if i < p {
                lemma_lex_irreflexive(old[i].model@);
                assert(lex_lt(old[i].model@, old[p].model@));
            } else {
                lemma_lex_irreflexive(old[i].model@);
                assert(lex_lt(old[p].model@, old[i].model@));
            }
            lemma_group_unaffected(lines, old[i], k);
        }
    }
    assert forall|m: int| 0 <= m < k + 1 implies exists|i: int| 0 <= i < new.len() && #[trigger] new[i].model@ == #[trigger] lines[m].config_name@ by {
        if m < k {
            let i = choose|i: int| 0 <= i < old.len() && #[trigger] old[i].model@ == #[trigger] lines[m].config_name@;
            assert(new[i].model@ == old[i].model@);
        } else {
            assert(new[p].model@ == lines[m].config_name@);
        }
    }
}

/// Inserting a new group for line item `k` where its model sorts keeps the grouping.
proof fn lemma_insert_group(lines: Seq<BillingLine>, old: Seq<ModelGroup>, p: int, k: int, g: ModelGroup)
    requires
        0 <= k < lines.len(),
        k <= usize::MAX,
        grouping_of(lines, old, k),
        0 <= p <= old.len(),
        forall|q: int| 0 <= q < p ==> lex_lt(#[trigger] old[q].model@, lines[k].config_name@),
        forall|q: int| p <= q < old.len() ==> lex_lt(lines[k].config_name@, #[trigger] old[q].model@),
        g.model@ == lines[k].config_name@,
        g.members@ == seq![k as usize],
        g.all_tokens == is_token_line(lines[k]),
    ensures
        grouping_of(lines, old.insert(p, g), k + 1),
{
    let name = lines[k].config_name@;
    assert(g.members@[0] == k as usize);
    if g.all_tokens {
        assert forall|t: int| 0 <= t < g.members@.len() implies is_token_line(#[trigger] lines[g.members@[t] as int]) by {
            assert(t == 0);
        }
    } else {
        assert(!is_token_line(lines[g.members@[0] as int]));
    }
    assert forall|m: int| 0 <= m < k + 1 && #[trigger] lines[m].config_name@ == g.model@ implies g.members@.contains(m as usize) by {
        if m < k {
            let i = choose|i: int| 0 <= i < old.len() && #[trigger] old[i].model@ == #[trigger] lines[m].config_name@;
            lemma_lex_irreflexive(name);
            if i < p {
                assert(lex_lt(old[i].model@, name));
            } else {
                assert(lex_lt(name, old[i].model@));
            }
        } else {
            assert(g.members@[0] == m as usize);
        }
    }
    assert(group_covers(lines, g, k + 1));
    let new = old.insert(p, g);
    assert forall|i: int| 0 <= i < new.len() implies group_covers(lines, #[trigger] new[i], k + 1) by {
        if i != p {
            let h = if i < p { old[i] } else { old[i - 1] };
            assert(h == new[i]);
            assert(group_covers(lines, h, k));
            lemma_lex_irreflexive(h.model@);
            if i < p {
                assert(lex_lt(h.model@, name));
            } else {
                assert(lex_lt(name, h.model@));
            }
            lemma_group_unaffected(lines, h, k);
        }
    }
    assert forall|i: int, j: int| 0 <= i < j < new.len() implies lex_lt(#[trigger] new[i].model@, #[trigger] new[j].model@) by {
        if i < p && j == p {
            assert(new[i] == old[i]);
        } else if i == p && j > p {
            assert(new[j] == old[j - 1]);
        } else if i < p && j > p {
            assert(new[i] == old[i]);
            assert(new[j] == old[j - 1]);
            lemma_lex_transitive(old[i].model@, name, old[j - 1].model@);
        } else if j < p {
            assert(new[i] == old[i] && new[j] == old[j]);
        } else {
            assert(new[i] == old[i - 1] && new[j] == old[j - 1]);
        }
    }
    assert forall|m: int| 0 <= m < k + 1 implies exists|i: int| 0 <= i < new.len() && #[trigger] new[i].model@ == #[trigger] lines[m].config_name@ by {
        if m < k {
            let i = choose|i: int| 0 <= i < old.len() && #[trigger] old[i].model@ == #[trigger] lines[m].config_name@;
            if i < p {
                assert(new[i] == old[i]);
            } else {
                assert(new[i + 1] == old[i]);
            }
        } else {
            assert(new[p].model@ == lines[m].config_name@);
        }
    }
}

/// How many line items the groups list altogether.
pub open spec fn total_members(groups: Seq<ModelGroup>) -> int
    decreases groups.len(),
{
    if groups.len() == 0 {
        0
    } else {
        total_members(groups.drop_last()) + groups.last().members@.len()
    }
}

/// Replacing one group changes the total by the difference in its size.
proof fn lemma_total_update(groups: Seq<ModelGroup>, p: int, g: ModelGroup)
    requires
        0 <= p < groups.len(),
    ensures
        total_members(groups.update(p, g)) == total_members(groups) - groups[p].members@.len() + g.members@.len(),
    decreases groups.len(),
{
    let u = groups.update(p, g);
    if p == groups.len() - 1 {
        assert(u.drop_last() =~= groups.drop_last());
    } else {
        lemma_total_update(groups.drop_last(), p, g);
        assert(u.drop_last() =~= groups.drop_last().update(p, g));
    }
}

/// Inserting a group adds its size to the total.
proof fn lemma_total_insert(groups: Seq<ModelGroup>, p: int, g: ModelGroup)
    requires
        0 <= p <= groups.len(),
    ensures
        total_members(groups.insert(p, g)) == total_members(groups) + g.members@.len(),
    decreases groups.len(),
{
    let u = groups.insert(p, g);
    if p == groups.len() {
        assert(u.drop_last() =~= groups);
    } else {
        lemma_total_insert(groups.drop_last(), p, g);
        assert(u.drop_last() =~= groups.drop_last().insert(p, g));
    }
}

/// Group line items by `ConfigName`, one group per model ordered by name,
/// each listing its line items in input order and telling whether all of
/// them count thousands of tokens.
pub fn group_by_model(lines: &Vec<BillingLine>) -> (groups: Vec<ModelGroup>)
    ensures
        grouping_of(lines@, groups@, lines@.len() as int),
        total_members(groups@) == lines@.len(),
{
    let mut groups: Vec<ModelGroup> = Vec::new();
    let mut k: usize = 0;
    while k < lines.len()
        invariant
            k <= lines@.len(),
            grouping_of(lines@, groups@, k as int),
            total_members(groups@) == k,
        decreases lines.len() - k,
    {
        let name = char_vec(lines[k].config_name.as_str());
        let token = str_eq(lines[k].unit.as_str(), TOKEN_UNIT);
        let (p, found) = locate(&groups, &name);
        let ghost old_groups = groups@;
        if found {
            let mut g = groups.remove(p);
            proof { assert(g == old_groups[p as int]); }
            let ghost old_members = g.members@;
            g.members.push(k);
            g.all_tokens = g.all_tokens && token;
            groups.insert(p, g);
            proof {
                assert(groups@ =~= old_groups.update(p as int, g));
                lemma_extend_group(lines@, old_groups, p as int, k as int, g);
                lemma_total_update(old_groups, p as int, g);
            }
        } else {
            let mut members: Vec<usize> = Vec::new();
            members.push(k);
            let g = ModelGroup { model: lines[k].config_name.clone(), members, all_tokens: token };
            proof { assert(g.members@ =~= seq![k]); }
            groups.insert(p, g);
            proof {
                lemma_insert_group(lines@, old_groups, p as int, k as int, g);
                lemma_total_insert(old_groups, p as int, g);
            }
        }
        k = k + 1;
    }
    groups
}


/// Every line item lands in exactly one group: the one named after its
/// `ConfigName`, and no other group lists it.
pub proof fn lemma_each_line_in_one_group(lines: Seq<BillingLine>, groups: Seq<ModelGroup>, m: int)
    requires
        grouping_of(lines, groups, lines.len() as int),
        0 <= m < lines.len(),
    ensures
        exists|i: int| 0 <= i < groups.len() && #[trigger] groups[i].members@.contains(m as usize),
        forall|i: int, j: int|
            0 <= i < groups.len() && 0 <= j < groups.len() && #[trigger] groups[i].members@.contains(m as usize)
                && #[trigger] groups[j].members@.contains(m as usize) ==> i == j,
{
    let i = choose|i: int| 0 <= i < groups.len() && #[trigger] groups[i].model@ == #[trigger] lines[m].config_name@;
    assert(group_covers(lines, groups[i], lines.len() as int));
    assert(groups[i].members@.contains(m as usize));
    assert forall|a: int, b: int|
        0 <= a < groups.len() && 0 <= b < groups.len() && #[trigger] groups[a].members@.contains(m as usize)
            && #[trigger] groups[b].members@.contains(m as usize) implies a == b by {
        assert(group_covers(lines, groups[a], lines.len() as int));
        assert(group_covers(lines, groups[b], lines.len() as int));
        let ta = choose|t: int| 0 <= t < groups[a].members@.len() && groups[a].members@[t] == m as usize;
        let tb = choose|t: int| 0 <= t < groups[b].members@.len() && groups[b].members@[t] == m as usize;
        assert(lines[groups[a].members@[ta] as int].config_name@ == groups[a].model@);
        assert(lines[groups[b].members@[tb] as int].config_name@ == groups[b].model@);
        if a != b {
            lemma_lex_irreflexive(groups[a].model@);
            if a < b {
                assert(lex_lt(groups[a].model@, groups[b].model@));
            } else {
                assert(lex_lt(groups[b].model@, groups[a].model@));
            }
        }
    }
}

/// The arguments of the `arkcli billing list` call for the month
/// `bill_period` ("YYYY-MM"): pay-as-you-go mode, monthly interval, at most
/// fifty rows. The month is the only value and comes from the clock, never
/// from a caller.
pub open spec fn spec_billing_list_args(bill_period: Seq<char>) -> Seq<Seq<char>> {
    seq!["billing"@, "list"@, "--start"@, bill_period, "--billing-mode"@, "2"@, "--interval"@, "month"@, "--limit"@, "50"@]
}

/// Build the arguments of the `arkcli billing list` call.
pub fn billing_list_args(bill_period: &str) -> (r: Vec<String>)
    ensures
        r@.map_values(|s: String| s@) == spec_billing_list_args(bill_period@),
{
    let mut r: Vec<String> = Vec::new();
    r.push(String::from_str("billing"));
    r.push(String::from_str("list"));
    r.push(String::from_str("--start"));
    r.push(String::from_str(bill_period));
    r.push(String::from_str("--billing-mode"));
    r.push(String::from_str("2"));
    r.push(String::from_str("--interval"));
    r.push(String::from_str("month"));
    r.push(String::from_str("--limit"));
    r.push(String::from_str("50"));
    assert(r@.map_values(|s: String| s@) =~= spec_billing_list_args(bill_period@));
    r
}

} // verus!
