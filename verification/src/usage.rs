//! Usage breakdown text and the usage popover's section state.
//!
//! Token counts are written out exactly (`1 token`, `9614 tokens`), with a
//! comma-grouped tooltip for counts the compact form would abbreviate; the
//! per-agent rollup is truncated behind "Show N more"; and the popover keeps
//! which sections and which models' breakdowns are expanded.

use vstd::prelude::*;
use thousands::Separable;

use crate::text::{
    chars_lt, chars_of, decimal, decimal_string, lemma_lex_total, lemma_lex_transitive, lex_lt, owned, push_all,
    texts_equal,
};

verus! {

/// How many per-agent rollup rows show before the rest hide behind
/// "Show N more".
pub const ROLLUP_TRUNCATION_CAP: usize = 5;

/// The decimal digits `s` grouped by three from the right with commas.
pub open spec fn group_thousands(s: Seq<char>) -> Seq<char>
    decreases s.len(),
{
    if s.len() <= 3 {
        s
    } else {
        group_thousands(s.take(s.len() - 3)) + seq![','] + s.skip(s.len() - 3)
    }
}

/// `n` in decimal with its digits grouped by three with commas
/// (`thousands::Separable::separate_with_commas`): the crate writes the
/// number with `Display` and puts a comma between each group of three
/// digits, counted from the right.
#[verifier::external_body]
fn separate_with_commas(n: u64) -> (r: String)
    ensures
        r@ == group_thousands(decimal(n as nat)),
{
    n.separate_with_commas()
}

/// The token count in words (`1 token`, `5 tokens`).
pub open spec fn tokens_text(tokens: nat) -> Seq<char> {
    decimal(tokens) + if tokens == 1 {
        " token"@
    } else {
        " tokens"@
    }
}

pub fn format_tokens(tokens: u64) -> (r: String)
    ensures
        r@ == tokens_text(tokens as nat),
{
    let mut r = decimal_string(tokens);
    if tokens == 1 {
        push_all(&mut r, " token");
    } else {
        push_all(&mut r, " tokens");
    }
    r
}

/// The exact, comma-separated token count for a tooltip (`9,614 tokens`),
/// for counts of 1000 and more: the compact form abbreviates exactly
/// those, and a tooltip repeating an exact count would be redundant.
pub open spec fn exact_tooltip_spec(tokens: nat) -> Option<Seq<char>> {
    if tokens >= 1000 {
        Some(group_thousands(decimal(tokens)) + " tokens"@)
    } else {
        None
    }
}

pub fn exact_token_count_tooltip(tokens: u64) -> (r: Option<String>)
    ensures
        match r {
            Some(s) => exact_tooltip_spec(tokens as nat) == Some(s@),
            None => exact_tooltip_spec(tokens as nat) is None,
        },
{
    if tokens >= 1000 {
        let mut s = separate_with_commas(tokens);
        push_all(&mut s, " tokens");
        Some(s)
    } else {
        None
    }
}

/// The value of a model's row in the turn panel: the token count, then the
/// cost when it is known, separated by `  /  `.
pub open spec fn model_value_text(tokens: nat, cost_text: Option<Seq<char>>) -> Seq<char> {
    match cost_text {
        Some(c) => tokens_text(tokens) + "  /  "@ + c,
        None => tokens_text(tokens),
    }
}

/// The value of a model's row (see [`model_value_text`]); `cost_text` is
/// the already formatted dollar cost.
pub fn model_value(tokens: u64, cost_text: Option<&str>) -> (r: String)
    ensures
        r@ == model_value_text(
            tokens as nat,
            match cost_text {
                Some(c) => Some(c@),
                None => None,
            },
        ),
{
    let mut r = format_tokens(tokens);
    match cost_text {
        Some(c) => {
            push_all(&mut r, "  /  ");
            push_all(&mut r, c);
        },
        None => {},
    }
    r
}

/// Splits the per-agent rollup into the rows to show now and the number
/// still hidden: all of them when `show_all` holds or they fit under the
/// cap, else the first [`ROLLUP_TRUNCATION_CAP`].
pub fn truncate_rollup_rows<T>(entries: &[T], show_all: bool) -> (r: (&[T], usize))
    ensures
        show_all || entries@.len() <= ROLLUP_TRUNCATION_CAP ==> r.0@ == entries@ && r.1 == 0,
        !(show_all || entries@.len() <= ROLLUP_TRUNCATION_CAP) ==> r.0@ == entries@.take(
            ROLLUP_TRUNCATION_CAP as int,
        ) && r.1 == entries@.len() - ROLLUP_TRUNCATION_CAP,
{
    if show_all || entries.len() <= ROLLUP_TRUNCATION_CAP {
        (entries, 0)
    } else {
        let (shown, _) = entries.split_at(ROLLUP_TRUNCATION_CAP);
        assert(shown@ =~= entries@.take(ROLLUP_TRUNCATION_CAP as int));
        (shown, entries.len() - ROLLUP_TRUNCATION_CAP)
    }
}

/// Shown and hidden rollup rows always add up to all of them.
pub proof fn law_rollup_rows_add_up(len: nat, show_all: bool)
    ensures
        ({
            let shown = if show_all || len <= ROLLUP_TRUNCATION_CAP {
                len
            } else {
                ROLLUP_TRUNCATION_CAP as nat
            };
            let hidden = if show_all || len <= ROLLUP_TRUNCATION_CAP {
                0
            } else {
                len - ROLLUP_TRUNCATION_CAP
            };
            shown + hidden == len && shown <= len
        }),
{
}

/// The kind of token-usage category a model spent tokens in.
#[derive(Clone, Copy, Debug, PartialEq, Eq, Structural)]
pub enum UsageCategory {
    /// The primary agent's own turns.
    PrimaryAgent,
    /// Full terminal use.
    FullTerminalUse,
    /// Any other category.
    Other,
}

/// A model's token usage in a conversation, split by where the tokens were
/// billed and by category.
pub struct ModelTokenUsage {
    pub model_id: String,
    pub warp_tokens: u32,
    pub byok_tokens: u32,
    pub custom_endpoint_tokens: u32,
    pub warp_token_usage_by_category: Vec<(UsageCategory, u32)>,
    pub byok_token_usage_by_category: Vec<(UsageCategory, u32)>,
    pub custom_endpoint_token_usage_by_category: Vec<(UsageCategory, u32)>,
}

/// Whether a category list holds tokens in category `c`.
pub open spec fn has_tokens_in(v: Seq<(UsageCategory, u32)>, c: UsageCategory) -> bool {
    exists|i: int| 0 <= i < v.len() && (#[trigger] v[i]).0 == c && v[i].1 > 0
}

pub open spec fn model_has_category(m: ModelTokenUsage, c: UsageCategory) -> bool {
    has_tokens_in(m.warp_token_usage_by_category@, c) || has_tokens_in(m.byok_token_usage_by_category@, c)
        || has_tokens_in(m.custom_endpoint_token_usage_by_category@, c)
}

/// The role pill of a model: "Primary agent" when it has primary-agent
/// tokens, else "Full terminal use" when it has full-terminal-use tokens.
pub open spec fn role_badge_spec(m: ModelTokenUsage) -> Option<Seq<char>> {
    if model_has_category(m, UsageCategory::PrimaryAgent) {
        Some("Primary agent"@)
    } else if model_has_category(m, UsageCategory::FullTerminalUse) {
        Some("Full terminal use"@)
    } else {
        None
    }
}

fn has_tokens(v: &Vec<(UsageCategory, u32)>, c: UsageCategory) -> (r: bool)
    ensures
        r == has_tokens_in(v@, c),
{
    let mut i: usize = 0;
    while i < v.len()
        invariant
            i <= v.len(),
            forall|k: int| 0 <= k < i ==> !((#[trigger] v@[k]).0 == c && v@[k].1 > 0),
        decreases v.len() - i,
    {
        if v[i].0 == c && v[i].1 > 0 {
            return true;
        }
        i = i + 1;
    }
    false
}

fn model_has(model: &ModelTokenUsage, c: UsageCategory) -> (r: bool)
    ensures
        r == model_has_category(*model, c),
{
    has_tokens(&model.warp_token_usage_by_category, c) || has_tokens(&model.byok_token_usage_by_category, c)
        || has_tokens(&model.custom_endpoint_token_usage_by_category, c)
}

pub fn role_badge_for_model(model: &ModelTokenUsage) -> (r: Option<&'static str>)
    ensures
        match r {
            Some(s) => role_badge_spec(*model) == Some(s@),
            None => role_badge_spec(*model) is None,
        },
{
    if model_has(model, UsageCategory::PrimaryAgent) {
        Some("Primary agent")
    } else if model_has(model, UsageCategory::FullTerminalUse) {
        Some("Full terminal use")
    } else {
        None
    }
}

/// One row of the per-model breakdown: the model, its role pill, its total
/// tokens, and where its charged usage is among the models that have one.
pub struct ModelUsageRow {
    pub model_id: String,
    pub role_badge: Option<&'static str>,
    pub tokens: u64,
    /// The index of the model among the ids with charged usage.
    pub charged_usage: Option<usize>,
}

/// A row as plain values: model id, role pill, tokens, charged-usage index.
pub type RowView = (Seq<char>, Option<Seq<char>>, u64, Option<int>);

pub open spec fn row_view(r: ModelUsageRow) -> RowView {
    (
        r.model_id@,
        match r.role_badge {
            Some(b) => Some(b@),
            None => None,
        },
        r.tokens,
        match r.charged_usage {
            Some(k) => Some(k as int),
            None => None,
        },
    )
}

pub open spec fn row_views(v: Seq<ModelUsageRow>) -> Seq<RowView> {
    v.map_values(|r: ModelUsageRow| row_view(r))
}

/// The model's total tokens across where they were billed.
pub open spec fn total_tokens(m: ModelTokenUsage) -> u64 {
    (m.warp_tokens + m.byok_tokens + m.custom_endpoint_tokens) as u64
}

/// The first index of `id` among `ids`.
pub open spec fn index_of_text(ids: Seq<Seq<char>>, id: Seq<char>) -> Option<int>
    decreases ids.len(),
{
    if ids.len() == 0 {
        None
    } else if ids[0] == id {
        Some(0)
    } else {
        match index_of_text(ids.drop_first(), id) {
            Some(i) => Some(i + 1),
            None => None,
        }
    }
}

pub open spec fn is_primary(r: RowView) -> bool {
    r.1 == Some("Primary agent"@)
}

/// Row `a` sorts strictly before row `b`: primary-agent rows first, then by
/// model id.
pub open spec fn row_before(a: RowView, b: RowView) -> bool {
    if is_primary(a) != is_primary(b) {
        is_primary(a)
    } else {
        lex_lt(a.0, b.0)
    }
}

/// Where a row goes among sorted rows: after every row it does not sort
/// strictly before, which keeps equal rows in their original order.
pub open spec fn insert_position(sorted: Seq<RowView>, r: RowView) -> int
    decreases sorted.len(),
{
    if sorted.len() == 0 {
        0
    } else if row_before(r, sorted[0]) {
        0
    } else {
        1 + insert_position(sorted.drop_first(), r)
    }
}

/// The rows for `models`, in model order, of those with tokens.
pub open spec fn rows_spec(models: Seq<ModelTokenUsage>, charged: Seq<Seq<char>>) -> Seq<RowView>
    decreases models.len(),
{
    if models.len() == 0 {
        Seq::empty()
    } else {
        let rest = rows_spec(models.drop_last(), charged);
        let m = models.last();
        if total_tokens(m) == 0 {
            rest
        } else {
            let r = (m.model_id@, role_badge_spec(m), total_tokens(m), index_of_text(charged, m.model_id@));
            rest.insert(insert_position(rest, r), r)
        }
    }
}

pub proof fn lemma_insert_position_bounds(sorted: Seq<RowView>, r: RowView)
    ensures
        0 <= insert_position(sorted, r) <= sorted.len(),
    decreases sorted.len(),
{
    if sorted.len() > 0 && !row_before(r, sorted[0]) {
        lemma_insert_position_bounds(sorted.drop_first(), r);
    }
}

/// No row sorts strictly before a row that comes earlier.
pub open spec fn rows_sorted(rows: Seq<RowView>) -> bool {
    forall|i: int, j: int| 0 <= i < j < rows.len() ==> !row_before(#[trigger] rows[j], #[trigger] rows[i])
}

proof fn lemma_row_before_order(a: RowView, b: RowView, c: RowView)
    ensures
        !(row_before(a, b) && row_before(b, a)),
        row_before(a, b) && row_before(b, c) ==> row_before(a, c),
{
    lemma_lex_total(a.0, b.0);
    if row_before(a, b) && row_before(b, c) && is_primary(a) == is_primary(b) && is_primary(b) == is_primary(c) {
        lemma_lex_transitive(a.0, b.0, c.0);
    }
}

proof fn lemma_insert_position_facts(sorted: Seq<RowView>, r: RowView)
    ensures
        forall|k: int| 0 <= k < insert_position(sorted, r) ==> !row_before(r, #[trigger] sorted[k]),
        insert_position(sorted, r) < sorted.len() ==> row_before(r, sorted[insert_position(sorted, r)]),
    decreases sorted.len(),
{
    lemma_insert_position_bounds(sorted, r);
    if sorted.len() > 0 && !row_before(r, sorted[0]) {
        let tail = sorted.drop_first();
        lemma_insert_position_facts(tail, r);
        assert forall|k: int| 0 <= k < insert_position(sorted, r) implies !row_before(r, #[trigger] sorted[k]) by {
            if k > 0 {
                assert(sorted[k] == tail[k - 1]);
            }
        }
        let p = insert_position(sorted, r);
        lemma_insert_position_bounds(tail, r);
        assert(p == 1 + insert_position(tail, r));
        if p < sorted.len() {
            assert(sorted[p] == tail[p - 1]);
        }
    }
}

proof fn lemma_insert_keeps_sorted(sorted: Seq<RowView>, r: RowView)
    requires
        rows_sorted(sorted),
    ensures
        rows_sorted(sorted.insert(insert_position(sorted, r), r)),
{
    let p = insert_position(sorted, r);
    lemma_insert_position_bounds(sorted, r);
    lemma_insert_position_facts(sorted, r);
    let t = sorted.insert(p, r);
    assert forall|k: int| p <= k < sorted.len() implies !row_before(#[trigger] sorted[k], r) by {
        lemma_row_before_order(sorted[k], r, sorted[p]);
        lemma_row_before_order(r, sorted[p], r);
        if k > p {
            assert(!row_before(sorted[k], sorted[p]));
        }
    }
    assert forall|i: int, j: int| 0 <= i < j < t.len() implies !row_before(#[trigger] t[j], #[trigger] t[i]) by {
        if j < p {
            assert(t[i] == sorted[i] && t[j] == sorted[j]);
        } else if j == p {
            assert(t[i] == sorted[i]);
        } else if i < p {
            assert(t[i] == sorted[i] && t[j] == sorted[j - 1]);
        } else if i == p {
            assert(t[j] == sorted[j - 1]);
        } else {
            assert(t[i] == sorted[i - 1] && t[j] == sorted[j - 1]);
        }
    }
}

/// The per-model rows come out ordered, primary-agent rows first and then by
/// model id, and none of them is for a model without tokens.
pub proof fn law_model_rows_sorted(models: Seq<ModelTokenUsage>, charged: Seq<Seq<char>>)
    ensures
        rows_sorted(rows_spec(models, charged)),
        forall|i: int|
            0 <= i < rows_spec(models, charged).len() ==> #[trigger] rows_spec(models, charged)[i].2 > 0,
    decreases models.len(),
{
    if models.len() > 0 {
        let rest = rows_spec(models.drop_last(), charged);
        law_model_rows_sorted(models.drop_last(), charged);
        let m = models.last();
        if total_tokens(m) != 0 {
            let r = (m.model_id@, role_badge_spec(m), total_tokens(m), index_of_text(charged, m.model_id@));
            lemma_insert_keeps_sorted(rest, r);
            lemma_insert_position_bounds(rest, r);
            let t = rest.insert(insert_position(rest, r), r);
            assert forall|i: int| 0 <= i < t.len() implies #[trigger] t[i].2 > 0 by {
                let p = insert_position(rest, r);
                if i < p {
                    assert(t[i] == rest[i]);
                } else if i > p {
                    assert(t[i] == rest[i - 1]);
                }
            }
        }
    }
}

/// The per-model rows are ordered by role and then by model id alone:
/// every primary-agent row comes before every other row, and among rows of
/// the same kind (both primary or both not) the model ids never descend,
/// whatever other role pill a row carries.
pub proof fn law_model_rows_order_by_id(models: Seq<ModelTokenUsage>, charged: Seq<Seq<char>>)
    ensures
        forall|i: int, j: int|
            0 <= i < j < rows_spec(models, charged).len() ==> {
                let a = #[trigger] rows_spec(models, charged)[i];
                let b = #[trigger] rows_spec(models, charged)[j];
                &&& (b.1 == Some("Primary agent"@) ==> a.1 == Some("Primary agent"@))
                &&& ((a.1 == Some("Primary agent"@)) == (b.1 == Some("Primary agent"@)) ==> !lex_lt(b.0, a.0))
            },
{
    law_model_rows_sorted(models, charged);
}

fn row_sorts_before(a: &ModelUsageRow, b: &ModelUsageRow) -> (r: bool)
    ensures
        r == row_before(row_view(*a), row_view(*b)),
{
    let ap = match a.role_badge {
        Some(x) => texts_equal(x, "Primary agent"),
        None => false,
    };
    let bp = match b.role_badge {
        Some(x) => texts_equal(x, "Primary agent"),
        None => false,
    };
    if ap != bp {
        ap
    } else {
        let ac = chars_of(a.model_id.as_str());
        let bc = chars_of(b.model_id.as_str());
        chars_lt(ac.as_slice(), bc.as_slice())
    }
}

fn index_in(ids: &[String], id: &str) -> (r: Option<usize>)
    ensures
        match r {
            Some(k) => index_of_text(ids@.map_values(|s: String| s@), id@) == Some(k as int),
            None => index_of_text(ids@.map_values(|s: String| s@), id@) is None,
        },
{
    let ghost s = ids@.map_values(|x: String| x@);
    let mut i: usize = 0;
    assert(s.skip(0) =~= s);
    while i < ids.len()
        invariant
            i <= ids.len(),
            s == ids@.map_values(|x: String| x@),
            index_of_text(s, id@) == match index_of_text(s.skip(i as int), id@) {
                Some(k) => Some(k + i),
                None => None::<int>,
            },
        decreases ids.len() - i,
    {
        proof {
            assert(s.skip(i as int).drop_first() =~= s.skip(i + 1));
            assert(s.skip(i as int)[0] == s[i as int]);
        }
        if texts_equal(ids[i].as_str(), id) {
            return Some(i);
        }
        i = i + 1;
    }
    assert(s.skip(i as int).len() == 0);
    None
}

fn insert_row(rows: &mut Vec<ModelUsageRow>, row: ModelUsageRow)
    ensures
        row_views(final(rows)@) == row_views(old(rows)@).insert(
            insert_position(row_views(old(rows)@), row_view(row)),
            row_view(row),
        ),
{
    let ghost s = row_views(rows@);
    let mut k: usize = 0;
    assert(s.skip(0) =~= s);
    while k < rows.len()
        invariant
            k <= rows.len(),
            s == row_views(rows@),
            insert_position(s, row_view(row)) == k + insert_position(s.skip(k as int), row_view(row)),
        ensures
            k <= rows.len(),
            insert_position(s, row_view(row)) == k,
        decreases rows.len() - k,
    {
        proof {
            assert(s.skip(k as int).drop_first() =~= s.skip(k + 1));
            assert(s.skip(k as int)[0] == s[k as int]);
        }
        if row_sorts_before(&row, &rows[k]) {
            break;
        }
        k = k + 1;
    }
    proof {
        lemma_insert_position_bounds(s, row_view(row));
    }
    rows.insert(k, row);
    assert(row_views(rows@) =~= s.insert(k as int, row_view(row)));
}

/// The per-model rows of a conversation's usage (see [`rows_spec`]): models
/// without tokens are dropped, each row carries its role pill and the index
/// of its charged usage among `charged_model_ids`, and rows are ordered
/// primary agent first, then by model id (models that tie keep their
/// order).
pub fn model_usage_rows(models: &[ModelTokenUsage], charged_model_ids: &[String]) -> (r: Vec<ModelUsageRow>)
    ensures
        row_views(r@) == rows_spec(models@, charged_model_ids@.map_values(|s: String| s@)),
{
    let ghost charged = charged_model_ids@.map_values(|s: String| s@);
    let mut rows: Vec<ModelUsageRow> = Vec::new();
    let mut i: usize = 0;
    assert(models@.take(0) =~= Seq::<ModelTokenUsage>::empty());
    assert(row_views(rows@) =~= Seq::<RowView>::empty());
    while i < models.len()
        invariant
            i <= models.len(),
            charged == charged_model_ids@.map_values(|s: String| s@),
            row_views(rows@) == rows_spec(models@.take(i as int), charged),
        decreases models.len() - i,
    {
        let model = &models[i];
        proof {
            assert(models@.take(i + 1).drop_last() =~= models@.take(i as int));
            assert(models@.take(i + 1).last() == *model);
        }
        let tokens = model.warp_tokens as u64 + model.byok_tokens as u64 + model.custom_endpoint_tokens as u64;
        if tokens != 0 {
            let row = ModelUsageRow {
                model_id: owned(model.model_id.as_str()),
                role_badge: role_badge_for_model(model),
                tokens,
                charged_usage: index_in(charged_model_ids, model.model_id.as_str()),
            };
            insert_row(&mut rows, row);
        }
        i = i + 1;
    }
    assert(models@.take(models.len() as int) =~= models@);
    rows
}

/// The tokens of a conversation's models, each model's billed tokens added
/// up.
pub open spec fn models_tokens_sum(models: Seq<ModelTokenUsage>) -> int
    decreases models.len(),
{
    if models.len() == 0 {
        0
    } else {
        models_tokens_sum(models.drop_last()) + models.last().warp_tokens + models.last().byok_tokens
            + models.last().custom_endpoint_tokens
    }
}

proof fn lemma_models_tokens_sum_monotone(models: Seq<ModelTokenUsage>, i: int)
    requires
        0 <= i <= models.len(),
    ensures
        models_tokens_sum(models.take(i)) <= models_tokens_sum(models),
    decreases models.len() - i,
{
    if i < models.len() {
        lemma_models_tokens_sum_monotone(models, i + 1);
        assert(models.take(i + 1).drop_last() =~= models.take(i));
    } else {
        assert(models.take(i) =~= models);
    }
}

/// The usage popover's total tokens: the orchestration rollup's total when
/// a rollup applies (`Some`, holding its total if known), else the sum over
/// the conversation's models. Each model's three counts are added as `u32`
/// first, so they must fit one, and the sum must fit a `u64`.
pub fn total_usage_tokens(models: &[ModelTokenUsage], rollup_total_tokens: Option<Option<u32>>) -> (r: Option<u64>)
    requires
        rollup_total_tokens is None ==> forall|i: int|
            0 <= i < models@.len() ==> (#[trigger] models@[i]).warp_tokens + models@[i].byok_tokens
                + models@[i].custom_endpoint_tokens <= u32::MAX,
        rollup_total_tokens is None ==> models_tokens_sum(models@) <= u64::MAX,
    ensures
        r == match rollup_total_tokens {
            Some(Some(t)) => Some(t as u64),
            Some(None) => None,
            None => Some(models_tokens_sum(models@) as u64),
        },
{
    match rollup_total_tokens {
        Some(total) => match total {
            Some(t) => Some(t as u64),
            None => None,
        },
        None => {
            let mut sum: u64 = 0;
            let mut i: usize = 0;
            while i < models.len()
                invariant
                    i <= models.len(),
                    forall|k: int|
                        0 <= k < models@.len() ==> (#[trigger] models@[k]).warp_tokens + models@[k].byok_tokens
                            + models@[k].custom_endpoint_tokens <= u32::MAX,
                    models_tokens_sum(models@) <= u64::MAX,
                    sum == models_tokens_sum(models@.take(i as int)),
                decreases models.len() - i,
            {
                proof {
                    assert(models@.take(i + 1).drop_last() =~= models@.take(i as int));
                    assert(models@.take(i + 1).last() == models@[i as int]);
                    lemma_models_tokens_sum_monotone(models@, i + 1);
                }
                let m = &models[i];
                let tokens = m.warp_tokens + m.byok_tokens + m.custom_endpoint_tokens;
                sum = sum + tokens as u64;
                i = i + 1;
            }
            assert(models@.take(models.len() as int) =~= models@);
            Some(sum)
        },
    }
}

/// The tokens of all rows together.
pub open spec fn rows_tokens_sum(rows: Seq<RowView>) -> int
    decreases rows.len(),
{
    if rows.len() == 0 {
        0
    } else {
        rows_tokens_sum(rows.drop_last()) + rows.last().2
    }
}

proof fn lemma_rows_tokens_sum_prefix(rows: Seq<RowView>, i: int)
    requires
        0 <= i <= rows.len(),
    ensures
        rows_tokens_sum(rows.take(i)) <= rows_tokens_sum(rows),
    decreases rows.len() - i,
{
    if i < rows.len() {
        lemma_rows_tokens_sum_prefix(rows, i + 1);
        assert(rows.take(i + 1).drop_last() =~= rows.take(i));
    } else {
        assert(rows.take(i) =~= rows);
    }
}

/// The "All models" figure: the total given for the conversation (or its
/// rollup) when there is one, else the rows' tokens added up.
pub fn all_models_tokens(given: Option<u64>, rows: &[ModelUsageRow]) -> (r: Option<u64>)
    requires
        given is None ==> rows_tokens_sum(row_views(rows@)) <= u64::MAX,
    ensures
        r == match given {
            Some(t) => Some(t),
            None => Some(rows_tokens_sum(row_views(rows@)) as u64),
        },
{
    match given {
        Some(t) => Some(t),
        None => {
            let ghost views = row_views(rows@);
            let mut sum: u64 = 0;
            let mut i: usize = 0;
            while i < rows.len()
                invariant
                    i <= rows.len(),
                    views == row_views(rows@),
                    rows_tokens_sum(views) <= u64::MAX,
                    sum == rows_tokens_sum(views.take(i as int)),
                decreases rows.len() - i,
            {
                proof {
                    assert(views.take(i + 1).drop_last() =~= views.take(i as int));
                    assert(views.take(i + 1).last() == views[i as int]);
                    lemma_rows_tokens_sum_prefix(views, i + 1);
                }
                sum = sum + rows[i].tokens;
                i = i + 1;
            }
            assert(views.take(rows.len() as int) =~= views);
            Some(sum)
        },
    }
}

/// A category of a model's charged usage.
#[derive(Clone, Copy, Debug, PartialEq, Eq, Structural)]
pub enum BreakdownCategory {
    InputTokens,
    OutputTokens,
    CacheReadTokens,
    CacheWriteTokens,
    WebSearches,
}

impl BreakdownCategory {
    pub open spec fn label_spec(self) -> Seq<char> {
        match self {
            BreakdownCategory::InputTokens => "Input tokens"@,
            BreakdownCategory::OutputTokens => "Output tokens"@,
            BreakdownCategory::CacheReadTokens => "Cache read tokens"@,
            BreakdownCategory::CacheWriteTokens => "Cache write tokens"@,
            BreakdownCategory::WebSearches => "Web searches"@,
        }
    }

    /// The row's label.
    pub fn label(self) -> (r: &'static str)
        ensures
            r@ == self.label_spec(),
    {
        match self {
            BreakdownCategory::InputTokens => "Input tokens",
            BreakdownCategory::OutputTokens => "Output tokens",
            BreakdownCategory::CacheReadTokens => "Cache read tokens",
            BreakdownCategory::CacheWriteTokens => "Cache write tokens",
            BreakdownCategory::WebSearches => "Web searches",
        }
    }

    pub open spec fn hover_suffix_spec(self) -> Option<Seq<char>> {
        match self {
            BreakdownCategory::InputTokens => Some("input"@),
            BreakdownCategory::OutputTokens => Some("output"@),
            BreakdownCategory::CacheReadTokens => Some("cache_read"@),
            BreakdownCategory::CacheWriteTokens => Some("cache_write"@),
            BreakdownCategory::WebSearches => None,
        }
    }
}

/// One row of a model's charged-usage breakdown: its category, its count
/// (tokens, or searches), and the key of its exact-count tooltip (token rows
/// only).
pub struct BreakdownRow {
    pub category: BreakdownCategory,
    pub count: u64,
    pub hover_key: Option<String>,
}

pub open spec fn breakdown_row_view(r: BreakdownRow) -> (BreakdownCategory, u64, Option<Seq<char>>) {
    (r.category, r.count, match r.hover_key {
        Some(k) => Some(k@),
        None => None,
    })
}

/// The tooltip key of a token row of model `model_id`.
pub open spec fn hover_key_spec(model_id: Seq<char>, c: BreakdownCategory) -> Option<Seq<char>> {
    match c.hover_suffix_spec() {
        Some(suffix) => Some("value:model:"@ + model_id + ":"@ + suffix),
        None => None,
    }
}

pub open spec fn breakdown_entry(model_id: Seq<char>, c: BreakdownCategory, count: u64) -> Seq<
    (BreakdownCategory, u64, Option<Seq<char>>),
> {
    if count > 0 {
        seq![(c, count, hover_key_spec(model_id, c))]
    } else {
        Seq::empty()
    }
}

/// The rows of a model's charged-usage breakdown: input, output, cache
/// read, cache write and web searches, each only when the model incurred
/// some.
pub open spec fn breakdown_spec(
    model_id: Seq<char>,
    total_input: u64,
    output: u64,
    cache_read: u64,
    cache_write: u64,
    web_searches: u64,
) -> Seq<(BreakdownCategory, u64, Option<Seq<char>>)> {
    breakdown_entry(model_id, BreakdownCategory::InputTokens, total_input) + breakdown_entry(
        model_id,
        BreakdownCategory::OutputTokens,
        output,
    ) + breakdown_entry(model_id, BreakdownCategory::CacheReadTokens, cache_read) + breakdown_entry(
        model_id,
        BreakdownCategory::CacheWriteTokens,
        cache_write,
    ) + breakdown_entry(model_id, BreakdownCategory::WebSearches, web_searches)
}

/// The count a breakdown category takes from a model's charged usage.
pub open spec fn category_count(
    c: BreakdownCategory,
    total_input: u64,
    output: u64,
    cache_read: u64,
    cache_write: u64,
    web_searches: u64,
) -> u64 {
    match c {
        BreakdownCategory::InputTokens => total_input,
        BreakdownCategory::OutputTokens => output,
        BreakdownCategory::CacheReadTokens => cache_read,
        BreakdownCategory::CacheWriteTokens => cache_write,
        BreakdownCategory::WebSearches => web_searches,
    }
}

/// The breakdown has one row for each category the model incurred, with
/// that category's count, and none for a category it did not: a category
/// with a positive count appears exactly once, carrying its count, and a
/// category with none does not appear. Token rows carry the tooltip key
/// `value:model:{id}:{category}`; the web-search row carries none.
pub proof fn law_breakdown_rows_match_counts(
    model_id: Seq<char>,
    total_input: u64,
    output: u64,
    cache_read: u64,
    cache_write: u64,
    web_searches: u64,
    c: BreakdownCategory,
)
    ensures
        ({
            let rows = breakdown_spec(model_id, total_input, output, cache_read, cache_write, web_searches);
            let n = category_count(c, total_input, output, cache_read, cache_write, web_searches);
            &&& n > 0 ==> exists|k: int|
                0 <= k < rows.len() && (#[trigger] rows[k]).0 == c && rows[k].1 == n && (forall|m: int|
                    0 <= m < rows.len() && (#[trigger] rows[m]).0 == c ==> m == k)
            &&& n == 0 ==> forall|m: int| 0 <= m < rows.len() ==> (#[trigger] rows[m]).0 != c
            &&& forall|m: int|
                0 <= m < rows.len() ==> (#[trigger] rows[m]).1 > 0 && rows[m].1 == category_count(
                    rows[m].0,
                    total_input,
                    output,
                    cache_read,
                    cache_write,
                    web_searches,
                ) && rows[m].2 == (match rows[m].0 {
                    BreakdownCategory::InputTokens => Some("value:model:"@ + model_id + ":"@ + "input"@),
                    BreakdownCategory::OutputTokens => Some("value:model:"@ + model_id + ":"@ + "output"@),
                    BreakdownCategory::CacheReadTokens => Some("value:model:"@ + model_id + ":"@ + "cache_read"@),
                    BreakdownCategory::CacheWriteTokens => Some("value:model:"@ + model_id + ":"@ + "cache_write"@),
                    BreakdownCategory::WebSearches => None,
                })
        }),
{
    let e1 = breakdown_entry(model_id, BreakdownCategory::InputTokens, total_input);
    let e2 = breakdown_entry(model_id, BreakdownCategory::OutputTokens, output);
    let e3 = breakdown_entry(model_id, BreakdownCategory::CacheReadTokens, cache_read);
    let e4 = breakdown_entry(model_id, BreakdownCategory::CacheWriteTokens, cache_write);
    let e5 = breakdown_entry(model_id, BreakdownCategory::WebSearches, web_searches);
    let rows = breakdown_spec(model_id, total_input, output, cache_read, cache_write, web_searches);
    let p1 = e1;
    let p2 = p1 + e2;
    let p3 = p2 + e3;
    let p4 = p3 + e4;
    assert(rows == p4 + e5);
    // Where each category's entry sits in the rows.
    let o2 = e1.len() as int;
    let o3 = o2 + e2.len();
    let o4 = o3 + e3.len();
    let o5 = o4 + e4.len();
    assert forall|m: int| 0 <= m < rows.len() implies {
        ||| (m < o2 && rows[m] == e1[m])
        ||| (o2 <= m < o3 && rows[m] == e2[m - o2])
        ||| (o3 <= m < o4 && rows[m] == e3[m - o3])
        ||| (o4 <= m < o5 && rows[m] == e4[m - o4])
        ||| (o5 <= m && rows[m] == e5[m - o5])
    } by {
        if m < o5 {
            assert(rows[m] == p4[m]);
            if m < o4 {
                assert(p4[m] == p3[m]);
                if m < o3 {
                    assert(p3[m] == p2[m]);
                    if m < o2 {
                        assert(p2[m] == p1[m]);
                    }
                }
            }
        }
    }
    let n = category_count(c, total_input, output, cache_read, cache_write, web_searches);
    let o = match c {
        BreakdownCategory::InputTokens => 0,
        BreakdownCategory::OutputTokens => o2,
        BreakdownCategory::CacheReadTokens => o3,
        BreakdownCategory::CacheWriteTokens => o4,
        BreakdownCategory::WebSearches => o5,
    };
    assert(e1.len() == (if total_input > 0 { 1int } else { 0 }));
    assert(e2.len() == (if output > 0 { 1int } else { 0 }));
    assert(e3.len() == (if cache_read > 0 { 1int } else { 0 }));
    assert(e4.len() == (if cache_write > 0 { 1int } else { 0 }));
    assert(e5.len() == (if web_searches > 0 { 1int } else { 0 }));
    assert(rows.len() == o5 + e5.len());
    assert forall|m: int| 0 <= m < rows.len() implies (#[trigger] rows[m]).1 > 0 && rows[m].1 == category_count(
        rows[m].0,
        total_input,
        output,
        cache_read,
        cache_write,
        web_searches,
    ) && rows[m].2 == (match rows[m].0 {
        BreakdownCategory::InputTokens => Some("value:model:"@ + model_id + ":"@ + "input"@),
        BreakdownCategory::OutputTokens => Some("value:model:"@ + model_id + ":"@ + "output"@),
        BreakdownCategory::CacheReadTokens => Some("value:model:"@ + model_id + ":"@ + "cache_read"@),
        BreakdownCategory::CacheWriteTokens => Some("value:model:"@ + model_id + ":"@ + "cache_write"@),
        BreakdownCategory::WebSearches => None,
    }) && (rows[m].0 == c ==> m == o) by {
        if m < o2 {
            assert(rows[m] == e1[m]);
        } else if m < o3 {
            assert(rows[m] == e2[m - o2]);
        } else if m < o4 {
            assert(rows[m] == e3[m - o3]);
        } else if m < o5 {
            assert(rows[m] == e4[m - o4]);
        } else {
            assert(rows[m] == e5[m - o5]);
        }
    }
    if n > 0 {
        assert(0 <= o < rows.len());
        if o < o2 {
            assert(rows[o] == e1[o]);
        } else if o < o3 {
            assert(rows[o] == e2[o - o2]);
        } else if o < o4 {
            assert(rows[o] == e3[o - o3]);
        } else if o < o5 {
            assert(rows[o] == e4[o - o4]);
        } else {
            assert(rows[o] == e5[o - o5]);
        }
        assert(rows[o].0 == c && rows[o].1 == n);
    }
}

fn push_breakdown_row(rows: &mut Vec<BreakdownRow>, model_id: &str, category: BreakdownCategory, count: u64)
    ensures
        final(rows)@.map_values(|r: BreakdownRow| breakdown_row_view(r)) == old(rows)@.map_values(
            |r: BreakdownRow| breakdown_row_view(r),
        ) + breakdown_entry(model_id@, category, count),
{
    let ghost before = rows@;
    if count > 0 {
        let suffix: Option<&str> = match category {
            BreakdownCategory::InputTokens => Some("input"),
            BreakdownCategory::OutputTokens => Some("output"),
            BreakdownCategory::CacheReadTokens => Some("cache_read"),
            BreakdownCategory::CacheWriteTokens => Some("cache_write"),
            BreakdownCategory::WebSearches => None,
        };
        let hover_key = match suffix {
            Some(sfx) => {
                let mut k = owned("value:model:");
                push_all(&mut k, model_id);
                push_all(&mut k, ":");
                push_all(&mut k, sfx);
                Some(k)
            },
            None => None,
        };
        rows.push(BreakdownRow { category, count, hover_key });
    }
    assert(rows@.map_values(|r: BreakdownRow| breakdown_row_view(r)) =~= before.map_values(
        |r: BreakdownRow| breakdown_row_view(r),
    ) + breakdown_entry(model_id@, category, count));
}

/// The rows of a model's charged-usage breakdown (see [`breakdown_spec`]).
pub fn charged_usage_breakdown_rows(
    model_id: &str,
    total_input: u64,
    output: u64,
    cache_read: u64,
    cache_write: u64,
    web_searches: u64,
) -> (r: Vec<BreakdownRow>)
    ensures
        r@.map_values(|r: BreakdownRow| breakdown_row_view(r)) == breakdown_spec(
            model_id@,
            total_input,
            output,
            cache_read,
            cache_write,
            web_searches,
        ),
{
    let mut rows: Vec<BreakdownRow> = Vec::new();
    assert(rows@.map_values(|r: BreakdownRow| breakdown_row_view(r)) =~= Seq::empty());
    push_breakdown_row(&mut rows, model_id, BreakdownCategory::InputTokens, total_input);
    push_breakdown_row(&mut rows, model_id, BreakdownCategory::OutputTokens, output);
    push_breakdown_row(&mut rows, model_id, BreakdownCategory::CacheReadTokens, cache_read);
    push_breakdown_row(&mut rows, model_id, BreakdownCategory::CacheWriteTokens, cache_write);
    push_breakdown_row(&mut rows, model_id, BreakdownCategory::WebSearches, web_searches);
    assert(Seq::<(BreakdownCategory, u64, Option<Seq<char>>)>::empty() + breakdown_entry(
        model_id@,
        BreakdownCategory::InputTokens,
        total_input,
    ) =~= breakdown_entry(model_id@, BreakdownCategory::InputTokens, total_input));
    rows
}

/// The label of a model's row: its id, with its role pill in parentheses.
pub open spec fn model_row_label_spec(model_id: Seq<char>, role: Option<Seq<char>>) -> Seq<char> {
    match role {
        Some(r) => model_id + " ("@ + r + ")"@,
        None => model_id,
    }
}

pub fn model_row_label(model_id: &str, role_badge: Option<&str>) -> (r: String)
    ensures
        r@ == model_row_label_spec(model_id@, match role_badge {
            Some(b) => Some(b@),
            None => None,
        }),
{
    let mut r = owned(model_id);
    match role_badge {
        Some(b) => {
            push_all(&mut r, " (");
            push_all(&mut r, b);
            push_all(&mut r, ")");
        },
        None => {},
    }
    r
}

/// Actions of the docked turn-usage panel.
#[derive(Clone, Copy, Debug, PartialEq, Eq, Structural)]
pub enum TurnUsageViewAction {
    /// The header's close button was clicked.
    Close,
}

/// Asks the owning view to remove the panel.
#[derive(Clone, Copy, Debug, PartialEq, Eq, Structural)]
pub enum TurnUsageViewEvent {
    CloseRequested,
}

/// The event the turn-usage panel emits for an action.
pub fn turn_usage_event(action: &TurnUsageViewAction) -> (r: TurnUsageViewEvent)
    ensures
        *action == TurnUsageViewAction::Close ==> r == TurnUsageViewEvent::CloseRequested,
{
    match action {
        TurnUsageViewAction::Close => TurnUsageViewEvent::CloseRequested,
    }
}

/// Actions of the conversation usage popover.
pub enum UsagePopoverAction {
    ToggleModelUsageSection,
    ToggleToolCallSummarySection,
    ToggleResponseTimeSection,
    ShowAllRollupAgents,
    ShowFewerRollupAgents,
    /// The user clicked outside the popover.
    RequestClose,
    /// Toggles the per-model breakdown of the given model id.
    ToggleModelExpanded(String),
}

/// The popover should close.
#[derive(Clone, Copy, Debug, PartialEq, Eq, Structural)]
pub enum UsagePopoverEvent {
    Close,
}

/// The popover's section state for one conversation.
pub struct UsagePopoverView {
    conversation_id: u128,
    model_usage_section_expanded: bool,
    tool_call_summary_section_expanded: bool,
    response_time_section_expanded: bool,
    rollup_show_all: bool,
    /// Model ids whose breakdown is expanded, each once.
    expanded_model_ids: Vec<String>,
}

pub struct PopoverState {
    pub conversation_id: u128,
    pub model_usage_section_expanded: bool,
    pub tool_call_summary_section_expanded: bool,
    pub response_time_section_expanded: bool,
    pub rollup_show_all: bool,
    pub expanded_model_ids: Set<Seq<char>>,
}

pub open spec fn id_set(v: Seq<String>) -> Set<Seq<char>> {
    v.map_values(|s: String| s@).to_set()
}

impl View for UsagePopoverView {
    type V = PopoverState;

    closed spec fn view(&self) -> PopoverState {
        PopoverState {
            conversation_id: self.conversation_id,
            model_usage_section_expanded: self.model_usage_section_expanded,
            tool_call_summary_section_expanded: self.tool_call_summary_section_expanded,
            response_time_section_expanded: self.response_time_section_expanded,
            rollup_show_all: self.rollup_show_all,
            expanded_model_ids: id_set(self.expanded_model_ids@),
        }
    }
}

/// The state a popover opens with: every section expanded, the rollup
/// truncated, no model breakdown expanded.
pub open spec fn fresh_popover(conversation_id: u128) -> PopoverState {
    PopoverState {
        conversation_id,
        model_usage_section_expanded: true,
        tool_call_summary_section_expanded: true,
        response_time_section_expanded: true,
        rollup_show_all: false,
        expanded_model_ids: Set::empty(),
    }
}

/// What an action does: toggles, show-all and toggling a model's breakdown
/// change the state (and re-render); a close request emits `Close` and
/// changes nothing.
pub open spec fn popover_step(v: PopoverState, a: UsagePopoverAction) -> (PopoverState, Option<UsagePopoverEvent>) {
    match a {
        UsagePopoverAction::ToggleModelUsageSection => (
            PopoverState { model_usage_section_expanded: !v.model_usage_section_expanded, ..v },
            None,
        ),
        UsagePopoverAction::ToggleToolCallSummarySection => (
            PopoverState { tool_call_summary_section_expanded: !v.tool_call_summary_section_expanded, ..v },
            None,
        ),
        UsagePopoverAction::ToggleResponseTimeSection => (
            PopoverState { response_time_section_expanded: !v.response_time_section_expanded, ..v },
            None,
        ),
        UsagePopoverAction::ShowAllRollupAgents => (PopoverState { rollup_show_all: true, ..v }, None),
        UsagePopoverAction::ShowFewerRollupAgents => (PopoverState { rollup_show_all: false, ..v }, None),
        UsagePopoverAction::RequestClose => (v, Some(UsagePopoverEvent::Close)),
        UsagePopoverAction::ToggleModelExpanded(id) => (
            PopoverState {
                expanded_model_ids: if v.expanded_model_ids.contains(id@) {
                    v.expanded_model_ids.remove(id@)
                } else {
                    v.expanded_model_ids.insert(id@)
                },
                ..v
            },
            None,
        ),
    }
}

fn index_of_id(v: &Vec<String>, id: &str) -> (r: Option<usize>)
    ensures
        match r {
            Some(i) => i < v@.len() && v@[i as int]@ == id@,
            None => !id_set(v@).contains(id@),
        },
{
    let mut i: usize = 0;
    while i < v.len()
        invariant
            i <= v.len(),
            forall|k: int| 0 <= k < i ==> (#[trigger] v@[k])@ != id@,
        decreases v.len() - i,
    {
        if texts_equal(v[i].as_str(), id) {
            return Some(i);
        }
        i = i + 1;
    }
    proof {
        if id_set(v@).contains(id@) {
            let m = v@.map_values(|s: String| s@);
            let k = choose|k: int| 0 <= k < m.len() && m[k] == id@;
            assert(v@[k]@ == id@);
        }
    }
    None
}

impl UsagePopoverView {
    #[verifier::type_invariant]
    spec fn ids_distinct(self) -> bool {
        forall|a: int, b: int|
            0 <= a < b < self.expanded_model_ids@.len() ==> (#[trigger] self.expanded_model_ids@[a])@ != (
            #[trigger] self.expanded_model_ids@[b])@
    }

    /// A popover for the conversation, in its opening state.
    pub fn new(conversation_id: u128) -> (r: Self)
        ensures
            r@ == fresh_popover(conversation_id),
    {
        let r = UsagePopoverView {
            conversation_id,
            model_usage_section_expanded: true,
            tool_call_summary_section_expanded: true,
            response_time_section_expanded: true,
            rollup_show_all: false,
            expanded_model_ids: Vec::new(),
        };
        assert(r.expanded_model_ids@.map_values(|s: String| s@) =~= Seq::empty());
        assert(id_set(r.expanded_model_ids@) =~= Set::empty());
        r
    }

    /// Points the reused popover at `conversation_id`, back in its opening
    /// state.
    pub fn reset_for_conversation(&mut self, conversation_id: u128)
        ensures
            final(self)@ == fresh_popover(conversation_id),
    {
        *self = Self::new(conversation_id);
    }

    pub fn conversation_id(&self) -> (r: u128)
        ensures
            r == self@.conversation_id,
    {
        self.conversation_id
    }

    pub fn is_model_usage_section_expanded(&self) -> (r: bool)
        ensures
            r == self@.model_usage_section_expanded,
    {
        self.model_usage_section_expanded
    }

    pub fn is_tool_call_summary_section_expanded(&self) -> (r: bool)
        ensures
            r == self@.tool_call_summary_section_expanded,
    {
        self.tool_call_summary_section_expanded
    }

    pub fn is_response_time_section_expanded(&self) -> (r: bool)
        ensures
            r == self@.response_time_section_expanded,
    {
        self.response_time_section_expanded
    }

    pub fn rollup_show_all(&self) -> (r: bool)
        ensures
            r == self@.rollup_show_all,
    {
        self.rollup_show_all
    }

    /// Whether the model's breakdown is expanded.
    pub fn is_model_expanded(&self, model_id: &str) -> (r: bool)
        ensures
            r == self@.expanded_model_ids.contains(model_id@),
    {
        match index_of_id(&self.expanded_model_ids, model_id) {
            Some(i) => {
                proof {
                    let m = self.expanded_model_ids@.map_values(|s: String| s@);
                    assert(m[i as int] == model_id@);
                }
                true
            },
            None => false,
        }
    }

    /// Responds to an action (see [`popover_step`]); returns the event to
    /// emit, if any (every other action re-renders).
    pub fn handle_action(&mut self, action: &UsagePopoverAction) -> (r: Option<UsagePopoverEvent>)
        ensures
            (final(self)@, r) == popover_step(old(self)@, *action),
    {
        proof {
            use_type_invariant(&*self);
        }
        match action {
            UsagePopoverAction::ToggleModelUsageSection => {
                self.model_usage_section_expanded = !self.model_usage_section_expanded;
                None
            },
            UsagePopoverAction::ToggleToolCallSummarySection => {
                self.tool_call_summary_section_expanded = !self.tool_call_summary_section_expanded;
                None
            },
            UsagePopoverAction::ToggleResponseTimeSection => {
                self.response_time_section_expanded = !self.response_time_section_expanded;
                None
            },
            UsagePopoverAction::ShowAllRollupAgents => {
                self.rollup_show_all = true;
                None
            },
            UsagePopoverAction::ShowFewerRollupAgents => {
                self.rollup_show_all = false;
                None
            },
            UsagePopoverAction::RequestClose => Some(UsagePopoverEvent::Close),
            UsagePopoverAction::ToggleModelExpanded(model_id) => {
                let ghost before = self.expanded_model_ids@;
                let mut ids: Vec<String> = Vec::new();
                core::mem::swap(&mut ids, &mut self.expanded_model_ids);
                match index_of_id(&ids, model_id.as_str()) {
                    Some(i) => {
                        proof {
                            let f = |s: String| s@;
                            let m = before.map_values(f);
                            let rm = before.remove(i as int).map_values(f);
                            assert forall|x: Seq<char>| #[trigger] rm.to_set().contains(x) <==> m.to_set().remove(model_id@).contains(x) by {
                                if rm.to_set().contains(x) {
                                    let k = choose|k: int| 0 <= k < rm.len() && rm[k] == x;
                                    let kk = if k < i { k } else { k + 1 };
                                    assert(m[kk] == x);
                                    assert(before[kk]@ != before[i as int]@);
                                }
                                if m.to_set().remove(model_id@).contains(x) {
                                    let k = choose|k: int| 0 <= k < m.len() && m[k] == x;
                                    assert(k != i);
                                    let kk = if k < i { k } else { k - 1 };
                                    assert(rm[kk] == x);
                                }
                            }
                            assert(rm.to_set() =~= m.to_set().remove(model_id@));
                            assert(m[i as int] == model_id@);
                            assert forall|a: int, b: int| 0 <= a < b < before.remove(i as int).len() implies (
                            #[trigger] before.remove(i as int)[a])@ != (#[trigger] before.remove(i as int)[b])@ by {
                                let aa = if a < i { a } else { a + 1 };
                                let bb = if b < i { b } else { b + 1 };
                                assert(before.remove(i as int)[a] == before[aa]);
                                assert(before.remove(i as int)[b] == before[bb]);
                            }
                        }
                        ids.remove(i);
                    },
                    None => {
                        let copy = owned(model_id.as_str());
                        proof {
                            let f = |s: String| s@;
                            assert(before.push(copy).map_values(f) =~= before.map_values(f).push(model_id@));
                            before.map_values(f).lemma_push_to_set_commute(model_id@);
                            assert forall|a: int, b: int| 0 <= a < b < before.push(copy).len() implies (
                            #[trigger] before.push(copy)[a])@ != (#[trigger] before.push(copy)[b])@ by {
                                if b == before.len() {
                                    assert(before.map_values(f)[a] == before[a]@);
                                }
                            }
                        }
                        ids.push(copy);
                    },
                }
                self.expanded_model_ids = ids;
                None
            },
        }
    }
}

/// Toggling a model's breakdown twice leaves the expanded set as it was;
/// toggling a section twice likewise.
pub proof fn law_toggle_twice_restores(v: PopoverState, id: Seq<char>)
    ensures
        ({
            let once = if v.expanded_model_ids.contains(id) {
                v.expanded_model_ids.remove(id)
            } else {
                v.expanded_model_ids.insert(id)
            };
            let twice = if once.contains(id) {
                once.remove(id)
            } else {
                once.insert(id)
            };
            twice == v.expanded_model_ids
        }),
        popover_step(popover_step(v, UsagePopoverAction::ToggleModelUsageSection).0, UsagePopoverAction::ToggleModelUsageSection).0 == v,
{
    let once = if v.expanded_model_ids.contains(id) {
        v.expanded_model_ids.remove(id)
    } else {
        v.expanded_model_ids.insert(id)
    };
    let twice = if once.contains(id) {
        once.remove(id)
    } else {
        once.insert(id)
    };
    assert(twice =~= v.expanded_model_ids);
}


/// The link under the per-agent rollup.
#[derive(Clone, Copy, Debug, PartialEq, Eq, Structural)]
pub enum RollupLink {
    /// "Show N more", with the number of agents hidden.
    ShowMore(usize),
    /// "Show fewer", back to the truncated list.
    ShowFewer,
}

/// The link under a rollup of `len` agents: "Show N more" while agents are
/// hidden, "Show fewer" once all of a list longer than the cap are shown,
/// none otherwise.
pub open spec fn rollup_link_spec(len: usize, show_all: bool) -> Option<RollupLink> {
    if !show_all && len > ROLLUP_TRUNCATION_CAP {
        Some(RollupLink::ShowMore((len - ROLLUP_TRUNCATION_CAP) as usize))
    } else if show_all && len > ROLLUP_TRUNCATION_CAP {
        Some(RollupLink::ShowFewer)
    } else {
        None
    }
}

pub fn rollup_link(len: usize, show_all: bool) -> (r: Option<RollupLink>)
    ensures
        r == rollup_link_spec(len, show_all),
{
    let hidden = if show_all || len <= ROLLUP_TRUNCATION_CAP {
        0
    } else {
        len - ROLLUP_TRUNCATION_CAP
    };
    if hidden > 0 {
        Some(RollupLink::ShowMore(hidden))
    } else if show_all && len > ROLLUP_TRUNCATION_CAP {
        Some(RollupLink::ShowFewer)
    } else {
        None
    }
}

pub open spec fn rollup_link_action_spec(link: RollupLink) -> UsagePopoverAction {
    match link {
        RollupLink::ShowMore(_) => UsagePopoverAction::ShowAllRollupAgents,
        RollupLink::ShowFewer => UsagePopoverAction::ShowFewerRollupAgents,
    }
}

impl RollupLink {
    /// The link's text.
    pub fn label(self) -> (r: String)
        ensures
            r@ == match self {
                RollupLink::ShowMore(n) => "Show "@ + decimal(n as nat) + " more"@,
                RollupLink::ShowFewer => "Show fewer"@,
            },
    {
        match self {
            RollupLink::ShowMore(n) => {
                let mut r = owned("Show ");
                let digits = decimal_string(n as u64);
                push_all(&mut r, digits.as_str());
                push_all(&mut r, " more");
                r
            },
            RollupLink::ShowFewer => owned("Show fewer"),
        }
    }

    /// The action a click on the link dispatches.
    pub fn action(self) -> (r: UsagePopoverAction)
        ensures
            r == rollup_link_action_spec(self),
    {
        match self {
            RollupLink::ShowMore(_) => UsagePopoverAction::ShowAllRollupAgents,
            RollupLink::ShowFewer => UsagePopoverAction::ShowFewerRollupAgents,
        }
    }
}

/// Clicking the rollup's link flips it: "Show N more" shows every agent and
/// leaves "Show fewer", which brings the "Show N more" back.
pub proof fn law_rollup_link_flips(v: PopoverState, len: usize)
    requires
        rollup_link_spec(len, v.rollup_show_all) is Some,
    ensures
        ({
            let link = rollup_link_spec(len, v.rollup_show_all)->Some_0;
            let after = popover_step(v, rollup_link_action_spec(link)).0;
            &&& rollup_link_spec(len, after.rollup_show_all) is Some
            &&& rollup_link_spec(len, after.rollup_show_all) != Some(link)
            &&& popover_step(after, rollup_link_action_spec(rollup_link_spec(len, after.rollup_show_all)->Some_0)).0
                == v
        }),
{
}


/// The chart palette of the usage bars and row swatches, as RGBA: magenta,
/// blue, yellow, lavender, green, red.
pub open spec fn chart_palette_spec() -> Seq<(u8, u8, u8, u8)> {
    seq![
        (0xffu8, 0x8fu8, 0xfdu8, 0xffu8),
        (0xa5u8, 0xd5u8, 0xfeu8, 0xffu8),
        (0xfeu8, 0xfdu8, 0xc2u8, 0xffu8),
        (0xd0u8, 0xd1u8, 0xfeu8, 0xffu8),
        (0xb4u8, 0xfau8, 0x72u8, 0xffu8),
        (0xffu8, 0x82u8, 0x72u8, 0xffu8),
    ]
}

/// The chart color (RGBA) of the row at `index` of a breakdown list, cycling
/// through the palette.
pub fn chart_color(index: usize) -> (r: (u8, u8, u8, u8))
    ensures
        r == chart_palette_spec()[(index % 6) as int],
{
    match index % 6 {
        0 => (0xff, 0x8f, 0xfd, 0xff),
        1 => (0xa5, 0xd5, 0xfe, 0xff),
        2 => (0xfe, 0xfd, 0xc2, 0xff),
        3 => (0xd0, 0xd1, 0xfe, 0xff),
        4 => (0xb4, 0xfa, 0x72, 0xff),
        _ => (0xff, 0x82, 0x72, 0xff),
    }
}

/// Rows get distinct colors unless their positions are a whole number of
/// palettes apart, so the six rows of any run of six never share a swatch.
pub proof fn law_chart_colors_distinct(i: int, j: int)
    requires
        0 <= i,
        0 <= j,
    ensures
        chart_palette_spec()[i % 6] == chart_palette_spec()[j % 6] <==> i % 6 == j % 6,
{
}

} // verus!
