//! A read-only preview of what applying the rules would change.
use vstd::prelude::*;
use crate::model::{Rule, Transaction, Timestamp, is_uncategorized};
use crate::matcher::{MatchError, TransactionFailure, matching_rules, applicable_rules};
use crate::records::CategoryDTO;

verus! {

/// One transaction that at least one rule applies to: its current values,
/// the rules found, and what a single rule would stamp. Where several rules
/// apply, no new value is proposed.
#[derive(Debug)]
pub struct PreviewTransaction {
    pub id: i32,
    pub description: String,
    pub value: u64,
    pub date: Timestamp,
    pub conflicts: Vec<Rule>,
    pub label_old_value: String,
    pub label_new_value: Option<String>,
    pub perc_to_exclude_old_value: u32,
    pub perc_to_exclude_new_value: Option<u32>,
    pub category_old_value: String,
    pub category_new_value: Option<String>,
}

/// The name of the first category of `cats` with identifier `id`; empty
/// where there is none.
pub open spec fn category_name(cats: Seq<CategoryDTO>, id: i32) -> Seq<char>
    decreases cats.len(),
{
    if cats.len() == 0 {
        Seq::empty()
    } else if cats[0].id == id {
        cats[0].category@
    } else {
        category_name(cats.drop_first(), id)
    }
}

/// The name of an optional category; empty where there is none.
pub open spec fn category_label(cats: Seq<CategoryDTO>, id: Option<i32>) -> Seq<char> {
    match id {
        Some(c) => category_name(cats, c),
        None => Seq::empty(),
    }
}

/// The name of the first category of `categories` with identifier `id`.
pub fn find_category_name(categories: &Vec<CategoryDTO>, id: i32) -> (r: String)
    ensures
        r@ == category_name(categories@, id),
{
    let mut i: usize = 0;
    assert(categories@.skip(0) =~= categories@);
    while i < categories.len()
        invariant
            0 <= i <= categories.len(),
            category_name(categories@, id) == category_name(categories@.skip(i as int), id),
        decreases categories.len() - i,
    {
        assert(categories@.skip(i as int).drop_first() =~= categories@.skip(i + 1));
        if categories[i].id == id {
            return categories[i].category.clone();
        }
        i = i + 1;
    }
    String::new()
}

/// The name of an optional category.
pub fn find_category_label(categories: &Vec<CategoryDTO>, id: Option<i32>) -> (r: String)
    ensures
        r@ == category_label(categories@, id),
{
    match id {
        Some(c) => find_category_name(categories, c),
        None => String::new(),
    }
}

/// The uncategorized transactions of `txs` that at least one rule applies
/// to, each with the rules found, and those whose rules cannot be
/// evaluated, each with the error; in their order.
pub open spec fn previewed(txs: Seq<Transaction>, rules: Seq<Rule>) -> Seq<
    (Transaction, Result<Seq<Rule>, MatchError>),
>
    decreases txs.len(),
{
    if txs.len() == 0 {
        Seq::empty()
    } else {
        let rows = previewed(txs.drop_last(), rules);
        if !is_uncategorized(txs.last()) {
            rows
        } else {
            match matching_rules(txs.last(), rules) {
                Err(e) => rows.push((txs.last(), Err(e))),
                Ok(found) => if found.len() == 0 {
                    rows
                } else {
                    rows.push((txs.last(), Ok(found)))
                },
            }
        }
    }
}

/// `row` shows transaction `t` with the rules `found`.
pub open spec fn row_shows(
    row: PreviewTransaction,
    t: Transaction,
    found: Seq<Rule>,
    cats: Seq<CategoryDTO>,
) -> bool {
    &&& row.id == t.id
    &&& row.description == t.description
    &&& row.value == t.value
    &&& row.date == t.date
    &&& row.conflicts@ == found
    &&& row.label_old_value == t.label
    &&& row.perc_to_exclude_old_value == t.perc_to_exclude
    &&& row.category_old_value@ == category_label(cats, t.category_id)
    &&& if found.len() == 1 {
        &&& row.label_new_value == Some(found[0].label)
        &&& row.perc_to_exclude_new_value == Some(found[0].percentage)
        &&& row.category_new_value matches Some(c) && c@ == category_name(cats, found[0].category_id)
    } else {
        &&& row.label_new_value is None
        &&& row.perc_to_exclude_new_value is None
        &&& row.category_new_value is None
    }
}

/// `entry` shows transaction `t` with the evaluation `m` of the rules.
pub open spec fn entry_shows(
    entry: Result<PreviewTransaction, TransactionFailure>,
    t: Transaction,
    m: Result<Seq<Rule>, MatchError>,
    cats: Seq<CategoryDTO>,
) -> bool {
    match m {
        Ok(found) => entry matches Ok(row) && row_shows(row, t, found, cats),
        Err(e) => entry == Err::<PreviewTransaction, TransactionFailure>(
            TransactionFailure { transaction_id: t.id, error: e },
        ),
    }
}

/// `entries` show `expected` one for one.
pub open spec fn rows_show(
    entries: Seq<Result<PreviewTransaction, TransactionFailure>>,
    expected: Seq<(Transaction, Result<Seq<Rule>, MatchError>)>,
    cats: Seq<CategoryDTO>,
) -> bool {
    &&& entries.len() == expected.len()
    &&& forall|k: int|
        0 <= k < entries.len() ==> entry_shows(#[trigger] entries[k], expected[k].0, expected[k].1, cats)
}

/// The row that shows `t` with the rules `found`.
fn preview_row(t: &Transaction, found: Vec<Rule>, categories: &Vec<CategoryDTO>) -> (r:
    PreviewTransaction)
    ensures
        row_shows(r, *t, found@, categories@),
{
    let category_old_value = find_category_label(categories, t.category_id);
    let (label_new_value, perc_to_exclude_new_value, category_new_value) = if found.len() == 1 {
        let rule = &found[0];
        (
            Some(rule.label.clone()),
            Some(rule.percentage),
            Some(find_category_name(categories, rule.category_id)),
        )
    } else {
        (None, None, None)
    };
    PreviewTransaction {
        id: t.id,
        description: t.description.clone(),
        value: t.value,
        date: t.date,
        conflicts: found,
        label_old_value: t.label.clone(),
        label_new_value,
        perc_to_exclude_old_value: t.perc_to_exclude,
        perc_to_exclude_new_value,
        category_old_value,
        category_new_value,
    }
}

/// For every uncategorized transaction that at least one rule applies to,
/// a row with its current values, the rules found, and, where one rule
/// alone applies, the label, percentage and category name it would stamp;
/// for every uncategorized transaction whose rules cannot be evaluated, its
/// identifier and the error. Writes nothing, so two calls on the same
/// values give the same entries.
pub fn preview_apply_rules(
    transactions: &Vec<Transaction>,
    rules: &Vec<Rule>,
    categories: &Vec<CategoryDTO>,
) -> (r: Vec<Result<PreviewTransaction, TransactionFailure>>)
    ensures
        rows_show(r@, previewed(transactions@, rules@), categories@),
{
    let mut rows: Vec<Result<PreviewTransaction, TransactionFailure>> = Vec::new();
    let mut i: usize = 0;
    assert(transactions@.take(0) =~= Seq::<Transaction>::empty());
    while i < transactions.len()
        invariant
            0 <= i <= transactions.len(),
            rows_show(rows@, previewed(transactions@.take(i as int), rules@), categories@),
        decreases transactions.len() - i,
    {
        assert(transactions@.take(i + 1).drop_last() =~= transactions@.take(i as int));
        let t = &transactions[i];
        if t.category_id.is_none() {
            match applicable_rules(t, rules) {
                Err(e) => {
                    rows.push(Err(TransactionFailure { transaction_id: t.id, error: e }));
                },
                Ok(found) => {
                    if found.len() > 0 {
                        let row = preview_row(t, found, categories);
                        rows.push(Ok(row));
                    }
                },
            }
        }
        i = i + 1;
    }
    assert(transactions@.take(transactions.len() as int) =~= transactions@);
    rows
}

/// Two rows agree on every field.
pub open spec fn same_row(a: PreviewTransaction, b: PreviewTransaction) -> bool {
    &&& a.id == b.id
    &&& a.description == b.description
    &&& a.value == b.value
    &&& a.date == b.date
    &&& a.conflicts@ == b.conflicts@
    &&& a.label_old_value == b.label_old_value
    &&& a.label_new_value == b.label_new_value
    &&& a.perc_to_exclude_old_value == b.perc_to_exclude_old_value
    &&& a.perc_to_exclude_new_value == b.perc_to_exclude_new_value
    &&& a.category_old_value@ == b.category_old_value@
    &&& a.category_new_value.is_some() == b.category_new_value.is_some()
    &&& (a.category_new_value matches Some(x) ==> x@ == b.category_new_value->Some_0@)
}

/// The preview is repeatable: any two results that the contract of
/// `preview_apply_rules` allows on the same ledger, rules and categories
/// hold the same entries, field by field.
pub proof fn lemma_preview_is_repeatable(
    txs: Seq<Transaction>,
    rules: Seq<Rule>,
    cats: Seq<CategoryDTO>,
    first: Seq<Result<PreviewTransaction, TransactionFailure>>,
    second: Seq<Result<PreviewTransaction, TransactionFailure>>,
)
    requires
        rows_show(first, previewed(txs, rules), cats),
        rows_show(second, previewed(txs, rules), cats),
    ensures
        first.len() == second.len(),
        forall|k: int|
            0 <= k < first.len() ==> match (#[trigger] first[k], second[k]) {
                (Ok(a), Ok(b)) => same_row(a, b),
                (Err(a), Err(b)) => a == b,
                _ => false,
            },
{
    let expected = previewed(txs, rules);
    assert forall|k: int| 0 <= k < first.len() implies match (#[trigger] first[k], second[k]) {
        (Ok(a), Ok(b)) => same_row(a, b),
        (Err(a), Err(b)) => a == b,
        _ => false,
    } by {
        assert(entry_shows(first[k], expected[k].0, expected[k].1, cats));
        assert(entry_shows(second[k], expected[k].0, expected[k].1, cats));
    }
}

} // verus!
