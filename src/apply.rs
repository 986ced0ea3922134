//! Stamping every transaction that exactly one rule applies to.
use vstd::prelude::*;
use crate::model::{Rule, Transaction, is_uncategorized, stamped};
use crate::matcher::{TransactionFailure, matching_rules, applicable_rules};
use crate::planner::{PlanEntry, is_plan, uncategorized};
use crate::preview::previewed;

verus! {

/// Whether exactly one rule of `rules` applies to `t`.
pub open spec fn single_match(t: Transaction, rules: Seq<Rule>) -> bool {
    matching_rules(t, rules) matches Ok(found) && found.len() == 1
}

/// `t` after applying `rules`: stamped with the one rule that applies where
/// it is uncategorized and a single match, else unchanged.
pub open spec fn applied(t: Transaction, rules: Seq<Rule>) -> Transaction {
    if is_uncategorized(t) && single_match(t, rules) {
        stamped(t, matching_rules(t, rules)->Ok_0[0])
    } else {
        t
    }
}

/// The uncategorized transactions of `txs` whose rules cannot be evaluated,
/// each with its error, in their order.
pub open spec fn apply_failures(txs: Seq<Transaction>, rules: Seq<Rule>) -> Seq<TransactionFailure>
    decreases txs.len(),
{
    if txs.len() == 0 {
        Seq::empty()
    } else {
        let before = apply_failures(txs.drop_last(), rules);
        if is_uncategorized(txs.last()) {
            match matching_rules(txs.last(), rules) {
                Err(e) => before.push(TransactionFailure { transaction_id: txs.last().id, error: e }),
                Ok(_) => before,
            }
        } else {
            before
        }
    }
}

/// The number of transactions of `txs` that applying `rules` stamps.
pub open spec fn stamp_count(txs: Seq<Transaction>, rules: Seq<Rule>) -> nat
    decreases txs.len(),
{
    if txs.len() == 0 {
        0
    } else if is_uncategorized(txs.last()) && single_match(txs.last(), rules) {
        stamp_count(txs.drop_last(), rules) + 1
    } else {
        stamp_count(txs.drop_last(), rules)
    }
}

/// What applying the rules did: how many transactions it stamped, and the
/// transactions it could not evaluate, in the order of the ledger.
#[derive(Debug)]
pub struct ApplySummary {
    pub updated: usize,
    pub failures: Vec<TransactionFailure>,
}

/// At most one stamp per transaction.
proof fn lemma_stamp_count_bounded(txs: Seq<Transaction>, rules: Seq<Rule>)
    ensures
        stamp_count(txs, rules) <= txs.len(),
    decreases txs.len(),
{
    if txs.len() > 0 {
        lemma_stamp_count_bounded(txs.drop_last(), rules);
    }
}

/// Stamps each uncategorized transaction of `ledger` that exactly one rule
/// applies to with that rule's label, percentage and category, and leaves
/// every other transaction as it was. A transaction whose rules cannot be
/// evaluated is left as it was and reported with its identifier and error;
/// the others are still processed. Returns the number of transactions
/// stamped and the failures, in the order of the ledger.
pub fn apply_rules(ledger: &mut Vec<Transaction>, rules: &Vec<Rule>) -> (r: ApplySummary)
    ensures
        final(ledger).len() == old(ledger).len(),
        forall|k: int|
            0 <= k < old(ledger).len() ==> #[trigger] final(ledger)[k] == applied(
                old(ledger)[k],
                rules@,
            ),
        r.updated == stamp_count(old(ledger)@, rules@),
        r.failures@ == apply_failures(old(ledger)@, rules@),
{
    let ghost initial = ledger@;
    let mut failures: Vec<TransactionFailure> = Vec::new();
    let mut updated: usize = 0;
    let mut i: usize = 0;
    assert(initial.take(0) =~= Seq::<Transaction>::empty());
    while i < ledger.len()
        invariant
            0 <= i <= ledger.len(),
            ledger.len() == initial.len(),
            forall|k: int| 0 <= k < i ==> #[trigger] ledger@[k] == applied(initial[k], rules@),
            forall|k: int| i <= k < ledger.len() ==> #[trigger] ledger@[k] == initial[k],
            failures@ == apply_failures(initial.take(i as int), rules@),
            updated == stamp_count(initial.take(i as int), rules@),
        decreases ledger.len() - i,
    {
        assert(initial.take(i + 1).drop_last() =~= initial.take(i as int));
        assert(initial.take(i + 1).last() == initial[i as int]);
        proof {
            lemma_stamp_count_bounded(initial.take(i as int), rules@);
        }
        if ledger[i].category_id.is_none() {
            match applicable_rules(&ledger[i], rules) {
                Err(e) => {
                    failures.push(TransactionFailure { transaction_id: ledger[i].id, error: e });
                },
                Ok(found) => {
                    if found.len() == 1 {
                        let mut t = ledger[i].clone();
                        t.stamp(&found[0]);
                        ledger[i] = t;
                        updated = updated + 1;
                    }
                },
            }
        }
        i = i + 1;
    }
    assert(initial.take(initial.len() as int) =~= initial);
    ApplySummary { updated, failures }
}

/// Applying only changes transactions that were a single match, and leaves
/// no uncategorized transaction that is a single match: planning again
/// finds none of them.
pub proof fn lemma_apply_settles(t: Transaction, rules: Seq<Rule>)
    ensures
        applied(t, rules) != t ==> is_uncategorized(t) && single_match(t, rules),
        is_uncategorized(applied(t, rules)) ==> !single_match(applied(t, rules), rules),
{
}

/// Each transaction that `uncategorized` keeps is uncategorized and stands
/// in the input.
proof fn lemma_uncategorized_from_input(txs: Seq<Transaction>)
    ensures
        forall|k: int|
            0 <= k < uncategorized(txs).len() ==> is_uncategorized(#[trigger] uncategorized(txs)[k])
                && exists|j: int| 0 <= j < txs.len() && txs[j] == uncategorized(txs)[k],
    decreases txs.len(),
{
    if txs.len() > 0 {
        let init = txs.drop_last();
        lemma_uncategorized_from_input(init);
        assert forall|k: int| 0 <= k < uncategorized(txs).len() implies is_uncategorized(
            #[trigger] uncategorized(txs)[k],
        ) && exists|j: int| 0 <= j < txs.len() && txs[j] == uncategorized(txs)[k] by {
            if k < uncategorized(init).len() {
                let j = choose|j: int| 0 <= j < init.len() && init[j] == uncategorized(init)[k];
                assert(txs[j] == init[j]);
            } else {
                assert(txs[txs.len() - 1] == uncategorized(txs)[k]);
            }
        }
    }
}

/// After applying, a new plan over the same rules holds no single match.
pub proof fn lemma_replan_has_no_single_match(
    before: Seq<Transaction>,
    after: Seq<Transaction>,
    rules: Seq<Rule>,
    entries: Seq<PlanEntry>,
)
    requires
        after.len() == before.len(),
        forall|k: int| 0 <= k < before.len() ==> #[trigger] after[k] == applied(before[k], rules),
        is_plan(entries, after, rules),
    ensures
        forall|k: int|
            0 <= k < entries.len() ==> !((#[trigger] entries[k]).outcome matches Ok(o)
                && o is SingleMatch),
{
    lemma_uncategorized_from_input(after);
    assert forall|k: int| 0 <= k < entries.len() implies !((#[trigger] entries[k]).outcome matches Ok(
        o,
    ) && o is SingleMatch) by {
        let t = uncategorized(after)[k];
        let j = choose|j: int| 0 <= j < after.len() && after[j] == t;
        lemma_apply_settles(before[j], rules);
    }
}

/// No two transactions of `txs` share an identifier.
pub open spec fn ids_unique(txs: Seq<Transaction>) -> bool {
    forall|a: int, b: int|
        0 <= a < txs.len() && 0 <= b < txs.len() && a != b ==> (#[trigger] txs[a]).id != (
        #[trigger] txs[b]).id
}

/// Each transaction that `previewed` shows is uncategorized and stands in
/// the input.
proof fn lemma_previewed_from_input(txs: Seq<Transaction>, rules: Seq<Rule>)
    ensures
        forall|k: int|
            0 <= k < previewed(txs, rules).len() ==> is_uncategorized(
                (#[trigger] previewed(txs, rules)[k]).0,
            ) && exists|j: int| 0 <= j < txs.len() && txs[j] == previewed(txs, rules)[k].0,
    decreases txs.len(),
{
    if txs.len() > 0 {
        let init = txs.drop_last();
        lemma_previewed_from_input(init, rules);
        let rows = previewed(txs, rules);
        assert forall|k: int| 0 <= k < rows.len() implies is_uncategorized((#[trigger] rows[k]).0)
            && exists|j: int| 0 <= j < txs.len() && txs[j] == rows[k].0 by {
            if k < previewed(init, rules).len() {
                let j = choose|j: int| 0 <= j < init.len() && init[j] == previewed(init, rules)[k].0;
                assert(txs[j] == init[j]);
            } else {
                assert(txs[txs.len() - 1] == rows[k].0);
            }
        }
    }
}

/// After applying, a preview over the same rules shows none of the
/// transactions just stamped, where identifiers are unique.
pub proof fn lemma_preview_after_apply_skips_stamped(
    before: Seq<Transaction>,
    after: Seq<Transaction>,
    rules: Seq<Rule>,
)
    requires
        after.len() == before.len(),
        forall|k: int| 0 <= k < before.len() ==> #[trigger] after[k] == applied(before[k], rules),
        ids_unique(before),
    ensures
        forall|k: int, m: int|
            0 <= k < previewed(after, rules).len() && 0 <= m < before.len() && applied(
                before[m],
                rules,
            ) != before[m] ==> (#[trigger] previewed(after, rules)[k]).0.id != (
            #[trigger] before[m]).id,
{
    lemma_previewed_from_input(after, rules);
    assert forall|k: int, m: int|
        0 <= k < previewed(after, rules).len() && 0 <= m < before.len() && applied(before[m], rules)
            != before[m] implies (#[trigger] previewed(after, rules)[k]).0.id != (
        #[trigger] before[m]).id by {
        let t = previewed(after, rules)[k].0;
        let j = choose|j: int| 0 <= j < after.len() && after[j] == t;
        assert(after[j] == applied(before[j], rules));
        assert(applied(before[j], rules) == before[j]);
    }
}

} // verus!
