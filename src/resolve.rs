//! Settling conflicts with the rule a person chose.
use vstd::prelude::*;
use crate::model::{Rule, Transaction, is_uncategorized, stamped};
use crate::matcher::{MatchError, matching_rules, applicable_rules};
use crate::records::ResolveConflictPayload;

verus! {

/// Why one choice of a batch was refused.
#[derive(Clone, Copy, Debug, PartialEq, Eq, Structural)]
pub enum ResolveError {
    /// No transaction of the ledger has the identifier given.
    TransactionNotFound,
    /// The transaction has a category already, or fewer than two rules
    /// apply to it now.
    NotAConflict,
    /// The rule chosen is not among the rules that apply now.
    RuleNotInConflict,
    /// The rules could not be evaluated on the transaction.
    Unevaluable(MatchError),
}

/// Position of the first transaction of `txs` with identifier `id`.
pub open spec fn transaction_index(txs: Seq<Transaction>, id: i32) -> Option<int>
    decreases txs.len(),
{
    if txs.len() == 0 {
        None
    } else {
        match transaction_index(txs.drop_last(), id) {
            Some(k) => Some(k),
            None => if txs.last().id == id {
                Some(txs.len() - 1)
            } else {
                None
            },
        }
    }
}

/// Position of the first rule of `rules` with identifier `id`.
pub open spec fn rule_index(rules: Seq<Rule>, id: i32) -> Option<int>
    decreases rules.len(),
{
    if rules.len() == 0 {
        None
    } else {
        match rule_index(rules.drop_last(), id) {
            Some(k) => Some(k),
            None => if rules.last().id == id {
                Some(rules.len() - 1)
            } else {
                None
            },
        }
    }
}

/// The decision on one choice against `ledger`: the position of the
/// transaction and the rule to stamp on it, or why the choice is refused.
pub open spec fn resolve_step(
    ledger: Seq<Transaction>,
    rules: Seq<Rule>,
    item: ResolveConflictPayload,
) -> Result<(int, Rule), ResolveError> {
    match transaction_index(ledger, item.transaction_id) {
        None => Err(ResolveError::TransactionNotFound),
        Some(k) => if !is_uncategorized(ledger[k]) {
            Err(ResolveError::NotAConflict)
        } else {
            match matching_rules(ledger[k], rules) {
                Err(e) => Err(ResolveError::Unevaluable(e)),
                Ok(found) => if found.len() < 2 {
                    Err(ResolveError::NotAConflict)
                } else {
                    match rule_index(found, item.rule_id) {
                        None => Err(ResolveError::RuleNotInConflict),
                        Some(j) => Ok((k, found[j])),
                    }
                },
            }
        },
    }
}

/// The ledger after the choices of `batch`, taken one after the other, and
/// the answer to each.
pub open spec fn resolve_all(
    ledger: Seq<Transaction>,
    rules: Seq<Rule>,
    batch: Seq<ResolveConflictPayload>,
) -> (Seq<Transaction>, Seq<Result<(), ResolveError>>)
    decreases batch.len(),
{
    if batch.len() == 0 {
        (ledger, Seq::empty())
    } else {
        let (current, answers) = resolve_all(ledger, rules, batch.drop_last());
        match resolve_step(current, rules, batch.last()) {
            Ok((k, rule)) => (
                current.update(k, stamped(current[k], rule)),
                answers.push(Ok(())),
            ),
            Err(e) => (current, answers.push(Err(e))),
        }
    }
}

/// A position found by `transaction_index` lies in the ledger.
proof fn lemma_transaction_index_in_range(txs: Seq<Transaction>, id: i32)
    ensures
        transaction_index(txs, id) matches Some(k) ==> 0 <= k < txs.len() && txs[k].id == id,
    decreases txs.len(),
{
    if txs.len() > 0 {
        lemma_transaction_index_in_range(txs.drop_last(), id);
    }
}

/// A position found by `rule_index` lies in the list.
proof fn lemma_rule_index_in_range(rules: Seq<Rule>, id: i32)
    ensures
        rule_index(rules, id) matches Some(k) ==> 0 <= k < rules.len() && rules[k].id == id,
    decreases rules.len(),
{
    if rules.len() > 0 {
        lemma_rule_index_in_range(rules.drop_last(), id);
    }
}

/// Position of the first transaction of `ledger` with identifier `id`.
fn find_transaction(ledger: &Vec<Transaction>, id: i32) -> (r: Option<usize>)
    ensures
        r matches Some(k) ==> transaction_index(ledger@, id) == Some(k as int) && k < ledger.len(),
        r is None ==> transaction_index(ledger@, id) is None,
{
    let mut i: usize = 0;
    assert(ledger@.take(0) =~= Seq::<Transaction>::empty());
    while i < ledger.len()
        invariant
            0 <= i <= ledger.len(),
            transaction_index(ledger@.take(i as int), id) is None,
        decreases ledger.len() - i,
    {
        assert(ledger@.take(i + 1).drop_last() =~= ledger@.take(i as int));
        if ledger[i].id == id {
            proof {
                lemma_index_found_persists(ledger@, id, i as int + 1);
            }
            return Some(i);
        }
        i = i + 1;
    }
    assert(ledger@.take(ledger.len() as int) =~= ledger@);
    None
}

/// A transaction found in a prefix is the one found in the whole ledger.
proof fn lemma_index_found_persists(txs: Seq<Transaction>, id: i32, n: int)
    requires
        0 <= n <= txs.len(),
        transaction_index(txs.take(n), id) is Some,
    ensures
        transaction_index(txs, id) == transaction_index(txs.take(n), id),
    decreases txs.len() - n,
{
    if n < txs.len() {
        assert(txs.take(n + 1).drop_last() =~= txs.take(n));
        lemma_index_found_persists(txs, id, n + 1);
    } else {
        assert(txs.take(n) =~= txs);
    }
}

/// A rule found in a prefix is the one found in the whole list.
proof fn lemma_rule_found_persists(rules: Seq<Rule>, id: i32, n: int)
    requires
        0 <= n <= rules.len(),
        rule_index(rules.take(n), id) is Some,
    ensures
        rule_index(rules, id) == rule_index(rules.take(n), id),
    decreases rules.len() - n,
{
    if n < rules.len() {
        assert(rules.take(n + 1).drop_last() =~= rules.take(n));
        lemma_rule_found_persists(rules, id, n + 1);
    } else {
        assert(rules.take(n) =~= rules);
    }
}

/// Position of the first rule of `rules` with identifier `id`.
fn find_rule(rules: &Vec<Rule>, id: i32) -> (r: Option<usize>)
    ensures
        r matches Some(k) ==> rule_index(rules@, id) == Some(k as int) && k < rules.len(),
        r is None ==> rule_index(rules@, id) is None,
{
    let mut i: usize = 0;
    assert(rules@.take(0) =~= Seq::<Rule>::empty());
    while i < rules.len()
        invariant
            0 <= i <= rules.len(),
            rule_index(rules@.take(i as int), id) is None,
        decreases rules.len() - i,
    {
        assert(rules@.take(i + 1).drop_last() =~= rules@.take(i as int));
        if rules[i].id == id {
            proof {
                lemma_rule_found_persists(rules@, id, i as int + 1);
            }
            return Some(i);
        }
        i = i + 1;
    }
    assert(rules@.take(rules.len() as int) =~= rules@);
    None
}

/// Decides one choice against `ledger`, without writing.
fn decide(ledger: &Vec<Transaction>, rules: &Vec<Rule>, item: ResolveConflictPayload) -> (r: Result<
    (usize, Rule),
    ResolveError,
>)
    ensures
        r matches Ok((k, rule)) ==> resolve_step(ledger@, rules@, item) == Ok::<
            (int, Rule),
            ResolveError,
        >((k as int, rule)),
        r matches Err(e) ==> resolve_step(ledger@, rules@, item) == Err::<(int, Rule), ResolveError>(
            e,
        ),
        r matches Ok((k, _)) ==> k < ledger.len(),
{
    let k = match find_transaction(ledger, item.transaction_id) {
        None => {
            return Err(ResolveError::TransactionNotFound);
        },
        Some(k) => k,
    };
    if ledger[k].category_id.is_some() {
        return Err(ResolveError::NotAConflict);
    }
    let found = match applicable_rules(&ledger[k], rules) {
        Err(e) => {
            return Err(ResolveError::Unevaluable(e));
        },
        Ok(found) => found,
    };
    if found.len() < 2 {
        return Err(ResolveError::NotAConflict);
    }
    match find_rule(&found, item.rule_id) {
        None => Err(ResolveError::RuleNotInConflict),
        Some(j) => Ok((k, found[j].clone())),
    }
}

/// Takes the choices of `batch` one after the other. For each, looks the
/// transaction up in `ledger` and evaluates `rules` on it again; the choice
/// is taken only where the transaction is uncategorized, two or more rules
/// apply, and the rule chosen is one of them: its label, percentage and
/// category are then stamped on the transaction. A refused choice changes
/// nothing and does not stop the others. Returns the answer to each choice.
pub fn resolve_conflicts_rules(
    ledger: &mut Vec<Transaction>,
    rules: &Vec<Rule>,
    batch: &Vec<ResolveConflictPayload>,
) -> (answers: Vec<Result<(), ResolveError>>)
    ensures
        (final(ledger)@, answers@) == resolve_all(old(ledger)@, rules@, batch@),
{
    let ghost initial = ledger@;
    let mut answers: Vec<Result<(), ResolveError>> = Vec::new();
    let mut i: usize = 0;
    assert(batch@.take(0) =~= Seq::<ResolveConflictPayload>::empty());
    while i < batch.len()
        invariant
            0 <= i <= batch.len(),
            (ledger@, answers@) == resolve_all(initial, rules@, batch@.take(i as int)),
        decreases batch.len() - i,
    {
        assert(batch@.take(i + 1).drop_last() =~= batch@.take(i as int));
        assert(batch@.take(i + 1).last() == batch@[i as int]);
        let item = batch[i];
        match decide(ledger, rules, item) {
            Ok((k, rule)) => {
                let mut t = ledger[k].clone();
                t.stamp(&rule);
                ledger[k] = t;
                answers.push(Ok(()));
            },
            Err(e) => {
                answers.push(Err(e));
            },
        }
        i = i + 1;
    }
    assert(batch@.take(batch.len() as int) =~= batch@);
    answers
}

/// A choice naming a rule that is not among the rules that apply now to an
/// uncategorized transaction in conflict is refused.
pub proof fn lemma_rule_outside_conflict_rejected(
    ledger: Seq<Transaction>,
    rules: Seq<Rule>,
    item: ResolveConflictPayload,
)
    requires
        transaction_index(ledger, item.transaction_id) is Some,
        is_uncategorized(ledger[transaction_index(ledger, item.transaction_id)->Some_0]),
        matching_rules(ledger[transaction_index(ledger, item.transaction_id)->Some_0], rules) is Ok,
        ({
            let found = matching_rules(
                ledger[transaction_index(ledger, item.transaction_id)->Some_0],
                rules,
            )->Ok_0;
            found.len() >= 2 && forall|j: int|
                0 <= j < found.len() ==> (#[trigger] found[j]).id != item.rule_id
        }),
    ensures
        resolve_step(ledger, rules, item) == Err::<(int, Rule), ResolveError>(
            ResolveError::RuleNotInConflict,
        ),
{
    let k = transaction_index(ledger, item.transaction_id)->Some_0;
    let found = matching_rules(ledger[k], rules)->Ok_0;
    lemma_rule_index_in_range(found, item.rule_id);
}

/// Stamping a transaction keeps the position at which each identifier is
/// found.
proof fn lemma_stamp_keeps_index(txs: Seq<Transaction>, k: int, rule: Rule, id: i32)
    requires
        0 <= k < txs.len(),
    ensures
        transaction_index(txs.update(k, stamped(txs[k], rule)), id) == transaction_index(txs, id),
    decreases txs.len(),
{
    let updated = txs.update(k, stamped(txs[k], rule));
    if k < txs.len() - 1 {
        assert(updated.drop_last() =~= txs.drop_last().update(k, stamped(txs[k], rule)));
        lemma_stamp_keeps_index(txs.drop_last(), k, rule, id);
    } else {
        assert(updated.drop_last() =~= txs.drop_last());
    }
}

/// Once a choice is taken, the transaction has a category, and any later
/// choice for it is refused as no longer a conflict.
pub proof fn lemma_resolved_transaction_is_settled(
    ledger: Seq<Transaction>,
    rules: Seq<Rule>,
    item: ResolveConflictPayload,
    later: ResolveConflictPayload,
)
    requires
        resolve_step(ledger, rules, item) is Ok,
        later.transaction_id == item.transaction_id,
    ensures
        ({
            let (k, rule) = resolve_step(ledger, rules, item)->Ok_0;
            resolve_step(ledger.update(k, stamped(ledger[k], rule)), rules, later) == Err::<
                (int, Rule),
                ResolveError,
            >(ResolveError::NotAConflict)
        }),
{
    let (k, rule) = resolve_step(ledger, rules, item)->Ok_0;
    lemma_transaction_index_in_range(ledger, item.transaction_id);
    lemma_stamp_keeps_index(ledger, k, rule, later.transaction_id);
}

/// A refused choice does not change what happens to the others: the batch
/// without it leaves the same ledger and gives the same answers to the
/// other choices.
pub proof fn lemma_rejection_is_isolated(
    ledger: Seq<Transaction>,
    rules: Seq<Rule>,
    batch: Seq<ResolveConflictPayload>,
    n: int,
)
    requires
        0 <= n < batch.len(),
        resolve_all(ledger, rules, batch).1[n] is Err,
    ensures
        resolve_all(ledger, rules, batch.remove(n)).0 == resolve_all(ledger, rules, batch).0,
        resolve_all(ledger, rules, batch.remove(n)).1 == resolve_all(ledger, rules, batch).1.remove(
            n,
        ),
    decreases batch.len(),
{
    let init = batch.drop_last();
    lemma_answers_len(ledger, rules, init);
    if n == batch.len() - 1 {
        assert(batch.remove(n) =~= init);
        let (current, answers) = resolve_all(ledger, rules, init);
        assert(resolve_all(ledger, rules, batch).1.remove(n) =~= answers);
    } else {
        let (current, answers) = resolve_all(ledger, rules, init);
        assert(resolve_all(ledger, rules, batch).1[n] == answers[n]);
        lemma_rejection_is_isolated(ledger, rules, init, n);
        let shorter = batch.remove(n);
        assert(shorter.drop_last() =~= init.remove(n));
        assert(shorter.last() == batch.last());
        let (c2, a2) = resolve_all(ledger, rules, init.remove(n));
        assert(c2 == current);
        assert(a2 == answers.remove(n));
        match resolve_step(current, rules, batch.last()) {
            Ok((k, rule)) => {
                assert(a2.push(Ok(())) =~= answers.push(Ok(())).remove(n));
            },
            Err(e) => {
                assert(a2.push(Err(e)) =~= answers.push(Err(e)).remove(n));
            },
        }
    }
}

/// One answer per choice.
proof fn lemma_answers_len(
    ledger: Seq<Transaction>,
    rules: Seq<Rule>,
    batch: Seq<ResolveConflictPayload>,
)
    ensures
        resolve_all(ledger, rules, batch).1.len() == batch.len(),
    decreases batch.len(),
{
    if batch.len() > 0 {
        lemma_answers_len(ledger, rules, batch.drop_last());
    }
}

/// Where `rule_index` finds nothing, no rule has the identifier.
proof fn lemma_rule_index_complete(rules: Seq<Rule>, id: i32)
    ensures
        rule_index(rules, id) is None ==> forall|j: int| 0 <= j < rules.len() ==> (#[trigger] rules[j]).id != id,
    decreases rules.len(),
{
    if rules.len() > 0 {
        lemma_rule_index_complete(rules.drop_last(), id);
        if rule_index(rules, id) is None {
            assert forall|j: int| 0 <= j < rules.len() implies (#[trigger] rules[j]).id != id by {
                if j < rules.len() - 1 {
                    assert(rules[j] == rules.drop_last()[j]);
                }
            }
        }
    }
}

/// A choice naming one of the rules that apply now to an uncategorized
/// transaction in conflict is taken: the transaction is stamped with the
/// first of those rules with that identifier, and the answer is a success.
pub proof fn lemma_choice_in_conflict_is_taken(
    ledger: Seq<Transaction>,
    rules: Seq<Rule>,
    item: ResolveConflictPayload,
)
    requires
        transaction_index(ledger, item.transaction_id) is Some,
        is_uncategorized(ledger[transaction_index(ledger, item.transaction_id)->Some_0]),
        matching_rules(ledger[transaction_index(ledger, item.transaction_id)->Some_0], rules) is Ok,
        ({
            let found = matching_rules(
                ledger[transaction_index(ledger, item.transaction_id)->Some_0],
                rules,
            )->Ok_0;
            found.len() >= 2 && exists|j: int|
                0 <= j < found.len() && (#[trigger] found[j]).id == item.rule_id
        }),
    ensures
        ({
            let k = transaction_index(ledger, item.transaction_id)->Some_0;
            let found = matching_rules(ledger[k], rules)->Ok_0;
            let j = rule_index(found, item.rule_id)->Some_0;
            &&& rule_index(found, item.rule_id) is Some
            &&& 0 <= j < found.len()
            &&& found[j].id == item.rule_id
            &&& resolve_step(ledger, rules, item) == Ok::<(int, Rule), ResolveError>((k, found[j]))
            &&& resolve_all(ledger, rules, seq![item]) == (
                ledger.update(k, stamped(ledger[k], found[j])),
                seq![Ok::<(), ResolveError>(())],
            )
        }),
{
    let k = transaction_index(ledger, item.transaction_id)->Some_0;
    let found = matching_rules(ledger[k], rules)->Ok_0;
    lemma_rule_index_complete(found, item.rule_id);
    lemma_rule_index_in_range(found, item.rule_id);
    lemma_transaction_index_in_range(ledger, item.transaction_id);
    let batch = seq![item];
    assert(batch.drop_last() =~= Seq::<ResolveConflictPayload>::empty());
    assert(resolve_all(ledger, rules, batch.drop_last()) == (
        ledger,
        Seq::<Result<(), ResolveError>>::empty(),
    ));
    assert(batch.last() == item);
    assert(resolve_step(ledger, rules, item) == Ok::<(int, Rule), ResolveError>(
        (k, found[rule_index(found, item.rule_id)->Some_0]),
    ));
    assert(Seq::<Result<(), ResolveError>>::empty().push(Ok(())) =~= seq![Ok::<(), ResolveError>(())]);
}

} // verus!
