//! Classification of uncategorized transactions by the rules that apply.
use vstd::prelude::*;
use crate::model::{Rule, Transaction, is_uncategorized};
use crate::matcher::{MatchError, matching_rules, applicable_rules};

verus! {

/// What the rules found for one transaction allow.
#[derive(Debug)]
pub enum Outcome {
    /// No rule applies: the transaction is left as it is.
    NoMatch,
    /// Exactly one rule applies: it can be stamped without asking.
    SingleMatch(Rule),
    /// Two or more rules apply, in their order: a person must choose.
    Conflict(Vec<Rule>),
}

impl View for Outcome {
    type V = Seq<Rule>;

    /// The rules that apply.
    open spec fn view(&self) -> Seq<Rule> {
        match self {
            Outcome::NoMatch => Seq::empty(),
            Outcome::SingleMatch(r) => seq![*r],
            Outcome::Conflict(v) => v@,
        }
    }
}

/// `o` holds the rules `found` under the variant that their number gives.
pub open spec fn classified(o: Outcome, found: Seq<Rule>) -> bool {
    &&& o@ == found
    &&& (o is NoMatch <==> found.len() == 0)
    &&& (o is SingleMatch <==> found.len() == 1)
    &&& (o is Conflict <==> found.len() >= 2)
}

/// Classifies a transaction by the rules that apply to it.
pub fn classify(applicable: Vec<Rule>) -> (o: Outcome)
    ensures
        classified(o, applicable@),
{
    if applicable.len() == 0 {
        assert(applicable@ =~= Seq::<Rule>::empty());
        Outcome::NoMatch
    } else if applicable.len() == 1 {
        let only = applicable[0].clone();
        assert(seq![only] =~= applicable@);
        Outcome::SingleMatch(only)
    } else {
        Outcome::Conflict(applicable)
    }
}

/// `outcome` is what the evaluation `m` of the rules gives.
pub open spec fn outcome_of(outcome: Result<Outcome, MatchError>, m: Result<Seq<Rule>, MatchError>) -> bool {
    match outcome {
        Ok(o) => m matches Ok(found) && classified(o, found),
        Err(e) => m == Err::<Seq<Rule>, MatchError>(e),
    }
}

/// The transactions of `txs` without a category, in their order.
pub open spec fn uncategorized(txs: Seq<Transaction>) -> Seq<Transaction>
    decreases txs.len(),
{
    if txs.len() == 0 {
        Seq::empty()
    } else if is_uncategorized(txs.last()) {
        uncategorized(txs.drop_last()).push(txs.last())
    } else {
        uncategorized(txs.drop_last())
    }
}

/// One transaction of a plan and its outcome.
#[derive(Debug)]
pub struct PlanEntry {
    pub transaction: Transaction,
    pub outcome: Result<Outcome, MatchError>,
}

/// `entries` classify the uncategorized transactions of `txs`, one entry
/// each, in their order.
pub open spec fn is_plan(entries: Seq<PlanEntry>, txs: Seq<Transaction>, rules: Seq<Rule>) -> bool {
    &&& entries.len() == uncategorized(txs).len()
    &&& forall|k: int|
        0 <= k < entries.len() ==> {
            &&& (#[trigger] entries[k]).transaction == uncategorized(txs)[k]
            &&& outcome_of(entries[k].outcome, matching_rules(entries[k].transaction, rules))
        }
}

/// Evaluates `rules` on every transaction of `transactions` that has no
/// category, and classifies each one. Writes nothing.
pub fn plan(transactions: &Vec<Transaction>, rules: &Vec<Rule>) -> (r: Vec<PlanEntry>)
    ensures
        is_plan(r@, transactions@, rules@),
{
    let mut entries: Vec<PlanEntry> = Vec::new();
    let mut i: usize = 0;
    assert(transactions@.take(0) =~= Seq::<Transaction>::empty());
    while i < transactions.len()
        invariant
            0 <= i <= transactions.len(),
            is_plan(entries@, transactions@.take(i as int), rules@),
        decreases transactions.len() - i,
    {
        let ghost before = transactions@.take(i as int);
        assert(transactions@.take(i + 1).drop_last() =~= before);
        let t = &transactions[i];
        if t.category_id.is_none() {
            let outcome = match applicable_rules(t, rules) {
                Ok(found) => Ok(classify(found)),
                Err(e) => Err(e),
            };
            entries.push(PlanEntry { transaction: t.clone(), outcome });
        }
        i = i + 1;
    }
    assert(transactions@.take(transactions.len() as int) =~= transactions@);
    entries
}

} // verus!
