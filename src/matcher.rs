//! Which of a list of rules apply to one transaction.
use vstd::prelude::*;
use crate::model::{
    Rule, Transaction, Timestamp, moment_le, start_of_day, last_second_of_day,
};
use crate::pattern::{comma_pieces, text_verdict, any_pattern_finds};

verus! {

/// Why a rule could not be evaluated.
#[derive(Clone, Copy, Debug, PartialEq, Eq, Structural)]
pub enum MatchError {
    /// One of the rule's patterns is not a valid regular expression.
    InvalidPattern { rule_id: i32 },
}

/// A transaction whose rules could not be evaluated, and why.
#[derive(Clone, Copy, Debug, PartialEq, Eq, Structural)]
pub struct TransactionFailure {
    pub transaction_id: i32,
    pub error: MatchError,
}

/// The date branch: both bounds are set and the transaction's moment lies
/// between midnight of the first day and 23:59:59 of the last, inclusive.
pub open spec fn date_branch(t: Transaction, r: Rule) -> bool {
    match (r.date_start, r.date_end) {
        (Some(start), Some(end)) => moment_le(start_of_day(start), t.date) && moment_le(
            t.date,
            last_second_of_day(end),
        ),
        _ => false,
    }
}

/// Whether `r` applies to `t`: by its patterns where it has any, else by its
/// date range. `None` where one of its patterns does not compile.
pub open spec fn rule_verdict(t: Transaction, r: Rule) -> Option<bool> {
    match r.regexpr {
        Some(p) => text_verdict(comma_pieces(p@), t.description@),
        None => Some(date_branch(t, r)),
    }
}

/// The rules of `rules` that apply to `t`, in their order, or the error of
/// the first rule that cannot be evaluated.
pub open spec fn matching_rules(t: Transaction, rules: Seq<Rule>) -> Result<Seq<Rule>, MatchError>
    decreases rules.len(),
{
    if rules.len() == 0 {
        Ok(Seq::empty())
    } else {
        match matching_rules(t, rules.drop_last()) {
            Err(e) => Err(e),
            Ok(found) => match rule_verdict(t, rules.last()) {
                None => Err(MatchError::InvalidPattern { rule_id: rules.last().id }),
                Some(true) => Ok(found.push(rules.last())),
                Some(false) => Ok(found),
            },
        }
    }
}

/// Whether the date range of `rule` holds `t`.
pub fn in_date_range(t: &Transaction, rule: &Rule) -> (r: bool)
    ensures
        r == date_branch(*t, *rule),
{
    match (rule.date_start, rule.date_end) {
        (Some(start), Some(end)) => {
            Timestamp::start_of(start).at_or_before(&t.date) && t.date.at_or_before(
                &Timestamp::last_second_of(end),
            )
        },
        _ => false,
    }
}

/// Whether `rule` applies to `t`.
pub fn rule_applies(t: &Transaction, rule: &Rule) -> (r: Result<bool, MatchError>)
    ensures
        r matches Ok(b) ==> rule_verdict(*t, *rule) == Some(b),
        r matches Err(e) ==> rule_verdict(*t, *rule) is None && e == (MatchError::InvalidPattern {
            rule_id: rule.id,
        }),
{
    match &rule.regexpr {
        Some(p) => match any_pattern_finds(p.as_str(), t.description.as_str()) {
            Ok(b) => Ok(b),
            Err(_) => Err(MatchError::InvalidPattern { rule_id: rule.id }),
        },
        None => Ok(in_date_range(t, rule)),
    }
}

/// The rules of `rules` that apply to `transaction`, in their order; fails
/// at the first rule holding a pattern that does not compile.
pub fn applicable_rules(transaction: &Transaction, rules: &Vec<Rule>) -> (r: Result<
    Vec<Rule>,
    MatchError,
>)
    ensures
        r matches Ok(v) ==> matching_rules(*transaction, rules@) == Ok::<Seq<Rule>, MatchError>(
            v@,
        ),
        r matches Err(e) ==> matching_rules(*transaction, rules@) == Err::<Seq<Rule>, MatchError>(
            e,
        ),
{
    let mut found: Vec<Rule> = Vec::new();
    let mut i: usize = 0;
    assert(rules@.take(0) =~= Seq::<Rule>::empty());
    while i < rules.len()
        invariant
            0 <= i <= rules.len(),
            matching_rules(*transaction, rules@.take(i as int)) == Ok::<Seq<Rule>, MatchError>(
                found@,
            ),
        decreases rules.len() - i,
    {
        let ghost prefix = rules@.take(i + 1);
        assert(prefix.drop_last() =~= rules@.take(i as int));
        assert(prefix.last() == rules@[i as int]);
        match rule_applies(transaction, &rules[i]) {
            Err(e) => {
                assert(rules@ =~= rules@.take(rules.len() as int));
                proof {
                    lemma_error_persists(*transaction, rules@, i as int + 1);
                }
                return Err(e);
            },
            Ok(true) => {
                found.push(rules[i].clone());
            },
            Ok(false) => {},
        }
        i = i + 1;
    }
    assert(rules@.take(rules.len() as int) =~= rules@);
    Ok(found)
}

/// A rule with neither patterns nor dates.
pub open spec fn is_inert(r: Rule) -> bool {
    r.regexpr is None && r.date_start is None && r.date_end is None
}

/// Every rule that `matching_rules` returns applies on its own.
pub proof fn lemma_found_rules_apply(t: Transaction, rules: Seq<Rule>)
    ensures
        matching_rules(t, rules) matches Ok(found) ==> forall|k: int|
            0 <= k < found.len() ==> rule_verdict(t, #[trigger] found[k]) == Some(true),
    decreases rules.len(),
{
    if rules.len() > 0 {
        lemma_found_rules_apply(t, rules.drop_last());
    }
}

/// An inert rule never applies to any transaction, is never an error, and
/// never stands among the rules found for a transaction.
pub proof fn lemma_inert_rule_never_applies(t: Transaction, rules: Seq<Rule>, r: Rule)
    requires
        is_inert(r),
    ensures
        rule_verdict(t, r) == Some(false),
        matching_rules(t, rules) matches Ok(found) ==> !found.contains(r),
{
    lemma_found_rules_apply(t, rules);
}

/// A rule with a start date and no end date never applies through its date
/// range; without patterns it never applies at all.
pub proof fn lemma_open_ended_range_never_matches(t: Transaction, r: Rule)
    requires
        r.date_start is Some,
        r.date_end is None,
    ensures
        !date_branch(t, r),
        r.regexpr is None ==> rule_verdict(t, r) == Some(false),
{
}

/// Once a prefix of the rules fails, every longer prefix fails the same way.
proof fn lemma_error_persists(t: Transaction, rules: Seq<Rule>, n: int)
    requires
        0 <= n <= rules.len(),
        matching_rules(t, rules.take(n)) is Err,
    ensures
        matching_rules(t, rules) == matching_rules(t, rules.take(n)),
    decreases rules.len() - n,
{
    if n < rules.len() {
        assert(rules.take(n + 1).drop_last() =~= rules.take(n));
        lemma_error_persists(t, rules, n + 1);
    } else {
        assert(rules.take(n) =~= rules);
    }
}

} // verus!
