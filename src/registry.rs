//! Which rules are active for an account.
use vstd::prelude::*;
use crate::model::Rule;
use crate::records::AccountRuleDTO;

verus! {

/// Whether a link in `links` marks rule `rule_id` active for `account_id`.
pub open spec fn is_linked(links: Seq<AccountRuleDTO>, account_id: i32, rule_id: i32) -> bool {
    exists|k: int|
        0 <= k < links.len() && (#[trigger] links[k]).account_id == account_id && links[k].rule_id
            == rule_id
}

/// The rules of `rules`, in their order, whose link to `account_id` is
/// present (`active`) or absent (`!active`).
pub open spec fn rules_by_link(
    rules: Seq<Rule>,
    links: Seq<AccountRuleDTO>,
    account_id: i32,
    active: bool,
) -> Seq<Rule>
    decreases rules.len(),
{
    if rules.len() == 0 {
        Seq::empty()
    } else {
        let before = rules_by_link(rules.drop_last(), links, account_id, active);
        if is_linked(links, account_id, rules.last().id) == active {
            before.push(rules.last())
        } else {
            before
        }
    }
}

/// Whether `links` mark rule `rule_id` active for `account_id`.
pub fn has_link(links: &Vec<AccountRuleDTO>, account_id: i32, rule_id: i32) -> (r: bool)
    ensures
        r == is_linked(links@, account_id, rule_id),
{
    let mut i: usize = 0;
    while i < links.len()
        invariant
            0 <= i <= links.len(),
            forall|k: int|
                0 <= k < i ==> !((#[trigger] links@[k]).account_id == account_id
                    && links@[k].rule_id == rule_id),
        decreases links.len() - i,
    {
        if links[i].account_id == account_id && links[i].rule_id == rule_id {
            return true;
        }
        i = i + 1;
    }
    false
}

/// The rules of `rules` whose link to `account_id` is present, or absent
/// when `active` is false, in their order.
fn select_rules(rules: &Vec<Rule>, links: &Vec<AccountRuleDTO>, account_id: i32, active: bool) -> (r:
    Vec<Rule>)
    ensures
        r@ == rules_by_link(rules@, links@, account_id, active),
{
    let mut selected: Vec<Rule> = Vec::new();
    let mut i: usize = 0;
    assert(rules@.take(0) =~= Seq::<Rule>::empty());
    while i < rules.len()
        invariant
            0 <= i <= rules.len(),
            selected@ == rules_by_link(rules@.take(i as int), links@, account_id, active),
        decreases rules.len() - i,
    {
        assert(rules@.take(i + 1).drop_last() =~= rules@.take(i as int));
        if has_link(links, account_id, rules[i].id) == active {
            selected.push(rules[i].clone());
        }
        i = i + 1;
    }
    assert(rules@.take(rules.len() as int) =~= rules@);
    selected
}

/// The rules that the planner sees for `account_id`: those of `rules` with
/// a link to it, in their order.
pub fn active_rules(rules: &Vec<Rule>, links: &Vec<AccountRuleDTO>, account_id: i32) -> (r: Vec<
    Rule,
>)
    ensures
        r@ == rules_by_link(rules@, links@, account_id, true),
{
    select_rules(rules, links, account_id, true)
}

/// The rules of `rules` without a link to `account_id`, in their order.
pub fn inactive_rules(rules: &Vec<Rule>, links: &Vec<AccountRuleDTO>, account_id: i32) -> (r: Vec<
    Rule,
>)
    ensures
        r@ == rules_by_link(rules@, links@, account_id, false),
{
    select_rules(rules, links, account_id, false)
}

/// Marks rule `rule_id` active for `account_id` with a new link numbered
/// `id`, unless a link already does. Returns whether a link was added.
pub fn activate_rule_handler(links: &mut Vec<AccountRuleDTO>, id: i32, account_id: i32, rule_id: i32) -> (added: bool)
    ensures
        added == !is_linked(old(links)@, account_id, rule_id),
        final(links)@ == if added {
            old(links)@.push(AccountRuleDTO { id, account_id, rule_id })
        } else {
            old(links)@
        },
        is_linked(final(links)@, account_id, rule_id),
{
    if has_link(links, account_id, rule_id) {
        return false;
    }
    links.push(AccountRuleDTO { id, account_id, rule_id });
    assert(links@[links@.len() - 1] == AccountRuleDTO { id, account_id, rule_id });
    true
}

/// Whether `link` joins `account_id` to `rule_id`.
pub open spec fn joins(link: AccountRuleDTO, account_id: i32, rule_id: i32) -> bool {
    link.account_id == account_id && link.rule_id == rule_id
}

/// The links of `links`, in their order, but those joining `account_id` to
/// `rule_id`.
pub open spec fn links_without(links: Seq<AccountRuleDTO>, account_id: i32, rule_id: i32) -> Seq<
    AccountRuleDTO,
>
    decreases links.len(),
{
    if links.len() == 0 {
        Seq::empty()
    } else {
        let before = links_without(links.drop_last(), account_id, rule_id);
        if joins(links.last(), account_id, rule_id) {
            before
        } else {
            before.push(links.last())
        }
    }
}

/// No link that `links_without` keeps joins the pair it removed.
proof fn lemma_links_without_unlinks(links: Seq<AccountRuleDTO>, account_id: i32, rule_id: i32)
    ensures
        !is_linked(links_without(links, account_id, rule_id), account_id, rule_id),
    decreases links.len(),
{
    if links.len() > 0 {
        lemma_links_without_unlinks(links.drop_last(), account_id, rule_id);
        let before = links_without(links.drop_last(), account_id, rule_id);
        if !joins(links.last(), account_id, rule_id) {
            assert forall|k: int| 0 <= k < before.len() + 1 implies !joins(
                #[trigger] before.push(links.last())[k],
                account_id,
                rule_id,
            ) by {
                if k < before.len() {
                    assert(before.push(links.last())[k] == before[k]);
                }
            }
        }
    }
}

/// Removes every link that marks rule `rule_id` active for `account_id`,
/// keeping the others in their order.
pub fn deactivate_rule_handler(links: &mut Vec<AccountRuleDTO>, account_id: i32, rule_id: i32)
    ensures
        final(links)@ == links_without(old(links)@, account_id, rule_id),
        !is_linked(final(links)@, account_id, rule_id),
{
    let ghost initial = links@;
    let mut kept: Vec<AccountRuleDTO> = Vec::new();
    let mut i: usize = 0;
    assert(initial.take(0) =~= Seq::<AccountRuleDTO>::empty());
    while i < links.len()
        invariant
            0 <= i <= links.len(),
            links@ == initial,
            kept@ == links_without(initial.take(i as int), account_id, rule_id),
        decreases links.len() - i,
    {
        assert(initial.take(i + 1).drop_last() =~= initial.take(i as int));
        let link = links[i];
        if !(link.account_id == account_id && link.rule_id == rule_id) {
            kept.push(link);
        }
        i = i + 1;
    }
    assert(initial.take(initial.len() as int) =~= initial);
    proof {
        lemma_links_without_unlinks(initial, account_id, rule_id);
    }
    *links = kept;
}

} // verus!
