use ledger_rules::apply::apply_rules;
use ledger_rules::forms::{
    add_account_rule_handler, add_transaction_handler, edit_rule, read_category_field, read_edit_date,
    read_form_date, read_form_moment, AddRuleForm, AddTransactionForm, FormError, RuleForm,
};
use ledger_rules::matcher::{applicable_rules, rule_applies, MatchError, TransactionFailure};
use ledger_rules::model::{CalendarDate, Rule, Timestamp, Transaction};
use ledger_rules::pattern::any_pattern_finds;
use ledger_rules::planner::{classify, plan, Outcome};
use ledger_rules::preview::{find_category_name, preview_apply_rules};
use ledger_rules::records::{AccountRuleDTO, CategoryDTO, ResolveConflictPayload};
use ledger_rules::registry::{activate_rule_handler, active_rules, deactivate_rule_handler, has_link, inactive_rules};
use ledger_rules::resolve::{resolve_conflicts_rules, ResolveError};

fn day(year: i32, month: u32, day: u32) -> CalendarDate {
    CalendarDate { year, month, day }
}

fn at(date: CalendarDate, seconds: u32, nanos: u32) -> Timestamp {
    Timestamp { date, seconds, nanos }
}

fn text_rule(id: i32, patterns: &str, category_id: i32) -> Rule {
    Rule {
        id,
        name: format!("rule {}", id),
        label: format!("label {}", id),
        percentage: (0.25f32 * id as f32).to_bits(),
        category_id,
        regexpr: Some(patterns.to_string()),
        date_start: None,
        date_end: None,
    }
}

fn date_rule(id: i32, start: Option<CalendarDate>, end: Option<CalendarDate>, category_id: i32) -> Rule {
    Rule {
        id,
        name: format!("rule {}", id),
        label: format!("label {}", id),
        percentage: 0.5f32.to_bits(),
        category_id,
        regexpr: None,
        date_start: start,
        date_end: end,
    }
}

fn tx(id: i32, description: &str, date: Timestamp) -> Transaction {
    Transaction {
        id,
        account_id: 1,
        category_id: None,
        value: (-4.5f64).to_bits(),
        description: description.to_string(),
        date,
        perc_to_exclude: 0.0f32.to_bits(),
        label: String::new(),
    }
}

fn noon(d: CalendarDate) -> Timestamp {
    at(d, 12 * 3600, 0)
}

fn category(id: i32, name: &str) -> CategoryDTO {
    CategoryDTO {
        id,
        transaction_type: "expense".to_string(),
        macro_category: "food".to_string(),
        category: name.to_string(),
    }
}

fn ids(rules: &[Rule]) -> Vec<i32> {
    rules.iter().map(|r| r.id).collect()
}

#[test]
fn starbucks_conflict_is_resolved_once() {
    let rules = vec![text_rule(1, "STARBUCKS", 10), text_rule(2, "STARBUCKS|COSTA", 20)];
    let t = tx(7, "STARBUCKS #4521", noon(day(2024, 3, 15)));
    let found = applicable_rules(&t, &rules).unwrap();
    assert_eq!(ids(&found), vec![1, 2]);
    match classify(found) {
        Outcome::Conflict(v) => assert_eq!(ids(&v), vec![1, 2]),
        other => panic!("expected a conflict, got {:?}", other),
    }
    let mut ledger = vec![t];
    let answers = resolve_conflicts_rules(
        &mut ledger,
        &rules,
        &vec![ResolveConflictPayload { transaction_id: 7, rule_id: 1 }],
    );
    assert_eq!(answers, vec![Ok(())]);
    assert_eq!(ledger[0].category_id, Some(10));
    assert_eq!(ledger[0].label, "label 1");
    assert_eq!(ledger[0].perc_to_exclude, 0.25f32.to_bits());
    let again = resolve_conflicts_rules(
        &mut ledger,
        &rules,
        &vec![ResolveConflictPayload { transaction_id: 7, rule_id: 2 }],
    );
    assert_eq!(again, vec![Err(ResolveError::NotAConflict)]);
    assert_eq!(ledger[0].category_id, Some(10));
}

#[test]
fn date_range_gives_single_match() {
    let rules = vec![date_rule(3, Some(day(2024, 1, 1)), Some(day(2024, 12, 31)), 30)];
    let t = tx(1, "anything", at(day(2024, 3, 15), 0, 0));
    let found = applicable_rules(&t, &rules).unwrap();
    assert_eq!(ids(&found), vec![3]);
    match classify(found) {
        Outcome::SingleMatch(r) => assert_eq!(r.id, 3),
        other => panic!("expected a single match, got {:?}", other),
    }
}

#[test]
fn inert_rule_never_applies() {
    let inert = date_rule(4, None, None, 40);
    for (k, when) in [day(1970, 1, 1), day(2024, 2, 29), day(2999, 12, 31)].iter().enumerate() {
        let t = tx(k as i32, "", noon(*when));
        assert_eq!(rule_applies(&t, &inert), Ok(false));
        assert!(applicable_rules(&t, &vec![inert.clone()]).unwrap().is_empty());
    }
}

#[test]
fn start_date_alone_never_matches() {
    let rule = date_rule(5, Some(day(2024, 1, 1)), None, 50);
    let t = tx(1, "x", noon(day(2024, 6, 1)));
    assert_eq!(rule_applies(&t, &rule), Ok(false));
    let end_only = date_rule(6, None, Some(day(2024, 12, 31)), 60);
    assert_eq!(rule_applies(&t, &end_only), Ok(false));
}

#[test]
fn any_comma_pattern_matches() {
    assert_eq!(any_pattern_finds("FOO,BAR", "paid BAR 12"), Ok(true));
    assert_eq!(any_pattern_finds("FOO,BAR", "paid FOO"), Ok(true));
    assert_eq!(any_pattern_finds("FOO,BAR", "paid BAZ"), Ok(false));
    let rule = text_rule(8, "AMAZON,AMZN", 80);
    assert_eq!(rule_applies(&tx(1, "AMZN Mktp", noon(day(2024, 1, 1))), &rule), Ok(true));
}

#[test]
fn matching_is_case_sensitive() {
    let rule = text_rule(9, "STARBUCKS", 90);
    assert_eq!(rule_applies(&tx(1, "starbucks", noon(day(2024, 1, 1))), &rule), Ok(false));
}

#[test]
fn empty_pattern_matches_every_text() {
    let rule = text_rule(11, "", 110);
    assert_eq!(rule_applies(&tx(1, "whatever", noon(day(2024, 1, 1))), &rule), Ok(true));
}

#[test]
fn malformed_pattern_is_a_configuration_error() {
    let rules = vec![text_rule(1, "COFFEE", 10), text_rule(12, "(", 120)];
    let t = tx(1, "COFFEE", noon(day(2024, 1, 1)));
    assert_eq!(applicable_rules(&t, &rules).unwrap_err(), MatchError::InvalidPattern { rule_id: 12 });
    assert!(any_pattern_finds("(", "COFFEE").is_err());
}

#[test]
fn malformed_pattern_fails_even_after_a_match() {
    let rule = text_rule(13, "COFFEE,(", 130);
    assert_eq!(
        rule_applies(&tx(1, "COFFEE", noon(day(2024, 1, 1))), &rule),
        Err(MatchError::InvalidPattern { rule_id: 13 })
    );
    assert_eq!(
        rule_applies(&tx(1, "TEA", noon(day(2024, 1, 1))), &rule),
        Err(MatchError::InvalidPattern { rule_id: 13 })
    );
    assert!(any_pattern_finds("COFFEE,(", "COFFEE").is_err());
    assert!(any_pattern_finds("(,COFFEE", "COFFEE").is_err());
}

#[test]
fn text_criterion_takes_precedence_over_dates() {
    let mut rule = text_rule(14, "GYM", 140);
    rule.date_start = Some(day(2024, 1, 1));
    rule.date_end = Some(day(2024, 12, 31));
    let t = tx(1, "GROCERY", noon(day(2024, 5, 5)));
    assert_eq!(rule_applies(&t, &rule), Ok(false));
    let g = tx(2, "GYM monthly", noon(day(2030, 5, 5)));
    assert_eq!(rule_applies(&g, &rule), Ok(true));
}

#[test]
fn date_bounds_are_inclusive_to_the_second() {
    let rule = date_rule(15, Some(day(2024, 1, 1)), Some(day(2024, 12, 31)), 150);
    let cases = [
        (at(day(2024, 1, 1), 0, 0), true),
        (at(day(2023, 12, 31), 86399, 0), false),
        (at(day(2024, 12, 31), 86399, 0), true),
        (at(day(2024, 12, 31), 86399, 500), false),
        (at(day(2025, 1, 1), 0, 0), false),
    ];
    for (when, expected) in cases.iter() {
        assert_eq!(rule_applies(&tx(1, "", *when), &rule), Ok(*expected));
    }
}

#[test]
fn classification_follows_the_count() {
    assert!(matches!(classify(vec![]), Outcome::NoMatch));
    assert!(matches!(classify(vec![text_rule(1, "A", 1)]), Outcome::SingleMatch(_)));
    assert!(matches!(classify(vec![text_rule(1, "A", 1), text_rule(1, "A", 1)]), Outcome::Conflict(_)));
}

#[test]
fn plan_skips_categorized_transactions() {
    let rules = vec![text_rule(1, "A", 10)];
    let mut done = tx(2, "A", noon(day(2024, 1, 1)));
    done.category_id = Some(10);
    let ledger = vec![tx(1, "A", noon(day(2024, 1, 1))), done, tx(3, "B", noon(day(2024, 1, 1)))];
    let entries = plan(&ledger, &rules);
    assert_eq!(entries.len(), 2);
    assert_eq!(entries[0].transaction.id, 1);
    assert!(matches!(entries[0].outcome, Ok(Outcome::SingleMatch(_))));
    assert_eq!(entries[1].transaction.id, 3);
    assert!(matches!(entries[1].outcome, Ok(Outcome::NoMatch)));
}

fn sample() -> (Vec<Transaction>, Vec<Rule>, Vec<CategoryDTO>) {
    let rules = vec![text_rule(1, "STARBUCKS", 10), text_rule(2, "STARBUCKS|COSTA", 20), text_rule(3, "RENT", 30)];
    let ledger = vec![
        tx(1, "STARBUCKS #4521", noon(day(2024, 3, 15))),
        tx(2, "RENT march", noon(day(2024, 3, 1))),
        tx(3, "BAKERY", noon(day(2024, 3, 2))),
        tx(4, "COSTA coffee", noon(day(2024, 3, 3))),
    ];
    let cats = vec![category(10, "Coffee"), category(20, "CafeChain"), category(30, "Home")];
    (ledger, rules, cats)
}

#[test]
fn preview_shows_single_matches_and_conflicts() {
    let (ledger, rules, cats) = sample();
    let entries = preview_apply_rules(&ledger, &rules, &cats);
    let rows: Vec<_> = entries.into_iter().map(|e| e.unwrap()).collect();
    assert_eq!(rows.iter().map(|r| r.id).collect::<Vec<_>>(), vec![1, 2, 4]);
    assert_eq!(ids(&rows[0].conflicts), vec![1, 2]);
    assert_eq!(rows[0].label_new_value, None);
    assert_eq!(rows[0].perc_to_exclude_new_value, None);
    assert_eq!(rows[0].category_new_value, None);
    assert_eq!(rows[1].label_new_value, Some("label 3".to_string()));
    assert_eq!(rows[1].perc_to_exclude_new_value, Some(0.75f32.to_bits()));
    assert_eq!(rows[1].category_new_value, Some("Home".to_string()));
    assert_eq!(rows[1].category_old_value, "");
    assert_eq!(rows[1].label_old_value, "");
    assert_eq!(rows[2].category_new_value, Some("CafeChain".to_string()));
}

#[test]
fn preview_twice_gives_the_same_rows() {
    let (ledger, rules, cats) = sample();
    let first = format!("{:?}", preview_apply_rules(&ledger, &rules, &cats));
    let second = format!("{:?}", preview_apply_rules(&ledger, &rules, &cats));
    assert_eq!(first, second);
}

#[test]
fn preview_reports_a_broken_rule_per_transaction() {
    let (ledger, rules, cats) = sample();
    let mut broken = rules.clone();
    broken.push(text_rule(9, "[", 90));
    let entries = preview_apply_rules(&ledger, &broken, &cats);
    assert_eq!(entries.len(), 4);
    for (entry, id) in entries.iter().zip([1, 2, 3, 4]) {
        let failure = entry.as_ref().unwrap_err();
        assert_eq!(failure.transaction_id, id);
        assert_eq!(failure.error, MatchError::InvalidPattern { rule_id: 9 });
    }
    let only = vec![text_rule(1, "STARBUCKS", 10), text_rule(5, "BAKERY,(", 50)];
    let entries = preview_apply_rules(&ledger, &only, &cats);
    assert_eq!(entries.len(), 4);
    assert!(entries.iter().all(|e| e.is_err()));
}

#[test]
fn preview_after_apply_skips_stamped_transactions() {
    let (mut ledger, rules, cats) = sample();
    apply_rules(&mut ledger, &rules);
    let entries = preview_apply_rules(&ledger, &rules, &cats);
    let shown: Vec<i32> = entries.iter().map(|e| e.as_ref().unwrap().id).collect();
    assert_eq!(shown, vec![1]);
}

#[test]
fn missing_category_has_an_empty_name() {
    let cats = vec![category(10, "Coffee")];
    assert_eq!(find_category_name(&cats, 10), "Coffee");
    assert_eq!(find_category_name(&cats, 99), "");
}

#[test]
fn apply_stamps_only_single_matches() {
    let (mut ledger, rules, _) = sample();
    let before = ledger.clone();
    let summary = apply_rules(&mut ledger, &rules);
    assert!(summary.failures.is_empty());
    assert_eq!(summary.updated, 2);
    assert_eq!(ledger[0].category_id, None);
    assert_eq!(ledger[1].category_id, Some(30));
    assert_eq!(ledger[1].label, "label 3");
    assert_eq!(ledger[2].category_id, None);
    assert_eq!(ledger[3].category_id, Some(20));
    assert_eq!(format!("{:?}", ledger[0]), format!("{:?}", before[0]));
    assert_eq!(format!("{:?}", ledger[2]), format!("{:?}", before[2]));
    let replanned = plan(&ledger, &rules);
    assert_eq!(replanned.len(), 2);
    assert!(replanned.iter().all(|e| !matches!(e.outcome, Ok(Outcome::SingleMatch(_)))));
}

#[test]
fn apply_reports_failures_and_goes_on() {
    let rules = vec![text_rule(1, "COFFEE,(", 10)];
    let mut ledger = vec![tx(1, "TEA", noon(day(2024, 1, 1))), tx(2, "COFFEE", noon(day(2024, 1, 1)))];
    let summary = apply_rules(&mut ledger, &rules);
    assert_eq!(
        summary.failures,
        vec![
            TransactionFailure { transaction_id: 1, error: MatchError::InvalidPattern { rule_id: 1 } },
            TransactionFailure { transaction_id: 2, error: MatchError::InvalidPattern { rule_id: 1 } },
        ]
    );
    assert_eq!(summary.updated, 0);
    assert_eq!(ledger[0].category_id, None);
    assert_eq!(ledger[1].category_id, None);
    let rules = vec![text_rule(1, "COFFEE", 10), text_rule(2, "TEA,(", 20)];
    let mut ledger = vec![tx(1, "TEA", noon(day(2024, 1, 1))), tx(2, "COFFEE", noon(day(2024, 1, 1)))];
    let mut done = tx(3, "TEA", noon(day(2024, 1, 1)));
    done.category_id = Some(5);
    ledger.push(done);
    let summary = apply_rules(&mut ledger, &rules);
    assert_eq!(summary.failures.iter().map(|f| f.transaction_id).collect::<Vec<_>>(), vec![1, 2]);
    assert_eq!(summary.updated, 0);
}

#[test]
fn resolve_rejects_a_rule_outside_the_conflict_and_goes_on() {
    let (mut ledger, rules, _) = sample();
    let batch = vec![
        ResolveConflictPayload { transaction_id: 1, rule_id: 3 },
        ResolveConflictPayload { transaction_id: 99, rule_id: 1 },
        ResolveConflictPayload { transaction_id: 2, rule_id: 3 },
        ResolveConflictPayload { transaction_id: 1, rule_id: 2 },
    ];
    let answers = resolve_conflicts_rules(&mut ledger, &rules, &batch);
    assert_eq!(
        answers,
        vec![
            Err(ResolveError::RuleNotInConflict),
            Err(ResolveError::TransactionNotFound),
            Err(ResolveError::NotAConflict),
            Ok(()),
        ]
    );
    assert_eq!(ledger[0].category_id, Some(20));
    assert_eq!(ledger[1].category_id, None);
}

#[test]
fn resolve_reports_a_broken_rule() {
    let rules = vec![text_rule(1, "A", 10), text_rule(2, ")", 20)];
    let mut ledger = vec![tx(1, "A", noon(day(2024, 1, 1)))];
    let answers = resolve_conflicts_rules(
        &mut ledger,
        &rules,
        &vec![ResolveConflictPayload { transaction_id: 1, rule_id: 1 }],
    );
    assert_eq!(answers, vec![Err(ResolveError::Unevaluable(MatchError::InvalidPattern { rule_id: 2 }))]);
}

#[test]
fn active_rules_follow_the_links() {
    let rules = vec![text_rule(1, "A", 10), text_rule(2, "B", 20), text_rule(3, "C", 30)];
    let links = vec![
        AccountRuleDTO { id: 1, account_id: 5, rule_id: 3 },
        AccountRuleDTO { id: 2, account_id: 6, rule_id: 2 },
        AccountRuleDTO { id: 3, account_id: 5, rule_id: 1 },
    ];
    assert_eq!(ids(&active_rules(&rules, &links, 5)), vec![1, 3]);
    assert_eq!(ids(&inactive_rules(&rules, &links, 5)), vec![2]);
    assert!(active_rules(&rules, &links, 7).is_empty());
}

#[test]
fn form_dates_are_read() {
    assert_eq!(read_form_date(&None), Ok(None));
    assert_eq!(read_form_date(&Some(String::new())), Ok(None));
    assert_eq!(read_form_date(&Some("2024-03-15".to_string())), Ok(Some(day(2024, 3, 15))));
    assert_eq!(read_form_date(&Some("2024-13-01".to_string())), Err(FormError::BadDate));
    assert_eq!(read_form_date(&Some("15/03/2024".to_string())), Err(FormError::BadDate));
}

#[test]
fn category_field_is_read() {
    assert_eq!(read_category_field(&None), Ok(None));
    assert_eq!(read_category_field(&Some("   ".to_string())), Ok(None));
    assert_eq!(read_category_field(&Some("42".to_string())), Ok(Some(42)));
    assert_eq!(read_category_field(&Some("-7".to_string())), Ok(Some(-7)));
    assert_eq!(read_category_field(&Some("x1".to_string())), Err(FormError::BadNumber));
    assert_eq!(read_category_field(&Some(" 5".to_string())), Err(FormError::BadNumber));
}

#[test]
fn links_are_added_and_removed() {
    let mut links = vec![
        AccountRuleDTO { id: 1, account_id: 5, rule_id: 3 },
        AccountRuleDTO { id: 2, account_id: 6, rule_id: 3 },
        AccountRuleDTO { id: 3, account_id: 5, rule_id: 3 },
    ];
    assert!(activate_rule_handler(&mut links, 4, 5, 1));
    assert_eq!(links.len(), 4);
    assert!(!activate_rule_handler(&mut links, 9, 5, 1));
    assert_eq!(links.len(), 4);
    assert!(has_link(&links, 5, 1));
    deactivate_rule_handler(&mut links, 5, 3);
    assert_eq!(links.iter().map(|l| l.id).collect::<Vec<_>>(), vec![2, 4]);
    assert!(!has_link(&links, 5, 3));
    assert!(has_link(&links, 6, 3));
}

#[test]
fn edit_dates_are_read() {
    assert_eq!(read_edit_date(&"   ".to_string()), Ok(None));
    assert_eq!(read_edit_date(&"2024-12-31".to_string()), Ok(Some(day(2024, 12, 31))));
    assert_eq!(read_edit_date(&"2024-02-30".to_string()), Err(FormError::BadDate));
}

#[test]
fn form_moments_are_read() {
    assert_eq!(read_form_moment(&"2024-03-15T10:30".to_string()), Ok(at(day(2024, 3, 15), 10 * 3600 + 30 * 60, 0)));
    assert_eq!(read_form_moment(&"2024-03-15".to_string()), Err(FormError::BadDate));
}

#[test]
fn new_rule_is_built_from_its_form() {
    let form = AddRuleForm {
        name: "coffee".to_string(),
        label: "bar".to_string(),
        percentage: 0.5f32.to_bits(),
        category_id: 10,
        regexpr: Some("STARBUCKS".to_string()),
        date_start: Some("2024-01-01".to_string()),
        date_end: Some(String::new()),
    };
    let rule = add_account_rule_handler(&form, 77).unwrap();
    assert_eq!(rule.id, 77);
    assert_eq!(rule.name, "coffee");
    assert_eq!(rule.regexpr, Some("STARBUCKS".to_string()));
    assert_eq!(rule.date_start, Some(day(2024, 1, 1)));
    assert_eq!(rule.date_end, None);
    let mut bad = form.clone();
    bad.date_end = Some("31/12/2024".to_string());
    assert_eq!(add_account_rule_handler(&bad, 77).unwrap_err(), FormError::BadDate);
}

#[test]
fn rule_is_edited_or_left_alone() {
    let mut rule = text_rule(3, "OLD", 30);
    let form = RuleForm {
        name: "new".to_string(),
        label: "new label".to_string(),
        percentage: 1.0f32.to_bits(),
        category_id: 31,
        regexpr: "NEW".to_string(),
        date_start: " ".to_string(),
        date_end: "2024-06-30".to_string(),
    };
    assert_eq!(edit_rule(&mut rule, &form), Ok(()));
    assert_eq!(rule.id, 3);
    assert_eq!(rule.name, "new");
    assert_eq!(rule.category_id, 31);
    assert_eq!(rule.regexpr, Some("NEW".to_string()));
    assert_eq!(rule.date_start, None);
    assert_eq!(rule.date_end, Some(day(2024, 6, 30)));
    let mut bad = form.clone();
    bad.name = "other".to_string();
    bad.date_start = "June".to_string();
    assert_eq!(edit_rule(&mut rule, &bad), Err(FormError::BadDate));
    assert_eq!(rule.name, "new");
}

#[test]
fn new_transaction_is_built_from_its_form() {
    let form = AddTransactionForm {
        description: "STARBUCKS".to_string(),
        value: (-3.5f64).to_bits(),
        perc_to_exclude: 0.0f32.to_bits(),
        label: String::new(),
        date: "2024-03-15T08:05".to_string(),
        category_id: Some(" ".to_string()),
    };
    let t = add_transaction_handler(&form, 12, 4).unwrap();
    assert_eq!(t.id, 12);
    assert_eq!(t.account_id, 4);
    assert_eq!(t.category_id, None);
    assert_eq!(t.date, at(day(2024, 3, 15), 8 * 3600 + 5 * 60, 0));
    let mut with_cat = form.clone();
    with_cat.category_id = Some("10".to_string());
    assert_eq!(add_transaction_handler(&with_cat, 12, 4).unwrap().category_id, Some(10));
    let mut both_bad = form.clone();
    both_bad.category_id = Some("ten".to_string());
    both_bad.date = "yesterday".to_string();
    assert_eq!(add_transaction_handler(&both_bad, 12, 4).unwrap_err(), FormError::BadNumber);
    let mut bad_date = form.clone();
    bad_date.date = "yesterday".to_string();
    assert_eq!(add_transaction_handler(&bad_date, 12, 4).unwrap_err(), FormError::BadDate);
}
