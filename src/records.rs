//! Plain records exchanged with the ledger's store and its forms.
use vstd::prelude::*;

verus! {

/// A person's choice of rule for a transaction in conflict.
#[derive(Clone, Copy, Debug, PartialEq, Eq, Structural)]
pub struct ResolveConflictPayload {
    pub transaction_id: i32,
    pub rule_id: i32,
}

/// A category: what kind of transaction it holds, its group and its name.
#[derive(Clone, Debug)]
pub struct CategoryDTO {
    pub id: i32,
    pub transaction_type: String,
    pub macro_category: String,
    pub category: String,
}

/// A link marking a rule active for an account.
#[derive(Clone, Copy, Debug, PartialEq, Eq, Structural)]
pub struct AccountRuleDTO {
    pub id: i32,
    pub account_id: i32,
    pub rule_id: i32,
}

/// An account.
#[derive(Clone, Debug)]
pub struct AccountDTO {
    pub id: i32,
    pub name: String,
}

/// Where an account's statement files keep each column, and the text of
/// the cell after which the rows of transactions begin.
#[derive(Clone, Debug)]
pub struct AccountSettingsDTO {
    pub id: i32,
    pub account_id: i32,
    pub date_index: i32,
    pub description_index: i32,
    pub value_index: i32,
    pub starter_string: String,
}

/// New column settings for an account.
#[derive(Clone, Debug)]
pub struct UpdateSettingForm {
    pub date_index: i32,
    pub description_index: i32,
    pub value_index: i32,
    pub starter_string: String,
}

/// The name of a new account.
#[derive(Clone, Debug)]
pub struct NewAccountForm {
    pub name: String,
}

/// The fields of a new category.
#[derive(Clone, Debug)]
pub struct AddCategoryForm {
    pub transaction_type: String,
    pub macro_category: String,
    pub category: String,
}

/// The fields of an edited category.
#[derive(Clone, Debug)]
pub struct CategoryForm {
    pub transaction_type: String,
    pub macro_category: String,
    pub category: String,
}

/// A period given by its first and last day, as entered.
#[derive(Clone, Debug)]
pub struct DateRange {
    pub start: String,
    pub end: String,
}

} // verus!
