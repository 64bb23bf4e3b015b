//! The typed draft records an intake produces, and the read-only contact
//! projection used for auto-fill. Every draft starts in the `DRAFT` status;
//! confirmation rewrites it to the kind's active status. Currency amounts
//! are carried in whole cents so they stay exact integers.

use vstd::prelude::*;

verus! {

/// A draft invoice: who is billed, for how much, and for what work.
#[derive(Clone, Debug)]
pub struct InvoiceDraft {
    pub id: String,
    pub client: String,
    pub amount_cents: i64,
    pub status: String,
    pub description: String,
    pub client_phone: Option<String>,
    pub client_company: Option<String>,
    pub pdf_path: Option<String>,
}

/// A draft task: an action item with an optional due date.
#[derive(Clone, Debug)]
pub struct TaskDraft {
    pub id: String,
    pub description: String,
    pub status: String,
    pub created_at: String,
    pub due_date: Option<String>,
}

/// A draft contact: a name and phone, with an optional company.
#[derive(Clone, Debug)]
pub struct ContactDraft {
    pub id: String,
    pub name: String,
    pub phone: String,
    pub company: Option<String>,
    pub created_at: String,
}

/// A draft expense read from a receipt.
#[derive(Clone, Debug)]
pub struct ExpenseDraft {
    pub id: String,
    pub merchant: String,
    pub amount_cents: i64,
    pub category: String,
    pub date: String,
    pub image_path: Option<String>,
    pub status: String,
}

/// A read-only projection of a stored contact, used for suggestion lists.
#[derive(Clone, Debug)]
pub struct ContactSuggestion {
    pub id: String,
    pub name: String,
    pub phone: String,
    pub company: Option<String>,
}

/// A draft of any of the four kinds.
#[derive(Clone, Debug)]
pub enum DraftRecord {
    Invoice(InvoiceDraft),
    Task(TaskDraft),
    Contact(ContactDraft),
    Expense(ExpenseDraft),
}

/// The status every fresh draft carries.
pub fn draft_status() -> (r: String)
    ensures
        r@ == "DRAFT"@,
{
    String::from_str("DRAFT")
}

/// A duplicate of a contact suggestion, equal to the original.
pub fn duplicate_suggestion(c: &ContactSuggestion) -> (r: ContactSuggestion)
    ensures
        r == *c,
{
    ContactSuggestion {
        id: c.id.clone(),
        name: c.name.clone(),
        phone: c.phone.clone(),
        company: match &c.company {
            Some(s) => Some(s.clone()),
            None => None,
        },
    }
}

} // verus!
