//! Draft confirmation: promote a draft's status from `DRAFT` to the kind's
//! active status, and for invoices backfill missing contact details from
//! the first directory row whose name matches the client. Confirmation is
//! pure here: the caller hands the confirmed record to the store.

use vstd::prelude::*;

use crate::drafts::ContactDraft;
use crate::drafts::ContactSuggestion;
use crate::drafts::DraftRecord;
use crate::drafts::ExpenseDraft;
use crate::drafts::InvoiceDraft;
use crate::drafts::TaskDraft;
use crate::text::contains_ci;
use crate::text::str_contains_ci;
use crate::text::str_eq;

verus! {

/// The first directory row whose name contains the fragment, if any.
pub open spec fn first_ci_match(contacts: Seq<ContactSuggestion>, frag: Seq<char>) -> Option<
    ContactSuggestion,
>
    decreases contacts.len(),
{
    if contacts.len() == 0 {
        None
    } else if contains_ci(contacts[0].name@, frag) {
        Some(contacts[0])
    } else {
        first_ci_match(contacts.skip(1), frag)
    }
}

/// Find the first directory row whose name contains the fragment, compared
/// without regard to ASCII case.
pub fn find_first_match(contacts: &Vec<ContactSuggestion>, frag: &str) -> (r: Option<
    ContactSuggestion,
>)
    ensures
        r == first_ci_match(contacts@, frag@),
{
    let n = contacts.len();
    let mut i: usize = 0;
    proof {
        assert(contacts@.skip(0) =~= contacts@);
    }
    while i < n
        invariant
            n == contacts@.len(),
            i <= n,
            first_ci_match(contacts@, frag@) == first_ci_match(contacts@.skip(i as int), frag@),
        decreases n - i,
    {
        let c = &contacts[i];
        proof {
            assert(contacts@.skip(i as int)[0] == contacts@[i as int]);
            assert(contacts@.skip(i as int).skip(1) =~= contacts@.skip(i as int + 1));
        }
        if str_contains_ci(c.name.as_str(), frag) {
            return Some(crate::drafts::duplicate_suggestion(c));
        }
        i += 1;
    }
    proof {
        assert(contacts@.skip(n as int).len() == 0);
    }
    None
}

/// What confirming an invoice promises: everything kept, the status
/// promoted from `DRAFT` to `GENERATED`, and missing phone or company
/// backfilled from the first matching directory row.
pub open spec fn confirm_invoice_post(
    d: InvoiceDraft,
    r: InvoiceDraft,
    contacts: Seq<ContactSuggestion>,
) -> bool {
    let m = first_ci_match(contacts, d.client@);
    &&& r.id == d.id
    &&& r.client == d.client
    &&& r.amount_cents == d.amount_cents
    &&& r.description == d.description
    &&& r.pdf_path == d.pdf_path
    &&& r.status@ == if d.status@ == "DRAFT"@ {
        "GENERATED"@
    } else {
        d.status@
    }
    &&& (d.client_phone is Some ==> r.client_phone == d.client_phone)
    &&& (d.client_phone is None && m is Some ==> r.client_phone == Some(m->0.phone))
    &&& (d.client_phone is None && m is None ==> r.client_phone is None)
    &&& (d.client_company is Some ==> r.client_company == d.client_company)
    &&& (d.client_company is None && m is Some ==> r.client_company == m->0.company)
    &&& (d.client_company is None && m is None ==> r.client_company is None)
}

/// Confirm an invoice draft for persistence.
pub fn confirm_invoice(d: InvoiceDraft, contacts: &Vec<ContactSuggestion>) -> (r: InvoiceDraft)
    ensures
        confirm_invoice_post(d, r, contacts@),
{
    let InvoiceDraft {
        id,
        client,
        amount_cents,
        status,
        description,
        client_phone,
        client_company,
        pdf_path,
    } = d;
    let status = if str_eq(status.as_str(), "DRAFT") {
        String::from_str("GENERATED")
    } else {
        status
    };
    let (client_phone, client_company) = if client_phone.is_none() || client_company.is_none() {
        match find_first_match(contacts, client.as_str()) {
            Some(m) => {
                let phone = if client_phone.is_some() {
                    client_phone
                } else {
                    Some(m.phone)
                };
                let company = if client_company.is_some() {
                    client_company
                } else {
                    m.company
                };
                (phone, company)
            },
            None => (client_phone, client_company),
        }
    } else {
        (client_phone, client_company)
    };
    InvoiceDraft { id, client, amount_cents, status, description, client_phone, client_company, pdf_path }
}

/// What confirming a task promises: everything kept, the status promoted
/// from `DRAFT` to `TODO`.
pub open spec fn confirm_task_post(d: TaskDraft, r: TaskDraft) -> bool {
    &&& r.id == d.id
    &&& r.description == d.description
    &&& r.created_at == d.created_at
    &&& r.due_date == d.due_date
    &&& r.status@ == if d.status@ == "DRAFT"@ {
        "TODO"@
    } else {
        d.status@
    }
}

/// Confirm a task draft for persistence.
pub fn confirm_task(d: TaskDraft) -> (r: TaskDraft)
    ensures
        confirm_task_post(d, r),
{
    let TaskDraft { id, description, status, created_at, due_date } = d;
    let status = if str_eq(status.as_str(), "DRAFT") {
        String::from_str("TODO")
    } else {
        status
    };
    TaskDraft { id, description, status, created_at, due_date }
}

/// Confirm a contact draft: contacts have no separate active status, so the
/// record is handed on unchanged.
pub fn confirm_contact(d: ContactDraft) -> (r: ContactDraft)
    ensures
        r == d,
{
    d
}

/// What confirming an expense promises: everything kept, the status
/// promoted from `DRAFT` to `PENDING`.
pub open spec fn confirm_expense_post(d: ExpenseDraft, r: ExpenseDraft) -> bool {
    &&& r.id == d.id
    &&& r.merchant == d.merchant
    &&& r.amount_cents == d.amount_cents
    &&& r.category == d.category
    &&& r.date == d.date
    &&& r.image_path == d.image_path
    &&& r.status@ == if d.status@ == "DRAFT"@ {
        "PENDING"@
    } else {
        d.status@
    }
}

/// Confirm an expense draft for persistence.
pub fn confirm_expense(d: ExpenseDraft) -> (r: ExpenseDraft)
    ensures
        confirm_expense_post(d, r),
{
    let ExpenseDraft { id, merchant, amount_cents, category, date, image_path, status } = d;
    let status = if str_eq(status.as_str(), "DRAFT") {
        String::from_str("PENDING")
    } else {
        status
    };
    ExpenseDraft { id, merchant, amount_cents, category, date, image_path, status }
}

/// Confirm a draft of any kind: the one-way hand-off that rewrites a
/// `DRAFT` status to the kind's active status before persistence.
pub fn confirm(d: DraftRecord, contacts: &Vec<ContactSuggestion>) -> (r: DraftRecord)
    ensures
        d is Invoice ==> r is Invoice && confirm_invoice_post(d->Invoice_0, r->Invoice_0, contacts@),
        d is Task ==> r is Task && confirm_task_post(d->Task_0, r->Task_0),
        d is Contact ==> r == d,
        d is Expense ==> r is Expense && confirm_expense_post(d->Expense_0, r->Expense_0),
{
    match d {
        DraftRecord::Invoice(inv) => DraftRecord::Invoice(confirm_invoice(inv, contacts)),
        DraftRecord::Task(t) => DraftRecord::Task(confirm_task(t)),
        DraftRecord::Contact(c) => DraftRecord::Contact(confirm_contact(c)),
        DraftRecord::Expense(e) => DraftRecord::Expense(confirm_expense(e)),
    }
}

} // verus!
