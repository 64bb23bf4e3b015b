//! Interpretation of an externally produced classification document into a
//! typed draft record. The document is loosely shaped: every recognised
//! field has an explicit default used when the field is absent or of the
//! wrong type, so a malformed document still yields a well-formed draft.
//! Only a document that itself carries an error is a terminal failure.

use vstd::prelude::*;

use crate::contacts::sorted_by_name;
use crate::contacts::sort_contacts_by_name;
use crate::contacts::spec_suggested;
use crate::contacts::suggest_contacts;
use crate::drafts::ContactDraft;
use crate::drafts::ContactSuggestion;
use crate::drafts::ExpenseDraft;
use crate::drafts::InvoiceDraft;
use crate::drafts::TaskDraft;
use crate::drafts::draft_status;
use crate::ids::DraftKind;
use crate::ids::allocate_id;
use crate::ids::spec_id;
use crate::text::str_eq;

verus! {

/// A classification document as handed back by the external classifier:
/// every recognised field separately present or absent. A field of the
/// wrong type in the raw document counts as absent. The error field keeps
/// presence and text apart, because an error entry whose text is missing
/// is still an error.
pub struct ClassificationDoc {
    pub intent: Option<String>,
    pub has_error: bool,
    pub error: Option<String>,
    pub client: Option<String>,
    pub amount_cents: Option<i64>,
    pub description: Option<String>,
    pub due_date: Option<String>,
    pub name: Option<String>,
    pub phone: Option<String>,
    pub company: Option<String>,
    pub merchant: Option<String>,
    pub category: Option<String>,
    pub date: Option<String>,
}

/// A terminal classification failure, surfaced verbatim to the caller.
#[derive(Clone, Debug)]
pub struct ClassificationError {
    pub message: String,
}

/// The moment an intake happens, read once by the caller: wall-clock
/// seconds since the epoch, the local calendar date, and the local time in
/// RFC 3339 form.
pub struct IntakeMoment {
    pub unix_secs: u64,
    pub local_date: String,
    pub local_rfc3339: String,
}

/// The invoice interpretation: the draft and the two suggestion lists that
/// support one-click auto-fill.
pub struct InvoiceBundle {
    pub draft: InvoiceDraft,
    pub suggested_contacts: Vec<ContactSuggestion>,
    pub all_contacts: Vec<ContactSuggestion>,
}

/// What a classification document was interpreted as. A document whose
/// intent is missing or unrecognised passes through unrecognised rather
/// than failing.
pub enum Interpretation {
    Invoice(InvoiceBundle),
    Task(TaskDraft),
    Contact(ContactDraft),
    Expense(ExpenseDraft),
    Unrecognized,
}

/// The text of an optional field, or the default where it is absent.
pub open spec fn str_or(o: Option<String>, default: Seq<char>) -> Seq<char> {
    if o is Some {
        o->0@
    } else {
        default
    }
}

/// The value of an optional amount, or zero where it is absent.
pub open spec fn amount_or_zero(o: Option<i64>) -> i64 {
    if o is Some {
        o->0
    } else {
        0
    }
}

/// Whether the document's intent field carries exactly the given text.
pub open spec fn intent_is(doc: ClassificationDoc, intent: Seq<char>) -> bool {
    doc.intent is Some && doc.intent->0@ == intent
}

/// What an invoice interpretation promises: a fresh id, every field read
/// with its default, a `DRAFT` status, and the two suggestion lists drawn
/// from the directory with the client name as the fragment.
pub open spec fn invoice_bundle_post(
    doc: ClassificationDoc,
    now: IntakeMoment,
    contacts: Seq<ContactSuggestion>,
    b: InvoiceBundle,
) -> bool {
    &&& b.draft.id@ == spec_id(DraftKind::Invoice, now.unix_secs)
    &&& b.draft.client@ == str_or(doc.client, "Unknown"@)
    &&& b.draft.amount_cents == amount_or_zero(doc.amount_cents)
    &&& b.draft.description@ == str_or(doc.description, "General Services"@)
    &&& b.draft.status@ == "DRAFT"@
    &&& b.draft.client_phone is None
    &&& b.draft.client_company is None
    &&& b.draft.pdf_path is None
    &&& b.suggested_contacts@ == spec_suggested(contacts, str_or(doc.client, "Unknown"@))
    &&& b.all_contacts@.to_multiset() == contacts.to_multiset()
    &&& sorted_by_name(b.all_contacts@)
}

/// What a task interpretation promises.
pub open spec fn task_draft_post(doc: ClassificationDoc, now: IntakeMoment, t: TaskDraft) -> bool {
    &&& t.id@ == spec_id(DraftKind::Task, now.unix_secs)
    &&& t.description@ == str_or(doc.description, "No description"@)
    &&& t.status@ == "DRAFT"@
    &&& t.created_at == now.local_rfc3339
    &&& t.due_date == doc.due_date
}

/// What a contact interpretation promises.
pub open spec fn contact_draft_post(
    doc: ClassificationDoc,
    now: IntakeMoment,
    c: ContactDraft,
) -> bool {
    &&& c.id@ == spec_id(DraftKind::Contact, now.unix_secs)
    &&& c.name@ == str_or(doc.name, "Unknown"@)
    &&& c.phone@ == str_or(doc.phone, ""@)
    &&& c.company == doc.company
    &&& c.created_at == now.local_rfc3339
}

/// What an expense interpretation promises.
pub open spec fn expense_draft_post(
    doc: ClassificationDoc,
    now: IntakeMoment,
    e: ExpenseDraft,
) -> bool {
    &&& e.id@ == spec_id(DraftKind::Expense, now.unix_secs)
    &&& e.merchant@ == str_or(doc.merchant, "Unknown"@)
    &&& e.amount_cents == amount_or_zero(doc.amount_cents)
    &&& e.category@ == str_or(doc.category, "Other"@)
    &&& e.date@ == str_or(doc.date, now.local_date@)
    &&& e.image_path is None
    &&& e.status@ == "DRAFT"@
}

/// The text of an optional field as an owned string, or the default.
fn take_or(o: Option<String>, default: &str) -> (r: String)
    ensures
        r@ == str_or(o, default@),
{
    match o {
        Some(s) => s,
        None => String::from_str(default),
    }
}

/// Interpret a classification document against the contact directory at a
/// given moment. A document carrying an error fails with its message; a
/// recognised intent yields the matching draft, every missing field
/// replaced by its default; anything else passes through unrecognised.
pub fn interpret(
    doc: ClassificationDoc,
    now: &IntakeMoment,
    contacts: &Vec<ContactSuggestion>,
) -> (r: Result<Interpretation, ClassificationError>)
    ensures
        doc.has_error <==> r is Err,
        r is Err ==> r->Err_0.message@ == str_or(doc.error, "Unknown AI error"@),
        r is Ok && intent_is(doc, "INVOICE"@) ==> r->Ok_0 is Invoice && invoice_bundle_post(
            doc,
            *now,
            contacts@,
            r->Ok_0->Invoice_0,
        ),
        r is Ok && intent_is(doc, "TASK"@) ==> r->Ok_0 is Task && task_draft_post(
            doc,
            *now,
            r->Ok_0->Task_0,
        ),
        r is Ok && intent_is(doc, "CONTACT"@) ==> r->Ok_0 is Contact && contact_draft_post(
            doc,
            *now,
            r->Ok_0->Contact_0,
        ),
        r is Ok && intent_is(doc, "EXPENSE"@) ==> r->Ok_0 is Expense && expense_draft_post(
            doc,
            *now,
            r->Ok_0->Expense_0,
        ),
        r is Ok && !intent_is(doc, "INVOICE"@) && !intent_is(doc, "TASK"@) && !intent_is(
            doc,
            "CONTACT"@,
        ) && !intent_is(doc, "EXPENSE"@) ==> r->Ok_0 is Unrecognized,
{
    proof {
        broadcast use vstd::string::group_string_axioms;

        reveal_strlit("INVOICE");
        reveal_strlit("TASK");
        reveal_strlit("CONTACT");
        reveal_strlit("EXPENSE");
        assert("INVOICE"@.len() == 7);
        assert("TASK"@.len() == 4);
        assert("INVOICE"@[0] == 'I' && "CONTACT"@[0] == 'C' && "EXPENSE"@[0] == 'E');
        assert("INVOICE"@ != "TASK"@);
        assert("INVOICE"@ != "CONTACT"@);
        assert("INVOICE"@ != "EXPENSE"@);
        assert("TASK"@ != "CONTACT"@);
        assert("TASK"@ != "EXPENSE"@);
        assert("CONTACT"@ != "EXPENSE"@);
    }
    if doc.has_error {
        let message = take_or(doc.error, "Unknown AI error");
        return Err(ClassificationError { message });
    }
    let intent = match &doc.intent {
        Some(s) => s.clone(),
        None => String::new(),
    };
    if doc.intent.is_some() && str_eq(intent.as_str(), "INVOICE") {
        let client = take_or(doc.client, "Unknown");
        let draft = InvoiceDraft {
            id: allocate_id(DraftKind::Invoice, now.unix_secs),
            client,
            amount_cents: match doc.amount_cents {
                Some(a) => a,
                None => 0,
            },
            status: draft_status(),
            description: take_or(doc.description, "General Services"),
            client_phone: None,
            client_company: None,
            pdf_path: None,
        };
        let suggested_contacts = suggest_contacts(contacts, draft.client.as_str());
        let all_contacts = sort_contacts_by_name(contacts);
        return Ok(
            Interpretation::Invoice(InvoiceBundle { draft, suggested_contacts, all_contacts }),
        );
    }
    if doc.intent.is_some() && str_eq(intent.as_str(), "TASK") {
        let draft = TaskDraft {
            id: allocate_id(DraftKind::Task, now.unix_secs),
            description: take_or(doc.description, "No description"),
            status: draft_status(),
            created_at: now.local_rfc3339.clone(),
            due_date: doc.due_date,
        };
        return Ok(Interpretation::Task(draft));
    }
    if doc.intent.is_some() && str_eq(intent.as_str(), "CONTACT") {
        let draft = ContactDraft {
            id: allocate_id(DraftKind::Contact, now.unix_secs),
            name: take_or(doc.name, "Unknown"),
            phone: take_or(doc.phone, ""),
            company: doc.company,
            created_at: now.local_rfc3339.clone(),
        };
        return Ok(Interpretation::Contact(draft));
    }
    if doc.intent.is_some() && str_eq(intent.as_str(), "EXPENSE") {
        let draft = ExpenseDraft {
            id: allocate_id(DraftKind::Expense, now.unix_secs),
            merchant: take_or(doc.merchant, "Unknown"),
            amount_cents: match doc.amount_cents {
                Some(a) => a,
                None => 0,
            },
            category: take_or(doc.category, "Other"),
            date: take_or(doc.date, now.local_date.as_str()),
            image_path: None,
            status: draft_status(),
        };
        return Ok(Interpretation::Expense(draft));
    }
    Ok(Interpretation::Unrecognized)
}

} // verus!
