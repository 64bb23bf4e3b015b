use construction_os::classify::{interpret, ClassificationDoc, IntakeMoment, Interpretation};
use construction_os::confirm::{confirm, confirm_expense, confirm_invoice, confirm_task};
use construction_os::contacts::{sort_contacts_by_name, suggest_contacts};
use construction_os::drafts::{
    ContactDraft, ContactSuggestion, DraftRecord, ExpenseDraft, InvoiceDraft, TaskDraft,
};

fn empty_doc() -> ClassificationDoc {
    ClassificationDoc {
        intent: None,
        has_error: false,
        error: None,
        client: None,
        amount_cents: None,
        description: None,
        due_date: None,
        name: None,
        phone: None,
        company: None,
        merchant: None,
        category: None,
        date: None,
    }
}

fn moment() -> IntakeMoment {
    IntakeMoment {
        unix_secs: 1712345678,
        local_date: String::from("2024-04-05"),
        local_rfc3339: String::from("2024-04-05T12:34:38+00:00"),
    }
}

fn suggestion(id: &str, name: &str, phone: &str, company: Option<&str>) -> ContactSuggestion {
    ContactSuggestion {
        id: String::from(id),
        name: String::from(name),
        phone: String::from(phone),
        company: company.map(String::from),
    }
}

#[test]
fn bare_task_intent_yields_default_task_draft() {
    let mut doc = empty_doc();
    doc.intent = Some(String::from("TASK"));
    let r = interpret(doc, &moment(), &Vec::new()).unwrap();
    match r {
        Interpretation::Task(t) => {
            assert_eq!(t.description, "No description");
            assert_eq!(t.status, "DRAFT");
            assert_eq!(t.due_date, None);
            assert_eq!(t.id, "TSK-1712345678");
            assert_eq!(t.created_at, "2024-04-05T12:34:38+00:00");
        }
        _ => panic!("expected a task draft"),
    }
}

#[test]
fn error_document_is_a_terminal_failure() {
    let mut doc = empty_doc();
    doc.has_error = true;
    doc.error = Some(String::from("Not a receipt"));
    let r = interpret(doc, &moment(), &Vec::new());
    assert_eq!(r.err().map(|e| e.message), Some(String::from("Not a receipt")));
}

#[test]
fn error_document_without_text_gets_the_stock_message() {
    let mut doc = empty_doc();
    doc.has_error = true;
    let r = interpret(doc, &moment(), &Vec::new());
    assert_eq!(
        r.err().map(|e| e.message),
        Some(String::from("Unknown AI error"))
    );
}

#[test]
fn bare_invoice_intent_yields_defaults_and_suggestions() {
    let mut doc = empty_doc();
    doc.intent = Some(String::from("INVOICE"));
    doc.amount_cents = Some(45000);
    let directory = vec![
        suggestion("CON-1", "Unknown Plumbing", "555-1", None),
        suggestion("CON-2", "Bob", "555-2", Some("Bob Inc")),
    ];
    let r = interpret(doc, &moment(), &directory).unwrap();
    match r {
        Interpretation::Invoice(b) => {
            assert_eq!(b.draft.client, "Unknown");
            assert_eq!(b.draft.amount_cents, 45000);
            assert_eq!(b.draft.description, "General Services");
            assert_eq!(b.draft.status, "DRAFT");
            assert_eq!(b.draft.id, "INV-1712345678");
            assert_eq!(b.draft.client_phone, None);
            assert_eq!(b.draft.client_company, None);
            // "Unknown" matches the first directory row, case-insensitively.
            assert_eq!(b.suggested_contacts.len(), 1);
            assert_eq!(b.suggested_contacts[0].id, "CON-1");
            // The full list is sorted by name ascending.
            assert_eq!(b.all_contacts.len(), 2);
            assert_eq!(b.all_contacts[0].name, "Bob");
            assert_eq!(b.all_contacts[1].name, "Unknown Plumbing");
        }
        _ => panic!("expected an invoice bundle"),
    }
}

#[test]
fn contact_intent_applies_field_defaults() {
    let mut doc = empty_doc();
    doc.intent = Some(String::from("CONTACT"));
    doc.company = Some(String::from("Acme"));
    let r = interpret(doc, &moment(), &Vec::new()).unwrap();
    match r {
        Interpretation::Contact(c) => {
            assert_eq!(c.name, "Unknown");
            assert_eq!(c.phone, "");
            assert_eq!(c.company, Some(String::from("Acme")));
            assert_eq!(c.id, "CON-1712345678");
        }
        _ => panic!("expected a contact draft"),
    }
}

#[test]
fn expense_intent_defaults_date_to_today() {
    let mut doc = empty_doc();
    doc.intent = Some(String::from("EXPENSE"));
    let r = interpret(doc, &moment(), &Vec::new()).unwrap();
    match r {
        Interpretation::Expense(e) => {
            assert_eq!(e.merchant, "Unknown");
            assert_eq!(e.amount_cents, 0);
            assert_eq!(e.category, "Other");
            assert_eq!(e.date, "2024-04-05");
            assert_eq!(e.status, "DRAFT");
            assert_eq!(e.id, "EXP-1712345678");
        }
        _ => panic!("expected an expense draft"),
    }
}

#[test]
fn unknown_or_missing_intent_passes_through() {
    let mut doc = empty_doc();
    doc.intent = Some(String::from("PARTY"));
    assert!(matches!(
        interpret(doc, &moment(), &Vec::new()).unwrap(),
        Interpretation::Unrecognized
    ));
    assert!(matches!(
        interpret(empty_doc(), &moment(), &Vec::new()).unwrap(),
        Interpretation::Unrecognized
    ));
}

fn invoice(status: &str, phone: Option<&str>, company: Option<&str>) -> InvoiceDraft {
    InvoiceDraft {
        id: String::from("INV-100"),
        client: String::from("Mike"),
        amount_cents: 123400,
        status: String::from(status),
        description: String::from("Patio"),
        client_phone: phone.map(String::from),
        client_company: company.map(String::from),
        pdf_path: None,
    }
}

#[test]
fn confirming_a_draft_invoice_promotes_it_to_generated() {
    let r = confirm_invoice(invoice("DRAFT", None, None), &Vec::new());
    assert_eq!(r.status, "GENERATED");
    assert_eq!(r.id, "INV-100");
    assert_eq!(r.amount_cents, 123400);
}

#[test]
fn confirming_a_sent_invoice_leaves_the_status_alone() {
    let r = confirm_invoice(invoice("SENT", None, None), &Vec::new());
    assert_eq!(r.status, "SENT");
}

#[test]
fn confirmation_backfills_contact_details_from_the_first_match() {
    let directory = vec![
        suggestion("CON-1", "Bob", "555-0", None),
        suggestion("CON-2", "Mike's Concrete", "555-7", Some("Mike LLC")),
        suggestion("CON-3", "Iron Mike", "555-9", Some("Iron Inc")),
    ];
    let r = confirm_invoice(invoice("DRAFT", None, None), &directory);
    assert_eq!(r.client_phone, Some(String::from("555-7")));
    assert_eq!(r.client_company, Some(String::from("Mike LLC")));

    let kept = confirm_invoice(invoice("DRAFT", Some("111"), Some("Kept")), &directory);
    assert_eq!(kept.client_phone, Some(String::from("111")));
    assert_eq!(kept.client_company, Some(String::from("Kept")));

    let none = confirm_invoice(invoice("DRAFT", None, None), &Vec::new());
    assert_eq!(none.client_phone, None);
    assert_eq!(none.client_company, None);
}

#[test]
fn confirming_a_draft_task_promotes_it_to_todo() {
    let t = TaskDraft {
        id: String::from("TSK-1"),
        description: String::from("Call"),
        status: String::from("DRAFT"),
        created_at: String::from("now"),
        due_date: Some(String::from("2024-05-01")),
    };
    let r = confirm_task(t);
    assert_eq!(r.status, "TODO");
    assert_eq!(r.due_date, Some(String::from("2024-05-01")));
}

#[test]
fn confirming_a_draft_expense_promotes_it_to_pending() {
    let e = ExpenseDraft {
        id: String::from("EXP-1"),
        merchant: String::from("Depot"),
        amount_cents: 999,
        category: String::from("Tools"),
        date: String::from("2024-04-01"),
        image_path: None,
        status: String::from("DRAFT"),
    };
    let r = confirm_expense(e);
    assert_eq!(r.status, "PENDING");
    let kept = ExpenseDraft {
        id: String::from("EXP-2"),
        merchant: String::from("Depot"),
        amount_cents: 1,
        category: String::from("Fuel"),
        date: String::from("2024-04-02"),
        image_path: None,
        status: String::from("PENDING"),
    };
    assert_eq!(confirm_expense(kept).status, "PENDING");
}

#[test]
fn confirmation_dispatches_on_the_draft_kind() {
    let inv = confirm(DraftRecord::Invoice(invoice("DRAFT", None, None)), &Vec::new());
    match inv {
        DraftRecord::Invoice(i) => assert_eq!(i.status, "GENERATED"),
        _ => panic!("expected an invoice"),
    }
    let contact = ContactDraft {
        id: String::from("CON-1"),
        name: String::from("Ann"),
        phone: String::from("555"),
        company: None,
        created_at: String::from("now"),
    };
    let kept = confirm(DraftRecord::Contact(contact), &Vec::new());
    match kept {
        DraftRecord::Contact(c) => assert_eq!(c.name, "Ann"),
        _ => panic!("expected a contact"),
    }
}

#[test]
fn targeted_suggestions_are_capped_at_five_in_directory_order() {
    let mut directory = Vec::new();
    for i in 0..8 {
        directory.push(suggestion(
            &format!("CON-{}", i),
            &format!("Mike {}", i),
            "555",
            None,
        ));
    }
    directory.push(suggestion("CON-X", "Bob", "555", None));
    let got = suggest_contacts(&directory, "mIkE");
    assert_eq!(got.len(), 5);
    for (i, c) in got.iter().enumerate() {
        assert_eq!(c.id, format!("CON-{}", i));
    }
    assert_eq!(suggest_contacts(&directory, "zzz").len(), 0);
    assert_eq!(suggest_contacts(&Vec::new(), "mike").len(), 0);
}

#[test]
fn the_full_directory_is_sorted_by_name_with_ties_kept_together() {
    let directory = vec![
        suggestion("1", "Cara", "a", None),
        suggestion("2", "Abe", "b", None),
        suggestion("3", "Bea", "c", None),
        suggestion("4", "Abe", "d", None),
    ];
    assert!(sort_contacts_by_name(&Vec::new()).is_empty());
    let sorted = sort_contacts_by_name(&directory);
    let names: Vec<&str> = sorted.iter().map(|c| c.name.as_str()).collect();
    assert_eq!(names, vec!["Abe", "Abe", "Bea", "Cara"]);
    assert_eq!(sorted.len(), 4);
    let mut phones: Vec<&str> = sorted.iter().map(|c| c.phone.as_str()).collect();
    phones.sort();
    assert_eq!(phones, vec!["a", "b", "c", "d"]);
}
