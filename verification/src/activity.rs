//! Recent-activity derivation over persisted invoices and expenses: drafts
//! are excluded, each record's recency is read from its id suffix, both
//! kinds are merged, ordered newest first, and the five most recent are
//! kept. The calendar date shown for an invoice comes from the machine's
//! local time zone and is the one part of an item the contract leaves open.

use vstd::prelude::*;

use crate::drafts::ExpenseDraft;
use crate::drafts::InvoiceDraft;
use crate::ids::id_timestamp;
use crate::ids::spec_id_timestamp;
use crate::text::str_eq;

verus! {

/// One row of the recent-activity feed.
#[derive(Clone, Debug)]
pub struct ActivityItem {
    pub id: String,
    pub intent: String,
    pub description: String,
    pub amount_cents: i64,
    pub date: String,
    pub timestamp: u64,
    pub file_path: Option<String>,
}

/// Relies on chrono's `DateTime::from_timestamp`, `with_timezone` and
/// `format`: the local calendar date of a wall-clock second count, absent
/// when the count lies outside the representable range. The text depends
/// on the machine's time zone, so nothing more is promised of it.
#[verifier::external_body]
fn local_day_string(ts: u64) -> (r: Option<String>) {
    let secs = i64::try_from(ts).ok()?;
    let utc = chrono::DateTime::<chrono::Utc>::from_timestamp(secs, 0)?;
    Some(utc.with_timezone(&chrono::Local).format("%Y-%m-%d").to_string())
}

/// How many activity rows are kept.
pub open spec fn activity_cap() -> int {
    5
}

/// The invoices that are active, that is, not still drafts, in order.
pub open spec fn active_invoices(s: Seq<InvoiceDraft>) -> Seq<InvoiceDraft> {
    s.filter(|d: InvoiceDraft| d.status@ != "DRAFT"@)
}

/// The expenses that are active, that is, not still drafts, in order.
pub open spec fn active_expenses(s: Seq<ExpenseDraft>) -> Seq<ExpenseDraft> {
    s.filter(|d: ExpenseDraft| d.status@ != "DRAFT"@)
}

/// One more invoice either joins the active list or does not.
proof fn lemma_active_inv_step(s: Seq<InvoiceDraft>, i: int)
    requires
        0 <= i < s.len(),
    ensures
        active_invoices(s.take(i + 1)) == if s[i].status@ != "DRAFT"@ {
            active_invoices(s.take(i)).push(s[i])
        } else {
            active_invoices(s.take(i))
        },
{
    reveal(Seq::filter);
    assert(s.take(i + 1).drop_last() =~= s.take(i));
    assert(s.take(i + 1).last() == s[i]);
}

/// One more expense either joins the active list or does not.
proof fn lemma_active_exp_step(s: Seq<ExpenseDraft>, i: int)
    requires
        0 <= i < s.len(),
    ensures
        active_expenses(s.take(i + 1)) == if s[i].status@ != "DRAFT"@ {
            active_expenses(s.take(i)).push(s[i])
        } else {
            active_expenses(s.take(i))
        },
{
    reveal(Seq::filter);
    assert(s.take(i + 1).drop_last() =~= s.take(i));
    assert(s.take(i + 1).last() == s[i]);
}

/// Whether `cand` is the candidate feed of the given record sets: one row
/// for each active invoice, in order, then one for each active expense.
pub open spec fn candidate_rows(
    cand: Seq<ActivityItem>,
    invs: Seq<InvoiceDraft>,
    exps: Seq<ExpenseDraft>,
) -> bool {
    let ai = active_invoices(invs);
    let ae = active_expenses(exps);
    &&& cand.len() == ai.len() + ae.len()
    &&& forall|j: int| 0 <= j < ai.len() ==> item_from_invoice(#[trigger] cand[j], ai[j])
    &&& forall|j: int| 0 <= j < ae.len() ==> item_from_expense(#[trigger] cand[ai.len() + j], ae[j])
}

/// What an activity row read from an invoice carries: everything but the
/// calendar date is pinned; the date is the local calendar's text, except
/// that an unparsable recency reads `Unknown`.
pub open spec fn item_from_invoice(it: ActivityItem, inv: InvoiceDraft) -> bool {
    &&& it.id == inv.id
    &&& it.intent@ == "INVOICE"@
    &&& it.description == inv.client
    &&& it.amount_cents == inv.amount_cents
    &&& it.timestamp as nat == spec_id_timestamp(inv.id@)
    &&& it.file_path == inv.pdf_path
    &&& (it.timestamp == 0 ==> it.date@ == "Unknown"@)
}

/// What an activity row read from an expense carries; everything is
/// pinned, the date being the expense's own.
pub open spec fn item_from_expense(it: ActivityItem, exp: ExpenseDraft) -> bool {
    &&& it.id == exp.id
    &&& it.intent@ == "EXPENSE"@
    &&& it.description@ == exp.merchant@ + " ("@ + exp.category@ + ")"@
    &&& it.amount_cents == exp.amount_cents
    &&& it.date == exp.date
    &&& it.timestamp as nat == spec_id_timestamp(exp.id@)
    &&& it.file_path is None
}

/// Whether a row reads an active record of the given sets.
pub open spec fn item_originates(
    it: ActivityItem,
    invs: Seq<InvoiceDraft>,
    exps: Seq<ExpenseDraft>,
) -> bool {
    ||| exists|j: int|
        0 <= j < invs.len() && (#[trigger] invs[j]).status@ != "DRAFT"@ && item_from_invoice(
            it,
            invs[j],
        )
    ||| exists|j: int|
        0 <= j < exps.len() && (#[trigger] exps[j]).status@ != "DRAFT"@ && item_from_expense(
            it,
            exps[j],
        )
}

/// Whether the rows are ordered newest first.
pub open spec fn sorted_desc(s: Seq<ActivityItem>) -> bool {
    forall|i: int, j: int| 0 <= i < j < s.len() ==> s[i].timestamp >= s[j].timestamp
}

/// The activity row of one invoice.
fn invoice_item(inv: &InvoiceDraft) -> (it: ActivityItem)
    ensures
        item_from_invoice(it, *inv),
{
    let ts = id_timestamp(inv.id.as_str());
    let date = if ts > 0 {
        match local_day_string(ts) {
            Some(d) => d,
            None => String::from_str("Unknown"),
        }
    } else {
        String::from_str("Unknown")
    };
    ActivityItem {
        id: inv.id.clone(),
        intent: String::from_str("INVOICE"),
        description: inv.client.clone(),
        amount_cents: inv.amount_cents,
        date,
        timestamp: ts,
        file_path: match &inv.pdf_path {
            Some(p) => Some(p.clone()),
            None => None,
        },
    }
}

/// The activity row of one expense.
fn expense_item(exp: &ExpenseDraft) -> (it: ActivityItem)
    ensures
        item_from_expense(it, *exp),
{
    let ts = id_timestamp(exp.id.as_str());
    let mut description = exp.merchant.clone();
    description.append(" (");
    description.append(exp.category.as_str());
    description.append(")");
    proof {
        assert(description@ =~= exp.merchant@ + " ("@ + exp.category@ + ")"@);
    }
    ActivityItem {
        id: exp.id.clone(),
        intent: String::from_str("EXPENSE"),
        description,
        amount_cents: exp.amount_cents,
        date: exp.date.clone(),
        timestamp: ts,
        file_path: None,
    }
}

/// A duplicate of an activity row, equal to the original.
fn duplicate_item(it: &ActivityItem) -> (r: ActivityItem)
    ensures
        r == *it,
{
    ActivityItem {
        id: it.id.clone(),
        intent: it.intent.clone(),
        description: it.description.clone(),
        amount_cents: it.amount_cents,
        date: it.date.clone(),
        timestamp: it.timestamp,
        file_path: match &it.file_path {
            Some(p) => Some(p.clone()),
            None => None,
        },
    }
}

/// Order rows newest first: a permutation of the given rows, sorted by
/// descending timestamp.
pub fn sort_activity_desc(items: Vec<ActivityItem>) -> (r: Vec<ActivityItem>)
    ensures
        r@.to_multiset() == items@.to_multiset(),
        sorted_desc(r@),
{
    let mut out: Vec<ActivityItem> = Vec::new();
    let n = items.len();
    let mut i: usize = 0;
    proof {
        broadcast use vstd::seq_lib::group_to_multiset_ensures;

        assert(items@.take(0) =~= Seq::<ActivityItem>::empty());
        assert(out@.to_multiset() =~= items@.take(0).to_multiset());
    }
    while i < n
        invariant
            n == items@.len(),
            i <= n,
            out@.len() == i,
            out@.to_multiset() == items@.take(i as int).to_multiset(),
            sorted_desc(out@),
        decreases n - i,
    {
        let c = duplicate_item(&items[i]);
        let ghost citem = items@[i as int];
        let mut pos: usize = 0;
        while pos < out.len() && out[pos].timestamp >= c.timestamp
            invariant
                pos <= out@.len(),
                forall|k: int| 0 <= k < pos ==> out@[k].timestamp >= c.timestamp,
            decreases out@.len() - pos,
        {
            pos += 1;
        }
        let ghost old_out = out@;
        proof {
            broadcast use vstd::seq_lib::group_to_multiset_ensures;

            lemma_insert_multiset_activity(old_out, pos as int, citem);
            assert(items@.take(i + 1) =~= items@.take(i as int).push(items@[i as int]));
        }
        out.insert(pos, c);
        proof {
            broadcast use vstd::seq_lib::group_to_multiset_ensures;

            old_out.insert_ensures(pos as int, citem);
            assert(out@ == old_out.insert(pos as int, citem));
            assert forall|a: int, b: int| 0 <= a < b < out@.len() implies out@[a].timestamp
                >= out@[b].timestamp by {
                if b < pos {
                } else if a < pos && b == pos {
                    assert(out@[b] == citem);
                } else if a == pos {
                    assert(out@[a] == citem);
                    assert(out@[b] == old_out[b - 1]);
                } else if a < pos {
                    assert(out@[b] == old_out[b - 1]);
                    assert(a < b - 1);
                } else {
                    assert(out@[a] == old_out[a - 1]);
                    assert(out@[b] == old_out[b - 1]);
                }
            }
            assert(out@.to_multiset() =~= items@.take(i + 1).to_multiset());
        }
        i += 1;
    }
    proof {
        assert(items@.take(n as int) =~= items@);
    }
    out
}

/// Inserting an element keeps the multiset of a sequence, plus the element.
proof fn lemma_insert_multiset_activity(s: Seq<ActivityItem>, i: int, x: ActivityItem)
    requires
        0 <= i <= s.len(),
    ensures
        s.insert(i, x).to_multiset() =~= s.to_multiset().insert(x),
{
    broadcast use vstd::seq_lib::lemma_multiset_commutative;
    broadcast use vstd::seq_lib::group_to_multiset_ensures;

    let pre = s.subrange(0, i);
    let post = s.subrange(i, s.len() as int);
    assert(s.insert(i, x) == pre.push(x) + post);
    assert(pre.push(x).to_multiset() =~= pre.to_multiset().insert(x));
    assert(s =~= pre + post);
}

/// The recent-activity feed: active invoices and expenses as rows, newest
/// first by the recency read from their ids, truncated to the cap. The
/// feed is a leading slice of the full candidate feed ordered by
/// descending timestamp, so no kept row is older than a dropped one;
/// every row reads one active record, and no drafts appear.
pub fn recent_activity(invoices: &Vec<InvoiceDraft>, expenses: &Vec<ExpenseDraft>) -> (r: Vec<
    ActivityItem,
>)
    ensures
        r@.len() == if active_invoices(invoices@).len() + active_expenses(expenses@).len()
            <= activity_cap() {
            active_invoices(invoices@).len() + active_expenses(expenses@).len() as int
        } else {
            activity_cap()
        },
        sorted_desc(r@),
        forall|k: int| 0 <= k < r@.len() ==> item_originates(#[trigger] r@[k], invoices@, expenses@),
        exists|cand: Seq<ActivityItem>, s: Seq<ActivityItem>|
            {
                &&& candidate_rows(cand, invoices@, expenses@)
                &&& s.to_multiset() == cand.to_multiset()
                &&& sorted_desc(s)
                &&& r@ == if s.len() <= activity_cap() {
                    s
                } else {
                    s.take(activity_cap())
                }
            },
{
    let mut items: Vec<ActivityItem> = Vec::new();
    let n_inv = invoices.len();
    let mut i: usize = 0;
    proof {
        reveal(Seq::filter);
        assert(invoices@.take(0) =~= Seq::<InvoiceDraft>::empty());
        assert(active_invoices(invoices@.take(0)) =~= Seq::<InvoiceDraft>::empty());
    }
    while i < n_inv
        invariant
            n_inv == invoices@.len(),
            i <= n_inv,
            items@.len() == active_invoices(invoices@.take(i as int)).len(),
            forall|k: int|
                0 <= k < items@.len() ==> item_from_invoice(
                    #[trigger] items@[k],
                    active_invoices(invoices@.take(i as int))[k],
                ),
            forall|k: int|
                0 <= k < items@.len() ==> item_originates(
                    #[trigger] items@[k],
                    invoices@,
                    expenses@,
                ),
        decreases n_inv - i,
    {
        let inv = &invoices[i];
        proof {
            lemma_active_inv_step(invoices@, i as int);
        }
        if !str_eq(inv.status.as_str(), "DRAFT") {
            items.push(invoice_item(inv));
        }
        i += 1;
    }
    proof {
        assert(invoices@.take(n_inv as int) =~= invoices@);
    }
    let n_exp = expenses.len();
    let mut j: usize = 0;
    proof {
        reveal(Seq::filter);
        assert(expenses@.take(0) =~= Seq::<ExpenseDraft>::empty());
        assert(active_expenses(expenses@.take(0)) =~= Seq::<ExpenseDraft>::empty());
    }
    while j < n_exp
        invariant
            n_exp == expenses@.len(),
            j <= n_exp,
            items@.len() == active_invoices(invoices@).len() + active_expenses(
                expenses@.take(j as int),
            ).len(),
            forall|k: int|
                0 <= k < active_invoices(invoices@).len() ==> item_from_invoice(
                    #[trigger] items@[k],
                    active_invoices(invoices@)[k],
                ),
            forall|k: int|
                0 <= k < active_expenses(expenses@.take(j as int)).len() ==> item_from_expense(
                    #[trigger] items@[active_invoices(invoices@).len() + k],
                    active_expenses(expenses@.take(j as int))[k],
                ),
            forall|k: int|
                0 <= k < items@.len() ==> item_originates(
                    #[trigger] items@[k],
                    invoices@,
                    expenses@,
                ),
        decreases n_exp - j,
    {
        let exp = &expenses[j];
        proof {
            lemma_active_exp_step(expenses@, j as int);
        }
        if !str_eq(exp.status.as_str(), "DRAFT") {
            items.push(expense_item(exp));
        }
        j += 1;
    }
    proof {
        assert(expenses@.take(n_exp as int) =~= expenses@);
        assert(candidate_rows(items@, invoices@, expenses@));
    }
    let ghost all_items = items@;
    let sorted = sort_activity_desc(items);
    let ghost sorted_seq = sorted@;
    proof {
        broadcast use vstd::seq_lib::group_to_multiset_ensures;

        assert(sorted@.len() == sorted@.to_multiset().len());
        assert(all_items.len() == all_items.to_multiset().len());
        assert(sorted@.len() == all_items.len());
        assert forall|k: int| 0 <= k < sorted@.len() implies item_originates(
            #[trigger] sorted@[k],
            invoices@,
            expenses@,
        ) by {
            assert(sorted@.to_multiset().count(sorted@[k]) > 0);
            assert(all_items.to_multiset().count(sorted@[k]) > 0);
            assert(all_items.contains(sorted@[k]));
            let m = choose|m: int| 0 <= m < all_items.len() && all_items[m] == sorted@[k];
            assert(item_originates(all_items[m], invoices@, expenses@));
        }
    }
    let mut out = sorted;
    if out.len() > 5 {
        out.truncate(5);
    }
    proof {
        if sorted_seq.len() > activity_cap() {
            assert(out@ == sorted_seq.subrange(0, 5));
            assert(sorted_seq.take(activity_cap()) =~= sorted_seq.subrange(0, 5));
        }
        assert(exists|cand: Seq<ActivityItem>, s: Seq<ActivityItem>|
            {
                &&& candidate_rows(cand, invoices@, expenses@)
                &&& s.to_multiset() == cand.to_multiset()
                &&& sorted_desc(s)
                &&& out@ == if s.len() <= activity_cap() {
                    s
                } else {
                    s.take(activity_cap())
                }
            }) by {
            assert(candidate_rows(all_items, invoices@, expenses@));
            assert(sorted_seq.to_multiset() == all_items.to_multiset());
            assert(sorted_desc(sorted_seq));
            assert(out@ == if sorted_seq.len() <= activity_cap() {
                sorted_seq
            } else {
                sorted_seq.take(activity_cap())
            });
        }
    }
    out
}

} // verus!
