//! Contact matching for invoice auto-fill: a targeted list of the first
//! few case-insensitive name matches in directory order, and the whole
//! directory sorted by name as a manual fallback. Matching is advisory:
//! the caller hands in whatever directory rows it could read, and an empty
//! directory simply yields empty lists.

use vstd::prelude::*;

use crate::drafts::ContactSuggestion;
use crate::drafts::duplicate_suggestion;
use crate::text::contains_ci;
use crate::text::lemma_lex_le_total;
use crate::text::lemma_lex_le_trans;
use crate::text::lex_le;
use crate::text::str_contains_ci;
use crate::text::str_le;

verus! {

/// How many targeted suggestions are surfaced at most.
pub open spec fn suggestion_cap() -> int {
    5
}

/// The directory rows whose name contains the fragment, in directory order.
pub open spec fn spec_matches(contacts: Seq<ContactSuggestion>, frag: Seq<char>) -> Seq<
    ContactSuggestion,
> {
    contacts.filter(|c: ContactSuggestion| contains_ci(c.name@, frag))
}

/// The targeted suggestion list: the first matches, capped.
pub open spec fn spec_suggested(contacts: Seq<ContactSuggestion>, frag: Seq<char>) -> Seq<
    ContactSuggestion,
> {
    let m = spec_matches(contacts, frag);
    if m.len() <= suggestion_cap() {
        m
    } else {
        m.take(suggestion_cap())
    }
}

/// One filtering step: matching one more row appends it or nothing.
proof fn lemma_filter_step(s: Seq<ContactSuggestion>, i: int, frag: Seq<char>)
    requires
        0 <= i < s.len(),
    ensures
        spec_matches(s.take(i + 1), frag) == if contains_ci(s[i].name@, frag) {
            spec_matches(s.take(i), frag).push(s[i])
        } else {
            spec_matches(s.take(i), frag)
        },
{
    reveal(Seq::filter);
    assert(s.take(i + 1).drop_last() =~= s.take(i));
    assert(s.take(i + 1).last() == s[i]);
}

/// A filtered prefix opens the filtered whole.
proof fn lemma_filter_prefix(s: Seq<ContactSuggestion>, i: int, frag: Seq<char>)
    requires
        0 <= i <= s.len(),
    ensures
        spec_matches(s, frag) == spec_matches(s.take(i), frag) + spec_matches(s.skip(i), frag),
{
    let p = |c: ContactSuggestion| contains_ci(c.name@, frag);
    assert(s =~= s.take(i) + s.skip(i));
    Seq::filter_distributes_over_add(s.take(i), s.skip(i), p);
}

/// The targeted suggestions: the first rows, at most five, whose name
/// contains the fragment without regard to ASCII case, in directory order.
pub fn suggest_contacts(contacts: &Vec<ContactSuggestion>, fragment: &str) -> (r: Vec<
    ContactSuggestion,
>)
    ensures
        r@ == spec_suggested(contacts@, fragment@),
{
    let mut out: Vec<ContactSuggestion> = Vec::new();
    let n = contacts.len();
    let mut i: usize = 0;
    proof {
        reveal(Seq::filter);
        assert(contacts@.take(0) =~= Seq::<ContactSuggestion>::empty());
        assert(spec_matches(contacts@.take(0), fragment@) =~= Seq::<ContactSuggestion>::empty());
    }
    while i < n && out.len() < 5
        invariant
            n == contacts@.len(),
            i <= n,
            out@ == spec_matches(contacts@.take(i as int), fragment@),
            out@.len() <= 5,
        decreases n - i,
    {
        let c = &contacts[i];
        if str_contains_ci(c.name.as_str(), fragment) {
            out.push(duplicate_suggestion(c));
        }
        proof {
            lemma_filter_step(contacts@, i as int, fragment@);
        }
        i += 1;
    }
    proof {
        let m = spec_matches(contacts@, fragment@);
        let mi = spec_matches(contacts@.take(i as int), fragment@);
        lemma_filter_prefix(contacts@, i as int, fragment@);
        if i < n {
            assert(out@.len() == 5);
            assert(m.take(5) =~= mi);
        } else {
            assert(contacts@.take(i as int) =~= contacts@);
        }
    }
    out
}

/// Whether a suggestion list is ordered by name, lexicographically.
pub open spec fn sorted_by_name(s: Seq<ContactSuggestion>) -> bool {
    forall|i: int, j: int| 0 <= i < j < s.len() ==> lex_le(s[i].name@, s[j].name@)
}

/// Inserting an element keeps the multiset of a sequence, plus the element.
proof fn lemma_insert_multiset(s: Seq<ContactSuggestion>, i: int, x: ContactSuggestion)
    requires
        0 <= i <= s.len(),
    ensures
        s.insert(i, x).to_multiset() =~= s.to_multiset().insert(x),
{
    broadcast use vstd::seq_lib::lemma_multiset_commutative;
    broadcast use vstd::seq_lib::group_to_multiset_ensures;

    let pre = s.subrange(0, i);
    let post = s.subrange(i, s.len() as int);
    assert(s.insert(i, x) == pre.push(x) + post);
    assert(pre.push(x).to_multiset() =~= pre.to_multiset().insert(x));
    assert(s =~= pre + post);
}

/// The whole directory ordered by name, ascending: a permutation of the
/// given rows that is sorted lexicographically by name.
pub fn sort_contacts_by_name(contacts: &Vec<ContactSuggestion>) -> (r: Vec<ContactSuggestion>)
    ensures
        r@.to_multiset() == contacts@.to_multiset(),
        sorted_by_name(r@),
{
    let mut out: Vec<ContactSuggestion> = Vec::new();
    let n = contacts.len();
    let mut i: usize = 0;
    proof {
        broadcast use vstd::seq_lib::group_to_multiset_ensures;

        assert(contacts@.take(0) =~= Seq::<ContactSuggestion>::empty());
        assert(out@.to_multiset() =~= contacts@.take(0).to_multiset());
    }
    while i < n
        invariant
            n == contacts@.len(),
            i <= n,
            out@.len() == i,
            out@.to_multiset() == contacts@.take(i as int).to_multiset(),
            sorted_by_name(out@),
        decreases n - i,
    {
        let c = duplicate_suggestion(&contacts[i]);
        let mut pos: usize = 0;
        while pos < out.len() && str_le(out[pos].name.as_str(), c.name.as_str())
            invariant
                pos <= out@.len(),
                forall|k: int| 0 <= k < pos ==> lex_le(out@[k].name@, c.name@),
            decreases out@.len() - pos,
        {
            pos += 1;
        }
        let ghost old_out = out@;
        proof {
            broadcast use vstd::seq_lib::group_to_multiset_ensures;

            lemma_insert_multiset(old_out, pos as int, c);
            assert(contacts@.take(i + 1) =~= contacts@.take(i as int).push(contacts@[i as int]));
            if pos < old_out.len() {
                lemma_lex_le_total(old_out[pos as int].name@, c.name@);
            }
            assert forall|k: int| pos <= k < old_out.len() implies lex_le(
                c.name@,
                old_out[k].name@,
            ) by {
                if pos < k {
                    lemma_lex_le_trans(c.name@, old_out[pos as int].name@, old_out[k].name@);
                }
            }
        }
        out.insert(pos, c);
        proof {
            broadcast use vstd::seq_lib::group_to_multiset_ensures;

            old_out.insert_ensures(pos as int, c);
            assert(out@ == old_out.insert(pos as int, c));
            assert forall|a: int, b: int| 0 <= a < b < out@.len() implies lex_le(
                out@[a].name@,
                out@[b].name@,
            ) by {
                if b < pos {
                } else if a < pos && b == pos {
                    assert(out@[b] == c);
                } else if a == pos {
                    assert(out@[a] == c);
                    assert(out@[b] == old_out[b - 1]);
                } else if a < pos {
                    assert(out@[b] == old_out[b - 1]);
                    assert(a < b - 1);
                } else {
                    assert(out@[a] == old_out[a - 1]);
                    assert(out@[b] == old_out[b - 1]);
                }
            }
            assert(out@.to_multiset() =~= contacts@.take(i + 1).to_multiset());
        }
        i += 1;
    }
    proof {
        assert(contacts@.take(n as int) =~= contacts@);
    }
    out
}

} // verus!
