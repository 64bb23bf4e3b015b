//! Character-level text utilities shared by the interpreter, the contact
//! matcher and the transcription pipeline: ASCII case folding, equality and
//! lexicographic comparison of strings, substring search, whitespace
//! trimming, and removal of fenced-code markers around a JSON document.

use vstd::prelude::*;

verus! {

/// Whitespace characters recognised when trimming text.
pub open spec fn is_space(c: char) -> bool {
    c == ' ' || c == '\t' || c == '\n' || c == '\r'
}

/// ASCII case folding of one character; every other character is unchanged.
pub open spec fn lower_char(c: char) -> char {
    if 'A' <= c && c <= 'Z' {
        (((c as u32) + 32) as u32) as char
    } else {
        c
    }
}

/// A character sequence with every ASCII letter folded to lower case.
pub open spec fn lower_seq(s: Seq<char>) -> Seq<char> {
    s.map_values(|c: char| lower_char(c))
}

/// ASCII case folding of one character, executable form.
pub fn lower_char_x(c: char) -> (r: char)
    ensures
        r == lower_char(c),
{
    if 'A' <= c && c <= 'Z' {
        ((c as u8) + 32) as char
    } else {
        c
    }
}

/// Character-for-character equality of two string slices.
pub fn str_eq(a: &str, b: &str) -> (r: bool)
    ensures
        r == (a@ == b@),
{
    let alen = a.unicode_len();
    let blen = b.unicode_len();
    if alen != blen {
        return false;
    }
    let mut i: usize = 0;
    while i < alen
        invariant
            alen == a@.len(),
            blen == b@.len(),
            alen == blen,
            i <= alen,
            forall|j: int| 0 <= j < i ==> a@[j] == b@[j],
        decreases alen - i,
    {
        if a.get_char(i) != b.get_char(i) {
            return false;
        }
        i += 1;
    }
    proof {
        assert(a@ =~= b@);
    }
    true
}

/// Lexicographic order on character sequences, by Unicode scalar value.
pub open spec fn lex_le(a: Seq<char>, b: Seq<char>) -> bool
    decreases a.len(),
{
    if a.len() == 0 {
        true
    } else if b.len() == 0 {
        false
    } else if (a[0] as u32) < (b[0] as u32) {
        true
    } else if (b[0] as u32) < (a[0] as u32) {
        false
    } else {
        lex_le(a.skip(1), b.skip(1))
    }
}

/// The lexicographic order relates every pair of character sequences.
pub proof fn lemma_lex_le_total(a: Seq<char>, b: Seq<char>)
    ensures
        lex_le(a, b) || lex_le(b, a),
    decreases a.len(),
{
    if a.len() == 0 || b.len() == 0 {
    } else if (a[0] as u32) == (b[0] as u32) {
        lemma_lex_le_total(a.skip(1), b.skip(1));
    }
}

/// The lexicographic order is transitive.
pub proof fn lemma_lex_le_trans(a: Seq<char>, b: Seq<char>, c: Seq<char>)
    requires
        lex_le(a, b),
        lex_le(b, c),
    ensures
        lex_le(a, c),
    decreases a.len(),
{
    if a.len() == 0 || b.len() == 0 || c.len() == 0 {
    } else if (a[0] as u32) == (b[0] as u32) && (b[0] as u32) == (c[0] as u32) {
        lemma_lex_le_trans(a.skip(1), b.skip(1), c.skip(1));
    }
}

/// If two sequences agree on their first `i` characters, their order is
/// decided by the remainders.
proof fn lemma_lex_le_skip(a: Seq<char>, b: Seq<char>, i: int)
    requires
        0 <= i <= a.len(),
        i <= b.len(),
        forall|j: int| 0 <= j < i ==> (#[trigger] a[j] as u32) == (b[j] as u32),
    ensures
        lex_le(a, b) == lex_le(a.skip(i), b.skip(i)),
    decreases i,
{
    if i == 0 {
        assert(a.skip(0) =~= a);
        assert(b.skip(0) =~= b);
    } else {
        assert((a[0] as u32) == (b[0] as u32));
        assert forall|j: int| 0 <= j < i - 1 implies (#[trigger] (a.skip(1)[j] as u32)) == (b.skip(
            1,
        )[j] as u32) by {
            assert(a.skip(1)[j] == a[j + 1]);
            assert(b.skip(1)[j] == b[j + 1]);
            assert((a[j + 1] as u32) == (b[j + 1] as u32));
        }
        lemma_lex_le_skip(a.skip(1), b.skip(1), i - 1);
        assert(a.skip(1).skip(i - 1) =~= a.skip(i));
        assert(b.skip(1).skip(i - 1) =~= b.skip(i));
    }
}

/// Lexicographic comparison of two string slices.
pub fn str_le(a: &str, b: &str) -> (r: bool)
    ensures
        r == lex_le(a@, b@),
{
    let alen = a.unicode_len();
    let blen = b.unicode_len();
    let min: usize = if alen < blen {
        alen
    } else {
        blen
    };
    let mut i: usize = 0;
    while i < min
        invariant
            alen == a@.len(),
            blen == b@.len(),
            min == if alen < blen {
                alen
            } else {
                blen
            },
            i <= min,
            forall|j: int| 0 <= j < i ==> (#[trigger] a@[j] as u32) == (b@[j] as u32),
        decreases min - i,
    {
        let ca = a.get_char(i) as u32;
        let cb = b.get_char(i) as u32;
        if ca < cb {
            proof {
                lemma_lex_le_skip(a@, b@, i as int);
            }
            return true;
        }
        if cb < ca {
            proof {
                lemma_lex_le_skip(a@, b@, i as int);
            }
            return false;
        }
        i += 1;
    }
    proof {
        lemma_lex_le_skip(a@, b@, min as int);
        if alen <= blen {
            assert(a@.skip(min as int).len() == 0);
        } else {
            assert(b@.skip(min as int).len() == 0);
            assert(a@.skip(min as int).len() > 0);
        }
    }
    alen <= blen
}

/// Whether the `needle`, compared without regard to ASCII case, occurs in
/// `hay` starting at position `i`.
pub open spec fn contains_at(hay: Seq<char>, needle: Seq<char>, i: int) -> bool {
    0 <= i && i + needle.len() <= hay.len() && lower_seq(hay.subrange(i, i + needle.len()))
        == lower_seq(needle)
}

/// Whether the `needle` occurs anywhere in `hay`, without regard to ASCII
/// case. An empty needle occurs in every text.
pub open spec fn contains_ci(hay: Seq<char>, needle: Seq<char>) -> bool {
    exists|i: int| contains_at(hay, needle, i)
}

/// Case-insensitive substring search, the matching used for contact lookup.
pub fn str_contains_ci(hay: &str, needle: &str) -> (r: bool)
    ensures
        r == contains_ci(hay@, needle@),
{
    let hlen = hay.unicode_len();
    let nlen = needle.unicode_len();
    if nlen > hlen {
        assert(forall|i: int| !contains_at(hay@, needle@, i));
        return false;
    }
    if nlen == 0 {
        proof {
            assert(lower_seq(hay@.subrange(0, 0)) =~= lower_seq(needle@));
            assert(contains_at(hay@, needle@, 0));
        }
        return true;
    }
    let mut i: usize = 0;
    while i <= hlen - nlen
        invariant
            hlen == hay@.len(),
            nlen == needle@.len(),
            1 <= nlen <= hlen,
            i <= hlen - nlen + 1,
            forall|j: int| 0 <= j < i ==> !contains_at(hay@, needle@, j),
        decreases hlen - i,
    {
        let mut k: usize = 0;
        let mut matched = true;
        while k < nlen
            invariant
                hlen == hay@.len(),
                nlen == needle@.len(),
                nlen <= hlen,
                i + nlen <= hlen,
                k <= nlen,
                matched ==> forall|m: int|
                    0 <= m < k ==> lower_char(hay@[i + m]) == lower_char(needle@[m]),
                !matched ==> !contains_at(hay@, needle@, i as int),
            decreases nlen - k,
        {
            let ch = lower_char_x(hay.get_char(i + k));
            let cn = lower_char_x(needle.get_char(k));
            if ch != cn {
                proof {
                    let sub = hay@.subrange(i as int, i + nlen as int);
                    assert(lower_seq(sub)[k as int] == lower_char(sub[k as int]));
                    assert(lower_seq(needle@)[k as int] == lower_char(needle@[k as int]));
                }
                matched = false;
            }
            k += 1;
        }
        if matched {
            proof {
                let sub = hay@.subrange(i as int, i + nlen as int);
                assert forall|m: int| 0 <= m < nlen implies lower_seq(sub)[m] == lower_seq(
                    needle@,
                )[m] by {
                    assert(lower_char(hay@[i + m]) == lower_char(needle@[m]));
                }
                assert(lower_seq(sub) =~= lower_seq(needle@));
                assert(contains_at(hay@, needle@, i as int));
            }
            return true;
        }
        i += 1;
    }
    assert(forall|j: int| !contains_at(hay@, needle@, j));
    false
}

/// The position of the first occurrence of `c`, or `-1` when `c` is absent.
pub open spec fn find_char(s: Seq<char>, c: char) -> int
    decreases s.len(),
{
    if s.len() == 0 {
        -1
    } else if s[0] == c {
        0
    } else {
        let r = find_char(s.skip(1), c);
        if r == -1 {
            -1
        } else {
            r + 1
        }
    }
}

/// What the first-occurrence position means: it is in range, it carries `c`,
/// and nothing before it does; `-1` means `c` is absent.
pub proof fn lemma_find_char(s: Seq<char>, c: char)
    ensures
        find_char(s, c) == -1 ==> forall|j: int| 0 <= j < s.len() ==> s[j] != c,
        find_char(s, c) != -1 ==> {
            let i = find_char(s, c);
            &&& 0 <= i < s.len()
            &&& s[i] == c
            &&& forall|j: int| 0 <= j < i ==> s[j] != c
        },
    decreases s.len(),
{
    if s.len() == 0 {
    } else if s[0] == c {
    } else {
        lemma_find_char(s.skip(1), c);
        let r = find_char(s.skip(1), c);
        if r == -1 {
            assert forall|j: int| 0 <= j < s.len() implies s[j] != c by {
                if j > 0 {
                    assert(s.skip(1)[j - 1] == s[j]);
                }
            }
        } else {
            assert(s[r + 1] == s.skip(1)[r]);
            assert forall|j: int| 0 <= j < r + 1 implies s[j] != c by {
                if j > 0 {
                    assert(s.skip(1)[j - 1] == s[j]);
                }
            }
        }
    }
}

/// Position of the first occurrence of `c` in a string slice, if any.
pub fn find_char_x(s: &str, c: char) -> (r: Option<usize>)
    ensures
        r is Some ==> find_char(s@, c) == r->0,
        r is None ==> find_char(s@, c) == -1,
{
    let len = s.unicode_len();
    let mut i: usize = 0;
    while i < len
        invariant
            len == s@.len(),
            i <= len,
            forall|j: int| 0 <= j < i ==> s@[j] != c,
        decreases len - i,
    {
        if s.get_char(i) == c {
            proof {
                lemma_find_char(s@, c);
            }
            return Some(i);
        }
        i += 1;
    }
    proof {
        lemma_find_char(s@, c);
    }
    None
}

/// A character sequence with its leading whitespace removed.
pub open spec fn trim_start_spec(s: Seq<char>) -> Seq<char>
    decreases s.len(),
{
    if s.len() > 0 && is_space(s[0]) {
        trim_start_spec(s.skip(1))
    } else {
        s
    }
}

/// A character sequence with its trailing whitespace removed.
pub open spec fn trim_end_spec(s: Seq<char>) -> Seq<char>
    decreases s.len(),
{
    if s.len() > 0 && is_space(s[s.len() - 1]) {
        trim_end_spec(s.take(s.len() - 1))
    } else {
        s
    }
}

/// A character sequence with whitespace removed from both ends.
pub open spec fn trim_spec(s: Seq<char>) -> Seq<char> {
    trim_end_spec(trim_start_spec(s))
}

/// Whether the character at position `i` is whitespace.
fn space_at(s: &str, i: usize) -> (r: bool)
    requires
        i < s@.len(),
    ensures
        r == is_space(s@[i as int]),
{
    let c = s.get_char(i);
    c == ' ' || c == '\t' || c == '\n' || c == '\r'
}

/// Remove whitespace from both ends of a string slice.
pub fn trim_str(s: &str) -> (r: String)
    ensures
        r@ == trim_spec(s@),
{
    let len = s.unicode_len();
    let mut start: usize = 0;
    proof {
        assert(s@.skip(0) =~= s@);
    }
    while start < len && space_at(s, start)
        invariant
            len == s@.len(),
            start <= len,
            trim_start_spec(s@) == trim_start_spec(s@.skip(start as int)),
        decreases len - start,
    {
        proof {
            assert(s@.skip(start as int)[0] == s@[start as int]);
            assert(s@.skip(start as int).skip(1) =~= s@.skip(start as int + 1));
        }
        start += 1;
    }
    proof {
        if start < len {
            assert(s@.skip(start as int)[0] == s@[start as int]);
        }
        assert(trim_start_spec(s@) == s@.skip(start as int));
        assert(s@.skip(start as int) =~= s@.subrange(start as int, len as int));
    }
    let mut end: usize = len;
    while end > start && space_at(s, end - 1)
        invariant
            len == s@.len(),
            start <= end <= len,
            trim_start_spec(s@) == s@.skip(start as int),
            trim_end_spec(s@.skip(start as int)) == trim_end_spec(
                s@.subrange(start as int, end as int),
            ),
        decreases end,
    {
        proof {
            let cur = s@.subrange(start as int, end as int);
            assert(cur[cur.len() - 1] == s@[end - 1]);
            assert(cur.take(cur.len() - 1) =~= s@.subrange(start as int, end as int - 1));
        }
        end -= 1;
    }
    proof {
        let cur = s@.subrange(start as int, end as int);
        if end > start {
            assert(cur[cur.len() - 1] == s@[end - 1]);
        }
        assert(trim_end_spec(s@.subrange(start as int, end as int)) == s@.subrange(
            start as int,
            end as int,
        ));
        assert(s@.skip(start as int) =~= s@.subrange(start as int, len as int));
    }
    let out = s.substring_char(start, end);
    out.to_owned()
}

/// A character sequence with every occurrence of `pat` removed, scanning
/// left to right without overlap. An empty pattern removes nothing.
pub open spec fn remove_all(s: Seq<char>, pat: Seq<char>) -> Seq<char>
    decreases s.len(),
{
    if pat.len() == 0 {
        s
    } else if s.len() < pat.len() {
        s
    } else if s.take(pat.len() as int) == pat {
        remove_all(s.skip(pat.len() as int), pat)
    } else {
        seq![s[0]] + remove_all(s.skip(1), pat)
    }
}

/// Remove every occurrence of `pat` from `s`, scanning left to right.
pub fn remove_all_str(s: &str, pat: &str) -> (r: String)
    ensures
        r@ == remove_all(s@, pat@),
{
    let slen = s.unicode_len();
    let plen = pat.unicode_len();
    let mut out = String::new();
    if plen == 0 {
        let whole = s.substring_char(0, slen);
        out.append(whole);
        proof {
            assert(s@.subrange(0, slen as int) =~= s@);
        }
        return out;
    }
    let mut i: usize = 0;
    proof {
        assert(s@.skip(0) =~= s@);
        assert(out@ + remove_all(s@, pat@) =~= remove_all(s@, pat@));
    }
    while i < slen
        invariant
            slen == s@.len(),
            plen == pat@.len(),
            plen >= 1,
            i <= slen,
            remove_all(s@, pat@) == out@ + remove_all(s@.skip(i as int), pat@),
        decreases slen - i,
    {
        let mut matched = plen <= slen - i;
        if matched {
            let mut k: usize = 0;
            while k < plen
                invariant_except_break
                    slen == s@.len(),
                    plen == pat@.len(),
                    i < slen,
                    i + plen <= slen,
                    k <= plen,
                    matched,
                    forall|m: int| 0 <= m < k ==> s@[i + m] == pat@[m],
                ensures
                    slen == s@.len(),
                    plen == pat@.len(),
                    i < slen,
                    i + plen <= slen,
                    matched ==> forall|m: int| 0 <= m < plen ==> s@[i + m] == pat@[m],
                    !matched ==> s@.skip(i as int).take(plen as int) != pat@,
                decreases plen - k,
            {
                if s.get_char(i + k) != pat.get_char(k) {
                    proof {
                        let rest = s@.skip(i as int);
                        assert(rest.take(plen as int)[k as int] == s@[i + k]);
                    }
                    matched = false;
                    break ;
                }
                k += 1;
            }
        }
        if matched {
            proof {
                let rest = s@.skip(i as int);
                assert forall|m: int| 0 <= m < plen implies rest.take(plen as int)[m]
                    == pat@[m] by {
                    assert(rest.take(plen as int)[m] == s@[i + m]);
                }
                assert(rest.take(plen as int) =~= pat@);
                assert(remove_all(rest, pat@) == remove_all(rest.skip(plen as int), pat@));
                assert(rest.skip(plen as int) =~= s@.skip(i + plen));
            }
            i += plen;
        } else {
            let one = s.substring_char(i, i + 1);
            out.append(one);
            proof {
                let rest = s@.skip(i as int);
                assert(rest.len() >= 1);
                if rest.len() < plen {
                    assert(remove_all(rest, pat@) == rest);
                    assert(rest.skip(1).len() < plen);
                    assert(remove_all(rest.skip(1), pat@) == rest.skip(1));
                    assert(seq![rest[0]] + rest.skip(1) =~= rest);
                } else {
                    assert(rest.take(plen as int) != pat@);
                }
                assert(remove_all(rest, pat@) == seq![rest[0]] + remove_all(rest.skip(1), pat@));
                assert(rest[0] == s@[i as int]);
                assert(s@.subrange(i as int, i as int + 1) =~= seq![s@[i as int]]);
                assert(rest.skip(1) =~= s@.skip(i as int + 1));
            }
            i += 1;
        }
    }
    proof {
        assert(s@.skip(slen as int).len() == 0);
        assert(out@ + remove_all(s@.skip(slen as int), pat@) =~= out@);
    }
    out
}

/// Text possibly wrapped in fenced-code markers, reduced to the bare
/// document: the fence markers are removed and the ends are trimmed.
pub fn clean_fenced_text(s: &str) -> (r: String)
    ensures
        r@ == trim_spec(remove_all(remove_all(s@, "```json"@), "```"@)),
{
    let first = remove_all_str(s, "```json");
    let second = remove_all_str(first.as_str(), "```");
    trim_str(second.as_str())
}

/// Text of a data URI with everything up to and including the first comma
/// removed; text without a comma is kept whole.
pub open spec fn strip_data_uri_spec(s: Seq<char>) -> Seq<char> {
    if find_char(s, ',') == -1 {
        s
    } else {
        s.skip(find_char(s, ',') + 1)
    }
}

/// Remove a data-URI prefix, everything up to the first comma, if present.
pub fn strip_data_uri(s: &str) -> (r: String)
    ensures
        r@ == strip_data_uri_spec(s@),
{
    let len = s.unicode_len();
    match find_char_x(s, ',') {
        Some(i) => {
            proof {
                lemma_find_char(s@, ',');
            }
            let out = s.substring_char(i + 1, len);
            proof {
                assert(s@.subrange(i as int + 1, len as int) =~= s@.skip(i as int + 1));
            }
            out.to_owned()
        },
        None => s.to_owned(),
    }
}

} // verus!
