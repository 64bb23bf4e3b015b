//! Human-legible record identifiers: a three-letter kind tag, a dash, and
//! the allocation time in whole seconds as a decimal suffix. The suffix is
//! not zero-padded, so ids do not sort lexically, but recency is recovered
//! by parsing the digits back into a number.

use vstd::prelude::*;

use crate::text::find_char;
use crate::text::find_char_x;
use crate::text::lemma_find_char;

verus! {

/// The four kinds of draft record an intake can produce.
#[derive(Clone, Copy, PartialEq, Eq, Structural, Debug)]
pub enum DraftKind {
    Invoice,
    Task,
    Contact,
    Expense,
}

/// The three-letter tag that opens every id of the given kind.
pub open spec fn spec_kind_tag(k: DraftKind) -> Seq<char> {
    match k {
        DraftKind::Invoice => "INV"@,
        DraftKind::Task => "TSK"@,
        DraftKind::Contact => "CON"@,
        DraftKind::Expense => "EXP"@,
    }
}

/// The three-letter tag of a kind, executable form.
pub fn kind_tag(k: DraftKind) -> (r: &'static str)
    ensures
        r@ == spec_kind_tag(k),
{
    match k {
        DraftKind::Invoice => "INV",
        DraftKind::Task => "TSK",
        DraftKind::Contact => "CON",
        DraftKind::Expense => "EXP",
    }
}

/// The character for one decimal digit.
pub open spec fn digit_char(d: int) -> char {
    if d == 0 {
        '0'
    } else if d == 1 {
        '1'
    } else if d == 2 {
        '2'
    } else if d == 3 {
        '3'
    } else if d == 4 {
        '4'
    } else if d == 5 {
        '5'
    } else if d == 6 {
        '6'
    } else if d == 7 {
        '7'
    } else if d == 8 {
        '8'
    } else {
        '9'
    }
}

/// Whether a character is a decimal digit.
pub open spec fn is_digit(c: char) -> bool {
    '0' <= c && c <= '9'
}

/// The numeric value of a digit character; other characters count as zero.
pub open spec fn digit_val(c: char) -> nat {
    if is_digit(c) {
        ((c as u32) - 48) as nat
    } else {
        0
    }
}

/// Whether every character of a sequence is a decimal digit.
pub open spec fn all_digits(s: Seq<char>) -> bool {
    forall|i: int| 0 <= i < s.len() ==> is_digit(#[trigger] s[i])
}

/// The decimal digit sequence of a number, most significant digit first.
pub open spec fn dec_digits(n: nat) -> Seq<char>
    decreases n,
{
    if n < 10 {
        seq![digit_char(n as int)]
    } else {
        dec_digits(n / 10) + seq![digit_char((n % 10) as int)]
    }
}

/// The number a digit sequence denotes.
pub open spec fn dec_val(s: Seq<char>) -> nat
    decreases s.len(),
{
    if s.len() == 0 {
        0
    } else {
        dec_val(s.take(s.len() - 1)) * 10 + digit_val(s[s.len() - 1])
    }
}

/// A digit character is a digit and denotes the number it was made from.
pub proof fn lemma_digit_char_val(d: int)
    requires
        0 <= d < 10,
    ensures
        is_digit(digit_char(d)),
        digit_val(digit_char(d)) == d,
{
    if d == 0 {
        assert('0' as u32 == 48);
    } else if d == 1 {
        assert('1' as u32 == 49);
    } else if d == 2 {
        assert('2' as u32 == 50);
    } else if d == 3 {
        assert('3' as u32 == 51);
    } else if d == 4 {
        assert('4' as u32 == 52);
    } else if d == 5 {
        assert('5' as u32 == 53);
    } else if d == 6 {
        assert('6' as u32 == 54);
    } else if d == 7 {
        assert('7' as u32 == 55);
    } else if d == 8 {
        assert('8' as u32 == 56);
    } else {
        assert('9' as u32 == 57);
    }
}

/// The digit sequence of a number is non-empty, all digits, and denotes the
/// number it was made from.
pub proof fn lemma_dec_digits_val(n: nat)
    ensures
        dec_digits(n).len() >= 1,
        all_digits(dec_digits(n)),
        dec_val(dec_digits(n)) == n,
    decreases n,
{
    if n < 10 {
        lemma_digit_char_val(n as int);
        let s = dec_digits(n);
        assert(s.take(s.len() - 1) =~= Seq::<char>::empty());
        assert(dec_val(Seq::<char>::empty()) == 0);
        assert(dec_val(s) == dec_val(s.take(s.len() - 1)) * 10 + digit_val(s[s.len() - 1]));
        assert(s[s.len() - 1] == digit_char(n as int));
        assert(dec_val(s) == n);
    } else {
        lemma_digit_char_val((n % 10) as int);
        lemma_dec_digits_val(n / 10);
        let s = dec_digits(n);
        let front = dec_digits(n / 10);
        assert(s.take(s.len() - 1) =~= front);
        assert(s[s.len() - 1] == digit_char((n % 10) as int));
        assert(dec_val(s) == dec_val(front) * 10 + digit_val(digit_char((n % 10) as int)));
        assert(forall|i: int|
            0 <= i < s.len() ==> #[trigger] s[i] == if i < front.len() {
                front[i]
            } else {
                digit_char((n % 10) as int)
            });
    }
}

/// One digit as a string slice.
fn digit_str(d: u64) -> (r: &'static str)
    requires
        d < 10,
    ensures
        r@ =~= seq![digit_char(d as int)],
{
    if d == 0 {
        proof {
            reveal_strlit("0");
        }
        "0"
    } else if d == 1 {
        proof {
            reveal_strlit("1");
        }
        "1"
    } else if d == 2 {
        proof {
            reveal_strlit("2");
        }
        "2"
    } else if d == 3 {
        proof {
            reveal_strlit("3");
        }
        "3"
    } else if d == 4 {
        proof {
            reveal_strlit("4");
        }
        "4"
    } else if d == 5 {
        proof {
            reveal_strlit("5");
        }
        "5"
    } else if d == 6 {
        proof {
            reveal_strlit("6");
        }
        "6"
    } else if d == 7 {
        proof {
            reveal_strlit("7");
        }
        "7"
    } else if d == 8 {
        proof {
            reveal_strlit("8");
        }
        "8"
    } else {
        proof {
            reveal_strlit("9");
        }
        "9"
    }
}

/// The decimal text of a number, most significant digit first.
pub fn u64_to_dec(n: u64) -> (r: String)
    ensures
        r@ == dec_digits(n as nat),
    decreases n,
{
    if n < 10 {
        digit_str(n).to_owned()
    } else {
        let mut front = u64_to_dec(n / 10);
        front.append(digit_str(n % 10));
        front
    }
}

/// The denoted value never shrinks when more digits follow.
proof fn lemma_dec_val_prefix(s: Seq<char>, m: int)
    requires
        0 <= m <= s.len(),
    ensures
        dec_val(s.take(m)) <= dec_val(s),
    decreases s.len() - m,
{
    if m < s.len() {
        lemma_dec_val_prefix(s, m + 1);
        assert(s.take(m + 1).take(m) =~= s.take(m));
        assert(dec_val(s.take(m + 1)) == dec_val(s.take(m)) * 10 + digit_val(s.take(m + 1)[m]));
    } else {
        assert(s.take(m) =~= s);
    }
}

/// Parse a decimal number. The result exists exactly when the text is
/// non-empty, wholly digits, and denotes a value that fits the word size.
pub fn parse_u64(s: &str) -> (r: Option<u64>)
    ensures
        r is Some ==> s@.len() > 0 && all_digits(s@) && r->0 as nat == dec_val(s@),
        s@.len() > 0 && all_digits(s@) && dec_val(s@) <= u64::MAX ==> r is Some,
{
    let len = s.unicode_len();
    if len == 0 {
        return None;
    }
    let mut acc: u64 = 0;
    let mut i: usize = 0;
    proof {
        assert(s@.take(0) =~= Seq::<char>::empty());
    }
    while i < len
        invariant
            len == s@.len(),
            i <= len,
            forall|j: int| 0 <= j < i ==> is_digit(#[trigger] s@[j]),
            acc as nat == dec_val(s@.take(i as int)),
        decreases len - i,
    {
        let c = s.get_char(i);
        if !('0' <= c && c <= '9') {
            return None;
        }
        let d: u64 = ((c as u32) - 48) as u64;
        let step = match acc.checked_mul(10) {
            Some(t) => t.checked_add(d),
            None => None,
        };
        proof {
            assert(s@.take(i + 1).take(i as int) =~= s@.take(i as int));
            assert(s@.take(i + 1)[i as int] == s@[i as int]);
            assert(dec_val(s@.take(i + 1)) == acc as nat * 10 + digit_val(s@[i as int]));
        }
        match step {
            Some(v) => {
                acc = v;
            },
            None => {
                proof {
                    lemma_dec_val_prefix(s@, i + 1);
                }
                return None;
            },
        }
        i += 1;
    }
    proof {
        assert(s@.take(len as int) =~= s@);
    }
    Some(acc)
}

/// The full id text of a kind and an allocation time.
pub open spec fn spec_id(k: DraftKind, t: u64) -> Seq<char> {
    spec_kind_tag(k) + seq!['-'] + dec_digits(t as nat)
}

/// Allocate a record id: the kind's tag, a dash, and the time in seconds.
pub fn allocate_id(kind: DraftKind, now_secs: u64) -> (r: String)
    ensures
        r@ == spec_id(kind, now_secs),
{
    let mut out = kind_tag(kind).to_owned();
    out.append("-");
    let digits = u64_to_dec(now_secs);
    out.append(digits.as_str());
    proof {
        reveal_strlit("-");
        assert("-"@ =~= seq!['-']);
        assert(out@ =~= spec_id(kind, now_secs));
    }
    out
}

/// The recency timestamp carried by an id: the decimal value of the text
/// between the first dash and the next dash or the end; zero when there is
/// no dash or the segment is not a number that fits.
pub open spec fn spec_id_timestamp(s: Seq<char>) -> nat {
    if find_char(s, '-') == -1 {
        0
    } else {
        let rest = s.skip(find_char(s, '-') + 1);
        let seg = if find_char(rest, '-') == -1 {
            rest
        } else {
            rest.take(find_char(rest, '-'))
        };
        if seg.len() > 0 && all_digits(seg) && dec_val(seg) <= u64::MAX {
            dec_val(seg)
        } else {
            0
        }
    }
}

/// Recover the recency timestamp from an id; unparsable ids count as the
/// oldest possible time.
pub fn id_timestamp(id: &str) -> (r: u64)
    ensures
        r as nat == spec_id_timestamp(id@),
{
    let len = id.unicode_len();
    match find_char_x(id, '-') {
        None => 0,
        Some(i) => {
            proof {
                lemma_find_char(id@, '-');
            }
            let rest = id.substring_char(i + 1, len);
            proof {
                assert(rest@ =~= id@.skip(i as int + 1));
            }
            let seg = match find_char_x(rest, '-') {
                None => rest,
                Some(j) => {
                    proof {
                        lemma_find_char(rest@, '-');
                    }
                    rest.substring_char(0, j)
                },
            };
            proof {
                if find_char(rest@, '-') != -1 {
                    assert(seg@ =~= rest@.take(find_char(rest@, '-')));
                }
            }
            match parse_u64(seg) {
                Some(v) => v,
                None => 0,
            }
        },
    }
}

/// Law: every allocated id has the shape the kind prescribes: its three
/// leading characters are the kind's tag, a dash follows, and everything
/// after the dash is a non-empty run of decimal digits denoting the
/// allocation time.
pub proof fn lemma_id_shape(k: DraftKind, t: u64)
    ensures
        spec_id(k, t).len() >= 5,
        spec_id(k, t).take(3) == spec_kind_tag(k),
        spec_id(k, t)[3] == '-',
        all_digits(spec_id(k, t).skip(4)),
        dec_val(spec_id(k, t).skip(4)) == t,
{
    lemma_dec_digits_val(t as nat);
    match k {
        DraftKind::Invoice => {
            reveal_strlit("INV");
        },
        DraftKind::Task => {
            reveal_strlit("TSK");
        },
        DraftKind::Contact => {
            reveal_strlit("CON");
        },
        DraftKind::Expense => {
            reveal_strlit("EXP");
        },
    }
    assert(spec_kind_tag(k).len() == 3);
    assert(spec_id(k, t).take(3) =~= spec_kind_tag(k));
    assert(spec_id(k, t).skip(4) =~= dec_digits(t as nat));
}

/// Law: an id carries its allocation time: parsing the suffix of a freshly
/// allocated id recovers exactly the seconds it was allocated at, for every
/// kind. With time read in non-decreasing order, allocated ids therefore
/// carry non-decreasing suffixes.
pub proof fn lemma_id_round_trip(k: DraftKind, t: u64)
    ensures
        spec_id_timestamp(spec_id(k, t)) == t,
{
    let s = spec_id(k, t);
    let tag = spec_kind_tag(k);
    lemma_dec_digits_val(t as nat);
    match k {
        DraftKind::Invoice => {
            reveal_strlit("INV");
        },
        DraftKind::Task => {
            reveal_strlit("TSK");
        },
        DraftKind::Contact => {
            reveal_strlit("CON");
        },
        DraftKind::Expense => {
            reveal_strlit("EXP");
        },
    }
    assert(tag.len() == 3);
    assert(s[3] == '-');
    assert(s[0] == tag[0] && s[1] == tag[1] && s[2] == tag[2]);
    assert(s[0] != '-' && s[1] != '-' && s[2] != '-');
    lemma_find_char(s, '-');
    assert(find_char(s, '-') == 3);
    let rest = s.skip(4);
    assert(rest =~= dec_digits(t as nat));
    lemma_find_char(rest, '-');
    if find_char(rest, '-') != -1 {
        let j = find_char(rest, '-');
        assert(is_digit(rest[j]));
        assert(false);
    }
    assert(spec_id_timestamp(s) == dec_val(rest));
}

/// Law: ids allocated at non-decreasing times carry non-decreasing
/// recoverable timestamps, whatever their kinds.
pub proof fn lemma_id_timestamp_monotonic(k1: DraftKind, t1: u64, k2: DraftKind, t2: u64)
    requires
        t1 <= t2,
    ensures
        spec_id_timestamp(spec_id(k1, t1)) <= spec_id_timestamp(spec_id(k2, t2)),
{
    lemma_id_round_trip(k1, t1);
    lemma_id_round_trip(k2, t2);
}

} // verus!
