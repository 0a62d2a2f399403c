//! Take-file naming: every take is persisted as `recording-<N>.wav`, and a
//! new take gets the smallest number above every number already present in
//! the working directory listing.

use vstd::prelude::*;
use vstd::string::{StrSliceExecFns, StringExecFns};

verus! {

/// The characters that open every take-file name.
pub open spec fn recording_prefix() -> Seq<char> {
    seq!['r', 'e', 'c', 'o', 'r', 'd', 'i', 'n', 'g', '-']
}

/// The characters that close every take-file name.
pub open spec fn wav_suffix() -> Seq<char> {
    seq!['.', 'w', 'a', 'v']
}

pub open spec fn is_digit_char(c: char) -> bool {
    48 <= c as int && c as int <= 57
}

pub open spec fn digit_val(c: char) -> nat {
    (c as int - 48) as nat
}

pub open spec fn all_digits(s: Seq<char>) -> bool {
    forall|i: int| 0 <= i < s.len() ==> is_digit_char(#[trigger] s[i])
}

/// The number a digit string denotes, most significant digit first.
pub open spec fn digits_val(s: Seq<char>) -> nat
    decreases s.len(),
{
    if s.len() == 0 {
        0
    } else {
        10 * digits_val(s.drop_last()) + digit_val(s.last())
    }
}

/// Whether a directory entry names a take file: `recording-`, one or more
/// decimal digits, then `.wav`, and nothing else.
pub open spec fn matches_recording(name: Seq<char>) -> bool {
    &&& name.len() >= 15
    &&& name.subrange(0, 10) == recording_prefix()
    &&& name.subrange(name.len() as int - 4, name.len() as int) == wav_suffix()
    &&& all_digits(name.subrange(10, name.len() as int - 4))
}

/// The take number carried by a matching entry.
pub open spec fn recording_number(name: Seq<char>) -> nat {
    digits_val(name.subrange(10, name.len() as int - 4))
}

pub open spec fn digit_char(d: nat) -> char {
    if d == 0 {
        '0'
    } else if d == 1 {
        '1'
    } else if d == 2 {
        '2'
    } else if d == 3 {
        '3'
    } else if d == 4 {
        '4'
    } else if d == 5 {
        '5'
    } else if d == 6 {
        '6'
    } else if d == 7 {
        '7'
    } else if d == 8 {
        '8'
    } else {
        '9'
    }
}

/// The decimal digit string of `n`, most significant digit first, without
/// leading zeros (`0` itself is written `0`).
pub open spec fn dec_digits(n: nat) -> Seq<char>
    decreases n,
{
    if n < 10 {
        seq![digit_char(n)]
    } else {
        dec_digits(n / 10).push(digit_char(n % 10))
    }
}

/// The take-file name for take number `n`.
pub open spec fn recording_name(n: nat) -> Seq<char> {
    recording_prefix() + dec_digits(n) + wav_suffix()
}

/// The highest take number among the matching entries of a directory
/// listing, 0 when none matches. Listing order is irrelevant to it.
pub open spec fn max_recording_number(names: Seq<Seq<char>>) -> nat
    decreases names.len(),
{
    if names.len() == 0 {
        0
    } else {
        let rest = max_recording_number(names.drop_last());
        if matches_recording(names.last()) && recording_number(names.last()) > rest {
            recording_number(names.last())
        } else {
            rest
        }
    }
}

/// The directory listing as the specification sees it.
pub open spec fn name_views(entries: Seq<String>) -> Seq<Seq<char>> {
    entries.map_values(|s: String| s@)
}

proof fn lemma_dec_digits_shape(n: nat)
    ensures
        dec_digits(n).len() >= 1,
        all_digits(dec_digits(n)),
    decreases n,
{
    if n >= 10 {
        lemma_dec_digits_shape(n / 10);
        assert forall|i: int| 0 <= i < dec_digits(n).len() implies is_digit_char(
            #[trigger] dec_digits(n)[i],
        ) by {
            if i < dec_digits(n).len() - 1 {
                assert(dec_digits(n)[i] == dec_digits(n / 10)[i]);
            }
        }
    }
}

proof fn lemma_digits_val_dec_digits(n: nat)
    ensures
        digits_val(dec_digits(n)) == n,
    decreases n,
{
    if n < 10 {
        assert(dec_digits(n).drop_last() =~= Seq::<char>::empty());
        assert(dec_digits(n).last() == digit_char(n));
        assert(digit_val(digit_char(n)) == n);
        assert(digits_val(dec_digits(n)) == 10 * digits_val(Seq::<char>::empty()) + digit_val(
            digit_char(n),
        ));
    } else {
        lemma_digits_val_dec_digits(n / 10);
        assert(dec_digits(n).drop_last() =~= dec_digits(n / 10));
        assert(dec_digits(n).last() == digit_char(n % 10));
        assert(digit_val(digit_char(n % 10)) == n % 10);
        assert(n == 10 * (n / 10) + n % 10) by {
            vstd::arithmetic::div_mod::lemma_fundamental_div_mod(n as int, 10);
        }
    }
}

/// The name allocated for take `n` is itself a matching entry, and it
/// carries exactly the number `n`.
pub proof fn lemma_recording_name_number(n: nat)
    ensures
        matches_recording(recording_name(n)),
        recording_number(recording_name(n)) == n,
{
    lemma_dec_digits_shape(n);
    lemma_digits_val_dec_digits(n);
    let name = recording_name(n);
    let dlen = dec_digits(n).len() as int;
    assert(name.len() == 14 + dlen);
    assert(name.subrange(0, 10) =~= recording_prefix());
    assert(name.subrange(name.len() as int - 4, name.len() as int) =~= wav_suffix());
    assert(name.subrange(10, name.len() as int - 4) =~= dec_digits(n));
}

/// Every matching entry's number is bounded by the listing's maximum.
pub proof fn lemma_max_is_bound(names: Seq<Seq<char>>, i: int)
    requires
        0 <= i < names.len(),
        matches_recording(names[i]),
    ensures
        recording_number(names[i]) <= max_recording_number(names),
    decreases names.len(),
{
    if i < names.len() - 1 {
        lemma_max_is_bound(names.drop_last(), i);
    }
}

/// A listing without a single matching entry has maximum 0, so the first
/// allocated take is number 1.
pub proof fn lemma_no_match_max_zero(names: Seq<Seq<char>>)
    requires
        forall|i: int| 0 <= i < names.len() ==> !matches_recording(#[trigger] names[i]),
    ensures
        max_recording_number(names) == 0,
    decreases names.len(),
{
    if names.len() > 0 {
        lemma_no_match_max_zero(names.drop_last());
    }
}

/// A non-matching entry never influences the computed maximum: removing it
/// from the listing leaves the maximum unchanged.
pub proof fn lemma_non_matching_never_counts(names: Seq<Seq<char>>, i: int)
    requires
        0 <= i < names.len(),
        !matches_recording(names[i]),
    ensures
        max_recording_number(names.remove(i)) == max_recording_number(names),
    decreases names.len(),
{
    if i == names.len() - 1 {
        assert(names.remove(i) =~= names.drop_last());
    } else {
        lemma_non_matching_never_counts(names.drop_last(), i);
        assert(names.remove(i).drop_last() =~= names.drop_last().remove(i));
        assert(names.remove(i).last() == names.last());
    }
}

/// The name allocated over a listing is fresh: no entry of the listing
/// already carries it.
pub proof fn lemma_allocated_name_fresh(names: Seq<Seq<char>>, i: int)
    requires
        0 <= i < names.len(),
    ensures
        names[i] != recording_name(max_recording_number(names) + 1),
{
    let fresh = recording_name(max_recording_number(names) + 1);
    lemma_recording_name_number(max_recording_number(names) + 1);
    if names[i] == fresh {
        lemma_max_is_bound(names, i);
    }
}

fn prefix_char(i: usize) -> (c: char)
    requires
        i < 10,
    ensures
        c == recording_prefix()[i as int],
{
    if i == 0 {
        'r'
    } else if i == 1 {
        'e'
    } else if i == 2 {
        'c'
    } else if i == 3 {
        'o'
    } else if i == 4 {
        'r'
    } else if i == 5 {
        'd'
    } else if i == 6 {
        'i'
    } else if i == 7 {
        'n'
    } else if i == 8 {
        'g'
    } else {
        '-'
    }
}

fn suffix_char(i: usize) -> (c: char)
    requires
        i < 4,
    ensures
        c == wav_suffix()[i as int],
{
    if i == 0 {
        '.'
    } else if i == 1 {
        'w'
    } else if i == 2 {
        'a'
    } else {
        'v'
    }
}

/// Digit strings grow with every digit appended, so a prefix of a digit
/// string never denotes more than the whole of it.
proof fn lemma_digits_val_prefix_le(s: Seq<char>, i: int)
    requires
        0 <= i <= s.len(),
    ensures
        digits_val(s.subrange(0, i)) <= digits_val(s),
    decreases s.len() - i,
{
    if i == s.len() {
        assert(s.subrange(0, i) =~= s);
    } else {
        lemma_digits_val_prefix_le(s, i + 1);
        assert(s.subrange(0, i + 1).drop_last() =~= s.subrange(0, i));
    }
}

/// Decides whether a directory entry names a take file and, if it does,
/// reads the take number off it. Entries of any other shape are reported
/// as non-matching, never misread.
fn parse_recording_number(name: &str) -> (r: Option<u64>)
    requires
        matches_recording(name@) ==> recording_number(name@) < u64::MAX,
    ensures
        r is Some <==> matches_recording(name@),
        r matches Some(n) ==> n == recording_number(name@),
{
    let len = name.unicode_len();
    if len < 15 {
        return None;
    }
    let mut i: usize = 0;
    while i < 10
        invariant
            i <= 10,
            len == name@.len(),
            len >= 15,
            forall|j: int| 0 <= j < i ==> name@[j] == recording_prefix()[j],
        decreases 10 - i,
    {
        if name.get_char(i) != prefix_char(i) {
            proof {
                if matches_recording(name@) {
                    assert(name@.subrange(0, 10)[i as int] == recording_prefix()[i as int]);
                }
            }
            return None;
        }
        i = i + 1;
    }
    let mut k: usize = 0;
    while k < 4
        invariant
            k <= 4,
            len == name@.len(),
            len >= 15,
            forall|j: int| 0 <= j < k ==> name@[len - 4 + j] == wav_suffix()[j],
        decreases 4 - k,
    {
        if name.get_char(len - 4 + k) != suffix_char(k) {
            proof {
                if matches_recording(name@) {
                    assert(name@.subrange(len as int - 4, len as int)[k as int] == wav_suffix()[
                        k as int
                    ]);
                }
            }
            return None;
        }
        k = k + 1;
    }
    let mut d: usize = 10;
    while d < len - 4
        invariant
            10 <= d <= len - 4,
            len == name@.len(),
            len >= 15,
            forall|j: int| 10 <= j < d ==> is_digit_char(#[trigger] name@[j]),
        decreases len - 4 - d,
    {
        let c = name.get_char(d);
        let u = c as u32;
        if !(48 <= u && u <= 57) {
            proof {
                if matches_recording(name@) {
                    assert(is_digit_char(name@.subrange(10, len as int - 4)[d - 10]));
                }
            }
            return None;
        }
        d = d + 1;
    }
    proof {
        assert(name@.subrange(0, 10) =~= recording_prefix());
        assert(name@.subrange(len as int - 4, len as int) =~= wav_suffix());
        assert forall|j: int| 0 <= j < name@.subrange(10, len as int - 4).len() implies
            is_digit_char(#[trigger] name@.subrange(10, len as int - 4)[j]) by {
            assert(name@.subrange(10, len as int - 4)[j] == name@[10 + j]);
        }
        assert(matches_recording(name@));
    }
    let ghost digits = name@.subrange(10, len as int - 4);
    let mut val: u64 = 0;
    let mut p: usize = 10;
    while p < len - 4
        invariant
            10 <= p <= len - 4,
            len == name@.len(),
            matches_recording(name@),
            recording_number(name@) < u64::MAX,
            digits == name@.subrange(10, len as int - 4),
            val == digits_val(digits.subrange(0, p - 10)),
        decreases len - 4 - p,
    {
        let c = name.get_char(p);
        let u = c as u32;
        proof {
            assert(digits[p - 10] == name@[p as int]);
            assert(is_digit_char(name@[p as int]));
            assert(digits.subrange(0, p - 10 + 1).drop_last() =~= digits.subrange(0, p - 10));
            lemma_digits_val_prefix_le(digits, p - 10 + 1);
        }
        val = val * 10 + ((u - 48) as u64);
        p = p + 1;
    }
    proof {
        assert(digits.subrange(0, digits.len() as int) =~= digits);
    }
    Some(val)
}

fn digit_char_exec(d: u64) -> (c: char)
    requires
        d < 10,
    ensures
        c == digit_char(d as nat),
{
    if d == 0 {
        '0'
    } else if d == 1 {
        '1'
    } else if d == 2 {
        '2'
    } else if d == 3 {
        '3'
    } else if d == 4 {
        '4'
    } else if d == 5 {
        '5'
    } else if d == 6 {
        '6'
    } else if d == 7 {
        '7'
    } else if d == 8 {
        '8'
    } else {
        '9'
    }
}

fn u64_digits(n: u64) -> (r: Vec<char>)
    ensures
        r@ == dec_digits(n as nat).reverse(),
{
    let mut m: u64 = n;
    let mut digits: Vec<char> = Vec::new();
    proof {
        assert(Seq::<char>::empty().reverse() =~= Seq::<char>::empty());
        assert(dec_digits(n as nat) + Seq::<char>::empty() =~= dec_digits(n as nat));
    }
    loop
        invariant_except_break
            m <= n,
            m == 0 ==> digits@.len() == 0 && n == 0,
            m > 0 ==> dec_digits(n as nat) == dec_digits(m as nat) + digits@.reverse(),
        ensures
            dec_digits(n as nat) == digits@.reverse(),
        decreases m,
    {
        let d: u64 = m % 10;
        let c = digit_char_exec(d);
        proof {
            if m == 0 {
                assert((digits@.push(c)).reverse() =~= seq![c]);
                assert(dec_digits(0) == seq![digit_char(0)]);
            } else if m < 10 {
                assert((digits@.push(c)).reverse() =~= seq![c] + digits@.reverse());
                assert(dec_digits(m as nat) == seq![digit_char(m as nat)]);
                assert(dec_digits(m as nat) + digits@.reverse() =~= seq![c] + digits@.reverse());
            } else {
                assert((digits@.push(c)).reverse() =~= seq![c] + digits@.reverse());
                assert(dec_digits(m as nat) == dec_digits((m / 10) as nat).push(
                    digit_char((m % 10) as nat),
                ));
                assert(dec_digits((m / 10) as nat) + (digits@.push(c)).reverse()
                    =~= dec_digits(m as nat) + digits@.reverse());
            }
        }
        digits.push(c);
        m = m / 10;
        if m == 0 {
            break;
        }
    }
    digits
}

fn u64_to_string(n: u64) -> (r: String)
    ensures
        r@ == dec_digits(n as nat),
{
    let digits = u64_digits(n);
    let mut r = String::new();
    let mut i: usize = digits.len();
    while i > 0
        invariant
            i <= digits@.len(),
            digits@ == dec_digits(n as nat).reverse(),
            r@ == dec_digits(n as nat).subrange(0, digits@.len() - i),
        decreases i,
    {
        i = i - 1;
        let c = digits[i];
        proof {
            lemma_dec_digits_shape(n as nat);
            let whole = dec_digits(n as nat);
            assert(digits@[i as int] == whole[whole.len() - 1 - i]);
            assert(whole.subrange(0, digits@.len() - i) =~= whole.subrange(
                0,
                digits@.len() - i - 1,
            ).push(whole[whole.len() - 1 - i]));
            assert(is_digit_char(whole[whole.len() - 1 - i]));
        }
        let cs = digit_char_str(c);
        r.append(cs);
    }
    proof {
        assert(dec_digits(n as nat).subrange(0, dec_digits(n as nat).len() as int) =~= dec_digits(
            n as nat,
        ));
    }
    r
}

/// A one-character string for each digit character, so that number strings
/// can be assembled without leaving verified code.
fn digit_char_str(c: char) -> (r: &'static str)
    requires
        is_digit_char(c),
    ensures
        r@ =~= seq![c],
{
    let u = c as u32;
    proof {
        reveal_strlit("0");
        reveal_strlit("1");
        reveal_strlit("2");
        reveal_strlit("3");
        reveal_strlit("4");
        reveal_strlit("5");
        reveal_strlit("6");
        reveal_strlit("7");
        reveal_strlit("8");
        reveal_strlit("9");
    }
    if u == 48 {
        "0"
    } else if u == 49 {
        "1"
    } else if u == 50 {
        "2"
    } else if u == 51 {
        "3"
    } else if u == 52 {
        "4"
    } else if u == 53 {
        "5"
    } else if u == 54 {
        "6"
    } else if u == 55 {
        "7"
    } else if u == 56 {
        "8"
    } else {
        "9"
    }
}

/// Scans a working-directory listing, in any order, and allocates the next
/// take-file name: `recording-<M+1>.wav`, where `M` is the highest number
/// any matching entry carries, and 0 when none matches. Entries of any
/// other shape are skipped.
pub fn determine_filename(entries: &Vec<String>) -> (r: String)
    requires
        forall|i: int| 0 <= i < entries@.len() ==> (matches_recording(#[trigger] entries@[i]@)
            ==> recording_number(entries@[i]@) < u64::MAX),
    ensures
        r@ == recording_name(max_recording_number(name_views(entries@)) + 1),
{
    let ghost views = name_views(entries@);
    let mut max_num: u64 = 0;
    let mut idx: usize = 0;
    while idx < entries.len()
        invariant
            idx <= entries@.len(),
            views == name_views(entries@),
            forall|i: int| 0 <= i < entries@.len() ==> (matches_recording(#[trigger] entries@[i]@)
                ==> recording_number(entries@[i]@) < u64::MAX),
            max_num == max_recording_number(views.subrange(0, idx as int)),
            max_num < u64::MAX,
        decreases entries@.len() - idx,
    {
        let entry = &entries[idx];
        proof {
            assert(views[idx as int] == entries@[idx as int]@);
        }
        match parse_recording_number(entry.as_str()) {
            Some(n) => {
                if n > max_num {
                    max_num = n;
                }
            },
            None => {},
        }
        proof {
            assert(views.subrange(0, idx + 1).drop_last() =~= views.subrange(0, idx as int));
            assert(views.subrange(0, idx + 1).last() == entries@[idx as int]@);
        }
        idx = idx + 1;
    }
    proof {
        assert(views.subrange(0, entries@.len() as int) =~= views);
    }
    let next: u64 = max_num + 1;
    let number = u64_to_string(next);
    let mut r = String::from_str("recording-");
    proof {
        reveal_strlit("recording-");
        assert(r@ =~= recording_prefix());
    }
    r.append(number.as_str());
    r.append(".wav");
    proof {
        reveal_strlit(".wav");
        assert(".wav"@ =~= wav_suffix());
    }
    r
}

} // verus!
