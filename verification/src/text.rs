//! Splitting byte sequences on a separator, and decimal digit strings.
//!
//! The exported data file is delimited text; everything the parser does
//! reduces to splitting bytes on separators and reading digit runs, so
//! those two are specified and verified here once.

use vstd::prelude::*;

verus! {

/// Index of the first occurrence of `sep` in `s`, or `s.len()` when
/// `sep` does not occur.
pub open spec fn first_sep(s: Seq<u8>, sep: u8) -> int
    decreases s.len(),
{
    if s.len() == 0 {
        0
    } else if s[0] == sep {
        0
    } else {
        1 + first_sep(s.drop_first(), sep)
    }
}

pub proof fn lemma_first_sep(s: Seq<u8>, sep: u8)
    ensures
        0 <= first_sep(s, sep) <= s.len(),
        first_sep(s, sep) < s.len() ==> s[first_sep(s, sep)] == sep,
        forall|j: int| 0 <= j < first_sep(s, sep) ==> s[j] != sep,
    decreases s.len(),
{
    if s.len() == 0 {
    } else if s[0] == sep {
    } else {
        lemma_first_sep(s.drop_first(), sep);
        assert forall|j: int| 0 <= j < first_sep(s, sep) implies s[j] != sep by {
            if j > 0 {
                assert(s.drop_first()[j - 1] == s[j]);
            }
        }
    }
}

/// `s` split at every occurrence of `sep`, the separators dropped.
/// There is always one part more than there are separators; in
/// particular the empty sequence splits into one empty part.
pub open spec fn split_on(s: Seq<u8>, sep: u8) -> Seq<Seq<u8>>
    decreases s.len(),
{
    let f = first_sep(s, sep);
    if 0 <= f < s.len() {
        seq![s.take(f)] + split_on(s.skip(f + 1), sep)
    } else {
        seq![s]
    }
}

/// A sequence without the separator splits into itself alone.
pub proof fn lemma_split_on_whole(s: Seq<u8>, sep: u8)
    requires
        forall|j: int| 0 <= j < s.len() ==> s[j] != sep,
    ensures
        split_on(s, sep) == seq![s],
{
    lemma_first_sep(s, sep);
    if first_sep(s, sep) < s.len() {
        assert(s[first_sep(s, sep)] == sep);
    }
}

/// Index of the first occurrence, given where one stands.
pub proof fn lemma_first_sep_at(s: Seq<u8>, sep: u8, k: int)
    requires
        0 <= k < s.len(),
        s[k] == sep,
        forall|j: int| 0 <= j < k ==> s[j] != sep,
    ensures
        first_sep(s, sep) == k,
    decreases k,
{
    if k == 0 {
    } else {
        let t = s.drop_first();
        assert forall|j: int| 0 <= j < k - 1 implies t[j] != sep by {
            assert(t[j] == s[j + 1]);
        }
        assert(t[k - 1] == s[k]);
        lemma_first_sep_at(t, sep, k - 1);
    }
}

/// Splitting a sequence that starts with a separator-free part, then
/// one separator, then a remainder: the part comes off the front.
pub proof fn lemma_split_on_append(p: Seq<u8>, sep: u8, r: Seq<u8>)
    requires
        forall|j: int| 0 <= j < p.len() ==> p[j] != sep,
    ensures
        split_on(p + seq![sep] + r, sep) == seq![p] + split_on(r, sep),
{
    let s = p + seq![sep] + r;
    assert(s[p.len() as int] == sep);
    assert forall|j: int| 0 <= j < p.len() implies s[j] != sep by {
        assert(s[j] == p[j]);
    }
    lemma_first_sep_at(s, sep, p.len() as int);
    assert(s.take(p.len() as int) =~= p);
    assert(s.skip(p.len() as int + 1) =~= r);
}

/// Splits `data` at every occurrence of `sep`.
pub fn split_bytes(data: &[u8], sep: u8) -> (parts: Vec<Vec<u8>>)
    ensures
        parts@.map_values(|p: Vec<u8>| p@) == split_on(data@, sep),
        parts@.len() >= 1,
{
    let ghost whole = data@;
    let mut parts: Vec<Vec<u8>> = Vec::new();
    let mut cur: Vec<u8> = Vec::new();
    let mut i: usize = 0;
    proof {
        assert(cur@ + whole.skip(0) =~= whole);
        assert(parts@.map_values(|p: Vec<u8>| p@) + split_on(whole, sep) =~= split_on(
            whole,
            sep,
        ));
    }
    while i < data.len()
        invariant
            i <= data.len(),
            whole == data@,
            forall|j: int| 0 <= j < cur@.len() ==> cur@[j] != sep,
            split_on(whole, sep) == parts@.map_values(|p: Vec<u8>| p@) + split_on(
                cur@ + whole.skip(i as int),
                sep,
            ),
        decreases data.len() - i,
    {
        let b = data[i];
        if b == sep {
            proof {
                assert(cur@ + whole.skip(i as int) =~= cur@ + seq![sep] + whole.skip(i + 1));
                lemma_split_on_append(cur@, sep, whole.skip(i + 1));
                assert(parts@.push(cur).map_values(|p: Vec<u8>| p@) =~= parts@.map_values(
                    |p: Vec<u8>| p@,
                ).push(cur@));
                assert(parts@.map_values(|p: Vec<u8>| p@) + (seq![cur@] + split_on(
                    whole.skip(i + 1),
                    sep,
                )) =~= parts@.map_values(|p: Vec<u8>| p@).push(cur@) + split_on(
                    whole.skip(i + 1),
                    sep,
                ));
            }
            parts.push(cur);
            cur = Vec::new();
            proof {
                assert(cur@ + whole.skip(i + 1) =~= whole.skip(i + 1));
            }
        } else {
            proof {
                assert(cur@.push(b) + whole.skip(i + 1) =~= cur@ + whole.skip(i as int));
            }
            cur.push(b);
        }
        i += 1;
    }
    proof {
        assert(cur@ + whole.skip(i as int) =~= cur@);
        lemma_split_on_whole(cur@, sep);
        assert(parts@.push(cur).map_values(|p: Vec<u8>| p@) =~= parts@.map_values(
            |p: Vec<u8>| p@,
        ).push(cur@));
        assert(parts@.map_values(|p: Vec<u8>| p@) + seq![cur@] =~= parts@.map_values(
            |p: Vec<u8>| p@,
        ).push(cur@));
    }
    parts.push(cur);
    parts
}

/// True when `b` is an ASCII decimal digit.
pub open spec fn is_digit(b: u8) -> bool {
    48 <= b <= 57
}

/// Every byte of `s` is a decimal digit.
pub open spec fn all_digits(s: Seq<u8>) -> bool {
    forall|j: int| 0 <= j < s.len() ==> is_digit(s[j])
}

/// The number a run of decimal digits denotes, most significant first.
pub open spec fn digits_value(s: Seq<u8>) -> int
    decreases s.len(),
{
    if s.len() == 0 {
        0
    } else {
        digits_value(s.drop_last()) * 10 + (s.last() - 48)
    }
}

pub proof fn lemma_digits_value_nonneg(s: Seq<u8>)
    requires
        all_digits(s),
    ensures
        digits_value(s) >= 0,
    decreases s.len(),
{
    if s.len() > 0 {
        lemma_digits_value_nonneg(s.drop_last());
    }
}

/// Reading more digits never shrinks the value.
pub proof fn lemma_digits_value_prefix(s: Seq<u8>, k: int)
    requires
        all_digits(s),
        0 <= k <= s.len(),
    ensures
        digits_value(s) >= digits_value(s.take(k)),
    decreases s.len(),
{
    if k < s.len() {
        let t = s.drop_last();
        assert(t.take(k) =~= s.take(k));
        lemma_digits_value_prefix(t, k);
        lemma_digits_value_nonneg(t);
        lemma_digits_value_nonneg(s.take(k));
    } else {
        assert(s.take(k) =~= s);
    }
}

} // verus!
