//! Building the keyword-explore URL.
//!
//! The target page is reached through a fixed query-string template:
//! geography, locale and date window are constant, and the keyword is
//! substituted percent-encoded, so that any byte outside the
//! unreserved set travels as `%HH`.

use vstd::prelude::*;
use vstd::string::StringExecFns;
use vstd::string::StringSliceAdditionalSpecFns;

verus! {

/// Bytes that travel unencoded in a URL component: ASCII letters,
/// digits, `-`, `.`, `_` and `~`.
pub open spec fn is_unreserved(b: u8) -> bool {
    ||| 48 <= b <= 57
    ||| 65 <= b <= 90
    ||| 97 <= b <= 122
    ||| b == 45
    ||| b == 46
    ||| b == 95
    ||| b == 126
}

/// The upper-case hexadecimal digit for a value below sixteen.
pub open spec fn hex_digit(n: u8) -> u8 {
    if n < 10 {
        (48 + n) as u8
    } else {
        (55 + n) as u8
    }
}

/// How one byte travels: itself, or `%` and two hexadecimal digits.
pub open spec fn encode_byte(b: u8) -> Seq<u8> {
    if is_unreserved(b) {
        seq![b]
    } else {
        seq![37u8, hex_digit(b / 16), hex_digit(b % 16)]
    }
}

/// A byte sequence percent-encoded, byte for byte.
pub open spec fn percent_encode(bs: Seq<u8>) -> Seq<u8>
    decreases bs.len(),
{
    if bs.len() == 0 {
        seq![]
    } else {
        encode_byte(bs[0]) + percent_encode(bs.drop_first())
    }
}

pub proof fn lemma_percent_encode_push(bs: Seq<u8>, b: u8)
    ensures
        percent_encode(bs.push(b)) == percent_encode(bs) + encode_byte(b),
    decreases bs.len(),
{
    if bs.len() == 0 {
        assert(bs.push(b).drop_first() =~= Seq::<u8>::empty());
        assert(bs.push(b)[0] == b);
        assert(percent_encode(Seq::<u8>::empty()) =~= Seq::<u8>::empty());
        assert(encode_byte(b) + Seq::<u8>::empty() =~= encode_byte(b));
        assert(percent_encode(bs.push(b)) =~= encode_byte(b));
        assert(percent_encode(bs) + encode_byte(b) =~= encode_byte(b));
    } else {
        assert(bs.push(b).drop_first() =~= bs.drop_first().push(b));
        lemma_percent_encode_push(bs.drop_first(), b);
        assert(bs.push(b)[0] == bs[0]);
        assert(encode_byte(bs[0]) + (percent_encode(bs.drop_first()) + encode_byte(b))
            =~= (encode_byte(bs[0]) + percent_encode(bs.drop_first())) + encode_byte(b));
    }
}

/// Every byte of a percent-encoded sequence is ASCII.
pub proof fn lemma_percent_encode_ascii(bs: Seq<u8>)
    ensures
        forall|i: int| 0 <= i < percent_encode(bs).len() ==> percent_encode(bs)[i] < 128,
    decreases bs.len(),
{
    if bs.len() > 0 {
        lemma_percent_encode_ascii(bs.drop_first());
        assert forall|i: int| 0 <= i < percent_encode(bs).len() implies percent_encode(bs)[i]
            < 128 by {
            let e = encode_byte(bs[0]);
            if i < e.len() {
                assert(percent_encode(bs)[i] == e[i]);
            } else {
                assert(percent_encode(bs)[i] == percent_encode(bs.drop_first())[i - e.len()]);
            }
        }
    }
}

/// Percent-encodes a byte sequence.
pub fn encode_component(bs: &[u8]) -> (out: Vec<u8>)
    ensures
        out@ == percent_encode(bs@),
        forall|i: int| 0 <= i < out@.len() ==> out@[i] < 128,
{
    let mut out: Vec<u8> = Vec::new();
    let mut i: usize = 0;
    proof {
        assert(bs@.take(0) =~= Seq::<u8>::empty());
    }
    while i < bs.len()
        invariant
            i <= bs@.len(),
            out@ == percent_encode(bs@.take(i as int)),
            forall|j: int| 0 <= j < out@.len() ==> out@[j] < 128,
        decreases bs.len() - i,
    {
        let b = bs[i];
        proof {
            lemma_percent_encode_push(bs@.take(i as int), b);
            assert(bs@.take(i as int).push(b) =~= bs@.take(i + 1));
        }
        if (b >= 48 && b <= 57) || (b >= 65 && b <= 90) || (b >= 97 && b <= 122) || b == 45 || b
            == 46 || b == 95 || b == 126 {
            out.push(b);
            proof {
                assert(out@ =~= percent_encode(bs@.take(i + 1)));
            }
        } else {
            let hi = b / 16;
            let lo = b % 16;
            out.push(37);
            out.push(if hi < 10 {
                48 + hi
            } else {
                55 + hi
            });
            out.push(if lo < 10 {
                48 + lo
            } else {
                55 + lo
            });
            proof {
                assert(out@ =~= percent_encode(bs@.take(i + 1)));
            }
        }
        i += 1;
    }
    proof {
        assert(bs@.take(bs@.len() as int) =~= bs@);
    }
    out
}

/// The characters an ASCII byte sequence reads as.
pub open spec fn ascii_chars(bs: Seq<u8>) -> Seq<char> {
    bs.map_values(|b: u8| b as char)
}

/// Relies on `String::from_utf8` of std: bytes below 128 are valid
/// UTF-8, one code point each, decoding to the characters with the
/// same values.
#[verifier::external_body]
fn ascii_to_string(bytes: Vec<u8>) -> (r: String)
    requires
        forall|i: int| 0 <= i < bytes@.len() ==> bytes@[i] < 128,
    ensures
        r@ == ascii_chars(bytes@),
{
    String::from_utf8(bytes).unwrap_or_default()
}

/// The fixed part of the keyword-explore URL: all-time window, United
/// States geography, English locale; the keyword follows.
pub open spec fn spec_url_prefix() -> Seq<char> {
    "https://trends.google.com/trends/explore?date=all&geo=US&hl=en-US&q="@
}

/// The URL the query navigates to for a keyword with the given bytes.
pub open spec fn spec_explore_url(kw_bytes: Seq<u8>) -> Seq<char> {
    spec_url_prefix() + ascii_chars(percent_encode(kw_bytes))
}

/// Builds the keyword-explore URL: the fixed template with the
/// percent-encoded keyword substituted at the end.
pub fn explore_url(keyword: &str) -> (url: String)
    ensures
        url@ == spec_explore_url(keyword.spec_bytes()),
{
    let mut url = "https://trends.google.com/trends/explore?date=all&geo=US&hl=en-US&q="
        .to_owned();
    let encoded = encode_component(keyword.as_bytes());
    let tail = ascii_to_string(encoded);
    url.append(tail.as_str());
    url
}

} // verus!
