//! Building action links: appending signed query parameters to a base URL.
//!
//! Given a base URL and an ordered list of named string parameters, each
//! parameter is appended as a query parameter in the given order, with name
//! and value percent-encoded (unreserved characters `A-Z a-z 0-9 - _ . ~`
//! kept, every other byte written as `%XX` with uppercase hex digits). The
//! parameters are appended at the end of the base: with `?` before the first
//! one when the base has no query yet, with `&` otherwise. No signature is
//! computed here — callers pass a pre-computed signature as one of the
//! parameters. Building fails only when the base URL itself is structurally
//! invalid: it must start with an alphabetic scheme followed by `://` and a
//! non-empty remainder.

use vstd::prelude::*;

use crate::hexcode::hex_upper_byte;
use crate::hexcode::upper_hex_digit;
use crate::search::{find_from, find_byte_from};
use crate::strconv::string_from_utf8;
use vstd::string::StringSliceAdditionalSpecFns;
use vstd::utf8::{
    valid_utf8,
    encode_utf8,
    decode_utf8,
    partial_valid_utf8,
    partial_valid_utf8_extend_ascii_block,
    encode_utf8_valid_utf8,
    encode_utf8_decode_utf8,
    is_leading_byte_width_1,
};

verus! {

/// Why a link could not be built.
#[derive(Debug, Clone, Copy, PartialEq, Eq, Structural)]
pub enum LinkError {
    /// The base URL is structurally invalid: no alphabetic scheme followed
    /// by `://` and a non-empty remainder.
    InvalidBaseUrl,
}

/// An ASCII letter.
pub open spec fn is_alpha_byte(b: u8) -> bool {
    (65 <= b <= 90) || (97 <= b <= 122)
}

/// A byte allowed in a URL scheme: a letter, a digit, `+`, `-` or `.`.
pub open spec fn is_scheme_byte(b: u8) -> bool {
    is_alpha_byte(b) || (48 <= b <= 57) || b == 43 || b == 45 || b == 46
}

/// A structurally acceptable base URL, as bytes: an alphabetic scheme, then
/// `://`, then at least one more byte.
pub open spec fn valid_base(s: Seq<u8>) -> bool {
    let c = find_from(s, 58u8, 0);
    &&& c >= 1
    &&& is_alpha_byte(s[0])
    &&& (forall|j: int| 1 <= j < c ==> is_scheme_byte(#[trigger] s[j]))
    &&& c + 3 < s.len()
    &&& s[c + 1] == 47u8
    &&& s[c + 2] == 47u8
}

/// A byte kept verbatim by percent-encoding: `A-Z a-z 0-9 - _ . ~`.
pub open spec fn is_unreserved(b: u8) -> bool {
    (48 <= b <= 57) || (65 <= b <= 90) || (97 <= b <= 122) || b == 45 || b == 95 || b == 46
        || b == 126
}

/// The percent-encoding of one byte.
pub open spec fn enc_byte(b: u8) -> Seq<u8> {
    if is_unreserved(b) {
        seq![b]
    } else {
        seq![37u8, hex_upper_byte(b as int / 16), hex_upper_byte(b as int % 16)]
    }
}

/// The percent-encoding of a byte sequence.
pub open spec fn pct_encoded(bs: Seq<u8>) -> Seq<u8>
    decreases bs.len(),
{
    if bs.len() == 0 {
        Seq::empty()
    } else {
        enc_byte(bs[0]) + pct_encoded(bs.drop_first())
    }
}

/// The query suffix for a parameter list: each name and value
/// percent-encoded, joined as `name=value`, the first pair preceded by
/// `first_sep` and every further pair by `&`.
pub open spec fn param_suffix(ps: Seq<(Seq<u8>, Seq<u8>)>, first_sep: u8) -> Seq<u8>
    decreases ps.len(),
{
    if ps.len() == 0 {
        Seq::empty()
    } else {
        seq![first_sep] + pct_encoded(ps[0].0) + seq![61u8] + pct_encoded(ps[0].1)
            + param_suffix(ps.drop_first(), 38u8)
    }
}

/// The separator before the first appended parameter: `&` when the base
/// already contains a `?`, else `?`.
pub open spec fn first_sep(base: Seq<u8>) -> u8 {
    if find_from(base, 63u8, 0) != -1 {
        38u8
    } else {
        63u8
    }
}

/// The bytes of the finished link.
pub open spec fn link_bytes(base: Seq<u8>, ps: Seq<(Seq<u8>, Seq<u8>)>) -> Seq<u8> {
    base + param_suffix(ps, first_sep(base))
}

/// The UTF-8 bytes of each parameter's name and value.
pub open spec fn pairs_bytes(ps: Seq<(String, String)>) -> Seq<(Seq<u8>, Seq<u8>)> {
    ps.map_values(|p: (String, String)| (encode_utf8(p.0@), encode_utf8(p.1@)))
}

/// Percent-encoding one more byte extends the encoding of a prefix.
proof fn lemma_pct_take(bs: Seq<u8>, j: int)
    requires
        0 <= j < bs.len(),
    ensures
        pct_encoded(bs.take(j + 1)) == pct_encoded(bs.take(j)) + enc_byte(bs[j]),
    decreases j,
{
    if j == 0 {
        assert(bs.take(1) =~= seq![bs[0]]);
        assert(bs.take(1).drop_first() =~= Seq::<u8>::empty());
        assert(bs.take(0) =~= Seq::<u8>::empty());
        assert(pct_encoded(bs.take(1)) =~= pct_encoded(bs.take(0)) + enc_byte(bs[0]));
    } else {
        let rest = bs.drop_first();
        lemma_pct_take(rest, j - 1);
        assert(bs.take(j + 1).drop_first() =~= rest.take(j));
        assert(bs.take(j).drop_first() =~= rest.take(j - 1));
        assert(pct_encoded(bs.take(j + 1)) == enc_byte(bs[0]) + pct_encoded(rest.take(j)));
        assert(pct_encoded(bs.take(j)) == enc_byte(bs[0]) + pct_encoded(rest.take(j - 1)));
        assert(enc_byte(bs[0]) + (pct_encoded(rest.take(j - 1)) + enc_byte(bs[j])) =~= (enc_byte(
            bs[0],
        ) + pct_encoded(rest.take(j - 1))) + enc_byte(bs[j]));
    }
}

/// Appending the encoding of one more parameter extends the suffix of a
/// prefix of the parameter list.
proof fn lemma_param_suffix_take(ps: Seq<(Seq<u8>, Seq<u8>)>, k: int, sep: u8)
    requires
        0 <= k < ps.len(),
    ensures
        param_suffix(ps.take(k + 1), sep) == param_suffix(ps.take(k), sep) + seq![
            if k == 0 {
                sep
            } else {
                38u8
            },
        ] + pct_encoded(ps[k].0) + seq![61u8] + pct_encoded(ps[k].1),
    decreases k,
{
    if k == 0 {
        assert(ps.take(1) =~= seq![ps[0]]);
        assert(ps.take(1)[0] == ps[0]);
        assert(ps.take(1).drop_first() =~= Seq::<(Seq<u8>, Seq<u8>)>::empty());
        assert(ps.take(0) =~= Seq::<(Seq<u8>, Seq<u8>)>::empty());
        assert(param_suffix(ps.take(1), sep) == seq![sep] + pct_encoded(ps.take(1)[0].0)
            + seq![61u8] + pct_encoded(ps.take(1)[0].1) + param_suffix(
            ps.take(1).drop_first(),
            38u8,
        ));
        assert(param_suffix(ps.take(1).drop_first(), 38u8) == Seq::<u8>::empty());
        assert(param_suffix(ps.take(0), sep) == Seq::<u8>::empty());
        assert(param_suffix(ps.take(1), sep) =~= param_suffix(ps.take(0), sep) + seq![sep]
            + pct_encoded(ps[0].0) + seq![61u8] + pct_encoded(ps[0].1));
    } else {
        let rest = ps.drop_first();
        lemma_param_suffix_take(rest, k - 1, 38u8);
        assert(ps.take(k + 1).drop_first() =~= rest.take(k));
        assert(ps.take(k).drop_first() =~= rest.take(k - 1));
        assert(param_suffix(ps.take(k + 1), sep) == seq![sep] + pct_encoded(ps[0].0) + seq![61u8]
            + pct_encoded(ps[0].1) + param_suffix(rest.take(k), 38u8));
        assert(param_suffix(ps.take(k), sep) == seq![sep] + pct_encoded(ps[0].0) + seq![61u8]
            + pct_encoded(ps[0].1) + param_suffix(rest.take(k - 1), 38u8));
        assert(param_suffix(ps.take(k + 1), sep) =~= param_suffix(ps.take(k), sep) + seq![38u8]
            + pct_encoded(ps[k].0) + seq![61u8] + pct_encoded(ps[k].1));
    }
}

/// Appends the percent-encoding of the UTF-8 bytes of `s` to `out`. Every
/// appended byte is ASCII.
fn append_pct(out: &mut Vec<u8>, s: &str)
    ensures
        final(out)@ == old(out)@ + pct_encoded(encode_utf8(s@)),
        forall|i: int| old(out)@.len() <= i < final(out)@.len() ==> final(out)@[i] < 128,
{
    let sb = s.as_bytes_vec();
    let n = sb.len();
    let mut j: usize = 0;
    while j < n
        invariant
            j <= n,
            n == sb@.len(),
            sb@ == encode_utf8(s@),
            out@ == old(out)@ + pct_encoded(sb@.take(j as int)),
            forall|i: int| old(out)@.len() <= i < out@.len() ==> out@[i] < 128,
        decreases n - j,
    {
        let b = sb[j];
        if (48 <= b && b <= 57) || (65 <= b && b <= 90) || (97 <= b && b <= 122) || b == 45 || b
            == 95 || b == 46 || b == 126 {
            out.push(b);
        } else {
            out.push(37);
            out.push(upper_hex_digit(b / 16));
            out.push(upper_hex_digit(b % 16));
        }
        proof {
            lemma_pct_take(sb@, j as int);
            assert(out@ =~= old(out)@ + pct_encoded(sb@.take(j as int + 1)));
        }
        j = j + 1;
    }
    proof {
        assert(sb@.take(n as int) =~= sb@);
    }
}

/// Builds an action link: checks the base URL, then appends each named
/// parameter in order as a percent-encoded query parameter. For equal
/// inputs the output is byte-identical; parameter order is preserved
/// exactly as supplied.
pub fn build_signed_link(base: &str, params: &Vec<(String, String)>) -> (r: Result<
    String,
    LinkError,
>)
    ensures
        r is Ok <==> valid_base(base.spec_bytes()),
        r matches Ok(link) ==> encode_utf8(link@) == link_bytes(
            base.spec_bytes(),
            pairs_bytes(params@),
        ),
        r matches Err(e) ==> e == LinkError::InvalidBaseUrl,
{
    let bytes = base.as_bytes_vec();
    let n = bytes.len();
    let c = match find_byte_from(&bytes, 58, 0) {
        None => {
            return Err(LinkError::InvalidBaseUrl);
        },
        Some(c) => c,
    };
    if c == 0 {
        return Err(LinkError::InvalidBaseUrl);
    }
    let b0 = bytes[0];
    if !((65 <= b0 && b0 <= 90) || (97 <= b0 && b0 <= 122)) {
        return Err(LinkError::InvalidBaseUrl);
    }
    let mut j: usize = 1;
    while j < c
        invariant
            1 <= j <= c < n,
            n == bytes@.len(),
            bytes@ == base.spec_bytes(),
            find_from(bytes@, 58u8, 0) == c as int,
            is_alpha_byte(bytes@[0]),
            forall|i: int| 1 <= i < j ==> is_scheme_byte(#[trigger] bytes@[i]),
        decreases c - j,
    {
        let b = bytes[j];
        if !((65 <= b && b <= 90) || (97 <= b && b <= 122) || (48 <= b && b <= 57) || b == 43 || b
            == 45 || b == 46) {
            proof {
                assert(!is_scheme_byte(bytes@[j as int]));
            }
            return Err(LinkError::InvalidBaseUrl);
        }
        j = j + 1;
    }
    if n - c <= 3 {
        return Err(LinkError::InvalidBaseUrl);
    }
    if !(bytes[c + 1] == 47 && bytes[c + 2] == 47) {
        return Err(LinkError::InvalidBaseUrl);
    }
    let sep_first: u8 = if find_byte_from(&bytes, 63, 0).is_some() {
        38
    } else {
        63
    };
    let ghost pbase = base.spec_bytes();
    let ghost ps = pairs_bytes(params@);
    assert(valid_base(pbase));
    assert(sep_first == first_sep(pbase));
    let mut out = bytes;
    let m = params.len();
    assert(ps.take(0) =~= Seq::<(Seq<u8>, Seq<u8>)>::empty());
    let mut k: usize = 0;
    while k < m
        invariant
            k <= m,
            m == params@.len(),
            ps == pairs_bytes(params@),
            ps.len() == m,
            sep_first == first_sep(pbase),
            out@ == pbase + param_suffix(ps.take(k as int), sep_first),
            forall|i: int| pbase.len() <= i < out@.len() ==> out@[i] < 128,
        decreases m - k,
    {
        let sep: u8 = if k == 0 {
            sep_first
        } else {
            38
        };
        out.push(sep);
        let p = &params[k];
        append_pct(&mut out, p.0.as_str());
        out.push(61);
        append_pct(&mut out, p.1.as_str());
        proof {
            lemma_param_suffix_take(ps, k as int, sep_first);
            assert(ps[k as int] == (encode_utf8(params@[k as int].0@), encode_utf8(
                params@[k as int].1@,
            )));
            assert(out@ =~= pbase + param_suffix(ps.take(k as int + 1), sep_first));
        }
        k = k + 1;
    }
    proof {
        assert(ps.take(m as int) =~= ps);
        encode_utf8_valid_utf8(base@);
        assert(out@.subrange(0, pbase.len() as int) =~= pbase);
        assert(partial_valid_utf8(out@, pbase.len() as int));
        assert forall|i: int|
            0 <= pbase.len() <= i < out@.len() implies #[trigger] is_leading_byte_width_1(
            out@[i],
        ) by {
            assert(out@[i] < 128);
        }
        partial_valid_utf8_extend_ascii_block(out@, pbase.len() as int, out@.len() as int);
        assert(out@.subrange(0, out@.len() as int) =~= out@);
        assert(valid_utf8(out@));
    }
    match string_from_utf8(out) {
        Some(link) => Ok(link),
        None => {
            proof {
                assert(false);
            }
            Err(LinkError::InvalidBaseUrl)
        },
    }
}

/// Law: link building is deterministic — two links whose bytes both equal
/// the link bytes of the same base and parameters are the same string.
pub proof fn lemma_link_deterministic(
    l1: Seq<char>,
    l2: Seq<char>,
    base: Seq<u8>,
    ps: Seq<(Seq<u8>, Seq<u8>)>,
)
    requires
        encode_utf8(l1) == link_bytes(base, ps),
        encode_utf8(l2) == link_bytes(base, ps),
    ensures
        l1 == l2,
{
    encode_utf8_decode_utf8(l1);
    encode_utf8_decode_utf8(l2);
}

} // verus!
