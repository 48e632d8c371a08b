//! Syntactic validation of recipient email addresses.
//!
//! An address is accepted when it contains exactly one `@`, the part before
//! the `@` is non-empty, and the part after the `@` contains at least one
//! `.`. This is a pure syntactic gate, intentionally permissive beyond those
//! three rules; it is the only validation an address receives.

use vstd::prelude::*;

use crate::hexcode::{is_hex_digit_byte, hex_val_byte, hex_digit_byte, hex_byte_val};
use crate::search::{find_from, find_char_from};
use crate::strconv::string_from_utf8;
use vstd::string::StringSliceAdditionalSpecFns;
use vstd::utf8::{valid_utf8, decode_utf8, encode_utf8_decode_utf8};

verus! {

/// Why a string was rejected as an email address.
#[derive(Debug, Clone, Copy, PartialEq, Eq, Structural)]
pub enum ValidationError {
    /// The string does not contain exactly one `@`.
    MalformedAddress,
    /// The part before the `@` is empty.
    EmptyLocalPart,
    /// The part after the `@` contains no `.`.
    MissingDomainDot,
    /// The form input does not decode to a UTF-8 string.
    InvalidEncoding,
}

/// Index of the first `@` in `s`, or `-1` when there is none.
pub open spec fn at_index(s: Seq<char>) -> int {
    find_from(s, '@', 0)
}

/// The string does not contain exactly one `@`.
pub open spec fn spec_malformed_address(s: Seq<char>) -> bool {
    at_index(s) == -1 || find_from(s, '@', at_index(s) + 1) != -1
}

/// Exactly one `@`, but nothing before it.
pub open spec fn spec_empty_local(s: Seq<char>) -> bool {
    !spec_malformed_address(s) && at_index(s) == 0
}

/// Exactly one `@` with a non-empty local part, but no `.` after the `@`.
pub open spec fn spec_missing_domain_dot(s: Seq<char>) -> bool {
    !spec_malformed_address(s) && at_index(s) > 0 && find_from(s, '.', at_index(s) + 1) == -1
}

/// A syntactically acceptable email address: exactly one `@`, a non-empty
/// local part, and a `.` somewhere in the domain part.
pub open spec fn valid_email(s: Seq<char>) -> bool {
    &&& !spec_malformed_address(s)
    &&& at_index(s) > 0
    &&& find_from(s, '.', at_index(s) + 1) != -1
}

/// A validated email address. Constructing one through [`validate`] is the
/// only gate between untrusted input and this type; the wrapped string is
/// never altered afterwards.
#[derive(Debug)]
pub struct EmailAddress {
    raw: String,
}

impl View for EmailAddress {
    type V = Seq<char>;

    closed spec fn view(&self) -> Seq<char> {
        self.raw@
    }
}

impl EmailAddress {
    /// The invariant every constructed address satisfies.
    pub open spec fn well_formed(&self) -> bool {
        valid_email(self@)
    }

    /// The address as a string slice, exactly as validated.
    pub fn as_str(&self) -> (r: &str)
        ensures
            r@ == self@,
    {
        self.raw.as_str()
    }

    /// Gives up the wrapper and returns the validated string.
    pub fn into_string(self) -> (r: String)
        ensures
            r@ == self@,
    {
        self.raw
    }
}

/// Validates `s` as an email address: exactly one `@`, a non-empty local
/// part, and a `.` in the domain part. On success the string is returned
/// unchanged, wrapped as an [`EmailAddress`]; no normalization is performed.
pub fn validate(s: String) -> (r: Result<EmailAddress, ValidationError>)
    ensures
        r is Ok <==> valid_email(s@),
        r matches Ok(a) ==> a@ == s@ && a.well_formed(),
        r matches Err(e) ==> {
            &&& (e == ValidationError::MalformedAddress <==> spec_malformed_address(s@))
            &&& (e == ValidationError::EmptyLocalPart <==> spec_empty_local(s@))
            &&& (e == ValidationError::MissingDomainDot <==> spec_missing_domain_dot(s@))
        },
{
    let at = match find_char_from(s.as_str(), '@', 0) {
        None => {
            return Err(ValidationError::MalformedAddress);
        },
        Some(i) => i,
    };
    if find_char_from(s.as_str(), '@', at + 1).is_some() {
        return Err(ValidationError::MalformedAddress);
    }
    if at == 0 {
        return Err(ValidationError::EmptyLocalPart);
    }
    if find_char_from(s.as_str(), '.', at + 1).is_none() {
        return Err(ValidationError::MissingDomainDot);
    }
    Ok(EmailAddress { raw: s })
}

/// Form-style percent decoding of transport-encoded input: `+` becomes a
/// space, `%` followed by two hex digits becomes the byte they denote, and
/// everything else — an invalid escape included — stays as it is.
pub open spec fn form_decoded(b: Seq<u8>) -> Seq<u8>
    decreases b.len(),
{
    if b.len() == 0 {
        Seq::empty()
    } else if b[0] == 43 {
        seq![32u8] + form_decoded(b.drop_first())
    } else if b[0] == 37 && b.len() >= 3 && is_hex_digit_byte(b[1]) && is_hex_digit_byte(b[2]) {
        seq![(hex_val_byte(b[1]) * 16 + hex_val_byte(b[2])) as u8] + form_decoded(b.skip(3))
    } else {
        seq![b[0]] + form_decoded(b.drop_first())
    }
}

/// Applies form-style percent decoding to a byte sequence.
fn form_decode_bytes(b: &Vec<u8>) -> (r: Vec<u8>)
    ensures
        r@ == form_decoded(b@),
{
    let n = b.len();
    let mut out: Vec<u8> = Vec::new();
    let mut i: usize = 0;
    proof {
        assert(b@.skip(0) =~= b@);
        assert(out@ + form_decoded(b@) =~= form_decoded(b@));
    }
    while i < n
        invariant
            i <= n,
            n == b@.len(),
            form_decoded(b@) == out@ + form_decoded(b@.skip(i as int)),
        decreases n - i,
    {
        let ghost rem = b@.skip(i as int);
        let c = b[i];
        if c == 43 {
            out.push(32);
            proof {
                assert(rem.drop_first() =~= b@.skip(i as int + 1));
                assert(form_decoded(b@) =~= out@ + form_decoded(b@.skip(i as int + 1)));
            }
            i = i + 1;
        } else if c == 37 && n - i >= 3 && hex_digit_byte(b[i + 1]) && hex_digit_byte(b[i + 2]) {
            let v = hex_byte_val(b[i + 1]) * 16 + hex_byte_val(b[i + 2]);
            out.push(v);
            proof {
                assert(rem[1] == b@[i as int + 1]);
                assert(rem[2] == b@[i as int + 2]);
                assert(rem.skip(3) =~= b@.skip(i as int + 3));
                assert(form_decoded(b@) =~= out@ + form_decoded(b@.skip(i as int + 3)));
            }
            i = i + 3;
        } else {
            out.push(c);
            proof {
                assert(rem[0] == b@[i as int]);
                if rem[0] == 37 && rem.len() >= 3 {
                    assert(rem[1] == b@[i as int + 1]);
                    assert(rem[2] == b@[i as int + 2]);
                }
                assert(rem.drop_first() =~= b@.skip(i as int + 1));
                assert(form_decoded(b@) =~= out@ + form_decoded(b@.skip(i as int + 1)));
            }
            i = i + 1;
        }
    }
    proof {
        assert(b@.skip(n as int) =~= Seq::<u8>::empty());
        assert(out@ + Seq::<u8>::empty() =~= out@);
    }
    out
}

/// Validates raw, transport-encoded form input: percent-decodes it, reads
/// the decoded bytes as UTF-8, and validates the decoded string as an email
/// address. The accepted address is the decoded string, unchanged beyond the
/// decoding.
pub fn validate_form_input(raw: &str) -> (r: Result<EmailAddress, ValidationError>)
    ensures
        ({
            let db = form_decoded(raw.spec_bytes());
            &&& ((r matches Err(e) && e == ValidationError::InvalidEncoding) <==> !valid_utf8(db))
            &&& valid_utf8(db) ==> {
                let s = decode_utf8(db);
                &&& (r is Ok <==> valid_email(s))
                &&& (r matches Ok(a) ==> a@ == s && a.well_formed())
                &&& (r matches Err(e) ==> {
                    &&& (e == ValidationError::MalformedAddress <==> spec_malformed_address(s))
                    &&& (e == ValidationError::EmptyLocalPart <==> spec_empty_local(s))
                    &&& (e == ValidationError::MissingDomainDot <==> spec_missing_domain_dot(s))
                })
            }
        }),
{
    let bytes = raw.as_bytes_vec();
    let decoded = form_decode_bytes(&bytes);
    match string_from_utf8(decoded) {
        None => Err(ValidationError::InvalidEncoding),
        Some(s) => {
            proof {
                encode_utf8_decode_utf8(s@);
            }
            let ghost sv = s@;
            let r0 = validate(s);
            proof {
                crate::search::lemma_find_from_props(sv, '@', 0);
            }
            r0
        },
    }
}

} // verus!
