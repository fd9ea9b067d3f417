//! Authentication of inbound triggers: an HMAC-SHA256 signature over the raw
//! body, or a bearer token, each compared in constant time.

use vstd::prelude::*;
use hmac::Mac;
use subtle::ConstantTimeEq;

verus! {

/// Why a trigger was refused. Each reason is kept apart for the server's
/// log; callers see them all as one "unauthorized" outcome.
#[derive(Debug, Clone, Copy, PartialEq, Eq, Structural)]
pub enum AuthError {
    /// The header that carries the signature or token is absent.
    MissingHeader,
    /// The header does not start with the expected scheme.
    MalformedScheme,
    /// The signature after the scheme is not hexadecimal text.
    MalformedHex,
    /// The signature or token does not match.
    Mismatch,
}

#[verifier::external_type_specification]
#[verifier::external_body]
pub struct ExFromHexError(hex::FromHexError);

/// The HMAC-SHA256 tag of `message` under `key`.
pub uninterp spec fn hmac_sha256_tag(key: Seq<u8>, message: Seq<u8>) -> Seq<u8>;

/// Value of one hexadecimal digit, in either case.
pub open spec fn hex_value(c: u8) -> Option<u8> {
    if 48 <= c <= 57 {
        Some((c - 48) as u8)
    } else if 97 <= c <= 102 {
        Some((c - 97 + 10) as u8)
    } else if 65 <= c <= 70 {
        Some((c - 65 + 10) as u8)
    } else {
        None
    }
}

/// Text made of pairs of hexadecimal digits.
pub open spec fn is_hex_text(s: Seq<u8>) -> bool {
    &&& s.len() % 2 == 0
    &&& forall|i: int| 0 <= i < s.len() ==> (#[trigger] hex_value(s[i])) is Some
}

/// The bytes that hexadecimal text spells, two digits per byte, high digit first.
pub open spec fn hex_decoded(s: Seq<u8>) -> Seq<u8> {
    Seq::new(
        (s.len() / 2) as nat,
        |i: int| (hex_value(s[2 * i])->0 * 16 + hex_value(s[2 * i + 1])->0) as u8,
    )
}

/// Relies on `hex::decode`: it accepts exactly the even-length texts of hex
/// digits and returns the bytes they spell.
#[verifier::external_body]
fn decode_hex(s: &[u8]) -> (r: Result<Vec<u8>, hex::FromHexError>)
    ensures
        r is Ok <==> is_hex_text(s@),
        r is Ok ==> r->Ok_0@ == hex_decoded(s@),
{
    hex::decode(s)
}

/// Relies on `hmac::Hmac<sha2::Sha256>`: `new_from_slice` takes a key of any
/// length (its error is never returned), and `update` then `finalize` give
/// the 32-byte tag of the message.
#[verifier::external_body]
pub(crate) fn hmac_sha256(key: &[u8], message: &[u8]) -> (r: Vec<u8>)
    ensures
        r@ == hmac_sha256_tag(key@, message@),
        r@.len() == 32,
{
    match <hmac::Hmac<sha2::Sha256> as Mac>::new_from_slice(key) {
        Ok(mut mac) => {
            mac.update(message);
            mac.finalize().into_bytes().to_vec()
        },
        Err(_) => Vec::new(),
    }
}

/// Relies on `subtle::ConstantTimeEq` for byte slices: true exactly when the
/// two slices are equal, compared without an early exit on the contents.
#[verifier::external_body]
fn constant_time_eq(a: &[u8], b: &[u8]) -> (r: bool)
    ensures
        r == (a@ == b@),
{
    a.ct_eq(b).into()
}

/// The scheme in front of a webhook signature: `sha256=`.
pub open spec fn sha256_scheme() -> Seq<u8> {
    seq![115u8, 104u8, 97u8, 50u8, 53u8, 54u8, 61u8]
}

/// The scheme in front of a bearer token: `Bearer ` (with its space).
pub open spec fn bearer_scheme() -> Seq<u8> {
    seq![66u8, 101u8, 97u8, 114u8, 101u8, 114u8, 32u8]
}

pub open spec fn has_byte_prefix(s: Seq<u8>, p: Seq<u8>) -> bool {
    p.len() <= s.len() && s.subrange(0, p.len() as int) == p
}

pub open spec fn header_view(h: Option<&[u8]>) -> Option<Seq<u8>> {
    match h {
        Some(b) => Some(b@),
        None => None,
    }
}

/// Outcome of checking a webhook signature header against the expected tag.
pub open spec fn webhook_auth(header: Option<Seq<u8>>, expected_tag: Seq<u8>) -> Result<(), AuthError> {
    match header {
        None => Err(AuthError::MissingHeader),
        Some(h) => if !has_byte_prefix(h, sha256_scheme()) {
            Err(AuthError::MalformedScheme)
        } else {
            let digits = h.subrange(sha256_scheme().len() as int, h.len() as int);
            if !is_hex_text(digits) {
                Err(AuthError::MalformedHex)
            } else if hex_decoded(digits) == expected_tag {
                Ok(())
            } else {
                Err(AuthError::Mismatch)
            }
        },
    }
}

/// Outcome of checking an `Authorization` header against the bearer token.
pub open spec fn bearer_auth(header: Option<Seq<u8>>, token: Seq<u8>) -> Result<(), AuthError> {
    match header {
        None => Err(AuthError::MissingHeader),
        Some(h) => if !has_byte_prefix(h, bearer_scheme()) {
            Err(AuthError::MalformedScheme)
        } else if h.subrange(bearer_scheme().len() as int, h.len() as int) == token {
            Ok(())
        } else {
            Err(AuthError::Mismatch)
        },
    }
}

fn scheme_bytes(bearer: bool) -> (r: Vec<u8>)
    ensures
        r@ == if bearer { bearer_scheme() } else { sha256_scheme() },
{
    let mut v: Vec<u8> = Vec::new();
    if bearer {
        v.push(66u8);
        v.push(101u8);
        v.push(97u8);
        v.push(114u8);
        v.push(101u8);
        v.push(114u8);
        v.push(32u8);
    } else {
        v.push(115u8);
        v.push(104u8);
        v.push(97u8);
        v.push(50u8);
        v.push(53u8);
        v.push(54u8);
        v.push(61u8);
    }
    assert(v@ =~= if bearer { bearer_scheme() } else { sha256_scheme() });
    v
}

/// The bytes of `s` after the prefix `p`, or `None` when `s` does not start with `p`.
fn after_byte_prefix(s: &[u8], p: &[u8]) -> (r: Option<Vec<u8>>)
    ensures
        r is Some <==> has_byte_prefix(s@, p@),
        r is Some ==> r->Some_0@ == s@.subrange(p@.len() as int, s@.len() as int),
{
    if p.len() > s.len() {
        return None;
    }
    let mut i: usize = 0;
    while i < p.len()
        invariant
            p@.len() <= s@.len(),
            i <= p@.len(),
            forall|j: int| 0 <= j < i ==> s@[j] == p@[j],
        decreases p@.len() - i,
    {
        if s[i] != p[i] {
            assert(s@.subrange(0, p@.len() as int)[i as int] != p@[i as int]);
            return None;
        }
        i = i + 1;
    }
    assert(s@.subrange(0, p@.len() as int) =~= p@);
    let mut rest: Vec<u8> = Vec::new();
    let mut k: usize = p.len();
    while k < s.len()
        invariant
            p@.len() <= k <= s@.len(),
            rest@ == s@.subrange(p@.len() as int, k as int),
        decreases s@.len() - k,
    {
        rest.push(s[k]);
        k = k + 1;
        assert(rest@ =~= s@.subrange(p@.len() as int, k as int));
    }
    Some(rest)
}

/// Checks a webhook signature header (`sha256=<hex>`) against the tag that
/// the body should carry.
pub fn check_webhook_signature(header: Option<&[u8]>, expected_tag: &[u8]) -> (r: Result<(), AuthError>)
    ensures
        r == webhook_auth(header_view(header), expected_tag@),
{
    let h = match header {
        None => return Err(AuthError::MissingHeader),
        Some(h) => h,
    };
    let scheme = scheme_bytes(false);
    let digits = match after_byte_prefix(h, scheme.as_slice()) {
        None => return Err(AuthError::MalformedScheme),
        Some(d) => d,
    };
    let signature = match decode_hex(digits.as_slice()) {
        Err(_) => return Err(AuthError::MalformedHex),
        Ok(s) => s,
    };
    if constant_time_eq(signature.as_slice(), expected_tag) {
        Ok(())
    } else {
        Err(AuthError::Mismatch)
    }
}

/// Authenticates a webhook body: the header must carry the hex HMAC-SHA256
/// tag of the raw body under the shared secret.
pub fn verify_webhook_signature(secret: &[u8], body: &[u8], header: Option<&[u8]>) -> (r: Result<(), AuthError>)
    ensures
        r == webhook_auth(header_view(header), hmac_sha256_tag(secret@, body@)),
{
    let tag = hmac_sha256(secret, body);
    check_webhook_signature(header, tag.as_slice())
}

/// Authenticates a bearer-token request: the `Authorization` header must be
/// `Bearer ` followed by exactly the configured token.
pub fn verify_bearer(token: &[u8], header: Option<&[u8]>) -> (r: Result<(), AuthError>)
    ensures
        r == bearer_auth(header_view(header), token@),
{
    let h = match header {
        None => return Err(AuthError::MissingHeader),
        Some(h) => h,
    };
    let scheme = scheme_bytes(true);
    let presented = match after_byte_prefix(h, scheme.as_slice()) {
        None => return Err(AuthError::MalformedScheme),
        Some(t) => t,
    };
    if constant_time_eq(presented.as_slice(), token) {
        Ok(())
    } else {
        Err(AuthError::Mismatch)
    }
}

/// A signature that is not the tag of the body under the configured secret
/// is refused, whatever else the header holds; in particular one made with
/// another secret whose tag differs.
pub proof fn lemma_foreign_signature_refused(secret: Seq<u8>, body: Seq<u8>, header: Seq<u8>)
    requires
        has_byte_prefix(header, sha256_scheme()) ==> (
            is_hex_text(header.subrange(sha256_scheme().len() as int, header.len() as int))
            ==> hex_decoded(header.subrange(sha256_scheme().len() as int, header.len() as int))
                != hmac_sha256_tag(secret, body)),
    ensures
        webhook_auth(Some(header), hmac_sha256_tag(secret, body)) is Err,
{
}

} // verus!
