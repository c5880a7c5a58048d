use vstd::prelude::*;

use crate::error::Error;
use crate::id128::{
    is_ascii_whitespace, parse_id_spec, parse_machine_id, trim_trailing_spec, Id128,
};
use hmac_sha256::HMAC;

verus! {

/// The HMAC-SHA256 digest of `message` under `key`, as the `hmac_sha256`
/// crate computes it: a 32-byte value that is a function of the two byte
/// strings alone. Its bytes are named here, not defined.
pub uninterp spec fn hmac_sha256_of(key: Seq<u8>, message: Seq<u8>) -> Seq<u8>;

/// Relies on `hmac_sha256::HMAC::mac`: returns the 32-byte HMAC-SHA256
/// digest of `message` keyed with `key`, a deterministic function of those
/// two byte strings, for inputs of any length.
#[verifier::external_body]
fn hmac_sha256_mac(message: &Vec<u8>, key: &Vec<u8>) -> (r: Vec<u8>)
    ensures
        r@ == hmac_sha256_of(key@, message@),
        r@.len() == 32,
{
    HMAC::mac(message, key).to_vec()
}

/// A 16-byte value with the two fixed identifier fields overwritten: the
/// high nibble of byte 6 becomes 4 (the version), the two high bits of
/// byte 8 become binary 10 (the DCE variant). No other bit changes.
pub open spec fn set_version_variant(b: Seq<u8>) -> Seq<u8> {
    b.update(6, (b[6] & 0x0f) | 0x40).update(8, (b[8] & 0x3f) | 0x80)
}

/// The identifier derived from a machine id and an application id: the
/// first 16 bytes of the HMAC-SHA256 digest of the application id keyed
/// with the machine id, reshaped by `set_version_variant`. The machine id
/// is the key and the application id the message; swapping them would
/// change every output.
pub open spec fn derived_id(host: Seq<u8>, app: Seq<u8>) -> Seq<u8> {
    set_version_variant(hmac_sha256_of(host, app).take(16))
}

/// What deriving from the machine-id file contents `content` and the
/// application id `app` yields: `None` where the trimmed contents do not
/// parse as a 128-bit identifier, otherwise the derived identifier.
pub open spec fn derive_result(content: Seq<u8>, app: Seq<u8>) -> Option<Seq<u8>> {
    match parse_id_spec(trim_trailing_spec(content)) {
        Some(host) => Some(derived_id(host, app)),
        None => None,
    }
}

/// Reshape an identifier into a well-formed version-4, DCE-variant one,
/// leaving every other bit as it was.
pub fn make_v4(id: Id128) -> (r: Id128)
    requires
        id.wf(),
    ensures
        r@ == set_version_variant(id@),
        r.wf(),
{
    let mut bytes = id.to_bytes();
    let b6 = bytes[6];
    bytes[6] = (b6 & 0x0f) | 0x40;
    let b8 = bytes[8];
    bytes[8] = (b8 & 0x3f) | 0x80;
    Id128::from_bytes(bytes)
}

/// Derive the application-specific identifier from the machine-id file's
/// contents and an application id.
///
/// On success the result is exactly `derive_result(content@, app_id@)`, a
/// version-4, DCE-variant identifier; where the trimmed contents do not
/// parse as a 128-bit identifier, the format-failure error comes back and
/// nothing else is reported.
pub fn derive_from_text(content: &[u8], app_id: &Id128) -> (r: Result<Id128, Error>)
    requires
        app_id.wf(),
    ensures
        match r {
            Ok(d) => {
                &&& derive_result(content@, app_id@) == Some(d@)
                &&& d.wf()
                &&& d@[6] & 0xf0 == 0x40
                &&& d@[8] & 0xc0 == 0x80
            },
            Err(e) => derive_result(content@, app_id@) is None && e == Error::InvalidId,
        },
{
    let host = match parse_machine_id(content) {
        Ok(h) => h,
        Err(e) => {
            return Err(e);
        },
    };
    let digest = hmac_sha256_mac(app_id.as_bytes(), host.as_bytes());
    let mut d: Vec<u8> = Vec::new();
    let mut i: usize = 0;
    while i < 16
        invariant
            digest@.len() == 32,
            i <= 16,
            d@ == digest@.take(i as int),
        decreases 16 - i,
    {
        d.push(digest[i]);
        proof {
            assert(d@ =~= digest@.take(i + 1));
        }
        i = i + 1;
    }
    let b6 = d[6];
    d[6] = (b6 & 0x0f) | 0x40;
    let b8 = d[8];
    d[8] = (b8 & 0x3f) | 0x80;
    proof {
        assert(d@ =~= set_version_variant(digest@.take(16)));
        assert(((b6 & 0x0f) | 0x40) & 0xf0 == 0x40) by (bit_vector);
        assert(((b8 & 0x3f) | 0x80) & 0xc0 == 0x80) by (bit_vector);
    }
    Ok(Id128::from_bytes(d))
}

/// Deriving is deterministic: any two derived identifiers obtained from the
/// same machine-id file contents and the same application id are equal.
pub proof fn lemma_derive_deterministic(content: Seq<u8>, app: Seq<u8>, d1: Seq<u8>, d2: Seq<u8>)
    requires
        derive_result(content, app) == Some(d1),
        derive_result(content, app) == Some(d2),
    ensures
        d1 == d2,
{
}

/// Every reshaped 16-byte value carries the fixed marks: byte 6 has high
/// nibble 4 and byte 8 has its two high bits equal to binary 10, so every
/// derived identifier is a syntactically valid version-4, DCE-variant one.
pub proof fn lemma_version_variant_bits(b: Seq<u8>)
    requires
        b.len() == 16,
    ensures
        set_version_variant(b).len() == 16,
        set_version_variant(b)[6] & 0xf0 == 0x40,
        set_version_variant(b)[8] & 0xc0 == 0x80,
{
    let b6 = b[6];
    let b8 = b[8];
    assert(((b6 & 0x0f) | 0x40) & 0xf0 == 0x40) by (bit_vector);
    assert(((b8 & 0x3f) | 0x80) & 0xc0 == 0x80) by (bit_vector);
}

/// Trailing ASCII whitespace in the machine-id file is tolerated: appending
/// any run of ASCII whitespace to the contents changes neither the trimmed
/// contents nor what derivation yields.
pub proof fn lemma_whitespace_tolerance(content: Seq<u8>, ws: Seq<u8>, app: Seq<u8>)
    requires
        forall|i: int| 0 <= i < ws.len() ==> is_ascii_whitespace(ws[i]),
    ensures
        trim_trailing_spec(content + ws) == trim_trailing_spec(content),
        derive_result(content + ws, app) == derive_result(content, app),
    decreases ws.len(),
{
    if ws.len() == 0 {
        assert(content + ws =~= content);
    } else {
        let s = content + ws;
        assert(s[s.len() - 1] == ws[ws.len() - 1]);
        assert(s.drop_last() =~= content + ws.drop_last());
        lemma_whitespace_tolerance(content, ws.drop_last(), app);
    }
}

} // verus!
