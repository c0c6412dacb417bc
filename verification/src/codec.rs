//! Decoding the exported configuration blob: base64, a keyed XOR, UTF-8, and
//! a JSON validity check.
//!
//! The XOR and the composition are verified exactly; base64 and UTF-8 stand
//! behind trusted wrappers.

use vstd::prelude::*;
use vstd::string::{StrSliceExecFns, StringExecFns, StringSliceAdditionalSpecFns};
use vstd::utf8::{decode_utf8, valid_utf8};
use base64::Engine;
use crate::wire::{canonical_json, json_canon};

verus! {

/// The bytes a base64 text denotes under the standard alphabet, or `None`
/// when it is not valid base64.  Names the result of base64's decode, which
/// depends on the input text alone.
pub uninterp spec fn b64_decode(s: Seq<char>) -> Option<Seq<u8>>;

/// Relies on base64's standard-alphabet `decode`: deterministic in the input
/// text; text that is not valid base64 yields an error.
#[verifier::external_body]
fn decode_base64(s: &str) -> (r: Option<Vec<u8>>)
    ensures
        match r {
            Some(v) => b64_decode(s@) == Some(v@),
            None => b64_decode(s@) is None,
        },
{
    match base64::engine::general_purpose::STANDARD.decode(s) {
        Ok(v) => Some(v),
        Err(_) => None,
    }
}

/// Relies on `String::from_utf8`: it succeeds exactly on valid UTF-8, and
/// the resulting string holds the decoded characters.
#[verifier::external_body]
fn utf8_string(b: Vec<u8>) -> (r: Option<String>)
    ensures
        match r {
            Some(s) => valid_utf8(b@) && s@ == decode_utf8(b@),
            None => !valid_utf8(b@),
        },
{
    match String::from_utf8(b) {
        Ok(s) => Some(s),
        Err(_) => None,
    }
}

/// Each byte XOR-combined with the key, the key repeating.
pub open spec fn spec_xor_with_key(data: Seq<u8>, key: Seq<u8>) -> Seq<u8> {
    Seq::new(data.len(), |i: int| data[i] ^ key[i % key.len() as int])
}

/// XOR a byte string with a repeating key.
pub fn xor_with_key(data: &Vec<u8>, key: &Vec<u8>) -> (r: Vec<u8>)
    requires
        key@.len() > 0,
    ensures
        r@ == spec_xor_with_key(data@, key@),
{
    let klen = key.len();
    let n = data.len();
    let mut out: Vec<u8> = Vec::new();
    let mut i: usize = 0;
    while i < n
        invariant
            n == data@.len(),
            klen == key@.len(),
            klen > 0,
            0 <= i <= n,
            out@.len() == i,
            forall|j: int| 0 <= j < i ==> out@[j] == (data@[j] ^ key@[j % klen as int]),
        decreases n - i,
    {
        out.push(data[i] ^ key[i % klen]);
        i += 1;
    }
    proof {
        assert(out@ =~= spec_xor_with_key(data@, key@));
    }
    out
}

/// Decrypt an exported configuration blob: base64-decode it, XOR it with the
/// password's bytes, read the result as UTF-8, and accept it only when it is
/// valid JSON.  Every failure, including an empty password, is reported as an
/// error rather than a panic.
pub fn decrypt_config_data(encrypted_data: &str, password: &str) -> (r: Result<String, String>)
    ensures
        match r {
            Ok(s) => {
                &&& password.spec_bytes().len() > 0
                &&& b64_decode(encrypted_data@) matches Some(enc)
                &&& s@ == decode_utf8(
                    spec_xor_with_key(b64_decode(encrypted_data@)->Some_0, password.spec_bytes()),
                )
                &&& valid_utf8(
                    spec_xor_with_key(b64_decode(encrypted_data@)->Some_0, password.spec_bytes()),
                )
                &&& json_canon(s@) is Some
            },
            Err(_) => password.spec_bytes().len() == 0 || b64_decode(encrypted_data@) is None || (
            b64_decode(encrypted_data@) matches Some(enc) && (!valid_utf8(
                spec_xor_with_key(enc, password.spec_bytes()),
            ) || json_canon(decode_utf8(spec_xor_with_key(enc, password.spec_bytes()))) is None)),
        },
{
    let key = password.as_bytes_vec();
    if key.len() == 0 {
        return Err(String::from_str("empty password"));
    }
    let encrypted = match decode_base64(encrypted_data) {
        Some(v) => v,
        None => {
            return Err(String::from_str("base64 decoding failed"));
        },
    };
    let decrypted = xor_with_key(&encrypted, &key);
    let text = match utf8_string(decrypted) {
        Some(s) => s,
        None => {
            return Err(String::from_str("decrypted bytes are not text"));
        },
    };
    match canonical_json(text.as_str()) {
        Some(_) => Ok(text),
        None => Err(String::from_str("decrypted data is not structured")),
    }
}

} // verus!
