//! The identity of a session: a fingerprint of its name and creation time.

use vstd::prelude::*;
use vstd::string::*;
use sha3::{Digest, Sha3_256};
use crate::text::{
    decimal, decimal_digits, decimal_digits_injective, hex_lower, hex_lower_injective, hex_string,
};

verus! {

/// The SHA3-256 digest of a byte string.
pub uninterp spec fn sha3_256(data: Seq<u8>) -> Seq<u8>;

/// Calls `Sha3_256::digest` (the `Digest` trait's one-shot function) of the
/// sha3 crate on `data`. Trusted: the result is the SHA3-256 digest of the
/// bytes, which is 32 bytes long.
#[verifier::external_body]
fn sha3_256_digest(data: &Vec<u8>) -> (r: Vec<u8>)
    ensures
        r@ == sha3_256(data@),
        r@.len() == 32,
{
    Sha3_256::digest(data.as_slice()).to_vec()
}

/// The bytes that are hashed for a session: the name in UTF-8, followed by the
/// creation time in decimal.
pub open spec fn identity_input(name: Seq<char>, created_at: u64) -> Seq<u8> {
    vstd::utf8::encode_utf8(name) + decimal_digits(created_at as nat)
}

/// The identity of the session `name` created at `created_at`: the digest of
/// its input in lowercase hexadecimal.
pub open spec fn identity(name: Seq<char>, created_at: u64) -> Seq<char> {
    hex_lower(sha3_256(identity_input(name, created_at)))
}

/// Renders a digest that was computed elsewhere as an identity.
pub fn identity_of_digest(digest: &Vec<u8>) -> (r: String)
    ensures
        r@ == hex_lower(digest@),
        r@.len() == 2 * digest@.len(),
{
    hex_string(digest)
}

/// Derives the identity of a session from its name and creation time.
pub fn derive(name: &str, created_at: u64) -> (r: String)
    ensures
        r@ == identity(name@, created_at),
        r@.len() == 64,
{
    let mut input = name.as_bytes_vec();
    let mut stamp = decimal(created_at);
    input.append(&mut stamp);
    let digest = sha3_256_digest(&input);
    identity_of_digest(&digest)
}

/// One name at two different times is hashed from two different inputs.
pub proof fn identity_input_differs_with_time(name: Seq<char>, t1: u64, t2: u64)
    requires
        t1 != t2,
    ensures
        identity_input(name, t1) != identity_input(name, t2),
{
    let prefix = vstd::utf8::encode_utf8(name);
    let a = decimal_digits(t1 as nat);
    let b = decimal_digits(t2 as nat);
    if prefix + a == prefix + b {
        assert((prefix + a).subrange(prefix.len() as int, (prefix + a).len() as int) =~= a);
        assert((prefix + b).subrange(prefix.len() as int, (prefix + b).len() as int) =~= b);
        decimal_digits_injective(t1 as nat, t2 as nat);
    }
}

/// One name at two different times has two different identities, unless the
/// digest gives the same value for the two different inputs.
pub proof fn identity_differs_with_time(name: Seq<char>, t1: u64, t2: u64)
    requires
        t1 != t2,
    ensures
        identity_input(name, t1) != identity_input(name, t2),
        identity(name, t1) == identity(name, t2) ==> sha3_256(identity_input(name, t1))
            == sha3_256(identity_input(name, t2)),
{
    identity_input_differs_with_time(name, t1, t2);
    if identity(name, t1) == identity(name, t2) {
        hex_lower_injective(
            sha3_256(identity_input(name, t1)),
            sha3_256(identity_input(name, t2)),
        );
    }
}

} // verus!
