//! The integer and string encodings of the bincode standard configuration (little-endian,
//! variable-length integers), as calls into `bincode` with their stated meaning.
use vstd::prelude::*;
use vstd::string::StringSliceAdditionalSpecFns;
use vstd::utf8::{decode_utf8, valid_utf8};

verus! {

/// `256^n`.
pub open spec fn pow256(n: nat) -> nat
    decreases n,
{
    if n == 0 {
        1
    } else {
        256 * pow256((n - 1) as nat)
    }
}

/// The `n` low bytes of `v`, least significant first.
pub open spec fn le_bytes(v: nat, n: nat) -> Seq<u8>
    decreases n,
{
    if n == 0 {
        Seq::empty()
    } else {
        seq![(v % 256) as u8] + le_bytes(v / 256, (n - 1) as nat)
    }
}

/// Value of little-endian bytes.
pub open spec fn le_value(b: Seq<u8>) -> nat
    decreases b.len(),
{
    if b.len() == 0 {
        0
    } else {
        (b[0] + 256 * le_value(b.drop_first())) as nat
    }
}

/// Variable-length encoding of an unsigned integer: values up to 250 as one byte;
/// otherwise a tag byte (251, 252, 253) followed by the value as 2, 4 or 8 little-endian
/// bytes, whichever is the smallest that holds it.
pub open spec fn varint_bytes(v: u64) -> Seq<u8> {
    if v <= 250 {
        seq![v as u8]
    } else if v <= 0xffff {
        seq![251u8] + le_bytes(v as nat, 2)
    } else if v <= 0xffff_ffff {
        seq![252u8] + le_bytes(v as nat, 4)
    } else {
        seq![253u8] + le_bytes(v as nat, 8)
    }
}

/// Reads a variable-length unsigned integer from the front of `b`: the value and the
/// number of bytes used, or `None` when the tag is invalid or the bytes run out.
pub open spec fn varint_parse_u64(b: Seq<u8>) -> Option<(u64, nat)> {
    if b.len() == 0 {
        None
    } else if b[0] <= 250 {
        Some((b[0] as u64, 1))
    } else if b[0] == 251 {
        if b.len() >= 3 { Some((le_value(b.subrange(1, 3)) as u64, 3)) } else { None }
    } else if b[0] == 252 {
        if b.len() >= 5 { Some((le_value(b.subrange(1, 5)) as u64, 5)) } else { None }
    } else if b[0] == 253 {
        if b.len() >= 9 { Some((le_value(b.subrange(1, 9)) as u64, 9)) } else { None }
    } else {
        None
    }
}

/// Reads a variable-length `u32`: as [`varint_parse_u64`], but the 8-byte tag is invalid.
pub open spec fn varint_parse_u32(b: Seq<u8>) -> Option<(u32, nat)> {
    if b.len() > 0 && b[0] == 253 {
        None
    } else {
        match varint_parse_u64(b) {
            Some((v, n)) => Some((v as u32, n)),
            None => None,
        }
    }
}

/// Encoding of a string: its UTF-8 byte length as a variable-length integer, then the bytes.
pub open spec fn string_bytes(utf8: Seq<u8>) -> Seq<u8> {
    varint_bytes(utf8.len() as u64) + utf8
}

pub proof fn lemma_le_bytes_len(v: nat, n: nat)
    ensures
        le_bytes(v, n).len() == n,
    decreases n,
{
    if n > 0 {
        lemma_le_bytes_len(v / 256, (n - 1) as nat);
    }
}

pub proof fn lemma_le_roundtrip(v: nat, n: nat)
    requires
        v < pow256(n),
    ensures
        le_value(le_bytes(v, n)) == v,
    decreases n,
{
    if n > 0 {
        let p = pow256((n - 1) as nat);
        assert(v / 256 < p) by (nonlinear_arith)
            requires
                v < 256 * p,
        ;
        lemma_le_roundtrip(v / 256, (n - 1) as nat);
        let b = le_bytes(v, n);
        lemma_le_bytes_len(v / 256, (n - 1) as nat);
        assert(b.drop_first() =~= le_bytes(v / 256, (n - 1) as nat));
        assert(v == v % 256 + 256 * (v / 256)) by (nonlinear_arith);
    } else {
        assert(v == 0);
    }
}

proof fn lemma_pow256_values()
    ensures
        pow256(2) == 0x1_0000,
        pow256(4) == 0x1_0000_0000,
        pow256(8) == 0x1_0000_0000_0000_0000,
{
    assert(pow256(0) == 1);
    assert(pow256(1) == 0x100);
    assert(pow256(2) == 0x1_0000);
    assert(pow256(3) == 0x100_0000);
    assert(pow256(4) == 0x1_0000_0000);
    assert(pow256(5) == 0x100_0000_0000);
    assert(pow256(6) == 0x1_0000_0000_0000);
    assert(pow256(7) == 0x100_0000_0000_0000);
    assert(pow256(8) == 0x1_0000_0000_0000_0000);
}

/// Length of a variable-length encoding.
pub proof fn lemma_varint_len(v: u64)
    ensures
        1 <= varint_bytes(v).len() <= 9,
        varint_bytes(v).len() == if v <= 250 { 1nat } else if v <= 0xffff { 3nat } else if v
            <= 0xffff_ffff { 5nat } else { 9nat },
{
    lemma_le_bytes_len(v as nat, 2);
    lemma_le_bytes_len(v as nat, 4);
    lemma_le_bytes_len(v as nat, 8);
}

/// Reading back a variable-length integer gives the value and its length, whatever follows.
pub proof fn lemma_varint_roundtrip(v: u64, rest: Seq<u8>)
    ensures
        varint_parse_u64(varint_bytes(v) + rest) == Some((v, varint_bytes(v).len())),
        v <= u32::MAX ==> varint_parse_u32(varint_bytes(v) + rest) == Some(
            (v as u32, varint_bytes(v).len()),
        ),
{
    lemma_varint_len(v);
    let b = varint_bytes(v) + rest;
    lemma_pow256_values();
    if v <= 250 {
    } else if v <= 0xffff {
        assert(b.subrange(1, 3) =~= le_bytes(v as nat, 2));
        lemma_le_roundtrip(v as nat, 2);
    } else if v <= 0xffff_ffff {
        assert(b.subrange(1, 5) =~= le_bytes(v as nat, 4));
        lemma_le_roundtrip(v as nat, 4);
    } else {
        assert(b.subrange(1, 9) =~= le_bytes(v as nat, 8));
        lemma_le_roundtrip(v as nat, 8);
    }
}


#[verifier::external_type_specification]
#[verifier::external_body]
pub struct ExDecodeError(bincode::error::DecodeError);

#[verifier::external_type_specification]
#[verifier::external_body]
pub struct ExEncodeError(bincode::error::EncodeError);

/// `bincode::encode_to_vec` of a `u8` under the standard configuration. Claimed: it
/// succeeds (the vector writer never fails) and yields the byte itself.
#[verifier::external_body]
pub(crate) fn encode_u8(v: u8) -> (r: Result<Vec<u8>, bincode::error::EncodeError>)
    ensures
        r is Ok,
        r matches Ok(b) ==> b@ == seq![v],
{
    bincode::encode_to_vec(v, bincode::config::standard())
}

/// `bincode::encode_to_vec` of a `u32` under the standard configuration. Claimed: it
/// succeeds and yields the variable-length encoding of the value.
#[verifier::external_body]
pub(crate) fn encode_u32(v: u32) -> (r: Result<Vec<u8>, bincode::error::EncodeError>)
    ensures
        r is Ok,
        r matches Ok(b) ==> b@ == varint_bytes(v as u64),
{
    bincode::encode_to_vec(v, bincode::config::standard())
}

/// `bincode::encode_to_vec` of a `u64` under the standard configuration. Claimed: it
/// succeeds and yields the variable-length encoding of the value.
#[verifier::external_body]
pub(crate) fn encode_u64(v: u64) -> (r: Result<Vec<u8>, bincode::error::EncodeError>)
    ensures
        r is Ok,
        r matches Ok(b) ==> b@ == varint_bytes(v),
{
    bincode::encode_to_vec(v, bincode::config::standard())
}

/// `bincode::encode_to_vec` of a `&str` under the standard configuration. Claimed: it
/// succeeds and yields the byte length as a variable-length integer followed by the
/// UTF-8 bytes.
#[verifier::external_body]
pub(crate) fn encode_str(s: &str) -> (r: Result<Vec<u8>, bincode::error::EncodeError>)
    ensures
        r is Ok,
        r matches Ok(b) ==> b@ == string_bytes(s.spec_bytes()),
{
    bincode::encode_to_vec(s, bincode::config::standard())
}

/// `bincode::decode_from_slice::<u8>` under the standard configuration. Claimed: it reads
/// the first byte, and fails exactly on empty input.
#[verifier::external_body]
pub(crate) fn decode_u8(bytes: &[u8]) -> (r: Result<(u8, usize), bincode::error::DecodeError>)
    ensures
        bytes@.len() == 0 <==> r is Err,
        r matches Ok((v, n)) ==> v == bytes@[0] && n == 1,
{
    bincode::decode_from_slice(bytes, bincode::config::standard())
}

/// `bincode::decode_from_slice::<u32>` under the standard configuration. Claimed: the
/// result is [`varint_parse_u32`] of the bytes (an error where that is `None`).
#[verifier::external_body]
pub(crate) fn decode_u32(bytes: &[u8]) -> (r: Result<(u32, usize), bincode::error::DecodeError>)
    ensures
        match varint_parse_u32(bytes@) {
            Some((v, n)) => r matches Ok((rv, rn)) && rv == v && rn == n,
            None => r is Err,
        },
{
    bincode::decode_from_slice(bytes, bincode::config::standard())
}

/// `bincode::decode_from_slice::<u64>` under the standard configuration. Claimed: the
/// result is [`varint_parse_u64`] of the bytes (an error where that is `None`).
#[verifier::external_body]
pub(crate) fn decode_u64(bytes: &[u8]) -> (r: Result<(u64, usize), bincode::error::DecodeError>)
    ensures
        match varint_parse_u64(bytes@) {
            Some((v, n)) => r matches Ok((rv, rn)) && rv == v && rn == n,
            None => r is Err,
        },
{
    bincode::decode_from_slice(bytes, bincode::config::standard())
}

/// `bincode::decode_from_slice::<String>` under the standard configuration, on input
/// whose length prefix does not exceed the bytes that follow it (bincode allocates the
/// declared length before reading). Claimed: it reads the length prefix and that many
/// bytes, and succeeds exactly when they are valid UTF-8, with the decoded text.
#[verifier::external_body]
pub(crate) fn decode_string(bytes: &[u8]) -> (r: Result<(String, usize), bincode::error::DecodeError>)
    requires
        varint_parse_u64(bytes@) matches Some((len, n)) ==> n + len <= bytes@.len(),
    ensures
        match varint_parse_u64(bytes@) {
            Some((len, n)) => {
                let utf8 = bytes@.subrange(n as int, n + len);
                if valid_utf8(utf8) {
                    r matches Ok((s, m)) && s@ == decode_utf8(utf8) && m == n + len
                } else {
                    r is Err
                }
            },
            None => r is Err,
        },
{
    bincode::decode_from_slice(bytes, bincode::config::standard())
}

} // verus!
