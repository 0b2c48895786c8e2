//! The record and wire codec: fixed-width key slots, 8-byte little-endian
//! length prefixes, and the fixed response frames.

use vstd::prelude::*;
use crate::KvError;
use vstd::bytes::{spec_u64_from_le_bytes, spec_u64_to_le_bytes, u64_from_le_bytes, u64_to_le_bytes};

verus! {

/// Width of the on-disk key slot: key bytes, zero-padded to this length.
pub const KEY_SIZE: usize = 128;

/// The key slot for `key`: the key bytes left-aligned, zero-filled up to
/// `KEY_SIZE` bytes.
pub open spec fn key_slot(key: Seq<u8>) -> Seq<u8>
    recommends
        key.len() <= KEY_SIZE,
{
    key + Seq::new((KEY_SIZE - key.len()) as nat, |i: int| 0u8)
}

/// Whether `probe` names the key held in `slot`: `probe` is a prefix of
/// `slot` and every slot byte past `probe` is zero padding.
pub open spec fn keys_match(probe: Seq<u8>, slot: Seq<u8>) -> bool {
    &&& probe.len() <= slot.len()
    &&& slot.subrange(0, probe.len() as int) == probe
    &&& forall|i: int| probe.len() <= i < slot.len() ==> slot[i] == 0u8
}

/// One stored record as laid out on disk and on the wire: the key slot,
/// the value length as 8 little-endian bytes, then the value itself.
pub open spec fn record_bytes(slot: Seq<u8>, value: Seq<u8>) -> Seq<u8>
    recommends
        slot.len() == KEY_SIZE,
        value.len() <= u64::MAX,
{
    slot + spec_u64_to_le_bytes(value.len() as u64) + value
}

/// Encodes `key` into its 128-byte slot, rejecting keys that do not fit.
pub fn encode_key(key: &[u8]) -> (r: Result<Vec<u8>, KvError>)
    ensures
        match r {
            Ok(slot) => key@.len() <= KEY_SIZE && slot@ == key_slot(key@),
            Err(e) => e == KvError::KeyTooLong && key@.len() > KEY_SIZE,
        },
{
    if key.len() > KEY_SIZE {
        return Err(KvError::KeyTooLong);
    }
    let mut slot: Vec<u8> = Vec::new();
    let mut i: usize = 0;
    while i < key.len()
        invariant
            i <= key@.len() <= KEY_SIZE,
            slot@ == key@.subrange(0, i as int),
        decreases key@.len() - i,
    {
        slot.push(key[i]);
        i = i + 1;
    }
    assert(slot@ == key@);
    while slot.len() < KEY_SIZE
        invariant
            key@.len() <= slot@.len() <= KEY_SIZE,
            slot@.subrange(0, key@.len() as int) == key@,
            forall|j: int| key@.len() <= j < slot@.len() ==> slot@[j] == 0u8,
        decreases KEY_SIZE - slot@.len(),
    {
        slot.push(0u8);
        assert(slot@.subrange(0, key@.len() as int) == key@);
    }
    assert(slot@ =~= key_slot(key@));
    Ok(slot)
}

/// Encodes a length as the 8-byte little-endian prefix used on disk and
/// on the wire.
pub fn encode_length(n: usize) -> (r: Vec<u8>)
    ensures
        r@ == spec_u64_to_le_bytes(n as u64),
        r@.len() == 8,
        spec_u64_from_le_bytes(r@) == n as u64,
{
    proof {
        vstd::bytes::lemma_auto_spec_u64_to_from_le_bytes();
    }
    u64_to_le_bytes(n as u64)
}

/// Decodes an 8-byte little-endian length prefix.
pub fn decode_length(bytes: &[u8]) -> (n: u64)
    requires
        bytes@.len() == 8,
    ensures
        n == spec_u64_from_le_bytes(bytes@),
{
    u64_from_le_bytes(bytes)
}

/// Encodes one record frame: key slot, value length, value bytes. Rejects
/// keys that do not fit their slot.
pub fn encode_record(key: &[u8], value: &[u8]) -> (r: Result<Vec<u8>, KvError>)
    ensures
        match r {
            Ok(f) => key@.len() <= KEY_SIZE && f@ == record_bytes(key_slot(key@), value@),
            Err(e) => e == KvError::KeyTooLong && key@.len() > KEY_SIZE,
        },
{
    let mut frame = match encode_key(key) {
        Ok(slot) => slot,
        Err(e) => {
            return Err(e);
        },
    };
    let mut len_bytes = encode_length(value.len());
    frame.append(&mut len_bytes);
    let mut value_bytes = vstd::slice::slice_to_vec(value);
    frame.append(&mut value_bytes);
    assert(frame@ =~= record_bytes(key_slot(key@), value@));
    Ok(frame)
}

/// The byte-level view of an optional value.
pub open spec fn opt_view(o: Option<Vec<u8>>) -> Option<Seq<u8>> {
    match o {
        Some(v) => Some(v@),
        None => None,
    }
}

/// The reply to a lookup: the value behind its 8-byte little-endian
/// length, or a zero length alone when the key is absent.
pub open spec fn get_response_bytes(v: Option<Seq<u8>>) -> Seq<u8>
    recommends
        v matches Some(val) ==> val.len() <= u64::MAX,
{
    match v {
        None => spec_u64_to_le_bytes(0u64),
        Some(val) => spec_u64_to_le_bytes(val.len() as u64) + val,
    }
}

/// Builds the reply to a lookup result.
pub fn encode_get_response(v: &Option<Vec<u8>>) -> (r: Vec<u8>)
    ensures
        match v {
            Some(val) => r@ == get_response_bytes(Some(val@)),
            None => r@ == get_response_bytes(None::<Seq<u8>>),
        },
{
    match v {
        None => encode_length(0),
        Some(val) => {
            let mut r = encode_length(val.len());
            let mut value_bytes = vstd::slice::slice_to_vec(val.as_slice());
            r.append(&mut value_bytes);
            r
        },
    }
}

/// The fixed acknowledgement a successful store is answered with:
/// the bytes `"OK"` followed by a terminating zero.
pub open spec fn ok_bytes() -> Seq<u8> {
    seq![79u8, 75u8, 0u8]
}

/// Builds the store acknowledgement frame.
pub fn ok_response() -> (r: Vec<u8>)
    ensures
        r@ == ok_bytes(),
{
    let mut r: Vec<u8> = Vec::new();
    r.push(79u8);
    r.push(75u8);
    r.push(0u8);
    assert(r@ =~= ok_bytes());
    r
}

/// An absent key is answered with eight zero bytes on the wire: the
/// zero-length reply frame is exactly that.
pub proof fn lemma_not_found_response_is_zero()
    ensures
        get_response_bytes(None) == Seq::new(8, |i: int| 0u8),
{
    vstd::bytes::spec_u64_to_le_bytes_to_open(0u64);
    assert((0u64 & 0xff) == 0 && ((0u64 >> 8) & 0xff) == 0 && ((0u64 >> 16) & 0xff) == 0 && ((0u64
        >> 24) & 0xff) == 0 && ((0u64 >> 32) & 0xff) == 0 && ((0u64 >> 40) & 0xff) == 0 && ((0u64
        >> 48) & 0xff) == 0 && ((0u64 >> 56) & 0xff) == 0) by (bit_vector);
    assert(get_response_bytes(None) =~= Seq::new(8, |i: int| 0u8));
}

} // verus!
