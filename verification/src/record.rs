//! Record serialization: a deterministic, self-describing binary encoding
//! of entry and group records.
//!
//! A record is a one-byte tag followed by its string fields in a fixed
//! order; each field is its UTF-8 bytes prefixed by an 8-byte little-endian
//! length. Decoding rejects anything that does not parse as a well-formed
//! record of the expected shape, including trailing bytes after a complete
//! record.

use crate::errors::StoreError;
use crate::model::{EntryData, EntryDataView, EntryGroupData, EntryGroupDataView};
use vstd::bytes::{
    lemma_auto_spec_u64_to_from_le_bytes, spec_u64_from_le_bytes, spec_u64_to_le_bytes,
    u64_from_le_bytes, u64_to_le_bytes,
};
use vstd::prelude::*;
use vstd::slice::{slice_index_get, slice_subrange, slice_to_vec};
use vstd::utf8::{decode_utf8, encode_utf8, encode_utf8_decode_utf8, encode_utf8_valid_utf8, valid_utf8};

verus! {

/// Tag byte that opens an encoded entry record.
pub const ENTRY_TAG: u8 = 1;

/// Tag byte that opens an encoded group record.
pub const GROUP_TAG: u8 = 2;

/// Byte-sequence lengths that the 8-byte length prefix can carry.
pub const FIELD_LEN_BOUND: u64 = 0xFFFF_FFFF_FFFF_FFFF;

/// One encoded field: 8-byte little-endian length, then the bytes.
pub open spec fn spec_field(b: Seq<u8>) -> Seq<u8> {
    spec_u64_to_le_bytes(b.len() as u64) + b
}

/// The encoding of an entry record: tag, then name, username and password
/// fields, in that order.
pub open spec fn spec_encode_entry_data(d: EntryDataView) -> Seq<u8> {
    seq![ENTRY_TAG] + spec_field(encode_utf8(d.entry_name)) + spec_field(
        encode_utf8(d.username),
    ) + spec_field(encode_utf8(d.password))
}

/// The encoding of a group record: tag, then the group name field.
pub open spec fn spec_encode_group_data(g: EntryGroupDataView) -> Seq<u8> {
    seq![GROUP_TAG] + spec_field(encode_utf8(g.group_name))
}

/// The string field read at `pos`: the decoded characters and the position
/// after the field, or `None` when the bytes there are not a well-formed
/// field.
pub open spec fn spec_read_field(bytes: Seq<u8>, pos: int) -> Option<(Seq<char>, int)> {
    if pos + 8 <= bytes.len() {
        let n = spec_u64_from_le_bytes(bytes.subrange(pos, pos + 8)) as int;
        if pos + 8 + n <= bytes.len() {
            let fb = bytes.subrange(pos + 8, pos + 8 + n);
            if valid_utf8(fb) {
                Some((decode_utf8(fb), pos + 8 + n))
            } else {
                None
            }
        } else {
            None
        }
    } else {
        None
    }
}

/// The entry record held in `bytes`, or `None` when `bytes` is not exactly
/// one well-formed entry record.
pub open spec fn spec_decode_entry_data(bytes: Seq<u8>) -> Option<EntryDataView> {
    if bytes.len() >= 1 && bytes[0] == ENTRY_TAG {
        match spec_read_field(bytes, 1) {
            Some((entry_name, p1)) => match spec_read_field(bytes, p1) {
                Some((username, p2)) => match spec_read_field(bytes, p2) {
                    Some((password, p3)) => if p3 == bytes.len() {
                        Some(EntryDataView { entry_name, username, password })
                    } else {
                        None
                    },
                    None => None,
                },
                None => None,
            },
            None => None,
        }
    } else {
        None
    }
}

/// The group record held in `bytes`, or `None` when `bytes` is not exactly
/// one well-formed group record.
pub open spec fn spec_decode_group_data(bytes: Seq<u8>) -> Option<EntryGroupDataView> {
    if bytes.len() >= 1 && bytes[0] == GROUP_TAG {
        match spec_read_field(bytes, 1) {
            Some((group_name, p1)) => if p1 == bytes.len() {
                Some(EntryGroupDataView { group_name })
            } else {
                None
            },
            None => None,
        }
    } else {
        None
    }
}

/// Reading at `pos` a field that was encoded there recovers its characters.
proof fn lemma_read_encoded_field(bytes: Seq<u8>, pos: int, b: Seq<u8>)
    requires
        0 <= pos,
        b.len() <= FIELD_LEN_BOUND,
        valid_utf8(b),
        pos + 8 + b.len() <= bytes.len(),
        bytes.subrange(pos, pos + 8 + b.len()) == spec_field(b),
    ensures
        spec_read_field(bytes, pos) == Some((decode_utf8(b), pos + 8 + b.len() as int)),
{
    lemma_auto_spec_u64_to_from_le_bytes();
    let lp = spec_u64_to_le_bytes(b.len() as u64);
    assert(bytes.subrange(pos, pos + 8) =~= spec_field(b).subrange(0, 8));
    assert(spec_field(b).subrange(0, 8) =~= lp);
    assert(spec_u64_from_le_bytes(bytes.subrange(pos, pos + 8)) == b.len() as u64);
    assert(bytes.subrange(pos + 8, pos + 8 + b.len()) =~= spec_field(b).subrange(
        8,
        8 + b.len() as int,
    ));
    assert(spec_field(b).subrange(8, 8 + b.len() as int) =~= b);
}

/// Law: decoding an encoded entry record returns the record.
pub proof fn lemma_entry_data_round_trip(d: EntryDataView)
    requires
        encode_utf8(d.entry_name).len() <= FIELD_LEN_BOUND,
        encode_utf8(d.username).len() <= FIELD_LEN_BOUND,
        encode_utf8(d.password).len() <= FIELD_LEN_BOUND,
    ensures
        spec_decode_entry_data(spec_encode_entry_data(d)) == Some(d),
{
    broadcast use encode_utf8_valid_utf8, encode_utf8_decode_utf8;

    lemma_auto_spec_u64_to_from_le_bytes();
    let b1 = encode_utf8(d.entry_name);
    let b2 = encode_utf8(d.username);
    let b3 = encode_utf8(d.password);
    let bytes = spec_encode_entry_data(d);
    let p1 = 1 + 8 + b1.len() as int;
    let p2 = p1 + 8 + b2.len() as int;
    let p3 = p2 + 8 + b3.len() as int;
    assert(bytes.len() == p3);
    assert(bytes[0] == ENTRY_TAG);
    assert(bytes.subrange(1, p1) =~= spec_field(b1));
    lemma_read_encoded_field(bytes, 1, b1);
    assert(bytes.subrange(p1, p2) =~= spec_field(b2));
    lemma_read_encoded_field(bytes, p1, b2);
    assert(bytes.subrange(p2, p3) =~= spec_field(b3));
    lemma_read_encoded_field(bytes, p2, b3);
}

/// Law: decoding an encoded group record returns the record.
pub proof fn lemma_group_data_round_trip(g: EntryGroupDataView)
    requires
        encode_utf8(g.group_name).len() <= FIELD_LEN_BOUND,
    ensures
        spec_decode_group_data(spec_encode_group_data(g)) == Some(g),
{
    broadcast use encode_utf8_valid_utf8, encode_utf8_decode_utf8;

    lemma_auto_spec_u64_to_from_le_bytes();
    let b1 = encode_utf8(g.group_name);
    let bytes = spec_encode_group_data(g);
    let p1 = 1 + 8 + b1.len() as int;
    assert(bytes.len() == p1);
    assert(bytes[0] == GROUP_TAG);
    assert(bytes.subrange(1, p1) =~= spec_field(b1));
    lemma_read_encoded_field(bytes, 1, b1);
}

/// Appends one length-prefixed field.
fn push_field(out: &mut Vec<u8>, b: &[u8])
    ensures
        final(out)@ == old(out)@ + spec_field(b@),
{
    let n = b.len();
    let mut len_bytes = u64_to_le_bytes(n as u64);
    out.append(&mut len_bytes);
    out.extend_from_slice(b);
    assert(final(out)@ =~= old(out)@ + spec_field(b@));
}

/// Encodes an entry record; deterministic in the record's fields.
pub fn encode_entry_data(d: &EntryData) -> (r: Vec<u8>)
    ensures
        r@ == spec_encode_entry_data(d@),
{
    let mut out: Vec<u8> = Vec::new();
    out.push(ENTRY_TAG);
    push_field(&mut out, d.name().as_bytes());
    push_field(&mut out, d.username().as_bytes());
    push_field(&mut out, d.password().as_bytes());
    assert(out@ =~= spec_encode_entry_data(d@));
    out
}

/// Encodes a group record; deterministic in the record's fields.
pub fn encode_group_data(g: &EntryGroupData) -> (r: Vec<u8>)
    ensures
        r@ == spec_encode_group_data(g@),
{
    let mut out: Vec<u8> = Vec::new();
    out.push(GROUP_TAG);
    push_field(&mut out, g.name().as_bytes());
    assert(out@ =~= spec_encode_group_data(g@));
    out
}

/// Relies on `String::from_utf8`: accepts exactly the valid UTF-8 byte
/// sequences and decodes them to their characters.
#[verifier::external_body]
fn string_from_utf8(v: Vec<u8>) -> (r: Option<String>)
    ensures
        r is Some <==> valid_utf8(v@),
        r matches Some(s) ==> s@ == decode_utf8(v@),
{
    match String::from_utf8(v) {
        Ok(s) => Some(s),
        Err(_) => None,
    }
}

/// Reads one length-prefixed string field at `pos`.
fn read_field(bytes: &[u8], pos: usize) -> (r: Result<(String, usize), StoreError>)
    requires
        pos <= bytes@.len(),
    ensures
        r matches Ok(sp) ==> spec_read_field(bytes@, pos as int) == Some((sp.0@, sp.1 as int))
            && pos < sp.1 <= bytes@.len(),
        r is Err ==> spec_read_field(bytes@, pos as int) is None && r == Err::<
            (String, usize),
            StoreError,
        >(StoreError::CorruptRecord),
{
    if bytes.len() - pos < 8 {
        return Err(StoreError::CorruptRecord);
    }
    let len_slice = slice_subrange(bytes, pos, pos + 8);
    let n64 = u64_from_le_bytes(len_slice);
    let rem = bytes.len() - (pos + 8);
    if n64 > rem as u64 {
        return Err(StoreError::CorruptRecord);
    }
    let n = n64 as usize;
    let fb = slice_subrange(bytes, pos + 8, pos + 8 + n);
    match string_from_utf8(slice_to_vec(fb)) {
        Some(s) => Ok((s, pos + 8 + n)),
        None => Err(StoreError::CorruptRecord),
    }
}

/// Decodes an entry record, or fails with `CorruptRecord` when the bytes
/// are not exactly one well-formed entry record.
pub fn decode_entry_data(bytes: &[u8]) -> (r: Result<EntryData, StoreError>)
    ensures
        r matches Ok(d) ==> spec_decode_entry_data(bytes@) == Some(d@),
        r is Err ==> spec_decode_entry_data(bytes@) is None && r == Err::<EntryData, StoreError>(
            StoreError::CorruptRecord,
        ),
{
    if bytes.len() < 1 || *slice_index_get(bytes, 0) != ENTRY_TAG {
        return Err(StoreError::CorruptRecord);
    }
    let (entry_name, p1) = match read_field(bytes, 1) {
        Ok(sp) => sp,
        Err(e) => {
            return Err(e);
        },
    };
    let (username, p2) = match read_field(bytes, p1) {
        Ok(sp) => sp,
        Err(e) => {
            return Err(e);
        },
    };
    let (password, p3) = match read_field(bytes, p2) {
        Ok(sp) => sp,
        Err(e) => {
            return Err(e);
        },
    };
    if p3 != bytes.len() {
        return Err(StoreError::CorruptRecord);
    }
    Ok(EntryData::new(entry_name, username, password))
}

/// Decodes a group record, or fails with `CorruptRecord` when the bytes
/// are not exactly one well-formed group record.
pub fn decode_group_data(bytes: &[u8]) -> (r: Result<EntryGroupData, StoreError>)
    ensures
        r matches Ok(g) ==> spec_decode_group_data(bytes@) == Some(g@),
        r is Err ==> spec_decode_group_data(bytes@) is None && r == Err::<
            EntryGroupData,
            StoreError,
        >(StoreError::CorruptRecord),
{
    if bytes.len() < 1 || *slice_index_get(bytes, 0) != GROUP_TAG {
        return Err(StoreError::CorruptRecord);
    }
    let (group_name, p1) = match read_field(bytes, 1) {
        Ok(sp) => sp,
        Err(e) => {
            return Err(e);
        },
    };
    if p1 != bytes.len() {
        return Err(StoreError::CorruptRecord);
    }
    Ok(EntryGroupData::new(group_name))
}

} // verus!
