//! Byte layout of the keys the host stores: table data, secondary indexes,
//! transaction records and the id offset, plus the planning of index scans
//! over those keys.

use crate::error::StorageError;
use gluesql_core::data::{Key, Value};
use gluesql_core::error::Error as GlueError;
use vstd::prelude::*;
use vstd::string::*;
use vstd::utf8::*;

verus! {

/// gluesql-core's primary-key type, carried through unchanged.
#[verifier::external_type_specification]
#[verifier::external_body]
pub struct ExKey(Key);

/// gluesql-core's value type, carried through unchanged.
#[verifier::external_type_specification]
#[verifier::external_body]
pub struct ExValue(Value);

/// The order-preserving big-endian encoding that gluesql-core gives a key,
/// `None` when the key has none.
pub uninterp spec fn key_cmp_be_bytes(key: Key) -> Option<Seq<u8>>;

/// The order-preserving big-endian encoding that gluesql-core gives a value
/// (through its key), `None` when it has none.
pub uninterp spec fn value_cmp_be_bytes(value: Value) -> Option<Seq<u8>>;

/// Calls gluesql-core's `Key::to_cmp_be_bytes`. Claimed: the call succeeds
/// exactly when the key has an encoding, and then returns it; the encoding
/// itself is only named, and depends on the key alone.
#[verifier::external_body]
fn key_to_cmp_be_bytes(key: &Key) -> (r: Result<Vec<u8>, GlueError>)
    ensures
        r is Ok <==> key_cmp_be_bytes(*key) is Some,
        r matches Ok(b) ==> key_cmp_be_bytes(*key) == Some(b@),
{
    key.to_cmp_be_bytes()
}

/// Calls gluesql-core's `Value::to_cmp_be_bytes`. Claimed: the call succeeds
/// exactly when the value has an encoding, and then returns it; the encoding
/// itself is only named, and depends on the value alone.
#[verifier::external_body]
fn value_to_cmp_be_bytes(value: &Value) -> (r: Result<Vec<u8>, GlueError>)
    ensures
        r is Ok <==> value_cmp_be_bytes(*value) is Some,
        r matches Ok(b) ==> value_cmp_be_bytes(*value) == Some(b@),
{
    value.to_cmp_be_bytes()
}

/// `/<table>/`: the prefix of a table's data keys.
pub open spec fn data_prefix_text(table_name: Seq<char>) -> Seq<char> {
    seq!['/'] + table_name + seq!['/']
}

/// `index/<table>/<index>/`: the prefix of an index's keys.
pub open spec fn index_prefix_text(table_name: Seq<char>, index_name: Seq<char>) -> Seq<char> {
    seq!['i', 'n', 'd', 'e', 'x', '/'] + table_name + seq!['/'] + index_name + seq!['/']
}

/// `tx_data/`: the prefix of the keys of transaction records.
pub open spec fn txdata_prefix_text() -> Seq<char> {
    seq!['t', 'x', '_', 'd', 'a', 't', 'a', '/']
}

/// The eight big-endian bytes of `x`.
pub open spec fn be_bytes(x: u64) -> Seq<u8> {
    seq![
        (x >> 56u64) as u8,
        (x >> 48u64) as u8,
        (x >> 40u64) as u8,
        (x >> 32u64) as u8,
        (x >> 24u64) as u8,
        (x >> 16u64) as u8,
        (x >> 8u64) as u8,
        x as u8,
    ]
}

/// The number whose big-endian bytes are `b` (eight of them).
pub open spec fn from_be_bytes(b: Seq<u8>) -> u64 {
    ((b[0] as u64) << 56u64) | ((b[1] as u64) << 48u64) | ((b[2] as u64) << 40u64) | ((b[3] as u64)
        << 32u64) | ((b[4] as u64) << 24u64) | ((b[5] as u64) << 16u64) | ((b[6] as u64) << 8u64)
        | (b[7] as u64)
}

pub fn data_prefix(table_name: &str) -> (r: String)
    ensures
        r@ == data_prefix_text(table_name@),
{
    proof {
        reveal_strlit("/");
    }
    let mut s = String::from_str("/");
    s.append(table_name);
    s.append("/");
    s
}

pub fn build_index_key_prefix(table_name: &str, index_name: &str) -> (r: Vec<u8>)
    ensures
        r@ == encode_utf8(index_prefix_text(table_name@, index_name@)),
{
    proof {
        reveal_strlit("index/");
        reveal_strlit("/");
    }
    let mut s = String::from_str("index/");
    s.append(table_name);
    s.append("/");
    s.append(index_name);
    s.append("/");
    assert("index/"@ =~= seq!['i', 'n', 'd', 'e', 'x', '/']);
    assert(s@ =~= index_prefix_text(table_name@, index_name@));
    s.as_str().as_bytes_vec()
}

/// The key under which a table row is stored: the table's data prefix
/// followed by the encoding of the row's primary key.
pub fn sled_key(table_name: &str, key: &Key) -> (r: Result<Vec<u8>, StorageError>)
    ensures
        r is Ok <==> key_cmp_be_bytes(*key) is Some,
        r matches Ok(b) ==> b@ == encode_utf8(data_prefix_text(table_name@))
            + key_cmp_be_bytes(*key).unwrap(),
{
    match key_to_cmp_be_bytes(key) {
        Ok(mut key_bytes) => {
            let mut bytes = data_prefix(table_name).as_str().as_bytes_vec();
            bytes.append(&mut key_bytes);
            Ok(bytes)
        },
        Err(e) => Err(StorageError::Glue(e)),
    }
}

/// The key of an index entry: the index's prefix followed by the encoding of
/// the indexed value.
pub fn build_index_key(table_name: &str, index_name: &str, value: &Value) -> (r: Result<Vec<u8>, StorageError>)
    ensures
        r is Ok <==> value_cmp_be_bytes(*value) is Some,
        r matches Ok(b) ==> b@ == encode_utf8(index_prefix_text(table_name@, index_name@))
            + value_cmp_be_bytes(*value).unwrap(),
{
    match value_to_cmp_be_bytes(value) {
        Ok(mut value_bytes) => {
            let mut bytes = build_index_key_prefix(table_name, index_name);
            bytes.append(&mut value_bytes);
            Ok(bytes)
        },
        Err(e) => Err(StorageError::Glue(e)),
    }
}

/// The key under which a table's schema is stored: `schema/<table>`.
pub fn schema_key(table_name: &str) -> (r: String)
    ensures
        r@ == "schema/"@ + table_name@,
{
    let mut s = String::from_str("schema/");
    s.append(table_name);
    s
}

/// The key of the record of transaction `txid`.
pub fn get_txdata_key(txid: u64) -> (r: Vec<u8>)
    ensures
        r@ == encode_utf8(txdata_prefix_text()) + be_bytes(txid),
{
    proof {
        reveal_strlit("tx_data/");
    }
    let mut bytes = "tx_data/".as_bytes_vec();
    assert("tx_data/"@ =~= txdata_prefix_text());
    let mut id = encode_u64(txid);
    bytes.append(&mut id);
    bytes
}

/// The big-endian bytes of `x`.
pub fn encode_u64(x: u64) -> (r: Vec<u8>)
    ensures
        r@ == be_bytes(x),
{
    let v = vec![
        (x >> 56u64) as u8,
        (x >> 48u64) as u8,
        (x >> 40u64) as u8,
        (x >> 32u64) as u8,
        (x >> 24u64) as u8,
        (x >> 16u64) as u8,
        (x >> 8u64) as u8,
        x as u8,
    ];
    assert(v@ =~= be_bytes(x));
    v
}

/// Reads the id offset stored by the host: none stored means zero, and a
/// stored value must be exactly eight big-endian bytes.
pub fn get_id_offset(stored: Option<Vec<u8>>) -> (r: Result<u64, StorageError>)
    ensures
        match stored {
            None => r == Ok::<u64, StorageError>(0),
            Some(b) => if b@.len() == 8 {
                r == Ok::<u64, StorageError>(from_be_bytes(b@))
            } else {
                r is Err
            },
        },
{
    match stored {
        None => Ok(0),
        Some(b) => {
            if b.len() != 8 {
                return Err(StorageError::Msg(String::from_str("could not convert slice to array")));
            }
            let v = ((b[0] as u64) << 56u64) | ((b[1] as u64) << 48u64) | ((b[2] as u64) << 40u64)
                | ((b[3] as u64) << 32u64) | ((b[4] as u64) << 24u64) | ((b[5] as u64) << 16u64)
                | ((b[6] as u64) << 8u64) | (b[7] as u64);
            Ok(v)
        },
    }
}

/// Reading an id offset back gives the offset that was written.
pub proof fn lemma_id_offset_round_trip(x: u64)
    ensures
        be_bytes(x).len() == 8,
        from_be_bytes(be_bytes(x)) == x,
{
    assert(((((x >> 56u64) as u8) as u64) << 56u64) | ((((x >> 48u64) as u8) as u64) << 48u64) | ((((x
        >> 40u64) as u8) as u64) << 40u64) | ((((x >> 32u64) as u8) as u64) << 32u64) | ((((x
        >> 24u64) as u8) as u64) << 24u64) | ((((x >> 16u64) as u8) as u64) << 16u64) | ((((x
        >> 8u64) as u8) as u64) << 8u64) | ((x as u8) as u64) == x) by (bit_vector);
}

/// Distinct transactions have distinct record keys.
pub proof fn lemma_txdata_keys_distinct(a: u64, b: u64)
    requires
        a != b,
    ensures
        encode_utf8(txdata_prefix_text()) + be_bytes(a) != encode_utf8(txdata_prefix_text()) + be_bytes(b),
{
    lemma_id_offset_round_trip(a);
    lemma_id_offset_round_trip(b);
    let p = encode_utf8(txdata_prefix_text());
    if p + be_bytes(a) == p + be_bytes(b) {
        assert((p + be_bytes(a)).skip(p.len() as int) =~= be_bytes(a));
        assert((p + be_bytes(b)).skip(p.len() as int) =~= be_bytes(b));
    }
}

} // verus!
