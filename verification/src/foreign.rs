//! What the library takes on trust from other crates: the persistent key-value
//! store, the text encoding of its keys, and the prefixes of names.
//!
//! Nothing in this file is proved: it states what the `pickledb`, `base64` and
//! `xor_name` crates do, and the rest of the library builds on these statements.

use crate::messaging::Prefix;
use crate::name::XorName;
use pickledb::{PickleDb, PickleDbDumpPolicy};
use vstd::prelude::*;

verus! {

#[verifier::external_type_specification]
#[verifier::external_body]
pub struct ExPickleDb(PickleDb);

#[verifier::external_type_specification]
#[verifier::external_body]
pub struct ExDbError(pickledb::error::Error);

/// The byte strings that a store holds, by key: for every key of the store's
/// key-value part whose value reads back as a byte string, that byte string.
pub uninterp spec fn kv_entries(db: PickleDb) -> Map<Seq<char>, Seq<u8>>;

/// The contents of a store that holds nothing.
pub open spec fn no_entries() -> Map<Seq<char>, Seq<u8>> {
    Map::empty()
}

/// Whether writing the store to its file cannot fail for want of a path in
/// text form: the store was opened under a path given as text, or never writes.
/// (A store that writes also expects the clock to be past the year 1970.)
pub uninterp spec fn kv_dumps_cleanly(db: PickleDb) -> bool;

/// The base64 text of a byte string, in the standard alphabet and with padding.
pub uninterp spec fn base64_text(bytes: Seq<u8>) -> Seq<char>;

/// `PickleDb::new_bin` with the policy to write the file on every change. The
/// new store is empty, and as its path is text it can be written.
#[verifier::external_body]
pub(crate) fn kv_create(path: &str) -> (db: PickleDb)
    ensures
        kv_entries(db) == no_entries(),
        kv_dumps_cleanly(db),
{
    PickleDb::new_bin(path, PickleDbDumpPolicy::AutoDump)
}

/// `PickleDb::load_bin` with the policy to write the file on every change. The
/// store holds what the file held, of which nothing is stated here; as its path
/// is text it can be written. Fails where the file cannot be read.
#[verifier::external_body]
pub(crate) fn kv_load(path: &str) -> (r: Result<PickleDb, pickledb::error::Error>)
    ensures
        r matches Ok(db) ==> kv_dumps_cleanly(db),
{
    PickleDb::load_bin(path, PickleDbDumpPolicy::AutoDump)
}

/// `PickleDb::get` for a byte string: the value under `key`, if there is one
/// that reads back as a byte string.
#[verifier::external_body]
pub(crate) fn kv_get(db: &PickleDb, key: &str) -> (r: Option<Vec<u8>>)
    ensures
        match r {
            Some(value) => kv_entries(*db).contains_key(key@) && kv_entries(*db)[key@] == value@,
            None => !kv_entries(*db).contains_key(key@),
        },
{
    db.get::<Vec<u8>>(key)
}

/// `PickleDb::set` for a byte string. On success the store holds `value` under
/// `key` and is otherwise unchanged. When the value cannot be written to the
/// file, the call fails and the store holds what it held before.
#[verifier::external_body]
pub(crate) fn kv_set(db: &mut PickleDb, key: &str, value: &Vec<u8>) -> (r: Result<
    (),
    pickledb::error::Error,
>)
    requires
        kv_dumps_cleanly(*old(db)),
    ensures
        kv_dumps_cleanly(*final(db)),
        r is Ok ==> kv_entries(*final(db)) == kv_entries(*old(db)).insert(key@, value@),
        r is Err ==> kv_entries(*final(db)) == kv_entries(*old(db)),
{
    db.set(key, value)
}

/// `PickleDb::rem`. On success the store holds nothing under `key` and is
/// otherwise unchanged, and the result is `true` if it held a value there. The
/// call fails when a change cannot be written to the file. The store then holds
/// what it held before; or, where the key also named a list and it was the
/// removal of the list that could not be written, what it held before without
/// the value under `key`.
#[verifier::external_body]
pub(crate) fn kv_rem(db: &mut PickleDb, key: &str) -> (r: Result<bool, pickledb::error::Error>)
    requires
        kv_dumps_cleanly(*old(db)),
    ensures
        kv_dumps_cleanly(*final(db)),
        r is Ok ==> kv_entries(*final(db)) == kv_entries(*old(db)).remove(key@),
        r matches Ok(found) ==> (kv_entries(*old(db)).contains_key(key@) ==> found),
        r is Err ==> kv_entries(*final(db)) == kv_entries(*old(db)) || kv_entries(*final(db))
            == kv_entries(*old(db)).remove(key@),
{
    db.rem(key)
}

/// `PickleDb::get_all`: the keys of the store, in no particular order. Every key
/// under which the store holds a byte string is among them.
#[verifier::external_body]
pub(crate) fn kv_keys(db: &PickleDb) -> (r: Vec<String>)
    ensures
        forall|key: Seq<char>| #[trigger]
            kv_entries(*db).contains_key(key) ==> exists|i: int|
                0 <= i < r@.len() && (#[trigger] r@[i])@ == key,
{
    db.get_all()
}

/// What base64 text decodes to, in the standard configuration; `None` for text
/// that is not valid base64.
pub uninterp spec fn base64_bytes(text: Seq<char>) -> Option<Seq<u8>>;

/// The view of a byte string that may be absent.
pub open spec fn bytes_view(bytes: Option<Vec<u8>>) -> Option<Seq<u8>> {
    match bytes {
        Some(v) => Some(v@),
        None => None,
    }
}

/// `base64::encode`: the base64 text of `bytes`. That text decodes to `bytes`,
/// and no other byte string has the same text.
#[verifier::external_body]
pub(crate) fn base64_encode(bytes: &Vec<u8>) -> (r: String)
    requires
        bytes@.len() <= 0x1000_0000,
    ensures
        r@ == base64_text(bytes@),
        base64_bytes(r@) == Some(bytes@),
        forall|other: Seq<u8>| #[trigger] base64_text(other) == r@ ==> other == bytes@,
{
    base64::encode(bytes)
}

/// `base64::decode_config_buf` with the standard configuration, into an empty
/// buffer: the bytes that `text` stands for, if it is valid base64. The text of a
/// byte string decodes to that byte string.
#[verifier::external_body]
pub(crate) fn base64_decode(text: &str) -> (r: Option<Vec<u8>>)
    ensures
        bytes_view(r) == base64_bytes(text@),
        match r {
            Some(v) => forall|bytes: Seq<u8>| #[trigger] base64_text(bytes) == text@ ==> v@ == bytes,
            None => forall|bytes: Seq<u8>| #[trigger] base64_text(bytes) != text@,
        },
{
    let mut out = Vec::new();
    match base64::decode_config_buf(text, base64::STANDARD, &mut out) {
        Ok(()) => Some(out),
        Err(_) => None,
    }
}

/// Whether `prefix` is made of the first `bit_count` bits of `name`, for a count
/// of whole bytes: it counts that many bits, its name has the leading bytes of
/// `name`, and the other bytes of its name are zero.
pub open spec fn is_prefix_of(prefix: Prefix, bit_count: int, name: XorName) -> bool {
    &&& prefix.bit_count == bit_count
    &&& forall|i: int|
        0 <= i < 32 ==> #[trigger] prefix.name.0@[i] == (if 8 * i < bit_count {
            name.0@[i]
        } else {
            0u8
        })
}

/// `xor_name::Prefix::new`, for a count of whole bytes: the prefix that is made
/// of the first `bit_count` bits of `name`.
#[verifier::external_body]
pub(crate) fn prefix_of_name(bit_count: usize, name: &XorName) -> (r: Prefix)
    requires
        bit_count % 8 == 0,
        bit_count <= 248,
    ensures
        is_prefix_of(r, bit_count as int, *name),
{
    let prefix = xor_name::Prefix::new(bit_count, xor_name::XorName(name.0));
    Prefix { bit_count: prefix.bit_count() as u16, name: XorName(prefix.name().0) }
}

} // verus!
