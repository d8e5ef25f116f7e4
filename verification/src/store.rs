//! The stores that a data handler keeps on disk: the metadata of the chunks,
//! and the names of the adults that are full.

use crate::data::IDataAddress;
use crate::foreign::{
    base64_encode, base64_text, kv_create, kv_dumps_cleanly, kv_entries, kv_get, kv_keys, kv_load,
    kv_rem, kv_set, no_entries,
};
use crate::metadata::{
    decoded_metadata, deserialise_metadata, lemma_decoded_metadata, metadata_bytes, metadata_view,
    push_bytes_32, serialise_metadata, ChunkMetadata, ChunkMetadataView,
};
use crate::name::XorName;
use crate::utils::{db_key, db_key_to_idata_address, to_db_key};
use crate::vault::Init;
use pickledb::PickleDb;
use vstd::prelude::*;

verus! {

/// The file that holds the metadata of the chunks, under a vault's root directory.
pub const IMMUTABLE_META_DB_NAME: &'static str = "immutable_data.db";

/// The file that holds the names of the adults that are full.
pub const FULL_ADULTS_DB_NAME: &'static str = "full_adults.db";

/// Why a store could not do what was asked.
#[derive(Clone, Copy, Debug, PartialEq, Eq, Structural)]
pub enum StoreError {
    /// The store's file could not be read or written.
    Persistence,
}

/// Opens the store at `db_path`. With `Init::New` the store starts empty, and a
/// value is written and deleted again so that the file comes to exist; with
/// `Init::Load` the store holds what the file holds. The directory of the file
/// must exist.
pub fn new_db(db_path: &str, init_mode: Init) -> (r: Result<PickleDb, StoreError>)
    ensures
        r matches Ok(db) ==> kv_dumps_cleanly(db) && (init_mode == Init::New ==> kv_entries(db)
            == no_entries()),
{
    match init_mode {
        Init::New => {
            let mut db = kv_create(db_path);
            let nothing: Vec<u8> = Vec::new();
            if kv_set(&mut db, "", &nothing).is_err() {
                return Err(StoreError::Persistence);
            }
            if kv_rem(&mut db, "").is_err() {
                return Err(StoreError::Persistence);
            }
            assert(kv_entries(db) =~= no_entries());
            Ok(db)
        },
        Init::Load => match kv_load(db_path) {
            Ok(db) => Ok(db),
            Err(_) => Err(StoreError::Persistence),
        },
    }
}

/// What a store holds for `address`: the metadata that the bytes under the key
/// of the address stand for, if it names at least one holder.
pub open spec fn stored_record(
    entries: Map<Seq<char>, Seq<u8>>,
    address: IDataAddress,
) -> Option<ChunkMetadataView> {
    if entries.contains_key(db_key(address)) {
        match decoded_metadata(entries[db_key(address)]) {
            Some(metadata) => if metadata.holders.len() == 0 {
                None
            } else {
                Some(metadata)
            },
            None => None,
        }
    } else {
        None
    }
}

/// The records that a store with the given contents holds, by address.
pub open spec fn records_of(entries: Map<Seq<char>, Seq<u8>>) -> Map<
    IDataAddress,
    ChunkMetadataView,
> {
    Map::new(
        |address: IDataAddress| stored_record(entries, address) is Some,
        |address: IDataAddress| stored_record(entries, address)->0,
    )
}

/// The metadata of the chunks, by address, kept in a key-value store on disk.
pub struct MetadataStore {
    db: PickleDb,
}

impl View for MetadataStore {
    type V = Map<IDataAddress, ChunkMetadataView>;

    open spec fn view(&self) -> Map<IDataAddress, ChunkMetadataView> {
        Map::new(
            |address: IDataAddress| self.record(address) is Some,
            |address: IDataAddress| self.record(address)->0,
        )
    }
}

impl MetadataStore {
    /// The byte strings of the underlying store, by key.
    pub closed spec fn entries(&self) -> Map<Seq<char>, Seq<u8>> {
        kv_entries(self.db)
    }

    /// The underlying store can be written to its file.
    pub closed spec fn wf(&self) -> bool {
        kv_dumps_cleanly(self.db)
    }

    /// What the store holds for `address`.
    pub open spec fn record(&self, address: IDataAddress) -> Option<ChunkMetadataView> {
        stored_record(self.entries(), address)
    }

    /// Every record of the store names at least one holder, and none twice.
    pub proof fn lemma_holders_nonempty(&self, address: IDataAddress)
        requires
            self@.contains_key(address),
        ensures
            self@[address].holders.len() > 0,
            self@[address].wf(),
    {
    }

    /// The typed store over `db`.
    pub fn new(db: PickleDb) -> (r: MetadataStore)
        requires
            kv_dumps_cleanly(db),
        ensures
            r.wf(),
            r.entries() == kv_entries(db),
            r@ == records_of(kv_entries(db)),
    {
        let r = MetadataStore { db };
        assert(r@ =~= records_of(kv_entries(db)));
        r
    }

    /// The metadata of the chunk at `address`, if the store has any. What is
    /// handed out names at least one holder.
    pub fn get(&self, address: &IDataAddress) -> (r: Option<ChunkMetadata>)
        ensures
            metadata_view(r) == self.record(*address),
            r is Some == self@.contains_key(*address),
            r matches Some(m) ==> m.wf() && self@[*address] == m@ && m@.holders.len() > 0,
    {
        let key = to_db_key(address);
        match kv_get(&self.db, key.as_str()) {
            None => None,
            Some(bytes) => match deserialise_metadata(&bytes) {
                None => None,
                Some(metadata) => {
                    if metadata.holders.is_empty() {
                        None
                    } else {
                        Some(metadata)
                    }
                },
            },
        }
    }

    /// Whether the store has metadata for the chunk at `address`.
    pub fn has(&self, address: &IDataAddress) -> (r: bool)
        ensures
            r == self@.contains_key(*address),
    {
        self.get(address).is_some()
    }

    /// Takes the record of `address` out of the store. When the file cannot be
    /// written, the error is handed back; the store then stays as it was, or the
    /// record is gone all the same.
    pub fn remove(&mut self, address: &IDataAddress) -> (r: Result<(), StoreError>)
        requires
            old(self).wf(),
        ensures
            final(self).wf(),
            r is Ok ==> final(self)@ == old(self)@.remove(*address),
            r is Ok ==> final(self).entries() == old(self).entries().remove(db_key(*address)),
            r is Err ==> (final(self)@ == old(self)@ && final(self).entries() == old(
                self,
            ).entries()) || (final(self)@ == old(self)@.remove(*address) && final(self).entries()
                == old(self).entries().remove(db_key(*address))),
    {
        let key = to_db_key(address);
        let ghost before = self.entries();
        let removed = kv_rem(&mut self.db, key.as_str());
        proof {
            let after = self.entries();
            if after == before.remove(key@) {
                assert forall|other: IDataAddress| #[trigger]
                    stored_record(after, other) == (if other == *address {
                        None
                    } else {
                        stored_record(before, other)
                    }) by {
                    if other != *address {
                        assert(db_key(other) != key@);
                    }
                }
                assert(self@ =~= old(self)@.remove(*address));
            }
        }
        match removed {
            Ok(_) => Ok(()),
            Err(_) => Err(StoreError::Persistence),
        }
    }

    /// Sets the record of `address` to `metadata`. Metadata without holders is
    /// not kept: the record is taken out instead. When the file cannot be
    /// written, the error is handed back; the store then stays as it was, except
    /// that a record that was to be taken out may be gone all the same.
    pub fn put(&mut self, address: &IDataAddress, metadata: &ChunkMetadata) -> (r: Result<
        (),
        StoreError,
    >)
        requires
            old(self).wf(),
            metadata.wf(),
        ensures
            final(self).wf(),
            r is Ok ==> final(self)@ == put_result(old(self)@, *address, metadata@),
            r is Ok ==> final(self).entries() == put_entries(
                old(self).entries(),
                *address,
                metadata@,
            ),
            r is Err ==> (final(self)@ == old(self)@ && final(self).entries() == old(
                self,
            ).entries()) || (metadata@.holders.len() == 0 && final(self)@ == put_result(
                old(self)@,
                *address,
                metadata@,
            ) && final(self).entries() == put_entries(old(self).entries(), *address, metadata@)),
    {
        if metadata.holders.is_empty() {
            return self.remove(address);
        }
        let key = to_db_key(address);
        let bytes = serialise_metadata(metadata);
        let ghost before = self.entries();
        match kv_set(&mut self.db, key.as_str(), &bytes) {
            Ok(_) => {
                proof {
                    let after = self.entries();
                    lemma_decoded_metadata(metadata.holders.seq(), metadata.owner);
                    assert forall|other: IDataAddress| #[trigger]
                        stored_record(after, other) == (if other == *address {
                            Some(metadata@)
                        } else {
                            stored_record(before, other)
                        }) by {
                        if other != *address {
                            assert(db_key(other) != key@);
                        }
                    }
                    assert(self@ =~= old(self)@.insert(*address, metadata@));
                }
                Ok(())
            },
            Err(_) => Err(StoreError::Persistence),
        }
    }

    /// The records of the store, each address once, in no particular order.
    pub fn records(&self) -> (r: Vec<(IDataAddress, ChunkMetadata)>)
        ensures
            forall|i: int|
                0 <= i < r@.len() ==> (#[trigger] r@[i]).1.wf() && self@.contains_key(r@[i].0)
                    && self@[r@[i].0] == r@[i].1@,
            forall|address: IDataAddress| #[trigger]
                self@.contains_key(address) ==> exists|i: int|
                    0 <= i < r@.len() && (#[trigger] r@[i]).0 == address,
            forall|i: int, j: int|
                0 <= i < r@.len() && 0 <= j < r@.len() && i != j ==> (#[trigger] r@[i]).0 != (
                #[trigger] r@[j]).0,
    {
        let keys = kv_keys(&self.db);
        let mut out: Vec<(IDataAddress, ChunkMetadata)> = Vec::new();
        let mut k: usize = 0;
        while k < keys.len()
            invariant
                k <= keys.len(),
                forall|i: int|
                    0 <= i < out@.len() ==> (#[trigger] out@[i]).1.wf() && self@.contains_key(
                        out@[i].0,
                    ) && self@[out@[i].0] == out@[i].1@,
                forall|i: int, j: int|
                    0 <= i < out@.len() && 0 <= j < out@.len() && i != j ==> (#[trigger] out@[i]).0
                        != (#[trigger] out@[j]).0,
                forall|address: IDataAddress, t: int|
                    0 <= t < k && #[trigger] self@.contains_key(address) && (#[trigger] keys@[t])@
                        == db_key(address) ==> exists|i: int|
                        0 <= i < out@.len() && (#[trigger] out@[i]).0 == address,
            decreases keys.len() - k,
        {
            let ghost before = out@;
            let found = db_key_to_idata_address(keys[k].as_str());
            match found {
                None => {},
                Some(address) => {
                    if !listed(&out, &address) {
                        match self.get(&address) {
                            None => {},
                            Some(metadata) => {
                                out.push((address, metadata));
                            },
                        }
                    }
                },
            }
            proof {
                assert forall|i: int| 0 <= i < before.len() implies out@[i] == before[i] by {}
                assert forall|address: IDataAddress, t: int|
                    0 <= t < k + 1 && #[trigger] self@.contains_key(address) && (
                    #[trigger] keys@[t])@ == db_key(address) implies exists|i: int|
                    0 <= i < out@.len() && (#[trigger] out@[i]).0 == address by {
                    if t < k {
                        let i = choose|i: int|
                            0 <= i < before.len() && (#[trigger] before[i]).0 == address;
                        assert(out@[i].0 == address);
                    } else {
                        assert(found == Some(address));
                        if exists|i: int| 0 <= i < before.len() && (#[trigger] before[i]).0 == address {
                            let i = choose|i: int|
                                0 <= i < before.len() && (#[trigger] before[i]).0 == address;
                            assert(out@[i].0 == address);
                        } else {
                            assert(out@[out@.len() - 1].0 == address);
                        }
                    }
                }
            }
            k = k + 1;
        }
        proof {
            assert forall|address: IDataAddress| #[trigger]
                self@.contains_key(address) implies exists|i: int|
                0 <= i < out@.len() && (#[trigger] out@[i]).0 == address by {
                assert(self.entries().contains_key(db_key(address)));
                let t = choose|t: int| 0 <= t < keys@.len() && (#[trigger] keys@[t])@ == db_key(address);
                assert(keys@[t]@ == db_key(address));
            }
        }
        out
    }
}

/// The contents of a store after `metadata` was put under `address`: the bytes
/// of the metadata stand under the key of the address; metadata without holders
/// leaves nothing under that key.
pub open spec fn put_entries(
    before: Map<Seq<char>, Seq<u8>>,
    address: IDataAddress,
    metadata: ChunkMetadataView,
) -> Map<Seq<char>, Seq<u8>> {
    if metadata.holders.len() == 0 {
        before.remove(db_key(address))
    } else {
        before.insert(db_key(address), metadata_bytes(metadata.holders, metadata.owner))
    }
}

/// What a store holds after `metadata` was put under `address`: metadata without
/// holders takes the record out.
pub open spec fn put_result(
    before: Map<IDataAddress, ChunkMetadataView>,
    address: IDataAddress,
    metadata: ChunkMetadataView,
) -> Map<IDataAddress, ChunkMetadataView> {
    if metadata.holders.len() == 0 {
        before.remove(address)
    } else {
        before.insert(address, metadata)
    }
}

/// Whether `address` is the address of one of `records`.
fn listed(records: &Vec<(IDataAddress, ChunkMetadata)>, address: &IDataAddress) -> (r: bool)
    ensures
        r == exists|i: int| 0 <= i < records@.len() && (#[trigger] records@[i]).0 == *address,
{
    let mut i: usize = 0;
    while i < records.len()
        invariant
            i <= records.len(),
            forall|j: int| 0 <= j < i ==> (#[trigger] records@[j]).0 != *address,
        decreases records.len() - i,
    {
        if records[i].0.same(address) {
            return true;
        }
        i = i + 1;
    }
    false
}

/// The key under which a full adult is noted: the base64 text of its name.
pub open spec fn name_key(name: XorName) -> Seq<char> {
    base64_text(name.0@)
}

/// The names that a store with the given contents notes as full.
pub open spec fn full_names_of(entries: Map<Seq<char>, Seq<u8>>) -> Set<XorName> {
    Set::new(|name: XorName| entries.contains_key(name_key(name)))
}

/// The names of the adults that have no room left, kept in a key-value store on
/// disk. Holders are not chosen among them.
pub struct FullAdults {
    db: PickleDb,
}

impl View for FullAdults {
    type V = Set<XorName>;

    open spec fn view(&self) -> Set<XorName> {
        Set::new(|name: XorName| self.entries().contains_key(name_key(name)))
    }
}

impl FullAdults {
    /// The byte strings of the underlying store, by key.
    pub closed spec fn entries(&self) -> Map<Seq<char>, Seq<u8>> {
        kv_entries(self.db)
    }

    /// The underlying store can be written to its file.
    pub closed spec fn wf(&self) -> bool {
        kv_dumps_cleanly(self.db)
    }

    /// The typed store over `db`.
    pub fn new(db: PickleDb) -> (r: FullAdults)
        requires
            kv_dumps_cleanly(db),
        ensures
            r.wf(),
            r.entries() == kv_entries(db),
            r@ == full_names_of(kv_entries(db)),
    {
        let r = FullAdults { db };
        assert(r@ =~= full_names_of(kv_entries(db)));
        r
    }

    /// The key of `name`. No other name has the same key.
    fn key_of(name: &XorName) -> (r: String)
        ensures
            r@ == name_key(*name),
            forall|other: XorName| #[trigger] name_key(other) == r@ ==> other == *name,
    {
        let mut bytes: Vec<u8> = Vec::new();
        push_bytes_32(&mut bytes, &name.0);
        assert(bytes@ =~= name.0@);
        let key = base64_encode(&bytes);
        proof {
            assert forall|other: XorName| #[trigger] name_key(other) == key@ implies other
                == *name by {
                assert(base64_text(other.0@) == key@);
                assert(other.0@ == name.0@);
                assert(other.0 =~= name.0);
            }
        }
        key
    }

    /// Whether `name` is noted as full.
    pub fn contains(&self, name: &XorName) -> (r: bool)
        ensures
            r == self@.contains(*name),
    {
        let key = FullAdults::key_of(name);
        kv_get(&self.db, key.as_str()).is_some()
    }

    /// Notes `name` as full. When the file cannot be written, the store stays as
    /// it was and the error is handed back.
    pub fn insert(&mut self, name: &XorName) -> (r: Result<(), StoreError>)
        requires
            old(self).wf(),
        ensures
            final(self).wf(),
            r is Ok ==> final(self)@ == old(self)@.insert(*name),
            r is Ok ==> final(self).entries() == old(self).entries().insert(
                name_key(*name),
                Seq::<u8>::empty(),
            ),
            r is Err ==> final(self)@ == old(self)@ && final(self).entries() == old(self).entries(),
    {
        let key = FullAdults::key_of(name);
        let nothing: Vec<u8> = Vec::new();
        match kv_set(&mut self.db, key.as_str(), &nothing) {
            Ok(_) => {
                proof {
                    assert forall|other: XorName| #[trigger]
                        final(self)@.contains(other) == old(self)@.insert(*name).contains(other) by {
                        if other != *name {
                            assert(name_key(other) != key@);
                        }
                    }
                    assert(final(self)@ =~= old(self)@.insert(*name));
                }
                Ok(())
            },
            Err(_) => {
                assert(final(self)@ =~= old(self)@);
                Err(StoreError::Persistence)
            },
        }
    }
}

} // verus!
