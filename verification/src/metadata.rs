//! What is known of each chunk (its holders and its owner), and how that is
//! written as bytes.

use crate::data::PublicKey;
use crate::name::{NameSet, XorName};
use vstd::prelude::*;

verus! {

/// What is known of one chunk: the nodes that hold a copy, and the owner if the
/// chunk is unpublished.
#[derive(Debug, PartialEq, Eq)]
pub struct ChunkMetadata {
    pub holders: NameSet,
    pub owner: Option<PublicKey>,
}

/// The metadata of a chunk as a mathematical value: the holders in the order in
/// which they were noted, none of them twice, and the owner.
pub struct ChunkMetadataView {
    pub holders: Seq<XorName>,
    pub owner: Option<PublicKey>,
}

impl View for ChunkMetadata {
    type V = ChunkMetadataView;

    open spec fn view(&self) -> ChunkMetadataView {
        ChunkMetadataView { holders: self.holders.seq(), owner: self.owner }
    }
}

impl ChunkMetadataView {
    /// No holder occurs twice.
    pub open spec fn wf(self) -> bool {
        self.holders.no_duplicates()
    }

    /// The metadata of a chunk of which nothing is known yet.
    pub open spec fn empty() -> ChunkMetadataView {
        ChunkMetadataView { holders: Seq::empty(), owner: None }
    }
}

impl ChunkMetadata {
    /// No holder occurs twice.
    pub open spec fn wf(&self) -> bool {
        self.holders.wf()
    }

    /// The metadata of a chunk of which nothing is known yet.
    pub fn new() -> (r: ChunkMetadata)
        ensures
            r.wf(),
            r@ == ChunkMetadataView::empty(),
            r.holders.seq() == Seq::<XorName>::empty(),
    {
        ChunkMetadata { holders: NameSet::new(), owner: None }
    }
}

/// The view of metadata that may be absent.
pub open spec fn metadata_view(metadata: Option<ChunkMetadata>) -> Option<ChunkMetadataView> {
    match metadata {
        Some(m) => Some(m@),
        None => None,
    }
}

/// The bytes that stand for an owner: a zero byte for none; else a one, the
/// number of the key's scheme, and the bytes of the key.
pub open spec fn owner_bytes(owner: Option<PublicKey>) -> Seq<u8> {
    match owner {
        None => seq![0u8],
        Some(PublicKey::Ed25519(key)) => seq![1u8, 0u8] + key@,
        Some(PublicKey::Bls(key)) => seq![1u8, 1u8] + key@,
        Some(PublicKey::BlsShare(key)) => seq![1u8, 2u8] + key@,
    }
}

/// The bytes of the names of `names`, one name after the other.
pub open spec fn names_bytes(names: Seq<XorName>) -> Seq<u8> {
    Seq::new((32 * names.len()) as nat, |i: int| names[i / 32].0@[i % 32])
}

/// The bytes that stand for the metadata of a chunk: the owner, then the holders.
pub open spec fn metadata_bytes(names: Seq<XorName>, owner: Option<PublicKey>) -> Seq<u8> {
    owner_bytes(owner) + names_bytes(names)
}

/// The metadata that `bytes` stand for, if they stand for any: holders of which
/// none occurs twice, and an owner.
pub open spec fn decoded_metadata(bytes: Seq<u8>) -> Option<ChunkMetadataView> {
    if exists|names: Seq<XorName>, owner: Option<PublicKey>|
        names.no_duplicates() && #[trigger] metadata_bytes(names, owner) == bytes {
        let (names, owner) = choose|names: Seq<XorName>, owner: Option<PublicKey>|
            names.no_duplicates() && #[trigger] metadata_bytes(names, owner) == bytes;
        Some(ChunkMetadataView { holders: names, owner })
    } else {
        None
    }
}

/// How many bytes stand for an owner.
pub open spec fn owner_len(owner: Option<PublicKey>) -> int {
    match owner {
        None => 1,
        Some(PublicKey::Ed25519(_)) => 34,
        Some(PublicKey::Bls(_)) => 50,
        Some(PublicKey::BlsShare(_)) => 50,
    }
}

/// Where each part of the metadata lies in its bytes.
pub proof fn lemma_metadata_bytes_shape(names: Seq<XorName>, owner: Option<PublicKey>)
    ensures
        metadata_bytes(names, owner).len() == owner_len(owner) + 32 * names.len(),
        owner_bytes(owner).len() == owner_len(owner),
        owner is None ==> metadata_bytes(names, owner)[0] == 0,
        owner is Some ==> metadata_bytes(names, owner)[0] == 1,
        owner matches Some(PublicKey::Ed25519(key)) ==> metadata_bytes(names, owner)[1] == 0
            && forall|j: int| 0 <= j < 32 ==> metadata_bytes(names, owner)[2 + j] == #[trigger] key@[j],
        owner matches Some(PublicKey::Bls(key)) ==> metadata_bytes(names, owner)[1] == 1
            && forall|j: int| 0 <= j < 48 ==> metadata_bytes(names, owner)[2 + j] == #[trigger] key@[j],
        owner matches Some(PublicKey::BlsShare(key)) ==> metadata_bytes(names, owner)[1] == 2
            && forall|j: int| 0 <= j < 48 ==> metadata_bytes(names, owner)[2 + j] == #[trigger] key@[j],
        forall|t: int, j: int|
            0 <= t < names.len() && 0 <= j < 32 ==> metadata_bytes(names, owner)[owner_len(owner)
                + 32 * t + j] == #[trigger] names[t].0@[j],
{
    let b = metadata_bytes(names, owner);
    let h = owner_len(owner);
    assert(owner_bytes(owner).len() == h);
    assert forall|t: int, j: int| 0 <= t < names.len() && 0 <= j < 32 implies b[h + 32 * t + j]
        == #[trigger] names[t].0@[j] by {
        let i = 32 * t + j;
        assert(i / 32 == t && i % 32 == j);
        assert(0 <= i < 32 * names.len());
        assert(b[h + i] == names_bytes(names)[i]);
    }
    match owner {
        None => {},
        Some(PublicKey::Ed25519(key)) => {
            assert forall|j: int| 0 <= j < 32 implies b[2 + j] == #[trigger] key@[j] by {
                assert(b[2 + j] == owner_bytes(owner)[2 + j]);
            }
        },
        Some(PublicKey::Bls(key)) => {
            assert forall|j: int| 0 <= j < 48 implies b[2 + j] == #[trigger] key@[j] by {
                assert(b[2 + j] == owner_bytes(owner)[2 + j]);
            }
        },
        Some(PublicKey::BlsShare(key)) => {
            assert forall|j: int| 0 <= j < 48 implies b[2 + j] == #[trigger] key@[j] by {
                assert(b[2 + j] == owner_bytes(owner)[2 + j]);
            }
        },
    }
}

/// Metadata with the same bytes has the same owner.
pub proof fn lemma_owner_determined(
    n1: Seq<XorName>,
    o1: Option<PublicKey>,
    n2: Seq<XorName>,
    o2: Option<PublicKey>,
)
    requires
        metadata_bytes(n1, o1) == metadata_bytes(n2, o2),
    ensures
        o1 == o2,
        n1.len() == n2.len(),
{
    lemma_metadata_bytes_shape(n1, o1);
    lemma_metadata_bytes_shape(n2, o2);
    let b = metadata_bytes(n1, o1);
    match (o1, o2) {
        (Some(PublicKey::Ed25519(k1)), Some(PublicKey::Ed25519(k2))) => {
            assert forall|j: int| 0 <= j < 32 implies k1[j] == k2[j] by {
                assert(b[2 + j] == k1@[j]);
                assert(b[2 + j] == k2@[j]);
            }
            assert(k1 =~= k2);
        },
        (Some(PublicKey::Bls(k1)), Some(PublicKey::Bls(k2))) => {
            assert forall|j: int| 0 <= j < 48 implies k1[j] == k2[j] by {
                assert(b[2 + j] == k1@[j]);
                assert(b[2 + j] == k2@[j]);
            }
            assert(k1 =~= k2);
        },
        (Some(PublicKey::BlsShare(k1)), Some(PublicKey::BlsShare(k2))) => {
            assert forall|j: int| 0 <= j < 48 implies k1[j] == k2[j] by {
                assert(b[2 + j] == k1@[j]);
                assert(b[2 + j] == k2@[j]);
            }
            assert(k1 =~= k2);
        },
        _ => {},
    }
}

/// Metadata with the same bytes is the same metadata.
pub proof fn lemma_metadata_bytes_injective(
    n1: Seq<XorName>,
    o1: Option<PublicKey>,
    n2: Seq<XorName>,
    o2: Option<PublicKey>,
)
    requires
        metadata_bytes(n1, o1) == metadata_bytes(n2, o2),
    ensures
        o1 == o2,
        n1 == n2,
{
    lemma_owner_determined(n1, o1, n2, o2);
    lemma_metadata_bytes_shape(n1, o1);
    lemma_metadata_bytes_shape(n2, o2);
    let b = metadata_bytes(n1, o1);
    let h = owner_len(o1);
    assert forall|t: int| 0 <= t < n1.len() implies n1[t] == n2[t] by {
        assert forall|j: int| 0 <= j < 32 implies n1[t].0[j] == n2[t].0[j] by {
            assert(b[h + 32 * t + j] == n1[t].0@[j]);
            assert(b[h + 32 * t + j] == n2[t].0@[j]);
        }
        assert(n1[t].0 =~= n2[t].0);
    }
    assert(n1 =~= n2);
}

/// Bytes that stand for metadata decode to that metadata.
pub proof fn lemma_decoded_metadata(names: Seq<XorName>, owner: Option<PublicKey>)
    requires
        names.no_duplicates(),
    ensures
        decoded_metadata(metadata_bytes(names, owner)) == Some(
            ChunkMetadataView { holders: names, owner },
        ),
{
    let bytes = metadata_bytes(names, owner);
    let (n, o) = choose|n: Seq<XorName>, o: Option<PublicKey>|
        n.no_duplicates() && #[trigger] metadata_bytes(n, o) == bytes;
    lemma_metadata_bytes_injective(n, o, names, owner);
}

/// Appends the 32 bytes of `bytes` to `out`.
pub(crate) fn push_bytes_32(out: &mut Vec<u8>, bytes: &[u8; 32])
    ensures
        final(out)@ == old(out)@ + bytes@,
{
    let ghost before = out@;
    let mut i: usize = 0;
    while i < 32
        invariant
            i <= 32,
            out@ == before + bytes@.subrange(0, i as int),
        decreases 32 - i,
    {
        out.push(bytes[i]);
        assert(out@ =~= before + bytes@.subrange(0, i + 1));
        i = i + 1;
    }
    assert(bytes@.subrange(0, 32) =~= bytes@);
}

/// Appends the 48 bytes of `bytes` to `out`.
fn push_bytes_48(out: &mut Vec<u8>, bytes: &[u8; 48])
    ensures
        final(out)@ == old(out)@ + bytes@,
{
    let ghost before = out@;
    let mut i: usize = 0;
    while i < 48
        invariant
            i <= 48,
            out@ == before + bytes@.subrange(0, i as int),
        decreases 48 - i,
    {
        out.push(bytes[i]);
        assert(out@ =~= before + bytes@.subrange(0, i + 1));
        i = i + 1;
    }
    assert(bytes@.subrange(0, 48) =~= bytes@);
}

/// The 32 bytes of `bytes` that start at `at`.
fn read_bytes_32(bytes: &Vec<u8>, at: usize) -> (r: [u8; 32])
    requires
        at + 32 <= bytes@.len(),
    ensures
        forall|j: int| 0 <= j < 32 ==> #[trigger] r@[j] == bytes@[at + j],
{
    let len = bytes.len();
    let mut out: [u8; 32] = [0u8; 32];
    let mut i: usize = 0;
    while i < 32
        invariant
            i <= 32,
            len == bytes@.len(),
            at + 32 <= len,
            forall|j: int| 0 <= j < i ==> #[trigger] out@[j] == bytes@[at + j],
        decreases 32 - i,
    {
        out[i] = bytes[at + i];
        i = i + 1;
    }
    out
}

/// The 48 bytes of `bytes` that start at `at`.
fn read_bytes_48(bytes: &Vec<u8>, at: usize) -> (r: [u8; 48])
    requires
        at + 48 <= bytes@.len(),
    ensures
        forall|j: int| 0 <= j < 48 ==> #[trigger] r@[j] == bytes@[at + j],
{
    let len = bytes.len();
    let mut out: [u8; 48] = [0u8; 48];
    let mut i: usize = 0;
    while i < 48
        invariant
            i <= 48,
            len == bytes@.len(),
            at + 48 <= len,
            forall|j: int| 0 <= j < i ==> #[trigger] out@[j] == bytes@[at + j],
        decreases 48 - i,
    {
        out[i] = bytes[at + i];
        i = i + 1;
    }
    out
}

/// Adding a name to a list adds its 32 bytes to the bytes of the list.
pub proof fn lemma_names_bytes_push(names: Seq<XorName>, name: XorName)
    ensures
        names_bytes(names.push(name)) == names_bytes(names) + name.0@,
{
    let left = names_bytes(names.push(name));
    let right = names_bytes(names) + name.0@;
    assert(left.len() == right.len());
    assert forall|i: int| 0 <= i < left.len() implies left[i] == right[i] by {
        if i < 32 * names.len() {
            assert(i / 32 < names.len());
        } else {
            assert(i / 32 == names.len());
            assert(i % 32 == i - 32 * names.len());
        }
    }
    assert(left =~= right);
}

/// Writes the metadata of a chunk as bytes.
pub fn serialise_metadata(metadata: &ChunkMetadata) -> (r: Vec<u8>)
    ensures
        r@ == metadata_bytes(metadata.holders.seq(), metadata.owner),
{
    let mut out: Vec<u8> = Vec::new();
    match &metadata.owner {
        None => {
            out.push(0);
        },
        Some(PublicKey::Ed25519(key)) => {
            out.push(1);
            out.push(0);
            push_bytes_32(&mut out, key);
        },
        Some(PublicKey::Bls(key)) => {
            out.push(1);
            out.push(1);
            push_bytes_48(&mut out, key);
        },
        Some(PublicKey::BlsShare(key)) => {
            out.push(1);
            out.push(2);
            push_bytes_48(&mut out, key);
        },
    }
    assert(out@ =~= owner_bytes(metadata.owner));
    let names = metadata.holders.to_list();
    let mut i: usize = 0;
    assert(names_bytes(names@.subrange(0, 0)) =~= Seq::<u8>::empty());
    assert(out@ =~= owner_bytes(metadata.owner) + names_bytes(names@.subrange(0, 0)));
    while i < names.len()
        invariant
            i <= names.len(),
            out@ == owner_bytes(metadata.owner) + names_bytes(names@.subrange(0, i as int)),
        decreases names.len() - i,
    {
        let ghost before = out@;
        push_bytes_32(&mut out, &names[i].0);
        proof {
            let done = names@.subrange(0, i as int);
            lemma_names_bytes_push(done, names@[i as int]);
            assert(names@.subrange(0, i + 1) =~= done.push(names@[i as int]));
            assert(out@ =~= owner_bytes(metadata.owner) + names_bytes(names@.subrange(0, i + 1)));
        }
        i = i + 1;
    }
    assert(names@.subrange(0, i as int) =~= names@);
    out
}

/// Reads the metadata of a chunk from bytes. Gives `None` for bytes that stand
/// for no metadata.
pub fn deserialise_metadata(bytes: &Vec<u8>) -> (r: Option<ChunkMetadata>)
    ensures
        metadata_view(r) == decoded_metadata(bytes@),
        r matches Some(m) ==> m.wf() && metadata_bytes(m.holders.seq(), m.owner) == bytes@,
{
    let len = bytes.len();
    if len == 0 {
        proof {
            assert forall|n: Seq<XorName>, o: Option<PublicKey>| #[trigger]
                metadata_bytes(n, o) != bytes@ by {
                lemma_metadata_bytes_shape(n, o);
            }
        }
        return None;
    }
    let owner: Option<PublicKey>;
    let header: usize;
    if bytes[0] == 0 {
        owner = None;
        header = 1;
    } else if bytes[0] == 1 && len >= 34 && bytes[1] == 0 {
        owner = Some(PublicKey::Ed25519(read_bytes_32(bytes, 2)));
        header = 34;
    } else if bytes[0] == 1 && len >= 50 && bytes[1] == 1 {
        owner = Some(PublicKey::Bls(read_bytes_48(bytes, 2)));
        header = 50;
    } else if bytes[0] == 1 && len >= 50 && bytes[1] == 2 {
        owner = Some(PublicKey::BlsShare(read_bytes_48(bytes, 2)));
        header = 50;
    } else {
        proof {
            assert forall|n: Seq<XorName>, o: Option<PublicKey>| #[trigger]
                metadata_bytes(n, o) != bytes@ by {
                lemma_metadata_bytes_shape(n, o);
            }
        }
        return None;
    }
    if (len - header) % 32 != 0 {
        proof {
            assert forall|n: Seq<XorName>, o: Option<PublicKey>| #[trigger]
                metadata_bytes(n, o) != bytes@ by {
                lemma_metadata_bytes_shape(n, o);
                if metadata_bytes(n, o) == bytes@ {
                    assert(owner_len(o) == header);
                }
            }
        }
        return None;
    }
    let count: usize = (len - header) / 32;
    let mut holders = NameSet::new();
    let mut k: usize = 0;
    while k < count
        invariant
            k <= count,
            len == bytes@.len(),
            len == header + 32 * count,
            header == owner_len(owner),
            holders.wf(),
            holders.seq().len() == k,
            forall|t: int, j: int|
                0 <= t < k && 0 <= j < 32 ==> bytes@[header + 32 * t + j]
                    == #[trigger] holders.seq()[t].0@[j],
        decreases count - k,
    {
        let name = XorName(read_bytes_32(bytes, header + 32 * k));
        let ghost before = holders.seq();
        let fresh = holders.insert(name);
        if !fresh {
            proof {
                assert(before.to_set().contains(name));
                let t = choose|t: int| 0 <= t < before.len() && before[t] == name;
                assert forall|n: Seq<XorName>, o: Option<PublicKey>|
                    n.no_duplicates() implies #[trigger] metadata_bytes(n, o) != bytes@ by {
                    lemma_metadata_bytes_shape(n, o);
                    if metadata_bytes(n, o) == bytes@ {
                        assert(owner_len(o) == header);
                        assert(n.len() == count);
                        assert forall|j: int| 0 <= j < 32 implies n[t].0[j] == n[k as int].0[j] by {
                            assert(bytes@[header + 32 * t + j] == n[t].0@[j]);
                            assert(bytes@[header + 32 * k + j] == n[k as int].0@[j]);
                            assert(before[t].0@[j] == bytes@[header + 32 * t + j]);
                            assert(name.0@[j] == bytes@[header + 32 * k + j]);
                        }
                        assert(n[t].0 =~= n[k as int].0);
                        assert(n[t] == n[k as int]);
                    }
                }
            }
            return None;
        }
        proof {
            assert forall|t: int, j: int| 0 <= t < k + 1 && 0 <= j < 32 implies bytes@[header + 32
                * t + j] == #[trigger] holders.seq()[t].0@[j] by {
                if t < k {
                    assert(holders.seq()[t] == before[t]);
                } else {
                    assert(holders.seq()[t] == name);
                    assert(name.0@[j] == bytes@[header + 32 * k + j]);
                }
            }
        }
        k = k + 1;
    }
    let metadata = ChunkMetadata { holders, owner };
    proof {
        let names = metadata.holders.seq();
        let built = metadata_bytes(names, owner);
        lemma_metadata_bytes_shape(names, owner);
        assert(built.len() == bytes@.len());
        assert forall|i: int| 0 <= i < built.len() implies built[i] == bytes@[i] by {
            if i >= header {
                let t = (i - header) / 32;
                let j = (i - header) % 32;
                assert(i == header + 32 * t + j);
                assert(0 <= t < names.len());
                assert(built[header + 32 * t + j] == names[t].0@[j]);
            } else {
                match owner {
                    None => {},
                    Some(PublicKey::Ed25519(key)) => {
                        if i >= 2 {
                            assert(built[2 + (i - 2)] == key@[i - 2]);
                        }
                    },
                    Some(PublicKey::Bls(key)) => {
                        if i >= 2 {
                            assert(built[2 + (i - 2)] == key@[i - 2]);
                        }
                    },
                    Some(PublicKey::BlsShare(key)) => {
                        if i >= 2 {
                            assert(built[2 + (i - 2)] == key@[i - 2]);
                        }
                    },
                }
            }
        }
        assert(built =~= bytes@);
        lemma_decoded_metadata(names, owner);
    }
    Some(metadata)
}

} // verus!
