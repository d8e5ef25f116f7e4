//! The keys under which chunk addresses are stored, and small helpers on
//! identities, messages and results.

use crate::data::{
    cost_of_put, ClientPublicId, Coins, IDataAddress, NdError, PublicId, PublicKey,
    COST_OF_PUT_NANOS,
};
use crate::foreign::{base64_bytes, base64_decode, base64_encode, base64_text};
use crate::messaging::{Rpc, RpcView, SrcLocation};
use crate::name::XorName;
use vstd::prelude::*;

verus! {

/// How many bytes the serialised form of an address has.
pub const ADDRESS_BYTES_LEN: usize = 36;

/// The first byte of the serialised form of an address: 0 for a published chunk,
/// 1 for an unpublished one.
pub open spec fn address_tag(address: IDataAddress) -> u8 {
    match address {
        IDataAddress::Pub(_) => 0,
        IDataAddress::Unpub(_) => 1,
    }
}

/// The serialised form of an address: the kind as a 32-bit number, lowest byte
/// first, then the 32 bytes of the name.
pub open spec fn address_bytes(address: IDataAddress) -> Seq<u8> {
    seq![address_tag(address), 0u8, 0u8, 0u8] + address.spec_name().0@
}

/// No two addresses have the same serialised form.
pub proof fn lemma_address_bytes_injective(a: IDataAddress, b: IDataAddress)
    requires
        address_bytes(a) == address_bytes(b),
    ensures
        a == b,
{
    let x = address_bytes(a);
    let y = address_bytes(b);
    assert(x[0] == address_tag(a));
    assert(y[0] == address_tag(b));
    assert forall|i: int| 0 <= i < 32 implies a.spec_name().0[i] == b.spec_name().0[i] by {
        assert(x[4 + i] == a.spec_name().0@[i]);
        assert(y[4 + i] == b.spec_name().0@[i]);
    }
    assert(a.spec_name().0 =~= b.spec_name().0);
}

/// The key under which an address is stored: the base64 text of its serialised form.
pub open spec fn db_key(address: IDataAddress) -> Seq<char> {
    base64_text(address_bytes(address))
}

/// The address whose serialised form is `bytes`, if there is one.
pub open spec fn address_of_bytes(bytes: Seq<u8>) -> Option<IDataAddress> {
    if exists|a: IDataAddress| address_bytes(a) == bytes {
        Some(choose|a: IDataAddress| address_bytes(a) == bytes)
    } else {
        None
    }
}

/// The address that a key stands for: the key is base64 text, and what it decodes
/// to is the serialised form of the address.
pub open spec fn address_of_key(key: Seq<char>) -> Option<IDataAddress> {
    match base64_bytes(key) {
        Some(bytes) => address_of_bytes(bytes),
        None => None,
    }
}

/// Serialises an address.
pub fn serialise_address(address: &IDataAddress) -> (r: Vec<u8>)
    ensures
        r@ == address_bytes(*address),
        r@.len() == ADDRESS_BYTES_LEN,
{
    let mut out: Vec<u8> = Vec::new();
    let tag: u8 = match address {
        IDataAddress::Pub(_) => 0,
        IDataAddress::Unpub(_) => 1,
    };
    out.push(tag);
    out.push(0);
    out.push(0);
    out.push(0);
    let name = address.name();
    let mut i: usize = 0;
    while i < 32
        invariant
            i <= 32,
            out@ == seq![tag, 0u8, 0u8, 0u8] + name.0@.subrange(0, i as int),
        decreases 32 - i,
    {
        out.push(name.0[i]);
        assert(name.0@.subrange(0, i + 1) =~= name.0@.subrange(0, i as int).push(name.0@[i as int]));
        assert(out@ =~= seq![tag, 0u8, 0u8, 0u8] + name.0@.subrange(0, i + 1));
        i = i + 1;
    }
    assert(name.0@.subrange(0, 32) =~= name.0@);
    out
}

/// Reads an address from its serialised form. Gives `None` for bytes that are
/// the serialised form of no address.
pub fn deserialise_address(bytes: &Vec<u8>) -> (r: Option<IDataAddress>)
    ensures
        r == address_of_bytes(bytes@),
        r matches Some(a) ==> address_bytes(a) == bytes@,
{
    if bytes.len() != 36 || bytes[0] > 1 || bytes[1] != 0 || bytes[2] != 0 || bytes[3] != 0 {
        proof {
            assert forall|a: IDataAddress| address_bytes(a) != bytes@ by {
                let x = address_bytes(a);
                assert(x.len() == 36);
                assert(x[0] == address_tag(a));
                assert(x[1] == 0 && x[2] == 0 && x[3] == 0);
            }
        }
        return None;
    }
    let mut name: [u8; 32] = [0u8; 32];
    let mut i: usize = 0;
    while i < 32
        invariant
            i <= 32,
            bytes@.len() == 36,
            forall|j: int| 0 <= j < i ==> name@[j] == bytes@[4 + j],
        decreases 32 - i,
    {
        name[i] = bytes[4 + i];
        i = i + 1;
    }
    let address = if bytes[0] == 0 {
        IDataAddress::Pub(XorName(name))
    } else {
        IDataAddress::Unpub(XorName(name))
    };
    proof {
        assert(address_bytes(address) =~= bytes@);
        let chosen = choose|a: IDataAddress| address_bytes(a) == bytes@;
        lemma_address_bytes_injective(chosen, address);
    }
    Some(address)
}

/// The key under which `address` is stored. No other address has the same key.
pub fn to_db_key(address: &IDataAddress) -> (r: String)
    ensures
        r@ == db_key(*address),
        address_of_key(r@) == Some(*address),
        forall|other: IDataAddress| #[trigger] db_key(other) == r@ ==> other == *address,
{
    let bytes = serialise_address(address);
    let key = base64_encode(&bytes);
    proof {
        assert forall|other: IDataAddress| #[trigger] db_key(other) == key@ implies other
            == *address by {
            assert(base64_text(address_bytes(other)) == key@);
            lemma_address_bytes_injective(other, *address);
        }
        assert(base64_bytes(key@) == Some(bytes@));
        let chosen = choose|a: IDataAddress| address_bytes(a) == bytes@;
        lemma_address_bytes_injective(chosen, *address);
    }
    key
}

/// The address that is stored under `key`. Gives `None` for a key that stands
/// for no address. The key of an address gives that address back.
pub fn db_key_to_idata_address(key: &str) -> (r: Option<IDataAddress>)
    ensures
        r == address_of_key(key@),
        forall|address: IDataAddress| #[trigger] db_key(address) == key@ ==> r == Some(address),
{
    match base64_decode(key) {
        None => None,
        Some(bytes) => {
            let r = deserialise_address(&bytes);
            proof {
                assert forall|address: IDataAddress| #[trigger] db_key(address) == key@ implies r
                    == Some(address) by {
                    assert(base64_text(address_bytes(address)) == key@);
                    assert(bytes@ == address_bytes(address));
                    let chosen = choose|a: IDataAddress| address_bytes(a) == bytes@;
                    lemma_address_bytes_injective(chosen, address);
                }
            }
            r
        },
    }
}

/// The owner behind an identity: the client itself, the client that an
/// application acts for, or nobody for a node.
pub open spec fn spec_owner(public_id: PublicId) -> Option<ClientPublicId> {
    match public_id {
        PublicId::Node(_) => None,
        PublicId::Client(id) => Some(id),
        PublicId::App(id) => Some(id.owner),
    }
}

/// The owner behind an identity: the client itself, the client that an
/// application acts for, or nobody for a node.
pub fn owner(public_id: &PublicId) -> (r: Option<ClientPublicId>)
    ensures
        r == spec_owner(*public_id),
{
    match public_id {
        PublicId::Node(_) => None,
        PublicId::Client(id) => Some(*id),
        PublicId::App(id) => Some(id.owner),
    }
}

/// The client's identity if `public_id` is that of a client, else nothing.
pub open spec fn spec_client(public_id: PublicId) -> Option<ClientPublicId> {
    match public_id {
        PublicId::Client(id) => Some(id),
        _ => None,
    }
}

/// The client's identity if `public_id` is that of a client, else nothing.
pub fn client(public_id: &PublicId) -> (r: Option<ClientPublicId>)
    ensures
        r == spec_client(*public_id),
{
    match public_id {
        PublicId::Node(_) => None,
        PublicId::App(_) => None,
        PublicId::Client(id) => Some(*id),
    }
}

/// The key that a client or an application signs with; a node has none.
pub open spec fn spec_own_key(public_id: PublicId) -> Option<PublicKey> {
    match public_id {
        PublicId::Node(_) => None,
        PublicId::Client(id) => Some(id.public_key),
        PublicId::App(id) => Some(id.public_key),
    }
}

/// The key that a client or an application signs with; a node has none.
pub fn own_key(public_id: &PublicId) -> (r: Option<PublicKey>)
    ensures
        r == spec_own_key(*public_id),
{
    match public_id {
        PublicId::Node(_) => None,
        PublicId::Client(id) => Some(id.public_key),
        PublicId::App(id) => Some(id.public_key),
    }
}

/// The address of the requester of a request or of a response. Other messages
/// name no requester.
pub open spec fn spec_requester_address(rpc: RpcView) -> Option<XorName> {
    match rpc {
        RpcView::Request { requester, .. } => Some(requester.spec_name()),
        RpcView::Response { requester, .. } => Some(requester.spec_name()),
        _ => None,
    }
}

/// The address of the requester of a request or of a response. Other messages
/// name no requester.
pub fn requester_address(rpc: &Rpc) -> (r: Option<XorName>)
    ensures
        r == spec_requester_address(rpc@),
{
    match rpc {
        Rpc::Request { requester, .. } => Some(requester.name()),
        Rpc::Response { requester, .. } => Some(requester.name()),
        _ => None,
    }
}

/// What a requester gets back of the cost of storing: all of it when storing
/// failed, nothing when it succeeded.
pub open spec fn spec_refund_for_put<T>(result: Result<T, NdError>) -> Option<Coins> {
    if result is Err {
        Some(cost_of_put())
    } else {
        None
    }
}

/// What a requester gets back of the cost of storing: all of it when storing
/// failed, nothing when it succeeded.
pub fn get_refund_for_put<T>(result: &Result<T, NdError>) -> (r: Option<Coins>)
    ensures
        r == spec_refund_for_put(*result),
        r is Some <==> *result is Err,
{
    if result.is_err() {
        Some(Coins(COST_OF_PUT_NANOS))
    } else {
        None
    }
}

/// The name of the node that a message comes from; for a message from a section,
/// the name of all zeros.
pub open spec fn spec_source_name(src: SrcLocation) -> XorName {
    match src {
        SrcLocation::Node(name) => name,
        SrcLocation::Section(_) => XorName::spec_zero(),
    }
}

/// The name of the node that a message comes from; for a message from a section,
/// the name of all zeros.
pub fn get_source_name(src: SrcLocation) -> (r: XorName)
    ensures
        r == spec_source_name(src),
{
    match src {
        SrcLocation::Node(name) => name,
        SrcLocation::Section(_) => XorName::zero(),
    }
}

} // verus!
