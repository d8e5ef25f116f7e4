//! Identities, keys, chunk addresses and chunks.

use crate::name::XorName;
use vstd::prelude::*;

verus! {

/// The 128-bit identifier that a client chooses for one logical request.
#[derive(Clone, Copy, Debug, PartialEq, Eq, Structural, PartialOrd, Ord, Hash)]
pub struct MessageId(pub u128);

/// An amount of coins, counted in nano coins.
#[derive(Clone, Copy, Debug, PartialEq, Eq, Structural, PartialOrd, Ord, Hash)]
pub struct Coins(pub u64);

/// What storing one chunk costs, in nano coins.
pub const COST_OF_PUT_NANOS: u64 = 1;

/// What storing one chunk costs.
pub open spec fn cost_of_put() -> Coins {
    Coins(COST_OF_PUT_NANOS)
}

/// The errors that a client can be told of.
#[derive(Clone, Copy, Debug, PartialEq, Eq, Structural, PartialOrd, Ord, Hash)]
pub enum NdError {
    /// The requester may not see or change the chunk.
    AccessDenied,
    /// No holder is known for the chunk.
    NoSuchData,
    /// An unpublished chunk of that address is stored already.
    DataExists,
    /// An operation with the same message identifier is under way.
    DuplicateMessageId,
    /// A failure of the network or of serialisation.
    NetworkOther,
}

/// A public key, by signature scheme and key bytes.
#[derive(Clone, Copy, Debug, PartialEq, Eq, PartialOrd, Ord, Hash)]
pub enum PublicKey {
    Ed25519([u8; 32]),
    Bls([u8; 48]),
    BlsShare([u8; 48]),
}

/// Whether two arrays of 32 bytes are equal.
pub fn same_bytes_32(a: &[u8; 32], b: &[u8; 32]) -> (r: bool)
    ensures
        r == (*a == *b),
{
    let mut i: usize = 0;
    while i < 32
        invariant
            i <= 32,
            forall|j: int| 0 <= j < i ==> a[j] == b[j],
        decreases 32 - i,
    {
        if a[i] != b[i] {
            return false;
        }
        i = i + 1;
    }
    assert(*a =~= *b);
    true
}

/// Whether two arrays of 48 bytes are equal.
pub fn same_bytes_48(a: &[u8; 48], b: &[u8; 48]) -> (r: bool)
    ensures
        r == (*a == *b),
{
    let mut i: usize = 0;
    while i < 48
        invariant
            i <= 48,
            forall|j: int| 0 <= j < i ==> a[j] == b[j],
        decreases 48 - i,
    {
        if a[i] != b[i] {
            return false;
        }
        i = i + 1;
    }
    assert(*a =~= *b);
    true
}

impl PublicKey {
    /// Whether two keys are of the same scheme and hold the same bytes.
    pub fn same(&self, other: &PublicKey) -> (r: bool)
        ensures
            r == (*self == *other),
    {
        match (self, other) {
            (PublicKey::Ed25519(a), PublicKey::Ed25519(b)) => same_bytes_32(a, b),
            (PublicKey::Bls(a), PublicKey::Bls(b)) => same_bytes_48(a, b),
            (PublicKey::BlsShare(a), PublicKey::BlsShare(b)) => same_bytes_48(a, b),
            _ => false,
        }
    }
}

/// The public identity of a node.
#[derive(Clone, Copy, Debug, PartialEq, Eq, PartialOrd, Ord, Hash)]
pub struct NodePublicId {
    pub name: XorName,
    pub public_key: PublicKey,
}

/// The public identity of a client.
#[derive(Clone, Copy, Debug, PartialEq, Eq, PartialOrd, Ord, Hash)]
pub struct ClientPublicId {
    pub name: XorName,
    pub public_key: PublicKey,
}

/// The public identity of an application that acts for a client.
#[derive(Clone, Copy, Debug, PartialEq, Eq, PartialOrd, Ord, Hash)]
pub struct AppPublicId {
    pub owner: ClientPublicId,
    pub public_key: PublicKey,
}

/// Who makes a request: a node, a client, or an application of a client.
#[derive(Clone, Copy, Debug, PartialEq, Eq, PartialOrd, Ord, Hash)]
pub enum PublicId {
    Node(NodePublicId),
    Client(ClientPublicId),
    App(AppPublicId),
}

impl PublicId {
    /// The address of the identity. An application's address is the name of its owner.
    pub open spec fn spec_name(&self) -> XorName {
        match *self {
            PublicId::Node(id) => id.name,
            PublicId::Client(id) => id.name,
            PublicId::App(id) => id.owner.name,
        }
    }

    /// The address of the identity. An application's address is the name of its owner.
    #[verifier::when_used_as_spec(spec_name)]
    pub fn name(&self) -> (r: XorName)
        ensures
            r == self.spec_name(),
    {
        match self {
            PublicId::Node(id) => id.name,
            PublicId::Client(id) => id.name,
            PublicId::App(id) => id.owner.name,
        }
    }

    /// Whether the identity is that of a node.
    pub open spec fn spec_is_node(&self) -> bool {
        *self is Node
    }

    /// Whether the identity is that of a node.
    #[verifier::when_used_as_spec(spec_is_node)]
    pub fn is_node(&self) -> (r: bool)
        ensures
            r == self.spec_is_node(),
    {
        match self {
            PublicId::Node(_) => true,
            _ => false,
        }
    }
}

/// The address of a chunk: its name, and whether it is published.
#[derive(Clone, Copy, Debug, PartialEq, Eq, PartialOrd, Ord, Hash)]
pub enum IDataAddress {
    /// A chunk that everybody may read.
    Pub(XorName),
    /// A chunk that only its owner may read.
    Unpub(XorName),
}

impl IDataAddress {
    /// The name of the chunk.
    pub open spec fn spec_name(&self) -> XorName {
        match *self {
            IDataAddress::Pub(name) => name,
            IDataAddress::Unpub(name) => name,
        }
    }

    /// The name of the chunk.
    #[verifier::when_used_as_spec(spec_name)]
    pub fn name(&self) -> (r: XorName)
        ensures
            r == self.spec_name(),
    {
        match self {
            IDataAddress::Pub(name) => *name,
            IDataAddress::Unpub(name) => *name,
        }
    }

    /// Whether the chunk is published.
    pub open spec fn spec_is_pub(&self) -> bool {
        *self is Pub
    }

    /// Whether the chunk is published.
    #[verifier::when_used_as_spec(spec_is_pub)]
    pub fn is_pub(&self) -> (r: bool)
        ensures
            r == self.spec_is_pub(),
    {
        match self {
            IDataAddress::Pub(_) => true,
            IDataAddress::Unpub(_) => false,
        }
    }

    /// Whether the chunk is unpublished.
    pub open spec fn spec_is_unpub(&self) -> bool {
        *self is Unpub
    }

    /// Whether the chunk is unpublished.
    #[verifier::when_used_as_spec(spec_is_unpub)]
    pub fn is_unpub(&self) -> (r: bool)
        ensures
            r == self.spec_is_unpub(),
    {
        !self.is_pub()
    }

    /// Whether two addresses have the same kind and name.
    pub fn same(&self, other: &IDataAddress) -> (r: bool)
        ensures
            r == (*self == *other),
    {
        match (self, other) {
            (IDataAddress::Pub(a), IDataAddress::Pub(b)) => a.same(b),
            (IDataAddress::Unpub(a), IDataAddress::Unpub(b)) => a.same(b),
            _ => false,
        }
    }
}

/// An immutable chunk: its address, its owner if it is unpublished, and its content.
#[derive(Clone, Debug, PartialEq, Eq, PartialOrd, Ord, Hash)]
pub struct IData {
    pub address: IDataAddress,
    pub owner: Option<PublicKey>,
    pub value: Vec<u8>,
}

/// What a chunk is, as a mathematical value.
pub struct IDataView {
    pub address: IDataAddress,
    pub owner: Option<PublicKey>,
    pub value: Seq<u8>,
}

impl View for IData {
    type V = IDataView;

    open spec fn view(&self) -> IDataView {
        IDataView { address: self.address, owner: self.owner, value: self.value@ }
    }
}

impl IData {
    /// The address of the chunk.
    pub fn address(&self) -> (r: IDataAddress)
        ensures
            r == self@.address,
    {
        self.address
    }

    /// The name of the chunk.
    pub fn name(&self) -> (r: XorName)
        ensures
            r == self@.address.spec_name(),
    {
        self.address.name()
    }

    /// Whether the chunk is published.
    pub fn is_pub(&self) -> (r: bool)
        ensures
            r == self@.address.spec_is_pub(),
    {
        self.address.is_pub()
    }

    /// A copy of the chunk.
    pub fn duplicate(&self) -> (r: IData)
        ensures
            r@ == self@,
    {
        let value = self.value.clone();
        assert(value@ =~= self.value@);
        IData { address: self.address, owner: self.owner, value }
    }
}

/// A request that concerns one immutable chunk.
#[derive(Clone, Debug, PartialEq, Eq, PartialOrd, Ord, Hash)]
pub enum IDataRequest {
    /// Store the chunk.
    Put(IData),
    /// Hand out the chunk at the address.
    Get(IDataAddress),
    /// Delete the unpublished chunk at the address.
    DeleteUnpub(IDataAddress),
}

/// What a chunk request is, as a mathematical value.
pub enum IDataRequestView {
    Put(IDataView),
    Get(IDataAddress),
    DeleteUnpub(IDataAddress),
}

impl View for IDataRequest {
    type V = IDataRequestView;

    open spec fn view(&self) -> IDataRequestView {
        match *self {
            IDataRequest::Put(data) => IDataRequestView::Put(data@),
            IDataRequest::Get(address) => IDataRequestView::Get(address),
            IDataRequest::DeleteUnpub(address) => IDataRequestView::DeleteUnpub(address),
        }
    }
}

impl IDataRequestView {
    /// The address of the chunk that the request concerns.
    pub open spec fn address(self) -> IDataAddress {
        match self {
            IDataRequestView::Put(data) => data.address,
            IDataRequestView::Get(address) => address,
            IDataRequestView::DeleteUnpub(address) => address,
        }
    }
}

impl IDataRequest {
    /// The address of the chunk that the request concerns.
    pub fn address(&self) -> (r: IDataAddress)
        ensures
            r == self@.address(),
    {
        match self {
            IDataRequest::Put(data) => data.address,
            IDataRequest::Get(address) => *address,
            IDataRequest::DeleteUnpub(address) => *address,
        }
    }

    /// A copy of the request.
    pub fn duplicate(&self) -> (r: IDataRequest)
        ensures
            r@ == self@,
    {
        match self {
            IDataRequest::Put(data) => IDataRequest::Put(data.duplicate()),
            IDataRequest::Get(address) => IDataRequest::Get(*address),
            IDataRequest::DeleteUnpub(address) => IDataRequest::DeleteUnpub(*address),
        }
    }
}

} // verus!
