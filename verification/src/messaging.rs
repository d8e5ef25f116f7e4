//! The messages that vaults exchange, where they come from and go to, and the
//! actions by which the coordinator hands out work.

use crate::data::{
    Coins, IData, IDataAddress, IDataRequest, IDataRequestView, IDataView, MessageId, NdError,
    PublicId, PublicKey,
};
use crate::name::{NameSet, XorName};
use vstd::prelude::*;

verus! {

/// A request for a login packet, as far as routing it needs to know.
#[derive(Clone, Copy, Debug, PartialEq, Eq, PartialOrd, Ord, Hash)]
pub enum LoginPacketRequest {
    /// Create a login packet for another client, whose address is `new_owner`.
    CreateFor { new_owner: XorName, dest: Option<XorName> },
    /// Any other login-packet request.
    Other { dest: Option<XorName> },
}

/// A request that a client makes of its own client handlers.
#[derive(Clone, Copy, Debug, PartialEq, Eq, Structural, PartialOrd, Ord, Hash)]
pub enum ClientRequest {
    /// Authorise a key of an application.
    InsAuthKey,
    /// Withdraw the authorisation of a key.
    DelAuthKey,
    /// Any other request.
    Other,
}

/// A request. Those that concern immutable chunks are held in full; of the others
/// there is what decides where they go.
#[derive(Clone, Debug, PartialEq, Eq, PartialOrd, Ord, Hash)]
pub enum Request {
    IData(IDataRequest),
    LoginPacket(LoginPacketRequest),
    Coins { dest: Option<XorName> },
    Client(ClientRequest),
    /// A request for data of another kind, with the address it is for.
    OtherData { dest: Option<XorName> },
}

/// What a request is, as a mathematical value.
pub enum RequestView {
    IData(IDataRequestView),
    LoginPacket(LoginPacketRequest),
    Coins { dest: Option<XorName> },
    Client(ClientRequest),
    OtherData { dest: Option<XorName> },
}

impl View for Request {
    type V = RequestView;

    open spec fn view(&self) -> RequestView {
        match *self {
            Request::IData(request) => RequestView::IData(request@),
            Request::LoginPacket(request) => RequestView::LoginPacket(request),
            Request::Coins { dest } => RequestView::Coins { dest },
            Request::Client(request) => RequestView::Client(request),
            Request::OtherData { dest } => RequestView::OtherData { dest },
        }
    }
}

impl RequestView {
    /// The address of the data handlers that the request is for, if it has one.
    pub open spec fn dest_address(self) -> Option<XorName> {
        match self {
            RequestView::IData(request) => Some(request.address().spec_name()),
            RequestView::LoginPacket(LoginPacketRequest::CreateFor { dest, .. }) => dest,
            RequestView::LoginPacket(LoginPacketRequest::Other { dest }) => dest,
            RequestView::Coins { dest } => dest,
            RequestView::Client(_) => None,
            RequestView::OtherData { dest } => dest,
        }
    }
}

impl Request {
    /// The address of the data handlers that the request is for, if it has one.
    pub fn dest_address(&self) -> (r: Option<XorName>)
        ensures
            r == self@.dest_address(),
    {
        match self {
            Request::IData(request) => Some(request.address().name()),
            Request::LoginPacket(LoginPacketRequest::CreateFor { dest, .. }) => *dest,
            Request::LoginPacket(LoginPacketRequest::Other { dest }) => *dest,
            Request::Coins { dest } => *dest,
            Request::Client(_) => None,
            Request::OtherData { dest } => *dest,
        }
    }

    /// A copy of the request.
    pub fn duplicate(&self) -> (r: Request)
        ensures
            r@ == self@,
    {
        match self {
            Request::IData(request) => Request::IData(request.duplicate()),
            Request::LoginPacket(request) => Request::LoginPacket(*request),
            Request::Coins { dest } => Request::Coins { dest: *dest },
            Request::Client(request) => Request::Client(*request),
            Request::OtherData { dest } => Request::OtherData { dest: *dest },
        }
    }
}

/// A response. Those that answer chunk requests are held in full.
#[derive(Debug, PartialEq, Eq)]
pub enum Response {
    /// The outcome of storing or deleting.
    Mutation(Result<(), NdError>),
    /// The chunk that was asked for, or why it cannot be had.
    GetIData(Result<IData, NdError>),
    /// A response of another kind.
    Other,
}

/// What a response is, as a mathematical value.
pub enum ResponseView {
    Mutation(Result<(), NdError>),
    GetIData(Result<IDataView, NdError>),
    Other,
}

impl View for Response {
    type V = ResponseView;

    open spec fn view(&self) -> ResponseView {
        match *self {
            Response::Mutation(result) => ResponseView::Mutation(result),
            Response::GetIData(Ok(data)) => ResponseView::GetIData(Ok(data@)),
            Response::GetIData(Err(error)) => ResponseView::GetIData(Err(error)),
            Response::Other => ResponseView::Other,
        }
    }
}

impl Response {
    /// A copy of the response.
    pub fn duplicate(&self) -> (r: Response)
        ensures
            r@ == self@,
    {
        match self {
            Response::Mutation(result) => Response::Mutation(*result),
            Response::GetIData(Ok(data)) => Response::GetIData(Ok(data.duplicate())),
            Response::GetIData(Err(error)) => Response::GetIData(Err(*error)),
            Response::Other => Response::Other,
        }
    }
}

/// A signature, by its bytes.
#[derive(Clone, Copy, Debug, PartialEq, Eq, PartialOrd, Ord, Hash)]
pub struct Signature(pub [u8; 96]);

/// One elder's share of a section's signature.
#[derive(Clone, Copy, Debug, PartialEq, Eq, PartialOrd, Ord, Hash)]
pub struct ProofShare {
    /// The share of the signature.
    pub signature_share: Signature,
    /// Which share of the key set signed.
    pub share_index: u64,
    /// The public key of the key set that the share belongs to.
    pub public_key: PublicKey,
}

/// A signature together with the key that it can be checked against.
#[derive(Clone, Copy, Debug, PartialEq, Eq, PartialOrd, Ord, Hash)]
pub struct SectionProof {
    pub signature: Signature,
    pub public_key: PublicKey,
}

/// The leading bits that the names of one section share.
#[derive(Clone, Copy, Debug, PartialEq, Eq, PartialOrd, Ord, Hash)]
pub struct Prefix {
    /// How many leading bits count.
    pub bit_count: u16,
    /// The bits; those after the first `bit_count` are zero.
    pub name: XorName,
}

/// Where a message comes from.
#[derive(Clone, Copy, Debug, PartialEq, Eq, PartialOrd, Ord, Hash)]
pub enum SrcLocation {
    Node(XorName),
    Section(Prefix),
}

/// Where a message goes to.
#[derive(Clone, Copy, Debug, PartialEq, Eq, PartialOrd, Ord, Hash)]
pub enum DstLocation {
    Node(XorName),
    Section(XorName),
}

/// A message between vaults.
#[derive(Debug, PartialEq, Eq)]
pub enum Rpc {
    /// A request, with who made it. Elders that relay it add their proof share.
    Request { request: Request, requester: PublicId, message_id: MessageId, proof: Option<ProofShare> },
    /// The answer to a request.
    Response {
        requester: PublicId,
        response: Response,
        message_id: MessageId,
        refund: Option<Coins>,
    },
    /// The order to fetch a chunk from its holders and to store a further copy.
    Duplicate {
        address: IDataAddress,
        holders: NameSet,
        message_id: MessageId,
        proof: Option<ProofShare>,
    },
    /// The report of a node that it has stored a further copy of a chunk, or why
    /// it could not.
    DuplicationComplete { address: IDataAddress, response: Response, message_id: MessageId },
}

/// What a message is, as a mathematical value.
pub enum RpcView {
    Request {
        request: RequestView,
        requester: PublicId,
        message_id: MessageId,
        proof: Option<ProofShare>,
    },
    Response {
        requester: PublicId,
        response: ResponseView,
        message_id: MessageId,
        refund: Option<Coins>,
    },
    Duplicate {
        address: IDataAddress,
        holders: Set<XorName>,
        message_id: MessageId,
        proof: Option<ProofShare>,
    },
    DuplicationComplete { address: IDataAddress, response: ResponseView, message_id: MessageId },
}

impl View for Rpc {
    type V = RpcView;

    open spec fn view(&self) -> RpcView {
        match *self {
            Rpc::Request { request, requester, message_id, proof } => RpcView::Request {
                request: request@,
                requester,
                message_id,
                proof,
            },
            Rpc::Response { requester, response, message_id, refund } => RpcView::Response {
                requester,
                response: response@,
                message_id,
                refund,
            },
            Rpc::Duplicate { address, holders, message_id, proof } => RpcView::Duplicate {
                address,
                holders: holders@,
                message_id,
                proof,
            },
            Rpc::DuplicationComplete { address, response, message_id } => {
                RpcView::DuplicationComplete { address, response: response@, message_id }
            },
        }
    }
}

impl RpcView {
    /// The identifier of the request that the message belongs to.
    pub open spec fn message_id(self) -> MessageId {
        match self {
            RpcView::Request { message_id, .. } => message_id,
            RpcView::Response { message_id, .. } => message_id,
            RpcView::Duplicate { message_id, .. } => message_id,
            RpcView::DuplicationComplete { message_id, .. } => message_id,
        }
    }
}

impl Rpc {
    /// The identifier of the request that the message belongs to.
    pub fn message_id(&self) -> (r: MessageId)
        ensures
            r == self@.message_id(),
    {
        match self {
            Rpc::Request { message_id, .. } => *message_id,
            Rpc::Response { message_id, .. } => *message_id,
            Rpc::Duplicate { message_id, .. } => *message_id,
            Rpc::DuplicationComplete { message_id, .. } => *message_id,
        }
    }

    /// A copy of the message.
    pub fn duplicate(&self) -> (r: Rpc)
        ensures
            r@ == self@,
    {
        match self {
            Rpc::Request { request, requester, message_id, proof } => Rpc::Request {
                request: request.duplicate(),
                requester: *requester,
                message_id: *message_id,
                proof: *proof,
            },
            Rpc::Response { requester, response, message_id, refund } => Rpc::Response {
                requester: *requester,
                response: response.duplicate(),
                message_id: *message_id,
                refund: *refund,
            },
            Rpc::Duplicate { address, holders, message_id, proof } => Rpc::Duplicate {
                address: *address,
                holders: holders.duplicate(),
                message_id: *message_id,
                proof: *proof,
            },
            Rpc::DuplicationComplete { address, response, message_id } => Rpc::DuplicationComplete {
                address: *address,
                response: response.duplicate(),
                message_id: *message_id,
            },
        }
    }
}

/// Something that the elders of a section have agreed on, in serialised form.
#[derive(Clone, Debug, PartialEq, Eq, PartialOrd, Ord, Hash)]
pub struct ConsensusAction(pub Vec<u8>);

impl View for ConsensusAction {
    type V = Seq<u8>;

    open spec fn view(&self) -> Seq<u8> {
        self.0@
    }
}

/// The work that a handler hands out. Every outbound message starts as an action.
#[derive(Debug, PartialEq, Eq)]
pub enum Action {
    /// Have the elders agree on something.
    VoteFor(ConsensusAction),
    /// Pass a client's request on to the handlers that it is for.
    ForwardClientRequest(Rpc),
    /// Pass a request that is made for another client on to that client's handlers.
    ProxyClientRequest(Rpc),
    /// Answer the client handlers of the requester.
    RespondToClientHandlers { sender: XorName, rpc: Rpc },
    /// Answer the data handlers of our own section.
    RespondToOurDataHandlers { rpc: Rpc },
    /// Send a message to each of some peers.
    SendToPeers { targets: NameSet, rpc: Rpc },
    /// Send a message to the section that is closest to `target`.
    SendToSection { target: XorName, rpc: Rpc },
    /// Answer a client that is connected to this vault.
    RespondToClient { message_id: MessageId, response: Response },
}

/// What an action is, as a mathematical value.
pub enum ActionView {
    VoteFor(Seq<u8>),
    ForwardClientRequest(RpcView),
    ProxyClientRequest(RpcView),
    RespondToClientHandlers { sender: XorName, rpc: RpcView },
    RespondToOurDataHandlers { rpc: RpcView },
    SendToPeers { targets: Set<XorName>, rpc: RpcView },
    SendToSection { target: XorName, rpc: RpcView },
    RespondToClient { message_id: MessageId, response: ResponseView },
}

impl View for Action {
    type V = ActionView;

    open spec fn view(&self) -> ActionView {
        match *self {
            Action::VoteFor(action) => ActionView::VoteFor(action@),
            Action::ForwardClientRequest(rpc) => ActionView::ForwardClientRequest(rpc@),
            Action::ProxyClientRequest(rpc) => ActionView::ProxyClientRequest(rpc@),
            Action::RespondToClientHandlers { sender, rpc } => ActionView::RespondToClientHandlers {
                sender,
                rpc: rpc@,
            },
            Action::RespondToOurDataHandlers { rpc } => ActionView::RespondToOurDataHandlers {
                rpc: rpc@,
            },
            Action::SendToPeers { targets, rpc } => ActionView::SendToPeers {
                targets: targets@,
                rpc: rpc@,
            },
            Action::SendToSection { target, rpc } => ActionView::SendToSection { target, rpc: rpc@ },
            Action::RespondToClient { message_id, response } => ActionView::RespondToClient {
                message_id,
                response: response@,
            },
        }
    }
}

/// The view of an action that may be absent.
pub open spec fn action_view(action: Option<Action>) -> Option<ActionView> {
    match action {
        Some(a) => Some(a@),
        None => None,
    }
}

} // verus!
