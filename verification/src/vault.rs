//! The roles of a vault and the decisions of its event loop.
//!
//! The loop itself, the routing node, the client handler and the signature
//! accumulator live outside this library. What is decided here is what an event
//! or an action leads to: an [`Effect`] names the component that has to act and
//! what it is to be given.

use crate::data::{IDataRequest, IDataRequestView, MessageId, NodePublicId};
use crate::foreign::{is_prefix_of, prefix_of_name};
use crate::messaging::{
    Action, ActionView, ClientRequest, ConsensusAction, DstLocation, LoginPacketRequest, Prefix,
    ProofShare, Request, RequestView, Response, ResponseView, Rpc, RpcView, SectionProof,
    SrcLocation,
};
use crate::name::XorName;
use crate::utils::{requester_address, spec_requester_address};
use vstd::prelude::*;

verus! {

/// The file under a vault's root directory that says whether the vault was an
/// elder, and who it is.
pub const STATE_FILENAME: &'static str = "state";

/// How many leading bits of a node's name stand for its section when a request
/// that the node has sent on is taken as agreed by the section.
pub const NODE_PREFIX_BITS: usize = 32;

/// Whether to load what an earlier run left on disk, or to start afresh.
#[derive(Debug, Clone, Copy, PartialEq, Eq, Structural)]
pub enum Init {
    Load,
    New,
}

/// A command by which the operator controls a running vault.
#[derive(Debug, Clone, Copy, PartialEq, Eq, Structural)]
pub enum Command {
    /// Shut the vault down.
    Shutdown,
}

/// The role of a vault in its section, which decides what components it has: an
/// infant has none; an adult has a data handler and a signature accumulator; an
/// elder has a client handler as well.
#[derive(Debug, Clone, Copy, PartialEq, Eq, Structural)]
pub enum State {
    Infant,
    Adult,
    Elder,
}

impl State {
    /// Whether a vault in this role has a client handler.
    pub open spec fn spec_has_client_handler(self) -> bool {
        self is Elder
    }

    /// Whether a vault in this role has a client handler.
    #[verifier::when_used_as_spec(spec_has_client_handler)]
    pub fn has_client_handler(self) -> (r: bool)
        ensures
            r == self.spec_has_client_handler(),
    {
        match self {
            State::Elder => true,
            _ => false,
        }
    }

    /// Whether a vault in this role has a data handler.
    pub open spec fn spec_has_data_handler(self) -> bool {
        self is Adult || self is Elder
    }

    /// Whether a vault in this role has a data handler.
    #[verifier::when_used_as_spec(spec_has_data_handler)]
    pub fn has_data_handler(self) -> (r: bool)
        ensures
            r == self.spec_has_data_handler(),
    {
        match self {
            State::Infant => false,
            _ => true,
        }
    }

    /// Whether a vault in this role has a signature accumulator.
    pub open spec fn spec_has_accumulator(self) -> bool {
        self is Adult || self is Elder
    }

    /// Whether a vault in this role has a signature accumulator.
    #[verifier::when_used_as_spec(spec_has_accumulator)]
    pub fn has_accumulator(self) -> (r: bool)
        ensures
            r == self.spec_has_accumulator(),
    {
        match self {
            State::Infant => false,
            _ => true,
        }
    }
}

/// Why the signature accumulator has not given a proof.
#[derive(Debug, Clone, Copy, PartialEq, Eq, Structural)]
pub enum AccumulationError {
    /// More shares are needed.
    NotEnoughShares,
    /// The proof for this key was given out before.
    AlreadyAccumulated,
    /// The share does not fit its key set.
    InvalidShare,
    /// Any other failure.
    Other,
}

/// An event of the routing layer, as far as the vault looks at it. A payload
/// that could not be read is `None`.
#[derive(Debug, PartialEq, Eq)]
pub enum RoutingEvent {
    /// The elders have agreed on something.
    Consensus(Option<ConsensusAction>),
    /// The node has become an elder.
    Promoted,
    /// A message has arrived.
    MessageReceived { src: SrcLocation, dst: DstLocation, content: Option<Rpc> },
    /// A member has left the section.
    MemberLeft { name: XorName, age: u8 },
    /// A member has joined the section.
    MemberJoined,
    /// The section has accepted the node.
    Connected,
    /// Any other event.
    Other,
}

/// An event of the transport towards the clients, by kind.
#[derive(Debug, Clone, Copy, PartialEq, Eq, Structural)]
pub enum ClientEvent {
    ConnectedTo,
    ConnectionFailure,
    NewMessage,
    SentUserMessage,
    UnsentUserMessage,
    BootstrapFailure,
    BootstrappedTo,
    Finish,
}

/// What a client event asks of the client handler.
#[derive(Debug, Clone, Copy, PartialEq, Eq, Structural)]
pub enum ClientStep {
    /// Nothing is to be done.
    Nothing,
    /// A client has connected.
    NewConnection,
    /// The connection to a client has failed.
    ConnectionFailure,
    /// A client has sent a message; what the handler answers is handled next.
    ClientMessage,
}

/// What has to be done next, and by which component. Where the component
/// answers with an action, that action is handled next.
#[derive(Debug, PartialEq, Eq)]
pub enum Effect {
    /// The client handler is to act on what the elders have agreed on.
    ConsensusToClientHandler(ConsensusAction),
    /// The client handler is to handle a message that `sender` has sent.
    RpcToClientHandler { sender: XorName, rpc: Rpc },
    /// The client handler is to answer a client that is connected to this vault.
    RespondToClient { message_id: MessageId, response: Response },
    /// The data handler is to handle a message from `src`, with the proof that
    /// comes with it.
    RpcToDataHandler { src: SrcLocation, rpc: Rpc, proof: Option<SectionProof> },
    /// The share of a message from `src` is to be given to the signature
    /// accumulator; what the accumulator answers decides how to go on.
    Accumulate { src: SrcLocation, rpc: Rpc },
    /// A message is to be sent from this node to the data handlers of our section.
    RespondToDataHandlers { rpc: Rpc },
    /// A message is to be sent from our section to the section of `target`.
    SendToSection { target: XorName, rpc: Rpc },
    /// A message is to be sent from this node to the node `target`.
    SendToPeer { target: XorName, rpc: Rpc },
    /// A message has arrived that a vault has no way to handle.
    Unsupported,
}

/// An effect as a mathematical value.
pub enum EffectView {
    ConsensusToClientHandler(Seq<u8>),
    RpcToClientHandler { sender: XorName, rpc: RpcView },
    RespondToClient { message_id: MessageId, response: ResponseView },
    RpcToDataHandler { src: SrcLocation, rpc: RpcView, proof: Option<SectionProof> },
    Accumulate { src: SrcLocation, rpc: RpcView },
    RespondToDataHandlers { rpc: RpcView },
    SendToSection { target: XorName, rpc: RpcView },
    SendToPeer { target: XorName, rpc: RpcView },
    Unsupported,
}

impl View for Effect {
    type V = EffectView;

    open spec fn view(&self) -> EffectView {
        match *self {
            Effect::ConsensusToClientHandler(action) => EffectView::ConsensusToClientHandler(
                action@,
            ),
            Effect::RpcToClientHandler { sender, rpc } => EffectView::RpcToClientHandler {
                sender,
                rpc: rpc@,
            },
            Effect::RespondToClient { message_id, response } => EffectView::RespondToClient {
                message_id,
                response: response@,
            },
            Effect::RpcToDataHandler { src, rpc, proof } => EffectView::RpcToDataHandler {
                src,
                rpc: rpc@,
                proof,
            },
            Effect::Accumulate { src, rpc } => EffectView::Accumulate { src, rpc: rpc@ },
            Effect::RespondToDataHandlers { rpc } => EffectView::RespondToDataHandlers { rpc: rpc@ },
            Effect::SendToSection { target, rpc } => EffectView::SendToSection { target, rpc: rpc@ },
            Effect::SendToPeer { target, rpc } => EffectView::SendToPeer { target, rpc: rpc@ },
            Effect::Unsupported => EffectView::Unsupported,
        }
    }
}

/// The view of an effect that may be absent.
pub open spec fn effect_view(effect: Option<Effect>) -> Option<EffectView> {
    match effect {
        Some(e) => Some(e@),
        None => None,
    }
}

/// The views of the effects of a list.
pub open spec fn effects_view(effects: Seq<Effect>) -> Seq<EffectView> {
    Seq::new(effects.len(), |i: int| effects[i]@)
}

/// What a routing event leads to.
#[derive(Debug, PartialEq, Eq)]
pub enum EventStep {
    /// Nothing is to be done.
    Nothing,
    /// One thing is to be done.
    Do(Effect),
    /// The components of an elder are to be built anew; then `promote_to_elder`
    /// is told whether that succeeded.
    BecomeElder,
    /// The components of an adult are to be built anew; then `promote_to_adult`
    /// is told whether that succeeded.
    BecomeAdult,
    /// The data handler is to take the member that has left out of the metadata,
    /// and to fetch the chunks that it held for a further copy; each action that
    /// follows is handled once.
    Duplicate { name: XorName },
    /// The elders and the adults of the section are to be counted.
    CountMembers,
}

/// What a routing event leads to, as a mathematical value.
pub enum EventStepView {
    Nothing,
    Do(EffectView),
    BecomeElder,
    BecomeAdult,
    Duplicate { name: XorName },
    CountMembers,
}

impl View for EventStep {
    type V = EventStepView;

    open spec fn view(&self) -> EventStepView {
        match *self {
            EventStep::Nothing => EventStepView::Nothing,
            EventStep::Do(effect) => EventStepView::Do(effect@),
            EventStep::BecomeElder => EventStepView::BecomeElder,
            EventStep::BecomeAdult => EventStepView::BecomeAdult,
            EventStep::Duplicate { name } => EventStepView::Duplicate { name },
            EventStep::CountMembers => EventStepView::CountMembers,
        }
    }
}

/// A message as it is handed to the routing layer: from where, to where, what.
#[derive(Debug, PartialEq, Eq)]
pub struct Outbound {
    pub src: SrcLocation,
    pub dst: DstLocation,
    pub rpc: Rpc,
}

/// Which of the sources of the event loop is ready.
#[derive(Debug, Clone, Copy, PartialEq, Eq, Structural)]
pub enum Selected {
    /// An event of the transport towards the clients.
    ClientEvent,
    /// An event of the routing layer.
    RoutingEvent,
    /// A command of the operator.
    Command,
    /// Work of the routing layer itself.
    RoutingOperation,
}

/// Which source is ready, given the index that the selector has handed out and
/// the indices under which the three channels of the vault were registered.
pub open spec fn spec_selected(
    index: usize,
    routing_event_rx_idx: usize,
    client_network_rx_idx: usize,
    command_rx_idx: usize,
) -> Selected {
    if index == client_network_rx_idx {
        Selected::ClientEvent
    } else if index == routing_event_rx_idx {
        Selected::RoutingEvent
    } else if index == command_rx_idx {
        Selected::Command
    } else {
        Selected::RoutingOperation
    }
}

/// Which source is ready, given the index that the selector has handed out and
/// the indices under which the three channels of the vault were registered.
pub fn selected(
    index: usize,
    routing_event_rx_idx: usize,
    client_network_rx_idx: usize,
    command_rx_idx: usize,
) -> (r: Selected)
    ensures
        r == spec_selected(index, routing_event_rx_idx, client_network_rx_idx, command_rx_idx),
{
    if index == client_network_rx_idx {
        Selected::ClientEvent
    } else if index == routing_event_rx_idx {
        Selected::RoutingEvent
    } else if index == command_rx_idx {
        Selected::Command
    } else {
        Selected::RoutingOperation
    }
}

/// Whether the blocking loop goes on after a command: a shutdown ends it.
pub fn run_goes_on(command: Command) -> (r: bool)
    ensures
        r == !(command is Shutdown),
{
    match command {
        Command::Shutdown => false,
    }
}

/// One round of the loop that does not block. Gives whether an event was
/// processed in this round and whether the loop goes on: an event or a command
/// counts as processed; work of the routing layer does not, and ends the loop
/// where it fails.
pub fn poll_step(source: Selected, routing_operation_failed: bool) -> (r: (bool, bool))
    ensures
        r.0 == !(source is RoutingOperation),
        r.1 == !(source is RoutingOperation && routing_operation_failed),
{
    match source {
        Selected::RoutingOperation => (false, !routing_operation_failed),
        _ => (true, true),
    }
}

/// Whether this vault handles what is addressed to a name, given what the
/// routing layer says of the name and our prefix. No answer counts as no.
pub fn self_is_handler_for(matches_our_prefix: Option<bool>) -> (r: bool)
    ensures
        r == (matches_our_prefix == Some(true)),
{
    match matches_our_prefix {
        Some(matches) => matches,
        None => false,
    }
}

/// The address of who has made a request: for a login packet that is created
/// for somebody else, the new owner; else the requester.
pub open spec fn forward_requester_name(rpc: RpcView) -> Option<XorName> {
    match rpc {
        RpcView::Request {
            request: RequestView::LoginPacket(LoginPacketRequest::CreateFor { new_owner, .. }),
            ..
        } => Some(new_owner),
        _ => spec_requester_address(rpc),
    }
}

/// The address that a client's request is for: the request's own destination;
/// for a change of the authorised keys, this vault.
pub open spec fn forward_dst_address(rpc: RpcView, our_name: XorName) -> Option<XorName> {
    match rpc {
        RpcView::Request { request, .. } => match request.dest_address() {
            Some(address) => Some(address),
            None => match request {
                RequestView::Client(ClientRequest::InsAuthKey) => Some(our_name),
                RequestView::Client(ClientRequest::DelAuthKey) => Some(our_name),
                _ => None,
            },
        },
        _ => None,
    }
}

/// The address that a request made for another client is for: the new owner of
/// the login packet.
pub open spec fn proxy_dst_address(rpc: RpcView) -> Option<XorName> {
    match rpc {
        RpcView::Request {
            request: RequestView::LoginPacket(LoginPacketRequest::CreateFor { new_owner, .. }),
            ..
        } => Some(new_owner),
        _ => None,
    }
}

/// The address of which the routing layer has to say whether it matches our
/// prefix, before the action can be handled.
pub open spec fn spec_handler_address(action: ActionView, our_name: XorName) -> Option<XorName> {
    match action {
        ActionView::ForwardClientRequest(rpc) => forward_dst_address(rpc, our_name),
        ActionView::ProxyClientRequest(rpc) => proxy_dst_address(rpc),
        ActionView::RespondToClientHandlers { rpc, .. } => spec_requester_address(rpc),
        _ => None,
    }
}

/// What passing a client's request on leads to. Requests for login packets, for
/// coins and of a client to its own handlers go to the client handler; requests
/// for data go to the data handler if this vault handles their address, and to
/// the section of the address if not. A request without an address leads to
/// nothing.
pub open spec fn forward_effect(
    state: State,
    our_name: XorName,
    rpc: RpcView,
    self_is_handler: bool,
    routing_name: XorName,
) -> Option<EffectView> {
    if forward_dst_address(rpc, our_name) is None {
        None
    } else {
        match rpc {
            RpcView::Request { request, .. } => {
                if request is LoginPacket || request is Coins || request is Client {
                    if state.spec_has_client_handler() {
                        Some(
                            EffectView::RpcToClientHandler {
                                sender: forward_requester_name(rpc)->0,
                                rpc,
                            },
                        )
                    } else {
                        None
                    }
                } else if self_is_handler {
                    if state.spec_has_data_handler() {
                        Some(
                            EffectView::RpcToDataHandler {
                                src: SrcLocation::Node(routing_name),
                                rpc,
                                proof: None,
                            },
                        )
                    } else {
                        None
                    }
                } else {
                    Some(
                        EffectView::SendToSection {
                            target: forward_dst_address(rpc, our_name)->0,
                            rpc,
                        },
                    )
                }
            },
            _ => None,
        }
    }
}

/// What a request made for another client leads to: the client handler handles
/// it if this vault handles the address of the new owner.
pub open spec fn proxy_effect(state: State, rpc: RpcView, self_is_handler: bool) -> Option<
    EffectView,
> {
    if proxy_dst_address(rpc) is Some && self_is_handler && state.spec_has_client_handler() {
        Some(EffectView::RpcToClientHandler { sender: spec_requester_address(rpc)->0, rpc })
    } else {
        None
    }
}

/// What answering the client handlers of a requester leads to: the client
/// handler of this vault handles the answer if this vault handles the requester's
/// address; else the answer goes to the section of that address.
pub open spec fn respond_to_client_handlers_effect(
    state: State,
    sender: XorName,
    rpc: RpcView,
    self_is_handler: bool,
) -> Option<EffectView> {
    match spec_requester_address(rpc) {
        None => None,
        Some(client_name) => if self_is_handler {
            if state.spec_has_client_handler() {
                Some(EffectView::RpcToClientHandler { sender, rpc })
            } else {
                None
            }
        } else {
            Some(EffectView::SendToSection { target: client_name, rpc })
        },
    }
}

/// What sending a message to one peer leads to: a message to ourselves is
/// accumulated here, any other is sent to the peer.
pub open spec fn peer_effect(our_name: XorName, target: XorName, rpc: RpcView) -> EffectView {
    if target == our_name {
        EffectView::Accumulate { src: SrcLocation::Node(target), rpc }
    } else {
        EffectView::SendToPeer { target, rpc }
    }
}

/// What an action leads to. Sending to peers leads to one effect for each
/// target; every other action leads to one effect or to none.
pub open spec fn action_effects(
    state: State,
    our_name: XorName,
    action: ActionView,
    targets: Seq<XorName>,
    self_is_handler: bool,
    routing_name: XorName,
) -> Seq<EffectView> {
    match action {
        ActionView::VoteFor(consensus) => if state.spec_has_client_handler() {
            seq![EffectView::ConsensusToClientHandler(consensus)]
        } else {
            Seq::empty()
        },
        ActionView::ForwardClientRequest(rpc) => option_seq(
            forward_effect(state, our_name, rpc, self_is_handler, routing_name),
        ),
        ActionView::ProxyClientRequest(rpc) => option_seq(
            proxy_effect(state, rpc, self_is_handler),
        ),
        ActionView::RespondToOurDataHandlers { rpc } => seq![
            EffectView::RespondToDataHandlers { rpc },
        ],
        ActionView::RespondToClientHandlers { sender, rpc } => option_seq(
            respond_to_client_handlers_effect(state, sender, rpc, self_is_handler),
        ),
        ActionView::SendToPeers { rpc, .. } => Seq::new(
            targets.len(),
            |i: int| peer_effect(our_name, targets[i], rpc),
        ),
        ActionView::RespondToClient { message_id, response } => if state.spec_has_client_handler() {
            seq![EffectView::RespondToClient { message_id, response }]
        } else {
            Seq::empty()
        },
        ActionView::SendToSection { target, rpc } => seq![EffectView::SendToSection { target, rpc }],
    }
}

/// The list of what is there, if anything.
pub open spec fn option_seq(effect: Option<EffectView>) -> Seq<EffectView> {
    match effect {
        Some(e) => seq![e],
        None => Seq::empty(),
    }
}

/// The targets of an action that sends to peers, in their order; no targets for
/// any other action.
pub open spec fn action_targets(action: Action) -> Seq<XorName> {
    match action {
        Action::SendToPeers { targets, .. } => targets.seq(),
        _ => Seq::empty(),
    }
}

/// The key under which the shares for a message are accumulated, and the share
/// that the message carries: a request is accumulated under itself; the order to
/// copy a chunk under the request to fetch that chunk. Other messages are not
/// accumulated, nor is a message without a share, nor anything by an infant.
pub open spec fn spec_accumulation_input(state: State, rpc: RpcView) -> Option<
    (RequestView, MessageId, ProofShare),
> {
    if !state.spec_has_accumulator() {
        None
    } else {
        match rpc {
            RpcView::Request { request, message_id, proof: Some(share), .. } => Some(
                (request, message_id, share),
            ),
            RpcView::Duplicate { address, message_id, proof: Some(share), .. } => Some(
                (RequestView::IData(IDataRequestView::Get(address)), message_id, share),
            ),
            _ => None,
        }
    }
}

/// Whether `effect` is what follows the message `rpc` from `src` once the
/// signature accumulator has answered with `outcome`. With the proof of the
/// section, a message whose share was given to the accumulator goes to the data
/// handler, as a message of the section: of the section that `src` names, or of
/// the section that the leading bits of the sending node's name stand for. In
/// every other case nothing follows: without a proof, and for a message of which
/// there was nothing to give to the accumulator.
pub open spec fn accumulated_post(
    state: State,
    src: SrcLocation,
    rpc: RpcView,
    outcome: Result<SectionProof, AccumulationError>,
    effect: Option<EffectView>,
) -> bool {
    match outcome {
        Ok(section_proof) => if spec_accumulation_input(state, rpc) is Some
            && state.spec_has_data_handler() {
            match effect {
                Some(
                    EffectView::RpcToDataHandler {
                        src: SrcLocation::Section(prefix),
                        rpc: sent,
                        proof: given,
                    },
                ) => {
                    &&& sent == rpc
                    &&& given == Some(section_proof)
                    &&& match src {
                        SrcLocation::Node(name) => is_prefix_of(
                            prefix,
                            NODE_PREFIX_BITS as int,
                            name,
                        ),
                        SrcLocation::Section(section) => prefix == section,
                    }
                },
                _ => false,
            }
        } else {
            effect is None
        },
        Err(_) => effect is None,
    }
}

/// What a message from the routing layer leads to.
///
/// A request of a node is handled at once, with the proof that its single share
/// gives; without a share it is dropped. A request of a client or an application
/// for a chunk is accumulated; any other such request is not supported. An answer
/// about a chunk goes to the data handler; any other answer is not supported.
/// The order to copy a chunk is accumulated. The report of a copy goes to the
/// data handler. A message that could not be read is dropped.
pub open spec fn message_effect(state: State, src: SrcLocation, message: Option<RpcView>) -> Option<
    EffectView,
> {
    match message {
        None => None,
        Some(rpc) => match rpc {
            RpcView::Request { request, requester, proof: carried, .. } => if requester.spec_is_node() {
                match carried {
                    Some(share) => to_data_handler(
                        state,
                        src,
                        rpc,
                        Some(
                            SectionProof {
                                signature: share.signature_share,
                                public_key: share.public_key,
                            },
                        ),
                    ),
                    None => None,
                }
            } else if request is IData {
                Some(EffectView::Accumulate { src, rpc })
            } else {
                Some(EffectView::Unsupported)
            },
            RpcView::Response { response, .. } => if response is Other {
                Some(EffectView::Unsupported)
            } else {
                to_data_handler(state, src, rpc, None)
            },
            RpcView::Duplicate { .. } => Some(EffectView::Accumulate { src, rpc }),
            RpcView::DuplicationComplete { .. } => to_data_handler(state, src, rpc, None),
        },
    }
}

/// The effect that hands a message to the data handler, for a vault that has one.
pub open spec fn to_data_handler(
    state: State,
    src: SrcLocation,
    rpc: RpcView,
    proof: Option<SectionProof>,
) -> Option<EffectView> {
    if state.spec_has_data_handler() {
        Some(EffectView::RpcToDataHandler { src, rpc, proof })
    } else {
        None
    }
}

/// What a routing event leads to.
pub open spec fn event_step(state: State, event: RoutingEvent) -> EventStepView {
    match event {
        RoutingEvent::Consensus(Some(action)) => if state.spec_has_client_handler() {
            EventStepView::Do(EffectView::ConsensusToClientHandler(action@))
        } else {
            EventStepView::Nothing
        },
        RoutingEvent::Consensus(None) => EventStepView::Nothing,
        RoutingEvent::Promoted => EventStepView::BecomeElder,
        RoutingEvent::MessageReceived { src, content, .. } => match message_effect(
            state,
            src,
            match content {
                Some(rpc) => Some(rpc@),
                None => None,
            },
        ) {
            Some(effect) => EventStepView::Do(effect),
            None => EventStepView::Nothing,
        },
        RoutingEvent::MemberLeft { name, .. } => if state.spec_has_data_handler() {
            EventStepView::Duplicate { name }
        } else {
            EventStepView::Nothing
        },
        RoutingEvent::MemberJoined => EventStepView::CountMembers,
        RoutingEvent::Connected => EventStepView::BecomeAdult,
        RoutingEvent::Other => EventStepView::Nothing,
    }
}

/// The core of a vault: who it is, and its role.
#[derive(Debug, PartialEq, Eq)]
pub struct Vault {
    id: NodePublicId,
    state: State,
}

impl Vault {
    /// The identity of the vault.
    pub closed spec fn spec_id(&self) -> NodePublicId {
        self.id
    }

    /// The role of the vault.
    pub closed spec fn spec_state(&self) -> State {
        self.state
    }

    /// The identity of the vault.
    #[verifier::when_used_as_spec(spec_id)]
    pub fn id(&self) -> (r: NodePublicId)
        ensures
            r == self.spec_id(),
    {
        self.id
    }

    /// The role of the vault.
    #[verifier::when_used_as_spec(spec_state)]
    pub fn state(&self) -> (r: State)
        ensures
            r == self.spec_state(),
    {
        self.state
    }

    /// Starts a vault. `stored_is_elder` is what the state file says, if there is
    /// one: a vault that was an elder is an elder again, any other starts as an
    /// infant. With a state file the stores are loaded, without one they are made
    /// anew.
    pub fn new(id: NodePublicId, stored_is_elder: Option<bool>) -> (r: (Vault, Init))
        ensures
            r.0.spec_id() == id,
            r.0.spec_state() == (if stored_is_elder == Some(true) {
                State::Elder
            } else {
                State::Infant
            }),
            r.1 == (if stored_is_elder is Some {
                Init::Load
            } else {
                Init::New
            }),
    {
        let (is_elder, init_mode) = match stored_is_elder {
            Some(is_elder) => (is_elder, Init::Load),
            None => (false, Init::New),
        };
        let state = if is_elder {
            State::Elder
        } else {
            State::Infant
        };
        (Vault { id, state }, init_mode)
    }

    /// What the state file is to say of this vault: whether it is an elder.
    pub fn dump_state(&self) -> (r: bool)
        ensures
            r == (self.spec_state() is Elder),
    {
        match self.state {
            State::Elder => true,
            _ => false,
        }
    }

    /// Makes the vault an adult, given whether its components could be built.
    /// Where they could not, the vault keeps its role. Gives whether the role was
    /// taken.
    pub fn promote_to_adult(&mut self, components_built: bool) -> (r: bool)
        ensures
            r == components_built,
            final(self).spec_id() == old(self).spec_id(),
            final(self).spec_state() == (if components_built {
                State::Adult
            } else {
                old(self).spec_state()
            }),
    {
        if components_built {
            self.state = State::Adult;
        }
        components_built
    }

    /// Makes the vault an elder, given whether its components could be built.
    /// Where they could not, the vault keeps its role. Gives whether the role was
    /// taken.
    pub fn promote_to_elder(&mut self, components_built: bool) -> (r: bool)
        ensures
            r == components_built,
            final(self).spec_id() == old(self).spec_id(),
            final(self).spec_state() == (if components_built {
                State::Elder
            } else {
                old(self).spec_state()
            }),
    {
        if components_built {
            self.state = State::Elder;
        }
        components_built
    }

    /// Whether the vault has a client handler.
    pub fn client_handler(&self) -> (r: bool)
        ensures
            r == self.spec_state().spec_has_client_handler(),
    {
        self.state.has_client_handler()
    }

    /// Whether the vault has a data handler.
    pub fn data_handler(&self) -> (r: bool)
        ensures
            r == self.spec_state().spec_has_data_handler(),
    {
        self.state.has_data_handler()
    }

    /// Whether the vault has a signature accumulator.
    pub fn accumulator(&self) -> (r: bool)
        ensures
            r == self.spec_state().spec_has_accumulator(),
    {
        self.state.has_accumulator()
    }

    /// Decides what a routing event leads to.
    pub fn handle_routing_event(&self, event: RoutingEvent) -> (r: EventStep)
        ensures
            r@ == event_step(self.spec_state(), event),
    {
        match event {
            RoutingEvent::Consensus(Some(action)) => {
                if self.state.has_client_handler() {
                    EventStep::Do(Effect::ConsensusToClientHandler(action))
                } else {
                    EventStep::Nothing
                }
            },
            RoutingEvent::Consensus(None) => EventStep::Nothing,
            RoutingEvent::Promoted => EventStep::BecomeElder,
            RoutingEvent::MessageReceived { content, src, dst } => {
                match self.handle_routing_message(src, content) {
                    Some(effect) => EventStep::Do(effect),
                    None => EventStep::Nothing,
                }
            },
            RoutingEvent::MemberLeft { name, age } => {
                if self.state.has_data_handler() {
                    EventStep::Duplicate { name }
                } else {
                    EventStep::Nothing
                }
            },
            RoutingEvent::MemberJoined => EventStep::CountMembers,
            RoutingEvent::Connected => EventStep::BecomeAdult,
            RoutingEvent::Other => EventStep::Nothing,
        }
    }

    /// The key under which the shares for `rpc` are accumulated, and the share
    /// that `rpc` carries; `None` where there is nothing to give to the
    /// accumulator.
    pub fn accumulation_input(&self, rpc: &Rpc) -> (r: Option<(Request, MessageId, ProofShare)>)
        ensures
            match r {
                Some((request, message_id, share)) => spec_accumulation_input(
                    self.spec_state(),
                    rpc@,
                ) == Some((request@, message_id, share)),
                None => spec_accumulation_input(self.spec_state(), rpc@) is None,
            },
    {
        if !self.state.has_accumulator() {
            return None;
        }
        match rpc {
            Rpc::Request { request, message_id, proof: carried, .. } => match carried {
                Some(share) => Some((request.duplicate(), *message_id, *share)),
                None => None,
            },
            Rpc::Duplicate { address, message_id, proof: carried, .. } => match carried {
                Some(share) => Some(
                    (Request::IData(IDataRequest::Get(*address)), *message_id, *share),
                ),
                None => None,
            },
            _ => None,
        }
    }

    /// Decides how to go on with the message `rpc` from `src` once the signature
    /// accumulator has answered. With the proof of the section, the message goes
    /// to the data handler as a message of the section: of the section that `src`
    /// names, or of the section that the first 32 bits of the sending node's name
    /// stand for. Without a proof, or for a message of which `accumulation_input`
    /// gives nothing to accumulate, nothing follows.
    pub fn accumulate_rpc(
        &self,
        src: SrcLocation,
        rpc: Rpc,
        outcome: Result<SectionProof, AccumulationError>,
    ) -> (r: Option<Effect>)
        ensures
            accumulated_post(self.spec_state(), src, rpc@, outcome, effect_view(r)),
    {
        let carries_share = match &rpc {
            Rpc::Request { proof: carried, .. } => carried.is_some(),
            Rpc::Duplicate { proof: carried, .. } => carried.is_some(),
            _ => false,
        };
        if !carries_share || !self.state.has_accumulator() {
            return None;
        }
        match outcome {
            Ok(proof) => {
                let prefix = match src {
                    SrcLocation::Node(name) => prefix_of_name(NODE_PREFIX_BITS, &name),
                    SrcLocation::Section(prefix) => prefix,
                };
                if self.state.has_data_handler() {
                    Some(
                        Effect::RpcToDataHandler {
                            src: SrcLocation::Section(prefix),
                            rpc,
                            proof: Some(proof),
                        },
                    )
                } else {
                    None
                }
            },
            Err(_) => None,
        }
    }

    /// Decides what a message from the routing layer leads to. `message` is the
    /// message as read from its bytes, or `None` where it could not be read.
    pub fn handle_routing_message(&self, src: SrcLocation, message: Option<Rpc>) -> (r: Option<
        Effect,
    >)
        ensures
            effect_view(r) == message_effect(
                self.spec_state(),
                src,
                match message {
                    Some(rpc) => Some(rpc@),
                    None => None,
                },
            ),
    {
        let rpc = match message {
            Some(rpc) => rpc,
            None => {
                return None;
            },
        };
        match rpc {
            Rpc::Request { request, requester, message_id, proof: carried } => {
                if requester.is_node() {
                    match carried {
                        Some(share) => {
                            if self.state.has_data_handler() {
                                Some(
                                    Effect::RpcToDataHandler {
                                        src,
                                        rpc: Rpc::Request {
                                            request,
                                            requester,
                                            message_id,
                                            proof: carried,
                                        },
                                        proof: Some(
                                            SectionProof {
                                                signature: share.signature_share,
                                                public_key: share.public_key,
                                            },
                                        ),
                                    },
                                )
                            } else {
                                None
                            }
                        },
                        None => None,
                    }
                } else {
                    match request {
                        Request::IData(_) => Some(
                            Effect::Accumulate {
                                src,
                                rpc: Rpc::Request { request, requester, message_id, proof: carried },
                            },
                        ),
                        _ => Some(Effect::Unsupported),
                    }
                }
            },
            Rpc::Response { requester, response, message_id, refund } => match response {
                Response::Other => Some(Effect::Unsupported),
                _ => {
                    if self.state.has_data_handler() {
                        Some(
                            Effect::RpcToDataHandler {
                                src,
                                rpc: Rpc::Response { requester, response, message_id, refund },
                                proof: None,
                            },
                        )
                    } else {
                        None
                    }
                },
            },
            Rpc::Duplicate { address, holders, message_id, proof } => Some(
                Effect::Accumulate { src, rpc: Rpc::Duplicate { address, holders, message_id, proof } },
            ),
            Rpc::DuplicationComplete { address, response, message_id } => {
                if self.state.has_data_handler() {
                    Some(
                        Effect::RpcToDataHandler {
                            src,
                            rpc: Rpc::DuplicationComplete { address, response, message_id },
                            proof: None,
                        },
                    )
                } else {
                    None
                }
            },
        }
    }

    /// Decides what an event of the transport towards the clients asks of the
    /// client handler. A vault without a client handler does nothing.
    pub fn handle_client_event(&self, event: ClientEvent) -> (r: ClientStep)
        ensures
            r == if !self.spec_state().spec_has_client_handler() {
                ClientStep::Nothing
            } else {
                match event {
                    ClientEvent::ConnectedTo => ClientStep::NewConnection,
                    ClientEvent::ConnectionFailure => ClientStep::ConnectionFailure,
                    ClientEvent::NewMessage => ClientStep::ClientMessage,
                    _ => ClientStep::Nothing,
                }
            },
    {
        if !self.state.has_client_handler() {
            return ClientStep::Nothing;
        }
        match event {
            ClientEvent::ConnectedTo => ClientStep::NewConnection,
            ClientEvent::ConnectionFailure => ClientStep::ConnectionFailure,
            ClientEvent::NewMessage => ClientStep::ClientMessage,
            ClientEvent::SentUserMessage => ClientStep::Nothing,
            ClientEvent::UnsentUserMessage => ClientStep::Nothing,
            ClientEvent::BootstrapFailure => ClientStep::Nothing,
            ClientEvent::BootstrappedTo => ClientStep::Nothing,
            ClientEvent::Finish => ClientStep::Nothing,
        }
    }

    /// The address of which the routing layer has to say whether it matches our
    /// prefix, before `action` can be handled; `None` where the action is handled
    /// without.
    pub fn handler_address(&self, action: &Action) -> (r: Option<XorName>)
        ensures
            r == spec_handler_address(action@, self.spec_id().name),
    {
        match action {
            Action::ForwardClientRequest(rpc) => self.forward_dst_address(rpc),
            Action::ProxyClientRequest(rpc) => Vault::proxy_dst_address(rpc),
            Action::RespondToClientHandlers { rpc, .. } => requester_address(rpc),
            _ => None,
        }
    }

    /// The address that the client's request `rpc` is for.
    fn forward_dst_address(&self, rpc: &Rpc) -> (r: Option<XorName>)
        ensures
            r == forward_dst_address(rpc@, self.spec_id().name),
    {
        match rpc {
            Rpc::Request { request, .. } => match request.dest_address() {
                Some(address) => Some(address),
                None => match request {
                    Request::Client(ClientRequest::InsAuthKey) => Some(self.id.name),
                    Request::Client(ClientRequest::DelAuthKey) => Some(self.id.name),
                    _ => None,
                },
            },
            _ => None,
        }
    }

    /// The address that the request `rpc`, made for another client, is for.
    fn proxy_dst_address(rpc: &Rpc) -> (r: Option<XorName>)
        ensures
            r == proxy_dst_address(rpc@),
    {
        match rpc {
            Rpc::Request {
                request: Request::LoginPacket(LoginPacketRequest::CreateFor { new_owner, .. }),
                ..
            } => Some(*new_owner),
            _ => None,
        }
    }

    /// Decides what an action leads to. `self_is_handler` says whether this vault
    /// handles the address that `handler_address` gives for the action, and
    /// `routing_name` is the name of this node in the routing layer. The effects
    /// are to be brought about in their order. Sending to peers leads to one
    /// effect for each target; every other action leads to one effect or to none.
    pub fn handle_action(&self, action: Action, self_is_handler: bool, routing_name: XorName) -> (r:
        Vec<Effect>)
        requires
            action matches Action::SendToPeers { targets, .. } ==> targets.wf(),
        ensures
            effects_view(r@) == action_effects(
                self.spec_state(),
                self.spec_id().name,
                action@,
                action_targets(action),
                self_is_handler,
                routing_name,
            ),
    {
        let mut out: Vec<Effect> = Vec::new();
        match action {
            Action::VoteFor(consensus) => {
                if self.state.has_client_handler() {
                    out.push(Effect::ConsensusToClientHandler(consensus));
                }
            },
            Action::ForwardClientRequest(rpc) => {
                if let Some(effect) = self.forward_client_request(rpc, self_is_handler, routing_name) {
                    out.push(effect);
                }
            },
            Action::ProxyClientRequest(rpc) => {
                if let Some(effect) = self.proxy_client_request(rpc, self_is_handler) {
                    out.push(effect);
                }
            },
            Action::RespondToOurDataHandlers { rpc } => {
                out.push(Effect::RespondToDataHandlers { rpc });
            },
            Action::RespondToClientHandlers { sender, rpc } => {
                match requester_address(&rpc) {
                    None => {},
                    Some(client_name) => {
                        if self_is_handler {
                            if self.state.has_client_handler() {
                                out.push(Effect::RpcToClientHandler { sender, rpc });
                            }
                        } else {
                            out.push(Effect::SendToSection { target: client_name, rpc });
                        }
                    },
                }
            },
            Action::SendToPeers { targets, rpc } => {
                let count = targets.len();
                let mut i: usize = 0;
                while i < count
                    invariant
                        i <= count,
                        count == targets.seq().len(),
                        out@.len() == i,
                        effects_view(out@) == Seq::new(
                            i as nat,
                            |k: int| peer_effect(self.spec_id().name, targets.seq()[k], rpc@),
                        ),
                    decreases count - i,
                {
                    let ghost before = out@;
                    let target = targets.get(i);
                    if target.same(&self.id.name) {
                        out.push(
                            Effect::Accumulate {
                                src: SrcLocation::Node(target),
                                rpc: rpc.duplicate(),
                            },
                        );
                    } else {
                        out.push(Effect::SendToPeer { target, rpc: rpc.duplicate() });
                    }
                    proof {
                        let wanted = Seq::new(
                            (i + 1) as nat,
                            |k: int| peer_effect(self.spec_id().name, targets.seq()[k], rpc@),
                        );
                        assert forall|k: int| 0 <= k < i + 1 implies effects_view(out@)[k]
                            == wanted[k] by {
                            if k < i {
                                assert(out@[k] == before[k]);
                                assert(effects_view(before)[k] == before[k]@);
                            }
                        }
                        assert(effects_view(out@) =~= wanted);
                    }
                    i = i + 1;
                }
            },
            Action::RespondToClient { message_id, response } => {
                if self.state.has_client_handler() {
                    out.push(Effect::RespondToClient { message_id, response });
                }
            },
            Action::SendToSection { target, rpc } => {
                out.push(Effect::SendToSection { target, rpc });
            },
        }
        assert(effects_view(out@) =~= action_effects(
            self.spec_state(),
            self.spec_id().name,
            action@,
            action_targets(action),
            self_is_handler,
            routing_name,
        ));
        out
    }

    /// The message by which an answer goes to the data handlers of our section:
    /// from this node, whose name in the routing layer is `name`, to the section
    /// of that name.
    pub fn respond_to_data_handlers(&self, name: XorName, rpc: Rpc) -> (r: Outbound)
        ensures
            r.src == SrcLocation::Node(name),
            r.dst == DstLocation::Section(name),
            r.rpc@ == rpc@,
    {
        Outbound { src: SrcLocation::Node(name), dst: DstLocation::Section(name), rpc }
    }

    /// The message by which `rpc` goes to the section of `target`: from our
    /// section, whose prefix is `sender_prefix`.
    pub fn send_message_to_section(&self, sender_prefix: Prefix, target: XorName, rpc: Rpc) -> (r:
        Outbound)
        ensures
            r.src == SrcLocation::Section(sender_prefix),
            r.dst == DstLocation::Section(target),
            r.rpc@ == rpc@,
    {
        Outbound { src: SrcLocation::Section(sender_prefix), dst: DstLocation::Section(target), rpc }
    }

    /// The message by which `rpc` goes to the node `target`: from this node,
    /// whose name in the routing layer is `name`.
    pub fn send_message_to_peer(&self, name: XorName, target: XorName, rpc: Rpc) -> (r: Outbound)
        ensures
            r.src == SrcLocation::Node(name),
            r.dst == DstLocation::Node(target),
            r.rpc@ == rpc@,
    {
        Outbound { src: SrcLocation::Node(name), dst: DstLocation::Node(target), rpc }
    }

    /// Decides what passing the client's request `rpc` on leads to.
    /// `self_is_handler` says whether this vault handles the address that the
    /// request is for.
    pub fn forward_client_request(&self, rpc: Rpc, self_is_handler: bool, routing_name: XorName) -> (r:
        Option<Effect>)
        ensures
            effect_view(r) == forward_effect(
                self.spec_state(),
                self.spec_id().name,
                rpc@,
                self_is_handler,
                routing_name,
            ),
    {
        let requester_name = match &rpc {
            Rpc::Request {
                request: Request::LoginPacket(LoginPacketRequest::CreateFor { new_owner, .. }),
                ..
            } => Some(*new_owner),
            _ => requester_address(&rpc),
        };
        let dst_address = match self.forward_dst_address(&rpc) {
            Some(address) => address,
            None => {
                return None;
            },
        };
        let to_client_handler = match &rpc {
            Rpc::Request { request, .. } => match request {
                Request::LoginPacket(_) => true,
                Request::Coins { .. } => true,
                Request::Client(_) => true,
                _ => false,
            },
            _ => false,
        };
        if to_client_handler {
            match requester_name {
                Some(sender) => {
                    if self.state.has_client_handler() {
                        Some(Effect::RpcToClientHandler { sender, rpc })
                    } else {
                        None
                    }
                },
                None => None,
            }
        } else if self_is_handler {
            if self.state.has_data_handler() {
                Some(
                    Effect::RpcToDataHandler { src: SrcLocation::Node(routing_name), rpc, proof: None },
                )
            } else {
                None
            }
        } else {
            Some(Effect::SendToSection { target: dst_address, rpc })
        }
    }

    /// Decides what the request `rpc`, made for another client, leads to.
    /// `self_is_handler` says whether this vault handles the address of the new
    /// owner.
    pub fn proxy_client_request(&self, rpc: Rpc, self_is_handler: bool) -> (r: Option<Effect>)
        ensures
            effect_view(r) == proxy_effect(self.spec_state(), rpc@, self_is_handler),
    {
        let requester_name = requester_address(&rpc);
        if Vault::proxy_dst_address(&rpc).is_none() {
            return None;
        }
        if self_is_handler && self.state.has_client_handler() {
            match requester_name {
                Some(sender) => Some(Effect::RpcToClientHandler { sender, rpc }),
                None => None,
            }
        } else {
            None
        }
    }
}

} // verus!
