use safe_vault::data::{
    ClientPublicId, IData, IDataAddress, IDataRequest, MessageId, NdError, NodePublicId,
    PublicId, PublicKey,
};
use safe_vault::messaging::{
    Action, ClientRequest, ConsensusAction, DstLocation, LoginPacketRequest, Prefix, ProofShare,
    Request, Response, Rpc, SectionProof, Signature, SrcLocation,
};
use safe_vault::name::{NameSet, XorName};
use safe_vault::vault::{
    poll_step, run_goes_on, selected, self_is_handler_for, AccumulationError, ClientEvent,
    ClientStep, Command, Effect, EventStep, Init, Outbound, RoutingEvent, Selected, State, Vault,
};

fn name(byte: u8) -> XorName {
    XorName([byte; 32])
}

fn our_id() -> NodePublicId {
    NodePublicId { name: name(100), public_key: PublicKey::Ed25519([100; 32]) }
}

fn infant() -> Vault {
    Vault::new(our_id(), None).0
}

fn adult() -> Vault {
    let mut vault = infant();
    assert!(vault.promote_to_adult(true));
    vault
}

fn elder() -> Vault {
    Vault::new(our_id(), Some(true)).0
}

fn client(byte: u8) -> PublicId {
    PublicId::Client(ClientPublicId { name: name(byte), public_key: PublicKey::Bls([byte; 48]) })
}

fn node(byte: u8) -> PublicId {
    PublicId::Node(NodePublicId { name: name(byte), public_key: PublicKey::Ed25519([byte; 32]) })
}

fn share() -> ProofShare {
    ProofShare {
        signature_share: Signature([3; 96]),
        share_index: 2,
        public_key: PublicKey::Bls([4; 48]),
    }
}

fn section_proof() -> SectionProof {
    SectionProof { signature: Signature([5; 96]), public_key: PublicKey::Bls([6; 48]) }
}

fn get_request(requester: PublicId, proof: Option<ProofShare>) -> Rpc {
    Rpc::Request {
        request: Request::IData(IDataRequest::Get(IDataAddress::Pub(name(7)))),
        requester,
        message_id: MessageId(1),
        proof,
    }
}

fn request(request: Request, requester: PublicId) -> Rpc {
    Rpc::Request { request, requester, message_id: MessageId(1), proof: None }
}

fn mutation_response() -> Rpc {
    Rpc::Response {
        requester: client(50),
        response: Response::Mutation(Err(NdError::NoSuchData)),
        message_id: MessageId(1),
        refund: None,
    }
}

fn duplicate_order(proof: Option<ProofShare>) -> Rpc {
    Rpc::Duplicate {
        address: IDataAddress::Unpub(name(7)),
        holders: NameSet::from_list(&vec![name(1)]),
        message_id: MessageId(9),
        proof,
    }
}

#[test]
fn a_vault_starts_as_the_state_file_says() {
    let (vault, init) = Vault::new(our_id(), None);
    assert_eq!(vault.state(), State::Infant);
    assert_eq!(vault.id(), our_id());
    assert_eq!(init, Init::New);
    let (vault, init) = Vault::new(our_id(), Some(false));
    assert_eq!(vault.state(), State::Infant);
    assert_eq!(init, Init::Load);
    let (vault, init) = Vault::new(our_id(), Some(true));
    assert_eq!(vault.state(), State::Elder);
    assert_eq!(init, Init::Load);
    assert!(vault.dump_state());
    assert!(!infant().dump_state());
    assert!(!adult().dump_state());
}

#[test]
fn components_by_role() {
    assert!(!infant().client_handler() && !infant().data_handler() && !infant().accumulator());
    assert!(!adult().client_handler() && adult().data_handler() && adult().accumulator());
    assert!(elder().client_handler() && elder().data_handler() && elder().accumulator());
    assert!(State::Elder.has_client_handler());
    assert!(!State::Adult.has_client_handler());
    assert!(State::Adult.has_data_handler());
    assert!(!State::Infant.has_accumulator());
}

#[test]
fn a_role_is_taken_only_with_its_components() {
    let mut vault = infant();
    assert!(!vault.promote_to_adult(false));
    assert_eq!(vault.state(), State::Infant);
    assert!(vault.promote_to_adult(true));
    assert_eq!(vault.state(), State::Adult);
    assert!(!vault.promote_to_elder(false));
    assert_eq!(vault.state(), State::Adult);
    assert!(vault.promote_to_elder(true));
    assert_eq!(vault.state(), State::Elder);
    assert!(vault.promote_to_elder(true));
    assert_eq!(vault.state(), State::Elder);
    assert!(!vault.promote_to_elder(false));
    assert_eq!(vault.state(), State::Elder);
}

#[test]
fn routing_events_by_kind() {
    let consensus = ConsensusAction(vec![1, 2, 3]);
    assert_eq!(
        elder().handle_routing_event(RoutingEvent::Consensus(Some(ConsensusAction(vec![1, 2, 3])))),
        EventStep::Do(Effect::ConsensusToClientHandler(consensus))
    );
    assert_eq!(
        adult().handle_routing_event(RoutingEvent::Consensus(Some(ConsensusAction(vec![1])))),
        EventStep::Nothing
    );
    assert_eq!(elder().handle_routing_event(RoutingEvent::Consensus(None)), EventStep::Nothing);
    assert_eq!(infant().handle_routing_event(RoutingEvent::Promoted), EventStep::BecomeElder);
    assert_eq!(elder().handle_routing_event(RoutingEvent::Promoted), EventStep::BecomeElder);
    assert_eq!(infant().handle_routing_event(RoutingEvent::Connected), EventStep::BecomeAdult);
    assert_eq!(adult().handle_routing_event(RoutingEvent::MemberJoined), EventStep::CountMembers);
    assert_eq!(adult().handle_routing_event(RoutingEvent::Other), EventStep::Nothing);
    let left = RoutingEvent::MemberLeft { name: name(2), age: 5 };
    assert_eq!(adult().handle_routing_event(left), EventStep::Duplicate { name: name(2) });
    let left = RoutingEvent::MemberLeft { name: name(2), age: 5 };
    assert_eq!(infant().handle_routing_event(left), EventStep::Nothing);
    let message = RoutingEvent::MessageReceived {
        src: SrcLocation::Node(name(1)),
        dst: DstLocation::Node(name(100)),
        content: Some(mutation_response()),
    };
    assert_eq!(
        elder().handle_routing_event(message),
        EventStep::Do(Effect::RpcToDataHandler {
            src: SrcLocation::Node(name(1)),
            rpc: mutation_response(),
            proof: None,
        })
    );
    let unreadable = RoutingEvent::MessageReceived {
        src: SrcLocation::Node(name(1)),
        dst: DstLocation::Node(name(100)),
        content: None,
    };
    assert_eq!(elder().handle_routing_event(unreadable), EventStep::Nothing);
}

#[test]
fn a_request_of_a_node_needs_its_share() {
    let src = SrcLocation::Node(name(1));
    let signed = elder().handle_routing_message(src, Some(get_request(node(1), Some(share()))));
    assert_eq!(
        signed,
        Some(Effect::RpcToDataHandler {
            src,
            rpc: get_request(node(1), Some(share())),
            proof: Some(SectionProof {
                signature: Signature([3; 96]),
                public_key: PublicKey::Bls([4; 48]),
            }),
        })
    );
    assert_eq!(elder().handle_routing_message(src, Some(get_request(node(1), None))), None);
    assert_eq!(
        infant().handle_routing_message(src, Some(get_request(node(1), Some(share())))),
        None
    );
}

#[test]
fn a_request_of_a_client_is_accumulated() {
    let src = SrcLocation::Node(name(1));
    for vault in [infant(), adult(), elder()] {
        assert_eq!(
            vault.handle_routing_message(src, Some(get_request(client(50), Some(share())))),
            Some(Effect::Accumulate { src, rpc: get_request(client(50), Some(share())) })
        );
    }
    let coins = request(Request::Coins { dest: None }, client(50));
    assert_eq!(elder().handle_routing_message(src, Some(coins)), Some(Effect::Unsupported));
}

#[test]
fn answers_and_orders_to_copy() {
    let src = SrcLocation::Section(Prefix { bit_count: 0, name: name(0) });
    assert_eq!(
        adult().handle_routing_message(src, Some(mutation_response())),
        Some(Effect::RpcToDataHandler { src, rpc: mutation_response(), proof: None })
    );
    assert_eq!(infant().handle_routing_message(src, Some(mutation_response())), None);
    let other = Rpc::Response {
        requester: client(50),
        response: Response::Other,
        message_id: MessageId(1),
        refund: None,
    };
    assert_eq!(adult().handle_routing_message(src, Some(other)), Some(Effect::Unsupported));
    assert_eq!(
        adult().handle_routing_message(src, Some(duplicate_order(None))),
        Some(Effect::Accumulate { src, rpc: duplicate_order(None) })
    );
    let complete = Rpc::DuplicationComplete {
        address: IDataAddress::Unpub(name(7)),
        response: Response::Mutation(Ok(())),
        message_id: MessageId(9),
    };
    let again = Rpc::DuplicationComplete {
        address: IDataAddress::Unpub(name(7)),
        response: Response::Mutation(Ok(())),
        message_id: MessageId(9),
    };
    assert_eq!(
        adult().handle_routing_message(src, Some(complete)),
        Some(Effect::RpcToDataHandler { src, rpc: again, proof: None })
    );
    assert_eq!(adult().handle_routing_message(src, None), None);
}

#[test]
fn what_is_given_to_the_accumulator() {
    let rpc = get_request(client(50), Some(share()));
    assert_eq!(
        elder().accumulation_input(&rpc),
        Some((
            Request::IData(IDataRequest::Get(IDataAddress::Pub(name(7)))),
            MessageId(1),
            share()
        ))
    );
    assert_eq!(
        adult().accumulation_input(&duplicate_order(Some(share()))),
        Some((
            Request::IData(IDataRequest::Get(IDataAddress::Unpub(name(7)))),
            MessageId(9),
            share()
        ))
    );
    assert_eq!(infant().accumulation_input(&rpc), None);
    assert_eq!(elder().accumulation_input(&get_request(client(50), None)), None);
    assert_eq!(elder().accumulation_input(&duplicate_order(None)), None);
    assert_eq!(elder().accumulation_input(&mutation_response()), None);
}

#[test]
fn an_accumulated_message_comes_from_the_section() {
    let mut sender = [0u8; 32];
    for (i, byte) in sender.iter_mut().enumerate() {
        *byte = 0xA0 + i as u8;
    }
    let mut leading = [0u8; 32];
    leading[..4].copy_from_slice(&sender[..4]);
    let from_node = elder().accumulate_rpc(
        SrcLocation::Node(XorName(sender)),
        get_request(client(50), Some(share())),
        Ok(section_proof()),
    );
    assert_eq!(
        from_node,
        Some(Effect::RpcToDataHandler {
            src: SrcLocation::Section(Prefix { bit_count: 32, name: XorName(leading) }),
            rpc: get_request(client(50), Some(share())),
            proof: Some(section_proof()),
        })
    );
    let section = Prefix { bit_count: 3, name: name(0) };
    let from_section = adult().accumulate_rpc(
        SrcLocation::Section(section),
        duplicate_order(Some(share())),
        Ok(section_proof()),
    );
    assert_eq!(
        from_section,
        Some(Effect::RpcToDataHandler {
            src: SrcLocation::Section(section),
            rpc: duplicate_order(Some(share())),
            proof: Some(section_proof()),
        })
    );
}

#[test]
fn without_a_proof_nothing_follows() {
    let src = SrcLocation::Node(name(1));
    for error in [
        AccumulationError::NotEnoughShares,
        AccumulationError::AlreadyAccumulated,
        AccumulationError::InvalidShare,
        AccumulationError::Other,
    ] {
        let rpc = get_request(client(50), Some(share()));
        assert_eq!(elder().accumulate_rpc(src, rpc, Err(error)), None);
    }
    assert_eq!(elder().accumulate_rpc(src, mutation_response(), Ok(section_proof())), None);
    assert_eq!(
        elder().accumulate_rpc(src, get_request(client(50), None), Ok(section_proof())),
        None
    );
    assert_eq!(elder().accumulate_rpc(src, duplicate_order(None), Ok(section_proof())), None);
    let rpc = get_request(client(50), Some(share()));
    assert_eq!(infant().accumulate_rpc(src, rpc, Ok(section_proof())), None);
}

#[test]
fn client_events_by_kind() {
    assert_eq!(elder().handle_client_event(ClientEvent::ConnectedTo), ClientStep::NewConnection);
    assert_eq!(
        elder().handle_client_event(ClientEvent::ConnectionFailure),
        ClientStep::ConnectionFailure
    );
    assert_eq!(elder().handle_client_event(ClientEvent::NewMessage), ClientStep::ClientMessage);
    for event in [
        ClientEvent::SentUserMessage,
        ClientEvent::UnsentUserMessage,
        ClientEvent::BootstrapFailure,
        ClientEvent::BootstrappedTo,
        ClientEvent::Finish,
    ] {
        assert_eq!(elder().handle_client_event(event), ClientStep::Nothing);
    }
    assert_eq!(adult().handle_client_event(ClientEvent::NewMessage), ClientStep::Nothing);
    assert_eq!(infant().handle_client_event(ClientEvent::ConnectedTo), ClientStep::Nothing);
}

#[test]
fn sending_to_peers_accumulates_what_is_for_us() {
    let targets = NameSet::from_list(&vec![name(1), name(100), name(2)]);
    let action = Action::SendToPeers { targets, rpc: mutation_response() };
    assert_eq!(elder().handler_address(&action), None);
    assert_eq!(
        elder().handle_action(action, false, name(101)),
        vec![
            Effect::SendToPeer { target: name(1), rpc: mutation_response() },
            Effect::Accumulate { src: SrcLocation::Node(name(100)), rpc: mutation_response() },
            Effect::SendToPeer { target: name(2), rpc: mutation_response() },
        ]
    );
    let nobody = Action::SendToPeers { targets: NameSet::new(), rpc: mutation_response() };
    assert_eq!(elder().handle_action(nobody, false, name(101)), vec![]);
}

#[test]
fn answers_for_client_handlers_go_where_the_client_is() {
    let action = Action::RespondToClientHandlers { sender: name(7), rpc: mutation_response() };
    assert_eq!(elder().handler_address(&action), Some(name(50)));
    assert_eq!(
        elder().handle_action(action, true, name(101)),
        vec![Effect::RpcToClientHandler { sender: name(7), rpc: mutation_response() }]
    );
    let action = Action::RespondToClientHandlers { sender: name(7), rpc: mutation_response() };
    assert_eq!(adult().handle_action(action, true, name(101)), vec![]);
    let action = Action::RespondToClientHandlers { sender: name(7), rpc: mutation_response() };
    assert_eq!(
        adult().handle_action(action, false, name(101)),
        vec![Effect::SendToSection { target: name(50), rpc: mutation_response() }]
    );
    let action = Action::RespondToClientHandlers { sender: name(7), rpc: duplicate_order(None) };
    assert_eq!(elder().handler_address(&action), None);
    assert_eq!(elder().handle_action(action, true, name(101)), vec![]);
}

#[test]
fn the_other_actions() {
    let vote = Action::VoteFor(ConsensusAction(vec![9]));
    assert_eq!(
        elder().handle_action(vote, false, name(101)),
        vec![Effect::ConsensusToClientHandler(ConsensusAction(vec![9]))]
    );
    assert_eq!(adult().handle_action(Action::VoteFor(ConsensusAction(vec![9])), false, name(101)), vec![]);
    let ours = Action::RespondToOurDataHandlers { rpc: mutation_response() };
    assert_eq!(
        infant().handle_action(ours, false, name(101)),
        vec![Effect::RespondToDataHandlers { rpc: mutation_response() }]
    );
    let section = Action::SendToSection { target: name(8), rpc: mutation_response() };
    assert_eq!(
        infant().handle_action(section, false, name(101)),
        vec![Effect::SendToSection { target: name(8), rpc: mutation_response() }]
    );
    let respond = Action::RespondToClient {
        message_id: MessageId(3),
        response: Response::Mutation(Ok(())),
    };
    assert_eq!(
        elder().handle_action(respond, false, name(101)),
        vec![Effect::RespondToClient {
            message_id: MessageId(3),
            response: Response::Mutation(Ok(())),
        }]
    );
    let respond = Action::RespondToClient {
        message_id: MessageId(3),
        response: Response::Mutation(Ok(())),
    };
    assert_eq!(adult().handle_action(respond, false, name(101)), vec![]);
}

#[test]
fn a_data_request_is_forwarded_to_its_handlers() {
    let chunk = IData { address: IDataAddress::Pub(name(7)), owner: None, value: vec![1] };
    let put = || request(Request::IData(IDataRequest::Put(chunk.duplicate())), client(50));
    assert_eq!(elder().handler_address(&Action::ForwardClientRequest(put())), Some(name(7)));
    assert_eq!(
        elder().forward_client_request(put(), true, name(101)),
        Some(Effect::RpcToDataHandler { src: SrcLocation::Node(name(101)), rpc: put(), proof: None })
    );
    assert_eq!(
        elder().forward_client_request(put(), false, name(101)),
        Some(Effect::SendToSection { target: name(7), rpc: put() })
    );
    assert_eq!(infant().forward_client_request(put(), true, name(101)), None);
    assert_eq!(
        elder().handle_action(Action::ForwardClientRequest(put()), false, name(101)),
        vec![Effect::SendToSection { target: name(7), rpc: put() }]
    );
    let other = || request(Request::OtherData { dest: Some(name(9)) }, client(50));
    assert_eq!(
        adult().forward_client_request(other(), true, name(101)),
        Some(Effect::RpcToDataHandler {
            src: SrcLocation::Node(name(101)),
            rpc: other(),
            proof: None,
        })
    );
    assert_eq!(
        adult().forward_client_request(request(Request::OtherData { dest: None }, client(50)), true, name(101)),
        None
    );
    assert_eq!(elder().forward_client_request(mutation_response(), true, name(101)), None);
}

#[test]
fn requests_for_the_client_handler_stay_here() {
    let coins = || request(Request::Coins { dest: Some(name(9)) }, client(50));
    assert_eq!(
        elder().forward_client_request(coins(), false, name(101)),
        Some(Effect::RpcToClientHandler { sender: name(50), rpc: coins() })
    );
    assert_eq!(adult().forward_client_request(coins(), false, name(101)), None);
    let no_dest = request(Request::Coins { dest: None }, client(50));
    assert_eq!(elder().forward_client_request(no_dest, false, name(101)), None);

    let auth = || request(Request::Client(ClientRequest::InsAuthKey), client(50));
    assert_eq!(elder().handler_address(&Action::ForwardClientRequest(auth())), Some(name(100)));
    assert_eq!(
        elder().forward_client_request(auth(), false, name(101)),
        Some(Effect::RpcToClientHandler { sender: name(50), rpc: auth() })
    );
    let other = request(Request::Client(ClientRequest::Other), client(50));
    assert_eq!(elder().forward_client_request(other, false, name(101)), None);

    let create = || {
        let packet = LoginPacketRequest::CreateFor { new_owner: name(60), dest: Some(name(61)) };
        request(Request::LoginPacket(packet), client(50))
    };
    assert_eq!(
        elder().forward_client_request(create(), false, name(101)),
        Some(Effect::RpcToClientHandler { sender: name(60), rpc: create() })
    );
}

#[test]
fn a_request_made_for_another_client() {
    let create = || {
        let packet = LoginPacketRequest::CreateFor { new_owner: name(60), dest: Some(name(61)) };
        request(Request::LoginPacket(packet), client(50))
    };
    assert_eq!(elder().handler_address(&Action::ProxyClientRequest(create())), Some(name(60)));
    assert_eq!(
        elder().proxy_client_request(create(), true),
        Some(Effect::RpcToClientHandler { sender: name(50), rpc: create() })
    );
    assert_eq!(elder().proxy_client_request(create(), false), None);
    assert_eq!(adult().proxy_client_request(create(), true), None);
    let coins = request(Request::Coins { dest: Some(name(9)) }, client(50));
    assert_eq!(elder().handler_address(&Action::ProxyClientRequest(coins)), None);
    let coins = request(Request::Coins { dest: Some(name(9)) }, client(50));
    assert_eq!(elder().proxy_client_request(coins, true), None);
    assert_eq!(
        elder().handle_action(Action::ProxyClientRequest(create()), true, name(101)),
        vec![Effect::RpcToClientHandler { sender: name(50), rpc: create() }]
    );
}

#[test]
fn outbound_messages() {
    let vault = adult();
    assert_eq!(
        vault.respond_to_data_handlers(name(101), mutation_response()),
        Outbound {
            src: SrcLocation::Node(name(101)),
            dst: DstLocation::Section(name(101)),
            rpc: mutation_response(),
        }
    );
    let prefix = Prefix { bit_count: 8, name: name(0) };
    assert_eq!(
        vault.send_message_to_section(prefix, name(9), mutation_response()),
        Outbound {
            src: SrcLocation::Section(prefix),
            dst: DstLocation::Section(name(9)),
            rpc: mutation_response(),
        }
    );
    assert_eq!(
        vault.send_message_to_peer(name(101), name(2), mutation_response()),
        Outbound {
            src: SrcLocation::Node(name(101)),
            dst: DstLocation::Node(name(2)),
            rpc: mutation_response(),
        }
    );
}

#[test]
fn who_handles_an_address() {
    assert!(self_is_handler_for(Some(true)));
    assert!(!self_is_handler_for(Some(false)));
    assert!(!self_is_handler_for(None));
}

#[test]
fn the_loop_looks_at_the_clients_first() {
    assert_eq!(selected(4, 3, 4, 5), Selected::ClientEvent);
    assert_eq!(selected(3, 3, 4, 5), Selected::RoutingEvent);
    assert_eq!(selected(5, 3, 4, 5), Selected::Command);
    assert_eq!(selected(0, 3, 4, 5), Selected::RoutingOperation);
    assert_eq!(selected(1, 1, 1, 1), Selected::ClientEvent);
    assert_eq!(selected(1, 1, 2, 1), Selected::RoutingEvent);
}

#[test]
fn the_loop_ends_on_shutdown() {
    assert!(!run_goes_on(Command::Shutdown));
    assert_eq!(poll_step(Selected::Command, false), (true, true));
    assert_eq!(poll_step(Selected::ClientEvent, true), (true, true));
    assert_eq!(poll_step(Selected::RoutingEvent, false), (true, true));
    assert_eq!(poll_step(Selected::RoutingOperation, false), (false, true));
    assert_eq!(poll_step(Selected::RoutingOperation, true), (false, false));
}
