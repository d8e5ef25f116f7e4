use pickledb::{PickleDb, PickleDbDumpPolicy};
use safe_vault::data::{
    ClientPublicId, IData, IDataAddress, IDataRequest, MessageId, NdError, NodePublicId, PublicId,
    PublicKey,
};
use safe_vault::idata_handler::IDataHandler;
use safe_vault::messaging::{Action, Prefix, Request, Response, Rpc, SrcLocation};
use safe_vault::name::{NameSet, XorName};

fn name(byte: u8) -> XorName {
    XorName([byte; 32])
}

fn memory_db() -> PickleDb {
    PickleDb::new_bin("unused.db", PickleDbDumpPolicy::NeverDump)
}

fn node_id() -> NodePublicId {
    NodePublicId { name: name(100), public_key: PublicKey::Ed25519([100; 32]) }
}

fn client() -> PublicId {
    PublicId::Client(ClientPublicId { name: name(50), public_key: PublicKey::Bls([50; 48]) })
}

fn names(list: &[XorName]) -> NameSet {
    NameSet::from_list(&list.to_vec())
}

fn chunk() -> IData {
    IData { address: IDataAddress::Pub(name(7)), owner: None, value: vec![4, 5, 6] }
}

fn request(request: IDataRequest, id: u128) -> Rpc {
    Rpc::Request {
        request: Request::IData(request),
        requester: client(),
        message_id: MessageId(id),
        proof: None,
    }
}

fn answer(response: Response, id: u128) -> Rpc {
    Rpc::Response { requester: client(), response, message_id: MessageId(id), refund: None }
}

fn sent(targets: &[XorName], request: IDataRequest, id: u128) -> Option<Action> {
    Some(Action::SendToPeers {
        targets: names(targets),
        rpc: Rpc::Request {
            request: Request::IData(request),
            requester: PublicId::Node(node_id()),
            message_id: MessageId(id),
            proof: None,
        },
    })
}

#[test]
fn messages_reach_their_handlers() {
    let mut handler = IDataHandler::new(node_id(), memory_db(), memory_db());
    let adults = vec![name(1), name(2)];
    let elders = vec![name(11), name(12)];
    let from_clients = SrcLocation::Section(Prefix { bit_count: 0, name: name(0) });
    let address = chunk().address;

    let put = handler.handle_vault_rpc(
        from_clients,
        request(IDataRequest::Put(chunk()), 1),
        &adults,
        &elders,
    );
    assert_eq!(put, sent(&[name(1), name(2), name(11)], IDataRequest::Put(chunk()), 1));

    for holder in [name(1), name(2)] {
        let noted = handler.handle_vault_rpc(
            SrcLocation::Node(holder),
            answer(Response::Mutation(Ok(())), 1),
            &adults,
            &elders,
        );
        assert_eq!(noted, None);
    }
    let from_section = handler.handle_vault_rpc(
        from_clients,
        answer(Response::Mutation(Ok(())), 1),
        &adults,
        &elders,
    );
    assert_eq!(from_section, None);
    assert!(handler.idata_op(&MessageId(1)).is_some());
    let done = handler.handle_vault_rpc(
        SrcLocation::Node(name(11)),
        answer(Response::Mutation(Ok(())), 1),
        &adults,
        &elders,
    );
    assert_eq!(
        done,
        Some(Action::RespondToClientHandlers {
            sender: name(7),
            rpc: answer(Response::Mutation(Ok(())), 1),
        })
    );

    let get = handler.handle_vault_rpc(from_clients, request(IDataRequest::Get(address), 2), &adults, &elders);
    assert_eq!(get, sent(&[name(1), name(2), name(11)], IDataRequest::Get(address), 2));
    let fetched = handler.handle_vault_rpc(
        SrcLocation::Node(name(2)),
        answer(Response::GetIData(Ok(chunk())), 2),
        &adults,
        &elders,
    );
    assert_eq!(
        fetched,
        Some(Action::RespondToClientHandlers {
            sender: name(7),
            rpc: answer(Response::GetIData(Ok(chunk())), 2),
        })
    );

    let delete = handler.handle_vault_rpc(
        from_clients,
        request(IDataRequest::DeleteUnpub(IDataAddress::Unpub(name(7))), 3),
        &adults,
        &elders,
    );
    assert_eq!(
        delete,
        Some(Action::RespondToClientHandlers {
            sender: name(100),
            rpc: answer(Response::Mutation(Err(NdError::NoSuchData)), 3),
        })
    );
}

#[test]
fn the_order_to_copy_makes_this_node_fetch() {
    let mut handler = IDataHandler::new(node_id(), memory_db(), memory_db());
    let address = IDataAddress::Unpub(name(7));
    let order = Rpc::Duplicate {
        address,
        holders: names(&[name(1), name(3)]),
        message_id: MessageId(8),
        proof: None,
    };
    let src = SrcLocation::Section(Prefix { bit_count: 0, name: name(0) });
    assert_eq!(
        handler.handle_vault_rpc(src, order, &vec![], &vec![]),
        sent(&[name(1), name(3)], IDataRequest::Get(address), 8)
    );
    assert_eq!(*handler.idata_op(&MessageId(8)).unwrap().client(), PublicId::Node(node_id()));
}

#[test]
fn other_messages_are_left_alone() {
    let mut handler = IDataHandler::new(node_id(), memory_db(), memory_db());
    let src = SrcLocation::Node(name(1));
    let coins = Rpc::Request {
        request: Request::Coins { dest: Some(name(1)) },
        requester: client(),
        message_id: MessageId(1),
        proof: None,
    };
    assert_eq!(handler.handle_vault_rpc(src, coins, &vec![name(1)], &vec![]), None);
    assert_eq!(handler.handle_vault_rpc(src, answer(Response::Other, 1), &vec![], &vec![]), None);
    let failed = Rpc::DuplicationComplete {
        address: IDataAddress::Pub(name(7)),
        response: Response::Mutation(Err(NdError::NetworkOther)),
        message_id: MessageId(1),
    };
    assert_eq!(handler.handle_vault_rpc(src, failed, &vec![], &vec![]), None);
    let odd = Rpc::DuplicationComplete {
        address: IDataAddress::Pub(name(7)),
        response: Response::Other,
        message_id: MessageId(1),
    };
    assert_eq!(handler.handle_vault_rpc(src, odd, &vec![], &vec![]), None);
    assert_eq!(handler.get_metadata_for(&IDataAddress::Pub(name(7))), Err(NdError::NoSuchData));
    assert!(handler.idata_op(&MessageId(1)).is_none());
}

#[test]
fn the_report_of_a_copy_makes_its_sender_a_holder() {
    let mut handler = IDataHandler::new(node_id(), memory_db(), memory_db());
    let address = IDataAddress::Unpub(name(7));
    let report = |id: u128| Rpc::DuplicationComplete {
        address,
        response: Response::Mutation(Ok(())),
        message_id: MessageId(id),
    };
    let none: Option<Action> = None;
    assert_eq!(handler.handle_vault_rpc(SrcLocation::Node(name(4)), report(1), &vec![], &vec![]), none);
    assert_eq!(handler.get_metadata_for(&address).unwrap().holders, names(&[name(4)]));
    assert_eq!(handler.get_metadata_for(&address).unwrap().owner, None);
    assert_eq!(handler.handle_vault_rpc(SrcLocation::Node(name(5)), report(2), &vec![], &vec![]), none);
    assert_eq!(handler.handle_vault_rpc(SrcLocation::Node(name(4)), report(3), &vec![], &vec![]), none);
    assert_eq!(handler.get_metadata_for(&address).unwrap().holders, names(&[name(4), name(5)]));
    let section = SrcLocation::Section(Prefix { bit_count: 0, name: name(0) });
    assert_eq!(handler.handle_vault_rpc(section, report(4), &vec![], &vec![]), none);
    assert_eq!(handler.get_metadata_for(&address).unwrap().holders, names(&[name(4), name(5)]));
}

#[test]
fn an_answer_is_handed_over_only_if_it_can_be_taken_in() {
    let mut handler = IDataHandler::new(node_id(), memory_db(), memory_db());
    let adults = vec![name(1), name(2)];
    let from_clients = SrcLocation::Section(Prefix { bit_count: 0, name: name(0) });
    let data = IData { address: IDataAddress::Unpub(name(7)), owner: None, value: vec![1] };
    let put = request(IDataRequest::Put(data.duplicate()), 1);
    assert!(handler.admits_vault_rpc(from_clients, &put));
    let _ = handler.handle_vault_rpc(from_clients, put, &adults, &vec![]);
    for holder in [name(1), name(2)] {
        let done = answer(Response::Mutation(Ok(())), 1);
        assert!(handler.admits_vault_rpc(SrcLocation::Node(holder), &done));
        let _ = handler.handle_vault_rpc(SrcLocation::Node(holder), done, &adults, &vec![]);
    }
    let delete = request(IDataRequest::DeleteUnpub(data.address), 2);
    let _ = handler.handle_vault_rpc(from_clients, delete, &adults, &vec![]);
    let failed = || answer(Response::Mutation(Err(NdError::NetworkOther)), 2);
    assert!(handler.admits_vault_rpc(SrcLocation::Node(name(1)), &failed()));
    let _ = handler.handle_vault_rpc(SrcLocation::Node(name(1)), failed(), &adults, &vec![]);
    assert!(!handler.admits_vault_rpc(SrcLocation::Node(name(2)), &failed()));
    assert!(handler.admits_vault_rpc(from_clients, &failed()));
    assert!(handler.admits_vault_rpc(SrcLocation::Node(name(2)), &answer(Response::Mutation(Ok(())), 2)));
    assert!(handler.admits_vault_rpc(SrcLocation::Node(name(2)), &answer(Response::GetIData(Err(NdError::NoSuchData)), 2)));
}

#[test]
fn without_a_holder_there_is_nothing_to_fetch() {
    let mut handler = IDataHandler::new(node_id(), memory_db(), memory_db());
    let address = IDataAddress::Pub(name(7));
    assert_eq!(handler.get_idata_copy(client(), address, NameSet::new(), MessageId(1)), None);
    assert!(handler.idata_op(&MessageId(1)).is_none());
}
