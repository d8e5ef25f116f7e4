use pickledb::{PickleDb, PickleDbDumpPolicy};
use safe_vault::data::{
    AppPublicId, ClientPublicId, Coins, IData, IDataAddress, IDataRequest, MessageId, NdError,
    NodePublicId, PublicId, PublicKey,
};
use safe_vault::idata_handler::IDataHandler;
use safe_vault::idata_op::RpcState;
use safe_vault::messaging::{Action, Request, Response, Rpc};
use safe_vault::metadata::ChunkMetadata;
use safe_vault::name::{NameSet, XorName};
use safe_vault::store::StoreError;

fn name(byte: u8) -> XorName {
    XorName([byte; 32])
}

fn memory_db() -> PickleDb {
    PickleDb::new_bin("unused.db", PickleDbDumpPolicy::NeverDump)
}

fn node_id() -> NodePublicId {
    NodePublicId { name: name(100), public_key: PublicKey::Ed25519([100; 32]) }
}

fn new_handler() -> IDataHandler {
    IDataHandler::new(node_id(), memory_db(), memory_db())
}

fn client_key(byte: u8) -> PublicKey {
    PublicKey::Bls([byte; 48])
}

fn client(byte: u8) -> PublicId {
    PublicId::Client(ClientPublicId { name: name(byte), public_key: client_key(byte) })
}

fn names(list: &[XorName]) -> NameSet {
    NameSet::from_list(&list.to_vec())
}

fn unpub_chunk(byte: u8, owner: u8) -> IData {
    IData {
        address: IDataAddress::Unpub(name(byte)),
        owner: Some(client_key(owner)),
        value: vec![byte; 5],
    }
}

fn pub_chunk(byte: u8) -> IData {
    IData { address: IDataAddress::Pub(name(byte)), owner: None, value: vec![byte; 5] }
}

fn mutation_reply(
    sender: XorName,
    requester: PublicId,
    result: Result<(), NdError>,
    message_id: MessageId,
    refund: Option<Coins>,
) -> Option<Action> {
    Some(Action::RespondToClientHandlers {
        sender,
        rpc: Rpc::Response {
            requester,
            response: Response::Mutation(result),
            message_id,
            refund,
        },
    })
}

fn get_reply(
    sender: XorName,
    requester: PublicId,
    result: Result<IData, NdError>,
    message_id: MessageId,
) -> Option<Action> {
    Some(Action::RespondToClientHandlers {
        sender,
        rpc: Rpc::Response {
            requester,
            response: Response::GetIData(result),
            message_id,
            refund: None,
        },
    })
}

fn send(targets: &[XorName], request: IDataRequest, message_id: MessageId) -> Option<Action> {
    Some(Action::SendToPeers {
        targets: names(targets),
        rpc: Rpc::Request {
            request: Request::IData(request),
            requester: PublicId::Node(node_id()),
            message_id,
            proof: None,
        },
    })
}

/// Stores `data` with the holders 1, 2 and 3, under the message identifier `id`.
fn store(handler: &mut IDataHandler, requester: PublicId, data: &IData, id: u128) {
    let adults = vec![name(1), name(2), name(3)];
    let sent = handler.handle_put_idata_req(requester, data.duplicate(), MessageId(id), &adults, &vec![]);
    assert_eq!(sent, send(&adults, IDataRequest::Put(data.duplicate()), MessageId(id)));
    assert_eq!(handler.handle_mutation_resp(name(1), Ok(()), MessageId(id)), None);
    assert_eq!(handler.handle_mutation_resp(name(2), Ok(()), MessageId(id)), None);
    assert_eq!(
        handler.handle_mutation_resp(name(3), Ok(()), MessageId(id)),
        mutation_reply(data.address.name(), requester, Ok(()), MessageId(id), None)
    );
}

#[test]
fn holders_are_the_three_closest_adults() {
    let handler = new_handler();
    let adults = vec![name(1), name(2), name(3), name(4)];
    let elders = vec![name(11), name(12)];
    assert_eq!(
        handler.make_holder_list_for_idata(&adults, &elders),
        vec![name(1), name(2), name(3)]
    );
}

#[test]
fn elders_fill_up_where_adults_are_few() {
    let handler = new_handler();
    let elders = vec![name(11), name(12), name(13), name(14)];
    assert_eq!(
        handler.make_holder_list_for_idata(&vec![name(1)], &elders),
        vec![name(1), name(11), name(12)]
    );
    assert_eq!(
        handler.make_holder_list_for_idata(&vec![], &elders),
        vec![name(11), name(12), name(13)]
    );
    assert_eq!(
        handler.make_holder_list_for_idata(&vec![name(1)], &vec![name(11)]),
        vec![name(1), name(11)]
    );
    assert_eq!(handler.make_holder_list_for_idata(&vec![], &vec![]), vec![]);
}

#[test]
fn full_adults_are_skipped() {
    let mut full = memory_db();
    full.set(&base64::encode(&name(2).0), &Vec::<u8>::new()).unwrap();
    full.set(&base64::encode(&name(11).0), &Vec::<u8>::new()).unwrap();
    let handler = IDataHandler::new(node_id(), memory_db(), full);
    let adults = vec![name(1), name(2), name(3), name(4)];
    assert_eq!(
        handler.make_holder_list_for_idata(&adults, &vec![]),
        vec![name(1), name(3), name(4)]
    );
    assert_eq!(
        handler.make_holder_list_for_idata(&vec![name(2), name(1)], &vec![name(11), name(12)]),
        vec![name(1), name(11), name(12)]
    );
}

#[test]
fn new_holders_are_who_does_not_hold_the_chunk_yet() {
    let mut full = memory_db();
    full.set(&base64::encode(&name(4).0), &Vec::<u8>::new()).unwrap();
    let handler = IDataHandler::new(node_id(), memory_db(), full);
    let adults = vec![name(1), name(2), name(3), name(4), name(5), name(6)];
    let elders = vec![name(11), name(1), name(12)];
    assert_eq!(
        handler.get_new_holders_for_chunk(&names(&[name(1), name(3)]), &adults, &elders),
        vec![name(2)]
    );
    assert_eq!(
        handler.get_new_holders_for_chunk(&names(&[name(3)]), &adults, &elders),
        vec![name(1), name(2)]
    );
    assert_eq!(
        handler.get_new_holders_for_chunk(&names(&[name(1), name(2), name(3)]), &adults, &elders),
        vec![]
    );
    assert_eq!(
        handler.get_new_holders_for_chunk(&names(&[name(1)]), &vec![name(1), name(4)], &elders),
        vec![name(11), name(12)]
    );
    assert_eq!(
        handler.get_new_holders_for_chunk(&NameSet::new(), &vec![name(4)], &vec![name(4)]),
        vec![name(4)]
    );
}

#[test]
fn a_copy_is_ordered_from_new_holders() {
    let mut handler = new_handler();
    let data = pub_chunk(7);
    store(&mut handler, client(50), &data, 1);
    let _ = handler.check_idata_holders(name(2));
    let adults = vec![name(3), name(4), name(1), name(5)];
    assert_eq!(
        handler.duplicate_chunk(&data.address, &adults, &vec![], MessageId(6)),
        Some(Action::SendToPeers {
            targets: names(&[name(4)]),
            rpc: Rpc::Duplicate {
                address: data.address,
                holders: names(&[name(1), name(3)]),
                message_id: MessageId(6),
                proof: None,
            },
        })
    );
    assert_eq!(handler.duplicate_chunk(&data.address, &vec![name(1), name(3)], &vec![], MessageId(6)), None);
    assert_eq!(handler.duplicate_chunk(&IDataAddress::Pub(name(9)), &adults, &vec![], MessageId(6)), None);
    assert!(handler.idata_op(&MessageId(6)).is_none());
}

#[test]
fn only_a_fetched_copy_is_followed_up() {
    let mut handler = new_handler();
    let data = pub_chunk(7);
    store(&mut handler, client(50), &data, 1);
    let _ = handler.check_idata_holders(name(3));
    let adults = vec![name(1), name(2), name(4)];
    let node = PublicId::Node(node_id());
    let fetched = |result: Result<IData, NdError>| {
        Some(Action::RespondToOurDataHandlers {
            rpc: Rpc::Response {
                requester: node,
                response: Response::GetIData(result),
                message_id: MessageId(6),
                refund: None,
            },
        })
    };
    assert_eq!(
        handler.continue_duplication(fetched(Ok(pub_chunk(7))), &adults, &vec![]),
        Some(Action::SendToPeers {
            targets: names(&[name(4)]),
            rpc: Rpc::Duplicate {
                address: data.address,
                holders: names(&[name(1), name(2)]),
                message_id: MessageId(6),
                proof: None,
            },
        })
    );
    assert_eq!(
        handler.continue_duplication(fetched(Err(NdError::NoSuchData)), &adults, &vec![]),
        fetched(Err(NdError::NoSuchData))
    );
    assert_eq!(
        handler.continue_duplication(fetched(Ok(pub_chunk(9))), &adults, &vec![]),
        fetched(Ok(pub_chunk(9)))
    );
    assert_eq!(
        handler.continue_duplication(fetched(Ok(pub_chunk(7))), &vec![name(1)], &vec![name(2)]),
        fetched(Ok(pub_chunk(7)))
    );
    let reply = mutation_reply(name(7), client(50), Ok(()), MessageId(1), None);
    assert_eq!(
        handler.continue_duplication(reply, &adults, &vec![]),
        mutation_reply(name(7), client(50), Ok(()), MessageId(1), None)
    );
    assert_eq!(handler.continue_duplication(None, &adults, &vec![]), None);
}

#[test]
fn a_failed_copy_notes_nobody() {
    let mut handler = new_handler();
    let data = pub_chunk(7);
    store(&mut handler, client(50), &data, 1);
    let failed = handler.handle_duplication_complete(name(4), data.address, Err(NdError::NetworkOther));
    assert_eq!(failed, Ok(()));
    assert_eq!(
        handler.get_metadata_for(&data.address).unwrap().holders,
        names(&[name(1), name(2), name(3)])
    );
    assert_eq!(handler.handle_duplication_complete(name(4), data.address, Ok(())), Ok(()));
    assert_eq!(
        handler.get_metadata_for(&data.address).unwrap().holders,
        names(&[name(1), name(2), name(3), name(4)])
    );
}

#[test]
fn a_put_opens_an_operation() {
    let mut handler = new_handler();
    let data = pub_chunk(7);
    let adults = vec![name(1), name(2), name(3)];
    let sent = handler.handle_put_idata_req(client(50), data.duplicate(), MessageId(1), &adults, &vec![]);
    assert_eq!(sent, send(&adults, IDataRequest::Put(data.duplicate()), MessageId(1)));
    let op = handler.idata_op(&MessageId(1)).unwrap();
    assert_eq!(*op.client(), client(50));
    assert_eq!(*op.request(), IDataRequest::Put(data));
    assert_eq!(op.holders(), names(&adults));
    assert!(!op.concluded());
    assert_eq!(handler.get_metadata_for(&IDataAddress::Pub(name(7))), Err(NdError::NoSuchData));
}

#[test]
fn every_answer_to_a_put_notes_a_holder() {
    let mut handler = new_handler();
    let data = pub_chunk(7);
    let adults = vec![name(1), name(2), name(3)];
    let _ = handler.handle_put_idata_req(client(50), data.duplicate(), MessageId(1), &adults, &vec![]);
    assert_eq!(handler.handle_mutation_resp(name(2), Ok(()), MessageId(1)), None);
    assert_eq!(
        handler.get_metadata_for(&data.address),
        Ok(ChunkMetadata { holders: names(&[name(2)]), owner: None })
    );
    assert_eq!(handler.handle_mutation_resp(name(1), Err(NdError::NetworkOther), MessageId(1)), None);
    assert_eq!(
        handler.get_metadata_for(&data.address),
        Ok(ChunkMetadata { holders: names(&[name(2), name(1)]), owner: None })
    );
    let op = handler.idata_op(&MessageId(1)).unwrap();
    assert_eq!(op.state_of(&name(1)), Some(RpcState::Actioned(Some(NdError::NetworkOther))));
    assert_eq!(op.state_of(&name(3)), Some(RpcState::Sent));
}

#[test]
fn the_owner_of_an_unpublished_chunk_is_the_requester() {
    let mut handler = new_handler();
    let data = unpub_chunk(8, 50);
    store(&mut handler, client(50), &data, 1);
    assert_eq!(
        handler.get_metadata_for(&data.address),
        Ok(ChunkMetadata {
            holders: names(&[name(1), name(2), name(3)]),
            owner: Some(client_key(50)),
        })
    );
}

#[test]
fn the_owner_of_a_chunk_that_an_application_stores_is_the_key_of_the_application() {
    let mut handler = new_handler();
    let owner = ClientPublicId { name: name(50), public_key: client_key(50) };
    let app = PublicId::App(AppPublicId { owner, public_key: client_key(51) });
    let data = unpub_chunk(8, 51);
    store(&mut handler, app, &data, 1);
    assert_eq!(handler.get_metadata_for(&data.address).unwrap().owner, Some(client_key(51)));
}

#[test]
fn a_published_chunk_has_no_owner() {
    let mut handler = new_handler();
    let data = pub_chunk(7);
    store(&mut handler, client(50), &data, 1);
    assert_eq!(handler.get_metadata_for(&data.address).unwrap().owner, None);
}

#[test]
fn a_node_that_stores_leaves_the_owner_as_it_is() {
    let mut handler = new_handler();
    let data = unpub_chunk(8, 50);
    store(&mut handler, PublicId::Node(node_id()), &data, 1);
    assert_eq!(
        handler.get_metadata_for(&data.address),
        Ok(ChunkMetadata { holders: names(&[name(1), name(2), name(3)]), owner: None })
    );
}

#[test]
fn a_put_answer_for_no_operation_is_dropped() {
    let mut handler = new_handler();
    assert_eq!(handler.handle_mutation_resp(name(1), Ok(()), MessageId(5)), None);
    assert_eq!(handler.get_metadata_for(&IDataAddress::Pub(name(7))), Err(NdError::NoSuchData));
}

#[test]
fn a_put_answer_from_a_stranger_is_dropped() {
    let mut handler = new_handler();
    let data = pub_chunk(7);
    let adults = vec![name(1), name(2), name(3)];
    let _ = handler.handle_put_idata_req(client(50), data.duplicate(), MessageId(1), &adults, &vec![]);
    assert_eq!(handler.handle_mutation_resp(name(9), Ok(()), MessageId(1)), None);
    assert_eq!(handler.get_metadata_for(&data.address), Err(NdError::NoSuchData));
    let op = handler.idata_op(&MessageId(1)).unwrap();
    assert_eq!(op.state_of(&name(9)), None);
    assert!(!op.is_any_actioned());
}

#[test]
fn a_second_put_of_a_published_chunk_succeeds_at_once() {
    let mut handler = new_handler();
    let data = pub_chunk(7);
    store(&mut handler, client(50), &data, 1);
    let before = handler.get_metadata_for(&data.address);
    let again = handler.handle_put_idata_req(
        client(51),
        data.duplicate(),
        MessageId(2),
        &vec![name(4), name(5), name(6)],
        &vec![],
    );
    assert_eq!(again, mutation_reply(name(100), client(51), Ok(()), MessageId(2), None));
    assert!(handler.idata_op(&MessageId(2)).is_none());
    assert_eq!(handler.get_metadata_for(&data.address), before);
}

#[test]
fn a_fetch_of_what_is_not_there_is_refused() {
    let mut handler = new_handler();
    let address = IDataAddress::Pub(name(7));
    assert_eq!(
        handler.handle_get_idata_req(client(50), address, MessageId(1)),
        get_reply(name(100), client(50), Err(NdError::NoSuchData), MessageId(1))
    );
    assert!(handler.idata_op(&MessageId(1)).is_none());
}

#[test]
fn a_delete_of_what_is_not_there_is_refused() {
    let mut handler = new_handler();
    let address = IDataAddress::Unpub(name(7));
    assert_eq!(
        handler.handle_delete_unpub_idata_req(client(50), address, MessageId(1)),
        mutation_reply(name(100), client(50), Err(NdError::NoSuchData), MessageId(1), None)
    );
    assert!(handler.idata_op(&MessageId(1)).is_none());
}

#[test]
fn the_owner_may_fetch_and_delete() {
    let mut handler = new_handler();
    let data = unpub_chunk(8, 50);
    store(&mut handler, client(50), &data, 1);
    let holders = [name(1), name(2), name(3)];
    assert_eq!(
        handler.handle_get_idata_req(client(50), data.address, MessageId(2)),
        send(&holders, IDataRequest::Get(data.address), MessageId(2))
    );
    assert_eq!(
        handler.handle_delete_unpub_idata_req(client(50), data.address, MessageId(3)),
        send(&holders, IDataRequest::DeleteUnpub(data.address), MessageId(3))
    );
    assert!(handler.idata_op(&MessageId(2)).is_some());
    assert!(handler.idata_op(&MessageId(3)).is_some());
}

#[test]
fn nobody_else_may_delete() {
    let mut handler = new_handler();
    let data = unpub_chunk(8, 50);
    store(&mut handler, client(50), &data, 1);
    assert_eq!(
        handler.handle_delete_unpub_idata_req(client(51), data.address, MessageId(2)),
        mutation_reply(name(100), client(51), Err(NdError::AccessDenied), MessageId(2), None)
    );
    assert!(handler.idata_op(&MessageId(2)).is_none());
}

#[test]
fn a_node_that_asks_for_an_owned_chunk_gets_no_answer() {
    let mut handler = new_handler();
    let data = unpub_chunk(8, 50);
    store(&mut handler, client(50), &data, 1);
    let node = PublicId::Node(node_id());
    assert_eq!(handler.handle_get_idata_req(node, data.address, MessageId(2)), None);
    assert_eq!(handler.handle_delete_unpub_idata_req(node, data.address, MessageId(3)), None);
    assert!(handler.idata_op(&MessageId(2)).is_none());
    assert!(handler.idata_op(&MessageId(3)).is_none());
}

#[test]
fn a_message_identifier_in_use_is_refused() {
    let mut handler = new_handler();
    let data = pub_chunk(7);
    store(&mut handler, client(50), &data, 1);
    let _ = handler.handle_get_idata_req(client(50), data.address, MessageId(2));
    let other = pub_chunk(9);
    assert_eq!(
        handler.handle_put_idata_req(client(50), other, MessageId(2), &vec![name(1)], &vec![]),
        mutation_reply(
            name(100),
            client(50),
            Err(NdError::DuplicateMessageId),
            MessageId(2),
            Some(Coins(1))
        )
    );
    assert_eq!(
        handler.handle_get_idata_req(client(51), data.address, MessageId(2)),
        get_reply(name(100), client(51), Err(NdError::DuplicateMessageId), MessageId(2))
    );
    let unpub = unpub_chunk(8, 50);
    store(&mut handler, client(50), &unpub, 3);
    assert_eq!(
        handler.handle_delete_unpub_idata_req(client(50), unpub.address, MessageId(2)),
        mutation_reply(name(100), client(50), Err(NdError::DuplicateMessageId), MessageId(2), None)
    );
    assert_eq!(
        handler.get_idata_copy(client(50), data.address, names(&[name(1)]), MessageId(2)),
        Some(Action::RespondToOurDataHandlers {
            rpc: Rpc::Response {
                requester: client(50),
                response: Response::GetIData(Err(NdError::DuplicateMessageId)),
                message_id: MessageId(2),
                refund: None,
            },
        })
    );
    let op = handler.idata_op(&MessageId(2)).unwrap();
    assert_eq!(*op.request(), IDataRequest::Get(data.address));
    assert_eq!(*op.client(), client(50));
}

#[test]
fn a_failed_delete_tells_the_first_error() {
    let mut handler = new_handler();
    let data = unpub_chunk(8, 50);
    store(&mut handler, client(50), &data, 1);
    let _ = handler.handle_delete_unpub_idata_req(client(50), data.address, MessageId(2));
    assert_eq!(handler.handle_mutation_resp(name(3), Ok(()), MessageId(2)), None);
    assert_eq!(handler.handle_mutation_resp(name(2), Err(NdError::AccessDenied), MessageId(2)), None);
    assert_eq!(
        handler.handle_mutation_resp(name(1), Ok(()), MessageId(2)),
        mutation_reply(name(8), client(50), Err(NdError::AccessDenied), MessageId(2), None)
    );
    assert!(handler.idata_op(&MessageId(2)).is_none());
    assert_eq!(
        handler.get_metadata_for(&data.address),
        Ok(ChunkMetadata { holders: names(&[name(2)]), owner: Some(client_key(50)) })
    );
}

#[test]
fn a_delete_cannot_end_with_several_errors() {
    let mut handler = new_handler();
    let data = unpub_chunk(8, 50);
    store(&mut handler, client(50), &data, 1);
    let _ = handler.handle_delete_unpub_idata_req(client(50), data.address, MessageId(2));
    let id = MessageId(2);
    assert!(handler.admits_mutation_resp(&name(3), &Err(NdError::NoSuchData), &id));
    assert_eq!(handler.handle_mutation_resp(name(3), Err(NdError::NoSuchData), id), None);
    assert!(handler.admits_mutation_resp(&name(1), &Err(NdError::NetworkOther), &id));
    assert_eq!(handler.handle_mutation_resp(name(1), Err(NdError::NetworkOther), id), None);
    assert!(!handler.admits_mutation_resp(&name(2), &Err(NdError::AccessDenied), &id));
    assert!(!handler.admits_mutation_resp(&name(2), &Ok(()), &id));
    assert!(handler.admits_mutation_resp(&name(9), &Ok(()), &id));
    assert!(handler.admits_mutation_resp(&name(2), &Ok(()), &MessageId(77)));
    assert!(handler.admits_mutation_resp(&name(1), &Ok(()), &id));
    assert_eq!(handler.handle_mutation_resp(name(1), Ok(()), id), None);
    assert!(handler.admits_mutation_resp(&name(2), &Ok(()), &id));
    assert_eq!(
        handler.handle_mutation_resp(name(2), Ok(()), id),
        mutation_reply(name(8), client(50), Err(NdError::NoSuchData), id, None)
    );
}

#[test]
fn only_an_operation_that_has_concluded_is_taken_out() {
    let mut handler = new_handler();
    let data = pub_chunk(7);
    let _ = handler.handle_put_idata_req(client(50), data.duplicate(), MessageId(1), &vec![name(1)], &vec![]);
    let _ = handler.handle_put_idata_req(client(50), pub_chunk(9), MessageId(2), &vec![], &vec![]);
    assert!(handler.remove_idata_op_if_concluded(&MessageId(1)).is_none());
    assert!(handler.idata_op(&MessageId(1)).is_some());
    assert!(handler.remove_idata_op_if_concluded(&MessageId(3)).is_none());
    let gone = handler.remove_idata_op_if_concluded(&MessageId(2)).unwrap();
    assert_eq!(*gone.request(), IDataRequest::Put(pub_chunk(9)));
    assert!(handler.idata_op(&MessageId(2)).is_none());
    assert!(handler.idata_op(&MessageId(1)).is_some());
    assert!(handler.remove_idata_op_if_concluded(&MessageId(2)).is_none());
}

#[test]
fn a_put_may_end_with_several_errors() {
    let mut handler = new_handler();
    let data = pub_chunk(7);
    let adults = vec![name(1), name(2), name(3)];
    let id = MessageId(1);
    let _ = handler.handle_put_idata_req(client(50), data.duplicate(), id, &adults, &vec![]);
    for holder in [name(1), name(2)] {
        assert!(handler.admits_mutation_resp(&holder, &Err(NdError::NetworkOther), &id));
        assert_eq!(handler.handle_mutation_resp(holder, Err(NdError::NetworkOther), id), None);
    }
    assert!(handler.admits_mutation_resp(&name(3), &Err(NdError::NetworkOther), &id));
    assert_eq!(
        handler.handle_mutation_resp(name(3), Err(NdError::NetworkOther), id),
        mutation_reply(name(7), client(50), Ok(()), id, None)
    );
}

fn unwritable_db() -> PickleDb {
    PickleDb::new_bin(
        "/tmp/safe_vault_handler_test_no_such_dir/immutable_data.db",
        PickleDbDumpPolicy::AutoDump,
    )
}

#[test]
fn a_write_that_fails_is_noted_and_the_operation_goes_on() {
    let mut handler = IDataHandler::new(node_id(), unwritable_db(), memory_db());
    assert_eq!(handler.last_write(), Ok(()));
    let data = pub_chunk(7);
    let id = MessageId(1);
    let _ = handler.handle_put_idata_req(client(50), data.duplicate(), id, &vec![name(1), name(2)], &vec![]);
    assert_eq!(handler.last_write(), Ok(()));
    assert_eq!(handler.handle_mutation_resp(name(1), Ok(()), id), None);
    assert_eq!(handler.last_write(), Err(StoreError::Persistence));
    assert_eq!(handler.get_metadata_for(&data.address), Err(NdError::NoSuchData));
    assert_eq!(handler.take_last_write(), Err(StoreError::Persistence));
    assert_eq!(handler.last_write(), Ok(()));
    assert_eq!(handler.take_last_write(), Ok(()));
    assert_eq!(
        handler.handle_mutation_resp(name(2), Ok(()), id),
        mutation_reply(name(7), client(50), Ok(()), id, None)
    );
    assert_eq!(handler.last_write(), Err(StoreError::Persistence));
    assert!(handler.idata_op(&id).is_none());
    assert_eq!(
        handler.handle_duplication_complete(name(4), data.address, Ok(())),
        Err(StoreError::Persistence)
    );
    assert_eq!(handler.handle_duplication_complete(name(4), data.address, Err(NdError::NetworkOther)), Ok(()));
    assert_eq!(handler.last_write(), Err(StoreError::Persistence));
}

#[test]
fn a_write_that_goes_well_is_noted() {
    let mut handler = new_handler();
    let data = unpub_chunk(8, 50);
    store(&mut handler, client(50), &data, 1);
    assert_eq!(handler.last_write(), Ok(()));
    let _ = handler.handle_delete_unpub_idata_req(client(50), data.address, MessageId(2));
    assert_eq!(handler.handle_mutation_resp(name(1), Err(NdError::NetworkOther), MessageId(2)), None);
    assert_eq!(handler.last_write(), Ok(()));
    assert!(handler.check_idata_holders(name(2)).is_some());
    assert_eq!(handler.last_write(), Ok(()));
    assert_eq!(handler.get_metadata_for(&data.address).unwrap().holders, names(&[name(1), name(3)]));
}

#[test]
fn a_fetch_answer_for_no_operation_is_dropped() {
    let mut handler = new_handler();
    assert_eq!(handler.handle_get_idata_resp(name(1), Ok(pub_chunk(7)), MessageId(9)), None);
}

#[test]
fn a_fetch_for_a_copy_answers_our_data_handlers() {
    let mut handler = new_handler();
    let node = PublicId::Node(node_id());
    let address = IDataAddress::Pub(name(7));
    assert_eq!(
        handler.get_idata_copy(node, address, names(&[name(1), name(3)]), MessageId(4)),
        send(&[name(1), name(3)], IDataRequest::Get(address), MessageId(4))
    );
    assert_eq!(
        handler.handle_get_idata_resp(name(3), Ok(pub_chunk(7)), MessageId(4)),
        Some(Action::RespondToOurDataHandlers {
            rpc: Rpc::Response {
                requester: node,
                response: Response::GetIData(Ok(pub_chunk(7))),
                message_id: MessageId(4),
                refund: None,
            },
        })
    );
    assert!(handler.idata_op(&MessageId(4)).is_some());
    assert_eq!(handler.handle_get_idata_resp(name(1), Ok(pub_chunk(7)), MessageId(4)), None);
    assert!(handler.idata_op(&MessageId(4)).is_none());
}

#[test]
fn a_holder_that_leaves_is_taken_out_of_every_record() {
    let mut handler = new_handler();
    let first = pub_chunk(7);
    let second = unpub_chunk(8, 50);
    store(&mut handler, client(50), &first, 1);
    store(&mut handler, client(50), &second, 2);
    let third = pub_chunk(9);
    let _ = handler.handle_put_idata_req(client(50), third.duplicate(), MessageId(3), &vec![name(4)], &vec![]);
    let _ = handler.handle_mutation_resp(name(4), Ok(()), MessageId(3));

    let mut repairs = handler.check_idata_holders(name(2)).unwrap();
    repairs.sort_by_key(|(address, _)| *address);
    assert_eq!(
        repairs,
        vec![
            (first.address, names(&[name(1), name(3)])),
            (second.address, names(&[name(1), name(3)])),
        ]
    );
    assert_eq!(handler.get_metadata_for(&first.address).unwrap().holders, names(&[name(1), name(3)]));
    assert_eq!(
        handler.get_metadata_for(&second.address),
        Ok(ChunkMetadata { holders: names(&[name(1), name(3)]), owner: Some(client_key(50)) })
    );
    assert_eq!(handler.get_metadata_for(&third.address).unwrap().holders, names(&[name(4)]));

    assert_eq!(handler.check_idata_holders(name(4)), Some(vec![(third.address, NameSet::new())]));
    assert_eq!(handler.get_metadata_for(&third.address), Err(NdError::NoSuchData));
    assert_eq!(handler.check_idata_holders(name(9)), Some(vec![]));
}
