//! The coordinator of the operations on immutable chunks: it admits requests,
//! chooses holders, gathers their answers, keeps the metadata of the chunks, and
//! hands out the actions that follow.

use crate::data::{
    Coins, IData, IDataAddress, IDataRequest, IDataRequestView, IDataView, MessageId, NdError,
    NodePublicId, PublicId,
};
use crate::idata_op::{
    errors_of, first_error, get_resp_accepted, get_resp_action, mutation_resp_address, new_op,
    result_error, result_view, IDataOp, IDataOpView, OpType,
};
use crate::foreign::{kv_dumps_cleanly, kv_entries, no_entries};
use crate::messaging::{
    action_view, Action, ActionView, Request, RequestView, Response, ResponseView, Rpc, RpcView,
    SrcLocation,
};
use crate::metadata::{ChunkMetadata, ChunkMetadataView};
use crate::name::{first_occurrences, NameSet, XorName};
use crate::store::{
    full_names_of, new_db, put_result, records_of, FullAdults, MetadataStore, StoreError,
};
use crate::utils::{
    get_refund_for_put, get_source_name, own_key, spec_own_key, spec_refund_for_put,
    spec_source_name,
};
use crate::vault::Init;
use pickledb::PickleDb;
use std::collections::BTreeMap;
use vstd::prelude::*;

verus! {

/// How many copies of a chunk are to be kept.
pub const IMMUTABLE_DATA_COPY_COUNT: usize = 3;

/// The first `wanted` of `candidates` that are not in `full`, in their order.
pub open spec fn pick_holders(candidates: Seq<XorName>, full: Set<XorName>, wanted: nat) -> Seq<
    XorName,
>
    decreases candidates.len(),
{
    if wanted == 0 || candidates.len() == 0 {
        Seq::empty()
    } else if full.contains(candidates[0]) {
        pick_holders(candidates.drop_first(), full, wanted)
    } else {
        seq![candidates[0]] + pick_holders(candidates.drop_first(), full, (wanted - 1) as nat)
    }
}

/// The holders for a chunk: of the adults, closest first, the first three that
/// are not full; where these are fewer than three, the closest elders fill up.
pub open spec fn holder_list(adults: Seq<XorName>, elders: Seq<XorName>, full: Set<XorName>) -> Seq<
    XorName,
> {
    let chosen = pick_holders(adults, full, IMMUTABLE_DATA_COPY_COUNT as nat);
    chosen + pick_holders(
        elders,
        Set::empty(),
        (IMMUTABLE_DATA_COPY_COUNT - chosen.len()) as nat,
    )
}

/// Who cannot take a copy of a chunk: the adults that are full, and who holds a
/// copy already.
pub open spec fn unavailable(full: Set<XorName>, holders: Seq<XorName>) -> Set<XorName> {
    Set::new(|name: XorName| full.contains(name) || holders.contains(name))
}

/// How many copies of a chunk are missing where it has `held` holders.
pub open spec fn missing_copies(held: nat) -> nat {
    if held >= IMMUTABLE_DATA_COPY_COUNT {
        0
    } else {
        (IMMUTABLE_DATA_COPY_COUNT - held) as nat
    }
}

/// The new holders for a chunk that `holders` hold already: as many as copies are
/// missing, of the adults, closest first, that are neither full nor holders;
/// where these are too few, the closest elders that are no holders fill up.
pub open spec fn new_holder_list(
    holders: Seq<XorName>,
    adults: Seq<XorName>,
    elders: Seq<XorName>,
    full: Set<XorName>,
) -> Seq<XorName> {
    let chosen = pick_holders(adults, unavailable(full, holders), missing_copies(holders.len()));
    chosen + pick_holders(
        elders,
        unavailable(Set::empty(), holders),
        (missing_copies(holders.len()) - chosen.len()) as nat,
    )
}

/// The state of a coordinator as a mathematical value.
pub struct IDataHandlerView {
    /// The identity of the node that the coordinator runs on.
    pub id: NodePublicId,
    /// The operations that are under way, by message identifier.
    pub ops: Map<MessageId, IDataOpView>,
    /// What is known of each chunk, by address.
    pub metadata: Map<IDataAddress, ChunkMetadataView>,
    /// The adults that have no room left.
    pub full_adults: Set<XorName>,
    /// How the last write of metadata that was tried has gone.
    pub last_write: Result<(), StoreError>,
}

impl IDataHandlerView {
    /// The same state with other operations.
    pub open spec fn with_ops(self, ops: Map<MessageId, IDataOpView>) -> IDataHandlerView {
        IDataHandlerView {
            id: self.id,
            ops,
            metadata: self.metadata,
            full_adults: self.full_adults,
            last_write: self.last_write,
        }
    }

    /// The same state with other metadata.
    pub open spec fn with_metadata(
        self,
        metadata: Map<IDataAddress, ChunkMetadataView>,
    ) -> IDataHandlerView {
        IDataHandlerView {
            id: self.id,
            ops: self.ops,
            metadata,
            full_adults: self.full_adults,
            last_write: self.last_write,
        }
    }

    /// The same state with another outcome of the last write.
    pub open spec fn with_last_write(self, last_write: Result<(), StoreError>) -> IDataHandlerView {
        IDataHandlerView {
            id: self.id,
            ops: self.ops,
            metadata: self.metadata,
            full_adults: self.full_adults,
            last_write,
        }
    }
}

/// The answer to a request to store or to delete, for the client handlers of the
/// requester.
pub open spec fn mutation_reply(
    sender: XorName,
    requester: PublicId,
    result: Result<(), NdError>,
    message_id: MessageId,
    refund: Option<Coins>,
) -> ActionView {
    ActionView::RespondToClientHandlers {
        sender,
        rpc: RpcView::Response {
            requester,
            response: ResponseView::Mutation(result),
            message_id,
            refund,
        },
    }
}

/// The answer to a request to fetch a chunk, for the client handlers of the
/// requester. Fetching is free: there is nothing to refund.
pub open spec fn get_reply(
    sender: XorName,
    requester: PublicId,
    result: Result<IDataView, NdError>,
    message_id: MessageId,
) -> ActionView {
    ActionView::RespondToClientHandlers {
        sender,
        rpc: RpcView::Response {
            requester,
            response: ResponseView::GetIData(result),
            message_id,
            refund: None,
        },
    }
}

/// The answer to a request to fetch a chunk for a further copy, for the data
/// handlers of our section.
pub open spec fn copy_reply(
    requester: PublicId,
    result: Result<IDataView, NdError>,
    message_id: MessageId,
) -> ActionView {
    ActionView::RespondToOurDataHandlers {
        rpc: RpcView::Response {
            requester,
            response: ResponseView::GetIData(result),
            message_id,
            refund: None,
        },
    }
}

/// The action that passes a chunk request on to its holders, in the name of the
/// node that the coordinator runs on.
pub open spec fn send_to_holders(
    id: NodePublicId,
    targets: Seq<XorName>,
    request: IDataRequestView,
    message_id: MessageId,
) -> ActionView {
    ActionView::SendToPeers {
        targets: targets.to_set(),
        rpc: RpcView::Request {
            request: RequestView::IData(request),
            requester: PublicId::Node(id),
            message_id,
            proof: None,
        },
    }
}

/// How a request to store is answered at once, if it is: a chunk that is known
/// already is not stored again, which is a success for a published chunk and an
/// error for an unpublished one; and a message identifier that is in use is
/// refused. `None` means that the request is admitted.
pub open spec fn put_verdict(
    state: IDataHandlerView,
    address: IDataAddress,
    message_id: MessageId,
) -> Option<Result<(), NdError>> {
    if state.metadata.contains_key(address) {
        if address.spec_is_pub() {
            Some(Ok(()))
        } else {
            Some(Err(NdError::DataExists))
        }
    } else if state.ops.contains_key(message_id) {
        Some(Err(NdError::DuplicateMessageId))
    } else {
        None
    }
}

/// What becomes of a request that needs a chunk to be there.
pub enum Admission {
    /// The request is refused with an error.
    Refuse(NdError),
    /// The request is dropped without an answer.
    Ignore,
    /// An operation is opened towards the holders of the chunk.
    Open,
}

/// What becomes of a request to fetch or to delete the chunk at `address`:
/// without metadata there is no such data; a chunk with an owner is for a
/// requester with the owner's key only, and a requester without a key gets no
/// answer; a message identifier that is in use is refused.
pub open spec fn access_verdict(
    state: IDataHandlerView,
    requester: PublicId,
    address: IDataAddress,
    message_id: MessageId,
) -> Admission {
    if !state.metadata.contains_key(address) {
        Admission::Refuse(NdError::NoSuchData)
    } else if state.metadata[address].owner is Some && spec_own_key(requester) is None {
        Admission::Ignore
    } else if state.metadata[address].owner is Some && spec_own_key(requester)
        != state.metadata[address].owner {
        Admission::Refuse(NdError::AccessDenied)
    } else if state.ops.contains_key(message_id) {
        Admission::Refuse(NdError::DuplicateMessageId)
    } else {
        Admission::Open
    }
}

/// What a store holds for `key`, if anything.
pub open spec fn lookup<K, V>(map: Map<K, V>, key: K) -> Option<V> {
    if map.contains_key(key) {
        Some(map[key])
    } else {
        None
    }
}

/// The operations after the operation `op` for `message_id` has taken in an
/// answer: an operation that has concluded is gone, another stays as it now is.
pub open spec fn after_response(
    ops: Map<MessageId, IDataOpView>,
    message_id: MessageId,
    op: IDataOpView,
) -> Map<MessageId, IDataOpView> {
    if op.concluded() {
        ops.remove(message_id)
    } else {
        ops.insert(message_id, op)
    }
}

/// The metadata of a chunk after `sender` has answered a request to store it:
/// `sender` is noted as a holder; and for an unpublished chunk that a client or an
/// application stores, the requester's own key is noted as the owner.
pub open spec fn put_resp_metadata(
    before: Option<ChunkMetadataView>,
    address: IDataAddress,
    client: Option<PublicId>,
    sender: XorName,
) -> ChunkMetadataView {
    let base = match before {
        Some(metadata) => metadata,
        None => ChunkMetadataView::empty(),
    };
    ChunkMetadataView {
        holders: if base.holders.contains(sender) {
            base.holders
        } else {
            base.holders.push(sender)
        },
        owner: if address.spec_is_unpub() && client is Some && spec_own_key(client->0) is Some {
            spec_own_key(client->0)
        } else {
            base.owner
        },
    }
}

/// The metadata of a chunk after `holder` has no copy of it any more.
pub open spec fn without_holder(before: ChunkMetadataView, holder: XorName) -> ChunkMetadataView {
    ChunkMetadataView { holders: before.holders.remove_value(holder), owner: before.owner }
}

/// The metadata that is to be written after `sender` has answered a request to
/// store the chunk at `address`.
pub open spec fn put_resp_store(
    metadata: Map<IDataAddress, ChunkMetadataView>,
    address: IDataAddress,
    client: Option<PublicId>,
    sender: XorName,
) -> Map<IDataAddress, ChunkMetadataView> {
    metadata.insert(address, put_resp_metadata(lookup(metadata, address), address, client, sender))
}

/// The metadata that is to be written after `sender` has answered a request to
/// delete the chunk at `address`: after a success `sender` is no holder any more,
/// and a chunk without holders has no record.
pub open spec fn delete_resp_store(
    metadata: Map<IDataAddress, ChunkMetadataView>,
    address: IDataAddress,
    sender: XorName,
    result: Result<(), NdError>,
) -> Map<IDataAddress, ChunkMetadataView> {
    if result is Ok && metadata.contains_key(address) {
        put_result(metadata, address, without_holder(metadata[address], sender))
    } else {
        metadata
    }
}

/// Whether `after` is what the metadata is once `wanted` was to be written over
/// `before`, given how the write went. A write that went well leaves `wanted`. A
/// write that failed leaves `before`; only where the write was to take the record
/// of `address` out, the record may be gone all the same.
pub open spec fn store_written(
    before: Map<IDataAddress, ChunkMetadataView>,
    wanted: Map<IDataAddress, ChunkMetadataView>,
    after: Map<IDataAddress, ChunkMetadataView>,
    address: IDataAddress,
    written: Result<(), StoreError>,
) -> bool {
    if written is Ok {
        after == wanted
    } else {
        after == before || (wanted == before.remove(address) && after == wanted)
    }
}

/// Whether an answer to a request to store or to delete, once taken in, makes
/// the coordinator write metadata: every answer to a request to store does; of
/// the answers to a request to delete, a success for a chunk that has a record.
pub open spec fn mutation_resp_writes(
    metadata: Map<IDataAddress, ChunkMetadataView>,
    op: IDataOpView,
    address: IDataAddress,
    result: Result<(), NdError>,
) -> bool {
    op.op_type() == OpType::Put || (result is Ok && metadata.contains_key(address))
}

/// Whether the operation for `message_id` can be brought to its end: a request to
/// delete that has concluded may have met with one error at most.
pub open spec fn delete_resp_admitted(state: IDataHandlerView, message_id: MessageId) -> bool {
    state.ops.contains_key(message_id) && state.ops[message_id].concluded() ==> errors_of(
        state.ops[message_id].entries,
    ).len() <= 1
}

/// Whether the answer of `sender` to a request to store or to delete can be
/// taken in: it may not bring a request to delete to its end with more than one
/// error among the answers.
pub open spec fn mutation_resp_admitted(
    state: IDataHandlerView,
    sender: XorName,
    result: Result<(), NdError>,
    message_id: MessageId,
) -> bool {
    match mutation_resp_op(state, sender, result, message_id) {
        None => true,
        Some((_, op)) => !(op.op_type() == OpType::Delete && op.concluded() && errors_of(
            op.entries,
        ).len() > 1),
    }
}

/// Whether a message can be handed to the coordinator: an answer to a request to
/// store or to delete must be one that can be taken in.
pub open spec fn vault_rpc_admitted(state: IDataHandlerView, src: SrcLocation, rpc: Rpc) -> bool {
    match rpc {
        Rpc::Response { response: Response::Mutation(result), message_id, .. } => {
            mutation_resp_admitted(state, spec_source_name(src), result, message_id)
        },
        _ => true,
    }
}

/// What the requester is told when a request to delete has concluded: success if
/// no holder answered with an error, else the first error in the order of the
/// holders.
pub open spec fn delete_outcome(op: IDataOpView) -> Result<(), NdError> {
    match op.first_error() {
        Some(error) => Err(error),
        None => Ok(()),
    }
}

/// The answer of `sender` to a request to store or to delete, as far as it is
/// taken in: the address of the chunk, and the operation with the answer noted.
/// Nothing is taken in where no operation is under way for `message_id`, where the
/// operation fetches a chunk, or where `sender` is none of its holders.
pub open spec fn mutation_resp_op(
    state: IDataHandlerView,
    sender: XorName,
    result: Result<(), NdError>,
    message_id: MessageId,
) -> Option<(IDataAddress, IDataOpView)> {
    if !state.ops.contains_key(message_id) {
        None
    } else {
        match mutation_resp_address(state.ops[message_id], sender) {
            None => None,
            Some(address) => Some(
                (address, state.ops[message_id].answered(sender, result_error(result))),
            ),
        }
    }
}

/// The metadata that is to be written after an answer to a request to store or to
/// delete was taken in.
pub open spec fn mutation_resp_store(
    metadata: Map<IDataAddress, ChunkMetadataView>,
    op: IDataOpView,
    address: IDataAddress,
    sender: XorName,
    result: Result<(), NdError>,
) -> Map<IDataAddress, ChunkMetadataView> {
    if op.op_type() == OpType::Put {
        put_resp_store(metadata, address, Some(op.client), sender)
    } else {
        delete_resp_store(metadata, address, sender, result)
    }
}

/// What follows an answer to a request to store or to delete: once the operation
/// has concluded, the requester's client handlers are told the outcome, with
/// nothing to refund; before that, nothing.
pub open spec fn mutation_resp_action(
    op: IDataOpView,
    address: IDataAddress,
    message_id: MessageId,
) -> Option<ActionView> {
    if op.concluded() {
        Some(
            mutation_reply(
                address.spec_name(),
                op.client,
                if op.op_type() == OpType::Put {
                    Ok(())
                } else {
                    delete_outcome(op)
                },
                message_id,
                None,
            ),
        )
    } else {
        None
    }
}

/// Whether the chunk at `address` is known to be held by `holder`.
pub open spec fn held_by(
    metadata: Map<IDataAddress, ChunkMetadataView>,
    address: IDataAddress,
    holder: XorName,
) -> bool {
    metadata.contains_key(address) && metadata[address].holders.contains(holder)
}

/// What is kept of a chunk's metadata once `holder` is gone: nothing if it was
/// the only holder.
pub open spec fn repaired(before: ChunkMetadataView, holder: XorName) -> Option<ChunkMetadataView> {
    if without_holder(before, holder).holders.len() == 0 {
        None
    } else {
        Some(without_holder(before, holder))
    }
}

/// Whether `list` names the chunks that `holder` held, each once, with the
/// holders that are left.
pub open spec fn is_repair_list(
    list: Seq<(IDataAddress, NameSet)>,
    metadata: Map<IDataAddress, ChunkMetadataView>,
    holder: XorName,
) -> bool {
    &&& forall|i: int|
        0 <= i < list.len() ==> held_by(metadata, (#[trigger] list[i]).0, holder) && list[i].1.wf()
            && list[i].1.seq() == metadata[list[i].0].holders.remove_value(holder)
    &&& forall|address: IDataAddress| #[trigger]
        held_by(metadata, address, holder) ==> exists|i: int|
            0 <= i < list.len() && (#[trigger] list[i]).0 == address
    &&& forall|i: int, j: int|
        0 <= i < list.len() && 0 <= j < list.len() && i != j ==> (#[trigger] list[i]).0 != (
        #[trigger] list[j]).0
}

/// Whether `after` is `before` with `holder` taken out of the records of its
/// chunks, as far as the records could be written: each record is either as it
/// was, or it is a record of a chunk that `holder` held and is now without it.
pub open spec fn is_repaired_store(
    after: Map<IDataAddress, ChunkMetadataView>,
    before: Map<IDataAddress, ChunkMetadataView>,
    holder: XorName,
) -> bool {
    forall|address: IDataAddress|
        #![trigger lookup(after, address)]
        lookup(after, address) == lookup(before, address) || (held_by(before, address, holder)
            && lookup(after, address) == repaired(before[address], holder))
}

/// Whether `after` is `before` with `holder` taken out of the records of all its
/// chunks.
pub open spec fn is_fully_repaired_store(
    after: Map<IDataAddress, ChunkMetadataView>,
    before: Map<IDataAddress, ChunkMetadataView>,
    holder: XorName,
) -> bool {
    forall|address: IDataAddress|
        #![trigger lookup(after, address)]
        lookup(after, address) == if held_by(before, address, holder) {
            repaired(before[address], holder)
        } else {
            lookup(before, address)
        }
}

/// The state in which an operation for `request` of `requester` towards
/// `targets` has been opened under `message_id`.
pub open spec fn opened(
    before: IDataHandlerView,
    requester: PublicId,
    request: IDataRequestView,
    targets: Seq<XorName>,
    message_id: MessageId,
) -> IDataHandlerView {
    before.with_ops(before.ops.insert(message_id, new_op(requester, request, targets)))
}

/// What a request to store a chunk leads to. A request that is answered at once
/// changes nothing, and who is refused gets the cost of storing back. Else an
/// operation is opened towards the holders that are chosen among `adults` and
/// `elders`, and the request goes to them.
pub open spec fn put_req_post(
    before: IDataHandlerView,
    after: IDataHandlerView,
    action: Option<ActionView>,
    requester: PublicId,
    data: IDataView,
    message_id: MessageId,
    adults: Seq<XorName>,
    elders: Seq<XorName>,
) -> bool {
    let targets = first_occurrences(holder_list(adults, elders, before.full_adults));
    match put_verdict(before, data.address, message_id) {
        Some(result) => after == before && action == Some(
            mutation_reply(
                before.id.name,
                requester,
                result,
                message_id,
                spec_refund_for_put(result),
            ),
        ),
        None => after == opened(before, requester, IDataRequestView::Put(data), targets, message_id)
            && action == Some(
            send_to_holders(before.id, targets, IDataRequestView::Put(data), message_id),
        ),
    }
}

/// What a request to delete an unpublished chunk leads to. A request that is
/// refused or dropped changes nothing; deleting is free, so nothing is refunded.
/// Else an operation is opened towards the holders of the chunk, and the request
/// goes to them.
pub open spec fn delete_req_post(
    before: IDataHandlerView,
    after: IDataHandlerView,
    action: Option<ActionView>,
    requester: PublicId,
    address: IDataAddress,
    message_id: MessageId,
) -> bool {
    match access_verdict(before, requester, address, message_id) {
        Admission::Refuse(error) => after == before && action == Some(
            mutation_reply(before.id.name, requester, Err(error), message_id, None),
        ),
        Admission::Ignore => after == before && action is None,
        Admission::Open => after == opened(
            before,
            requester,
            IDataRequestView::DeleteUnpub(address),
            before.metadata[address].holders,
            message_id,
        ) && action == Some(
            send_to_holders(
                before.id,
                before.metadata[address].holders,
                IDataRequestView::DeleteUnpub(address),
                message_id,
            ),
        ),
    }
}

/// What a request to fetch a chunk leads to. A request that is refused or dropped
/// changes nothing. Else an operation is opened towards the holders of the chunk,
/// and the request goes to them.
pub open spec fn get_req_post(
    before: IDataHandlerView,
    after: IDataHandlerView,
    action: Option<ActionView>,
    requester: PublicId,
    address: IDataAddress,
    message_id: MessageId,
) -> bool {
    match access_verdict(before, requester, address, message_id) {
        Admission::Refuse(error) => after == before && action == Some(
            get_reply(before.id.name, requester, Err(error), message_id),
        ),
        Admission::Ignore => after == before && action is None,
        Admission::Open => after == opened(
            before,
            requester,
            IDataRequestView::Get(address),
            before.metadata[address].holders,
            message_id,
        ) && action == Some(
            send_to_holders(
                before.id,
                before.metadata[address].holders,
                IDataRequestView::Get(address),
                message_id,
            ),
        ),
    }
}

/// What fetching a chunk for a further copy leads to. Without a holder to fetch
/// from, nothing happens. A message identifier that is in use is refused, towards
/// the data handlers of our section. Else an operation is opened towards
/// `holders`, and the request goes to them.
pub open spec fn copy_req_post(
    before: IDataHandlerView,
    after: IDataHandlerView,
    action: Option<ActionView>,
    requester: PublicId,
    address: IDataAddress,
    holders: Seq<XorName>,
    message_id: MessageId,
) -> bool {
    if holders.len() == 0 {
        after == before && action is None
    } else if before.ops.contains_key(message_id) {
        after == before && action == Some(
            copy_reply(requester, Err(NdError::DuplicateMessageId), message_id),
        )
    } else {
        after == opened(before, requester, IDataRequestView::Get(address), holders, message_id)
            && action == Some(
            send_to_holders(before.id, holders, IDataRequestView::Get(address), message_id),
        )
    }
}

/// What the answer of `sender` to a request to store or to delete leads to. An
/// answer that is not taken in changes nothing. Else the answer is noted in the
/// operation, which is gone once it has concluded; the metadata of the chunk
/// follows, and how writing it went is noted as the outcome of the last write;
/// and once the operation has concluded the requester's client handlers are told
/// the outcome.
pub open spec fn mutation_resp_post(
    before: IDataHandlerView,
    after: IDataHandlerView,
    action: Option<ActionView>,
    sender: XorName,
    result: Result<(), NdError>,
    message_id: MessageId,
) -> bool {
    match mutation_resp_op(before, sender, result, message_id) {
        None => after == before && action is None,
        Some((address, op)) => {
            &&& after.id == before.id
            &&& after.full_adults == before.full_adults
            &&& after.ops == after_response(before.ops, message_id, op)
            &&& if mutation_resp_writes(before.metadata, op, address, result) {
                store_written(
                    before.metadata,
                    mutation_resp_store(before.metadata, op, address, sender, result),
                    after.metadata,
                    address,
                    after.last_write,
                )
            } else {
                after.metadata == before.metadata && after.last_write == before.last_write
            }
            &&& action == mutation_resp_action(op, address, message_id)
        },
    }
}

/// What the answer of `sender` to a request to fetch a chunk leads to. Without an
/// operation for `message_id` nothing happens. Else the answer is noted if the
/// operation fetches a chunk and `sender` is one of its holders; the first answer
/// that is noted is passed on, to the data handlers of our section where a node
/// has asked, else to the client handlers of the requester; and an operation that
/// has concluded is gone.
pub open spec fn get_resp_post(
    before: IDataHandlerView,
    after: IDataHandlerView,
    action: Option<ActionView>,
    sender: XorName,
    result: Result<IDataView, NdError>,
    message_id: MessageId,
) -> bool {
    if before.ops.contains_key(message_id) {
        let op = before.ops[message_id];
        after == before.with_ops(
            after_response(
                before.ops,
                message_id,
                if get_resp_accepted(op, sender) {
                    op.answered(sender, result_error(result))
                } else {
                    op
                },
            ),
        ) && action == get_resp_action(op, sender, result, message_id, op.client.spec_is_node())
    } else {
        after == before && action is None
    }
}

/// The order to store a further copy of the chunk at `address`, for the new
/// holders that are chosen among `adults` and `elders`; no order for a chunk
/// without metadata, nor where nobody is there to take a copy.
pub open spec fn duplicate_order(
    state: IDataHandlerView,
    address: IDataAddress,
    adults: Seq<XorName>,
    elders: Seq<XorName>,
    message_id: MessageId,
) -> Option<ActionView> {
    if !state.metadata.contains_key(address) {
        None
    } else {
        let holders = state.metadata[address].holders;
        let targets = first_occurrences(
            new_holder_list(holders, adults, elders, state.full_adults),
        );
        if targets.len() == 0 {
            None
        } else {
            Some(
                ActionView::SendToPeers {
                    targets: targets.to_set(),
                    rpc: RpcView::Duplicate {
                        address,
                        holders: holders.to_set(),
                        message_id,
                        proof: None,
                    },
                },
            )
        }
    }
}

/// What follows an action of the coordinator where chunks are copied: once a
/// chunk has been fetched for a further copy, the copy is ordered from new
/// holders, if there are any to take it; every other action stays as it is.
pub open spec fn duplication_follow_up(
    state: IDataHandlerView,
    action: Option<ActionView>,
    adults: Seq<XorName>,
    elders: Seq<XorName>,
) -> Option<ActionView> {
    match action {
        Some(
            ActionView::RespondToOurDataHandlers {
                rpc: RpcView::Response { response: ResponseView::GetIData(Ok(data)), message_id, .. },
            },
        ) => match duplicate_order(state, data.address, adults, elders, message_id) {
            Some(order) => Some(order),
            None => action,
        },
        _ => action,
    }
}

/// What the report of `sender` on a further copy of the chunk at `address` leads
/// to, given how writing the metadata went (`written`). After a success `sender`
/// is noted as a holder of the chunk; where that cannot be written, the metadata
/// stays as it was and the error is handed on; how the write went is also noted
/// as the outcome of the last write. The report of a failure changes nothing, and
/// there is nothing to write. Operations and full adults stay as they were in
/// every case.
pub open spec fn duplication_complete_outcome(
    before: IDataHandlerView,
    after: IDataHandlerView,
    sender: XorName,
    address: IDataAddress,
    result: Result<(), NdError>,
    written: Result<(), StoreError>,
) -> bool {
    &&& after.id == before.id
    &&& after.ops == before.ops
    &&& after.full_adults == before.full_adults
    &&& if result is Ok && written is Ok {
        after.metadata == put_resp_store(before.metadata, address, None, sender)
    } else {
        after.metadata == before.metadata
    }
    &&& result is Err ==> written is Ok
    &&& after.last_write == if result is Ok {
        written
    } else {
        before.last_write
    }
}

/// What a message to the coordinator leads to: a request for a chunk is admitted
/// or answered; an answer about a chunk is taken in, from the node that has sent
/// it; the order to copy a chunk makes this node fetch it; the report of a copy
/// makes the node that has sent it a holder; any other message is left alone.
pub open spec fn vault_rpc_post(
    before: IDataHandlerView,
    after: IDataHandlerView,
    action: Option<ActionView>,
    src: SrcLocation,
    rpc: Rpc,
    adults: Seq<XorName>,
    elders: Seq<XorName>,
) -> bool {
    match rpc {
        Rpc::Request { request: Request::IData(IDataRequest::Put(data)), requester, message_id, .. } => {
            put_req_post(before, after, action, requester, data@, message_id, adults, elders)
        },
        Rpc::Request {
            request: Request::IData(IDataRequest::Get(address)),
            requester,
            message_id,
            ..
        } => get_req_post(before, after, action, requester, address, message_id),
        Rpc::Request {
            request: Request::IData(IDataRequest::DeleteUnpub(address)),
            requester,
            message_id,
            ..
        } => delete_req_post(before, after, action, requester, address, message_id),
        Rpc::Response { response: Response::Mutation(result), message_id, .. } => {
            mutation_resp_post(before, after, action, spec_source_name(src), result, message_id)
        },
        Rpc::Response { response: Response::GetIData(result), message_id, .. } => get_resp_post(
            before,
            after,
            action,
            spec_source_name(src),
            result_view(result),
            message_id,
        ),
        Rpc::Duplicate { address, holders, message_id, .. } => copy_req_post(
            before,
            after,
            action,
            PublicId::Node(before.id),
            address,
            holders.seq(),
            message_id,
        ),
        Rpc::DuplicationComplete { address, response: Response::Mutation(result), .. } => {
            action is None && match src {
                SrcLocation::Node(sender) => if result is Ok {
                    duplication_complete_outcome(
                        before,
                        after,
                        sender,
                        address,
                        result,
                        after.last_write,
                    )
                } else {
                    after == before
                },
                SrcLocation::Section(_) => after == before,
            }
        },
        _ => after == before && action is None,
    }
}

/// The coordinator of the operations on immutable chunks.
pub struct IDataHandler {
    id: NodePublicId,
    idata_ops: BTreeMap<u128, IDataOp>,
    metadata: MetadataStore,
    full_adults: FullAdults,
    last_write: Result<(), StoreError>,
}

impl View for IDataHandler {
    type V = IDataHandlerView;

    closed spec fn view(&self) -> IDataHandlerView {
        IDataHandlerView {
            id: self.id,
            ops: Map::new(
                |id: MessageId| self.idata_ops@.contains_key(id.0),
                |id: MessageId| self.idata_ops@[id.0]@,
            ),
            metadata: self.metadata@,
            full_adults: self.full_adults@,
            last_write: self.last_write,
        }
    }
}

impl IDataHandler {
    /// The stores can be written, and no operation has a holder twice.
    pub closed spec fn wf(&self) -> bool {
        &&& self.metadata.wf()
        &&& self.full_adults.wf()
        &&& forall|key: u128| #[trigger]
            self.idata_ops@.contains_key(key) ==> self.idata_ops@[key].wf()
    }

    /// In a well-formed coordinator no operation has a holder twice, and every
    /// record of the metadata names at least one holder and none twice.
    pub proof fn lemma_wf(&self)
        requires
            self.wf(),
        ensures
            forall|id: MessageId| #[trigger]
                self@.ops.contains_key(id) ==> self@.ops[id].wf(),
            forall|address: IDataAddress| #[trigger]
                self@.metadata.contains_key(address) ==> self@.metadata[address].holders.len() > 0
                    && self@.metadata[address].wf(),
    {
    }

    /// A coordinator for the node `id` without operations, over the two stores.
    pub fn new(id: NodePublicId, metadata: PickleDb, full_adults: PickleDb) -> (r: IDataHandler)
        requires
            kv_dumps_cleanly(metadata),
            kv_dumps_cleanly(full_adults),
        ensures
            r.wf(),
            r@.id == id,
            r@.ops == Map::<MessageId, IDataOpView>::empty(),
            r@.metadata == records_of(kv_entries(metadata)),
            r@.full_adults == full_names_of(kv_entries(full_adults)),
            r@.last_write is Ok,
    {
        let r = IDataHandler {
            id,
            idata_ops: BTreeMap::new(),
            metadata: MetadataStore::new(metadata),
            full_adults: FullAdults::new(full_adults),
            last_write: Ok(()),
        };
        assert(r@.ops =~= Map::<MessageId, IDataOpView>::empty());
        r
    }

    /// Opens the two stores under the given paths and starts a coordinator for the
    /// node `id` over them. The directories of the files must exist. A coordinator
    /// over new stores knows of no chunk and of no adult that is full; one over
    /// loaded stores knows what the files hold. No operation is under way.
    pub fn open(
        id: NodePublicId,
        metadata_path: &str,
        full_adults_path: &str,
        init_mode: Init,
    ) -> (r: Result<IDataHandler, StoreError>)
        ensures
            r matches Ok(handler) ==> handler.wf() && handler@.id == id && handler@.ops == Map::<
                MessageId,
                IDataOpView,
            >::empty(),
            r matches Ok(handler) ==> (init_mode == Init::New ==> handler@.metadata == Map::<
                IDataAddress,
                ChunkMetadataView,
            >::empty() && handler@.full_adults == Set::<XorName>::empty()),
    {
        let metadata = match new_db(metadata_path, init_mode) {
            Ok(db) => db,
            Err(error) => {
                return Err(error);
            },
        };
        let full_adults = match new_db(full_adults_path, init_mode) {
            Ok(db) => db,
            Err(error) => {
                return Err(error);
            },
        };
        proof {
            if init_mode == Init::New {
                assert(records_of(no_entries()) =~= Map::<
                    IDataAddress,
                    ChunkMetadataView,
                >::empty());
                assert(full_names_of(no_entries()) =~= Set::<XorName>::empty());
            }
        }
        Ok(IDataHandler::new(id, metadata, full_adults))
    }

    /// The operation that is under way for `message_id`, if there is one.
    pub fn idata_op(&self, message_id: &MessageId) -> (r: Option<&IDataOp>)
        ensures
            match r {
                Some(op) => self@.ops.contains_key(*message_id) && self@.ops[*message_id] == op@,
                None => !self@.ops.contains_key(*message_id),
            },
            self.wf() ==> (r matches Some(op) ==> op.wf()),
    {
        self.idata_ops.get(&message_id.0)
    }

    /// Opens the operation `op` under `message_id`, which must be free.
    fn open_op(&mut self, message_id: MessageId, op: IDataOp)
        requires
            old(self).wf(),
            op.wf(),
            !old(self)@.ops.contains_key(message_id),
        ensures
            final(self).wf(),
            final(self)@ == old(self)@.with_ops(old(self)@.ops.insert(message_id, op@)),
    {
        let _ = self.idata_ops.insert(message_id.0, op);
        assert(self@.ops =~= old(self)@.ops.insert(message_id, op@));
    }

    /// How the last write of metadata that was tried has gone.
    pub fn last_write(&self) -> (r: Result<(), StoreError>)
        ensures
            r == self@.last_write,
    {
        self.last_write
    }

    /// Hands out how the last write of metadata that was tried has gone, and
    /// takes the failure as dealt with.
    pub fn take_last_write(&mut self) -> (r: Result<(), StoreError>)
        ensures
            r == old(self)@.last_write,
            final(self)@ == old(self)@.with_last_write(Ok(())),
            final(self).wf() == old(self).wf(),
    {
        let r = self.last_write;
        self.last_write = Ok(());
        r
    }

    /// Whether the answer of `sender` to a request to store or to delete can be
    /// taken in.
    pub fn admits_mutation_resp(
        &self,
        sender: &XorName,
        result: &Result<(), NdError>,
        message_id: &MessageId,
    ) -> (r: bool)
        requires
            self.wf(),
        ensures
            r == mutation_resp_admitted(self@, *sender, *result, *message_id),
    {
        let op = match self.idata_op(message_id) {
            None => {
                return true;
            },
            Some(op) => op,
        };
        let mut noted = op.duplicate();
        if noted.handle_mutation_resp(*sender, *result).is_none() {
            return true;
        }
        match noted.op_type() {
            OpType::Delete => !(noted.concluded() && noted.get_any_errors().len() > 1),
            _ => true,
        }
    }

    /// Whether the message `rpc` from `src` can be handed to `handle_vault_rpc`.
    pub fn admits_vault_rpc(&self, src: SrcLocation, rpc: &Rpc) -> (r: bool)
        requires
            self.wf(),
        ensures
            r == vault_rpc_admitted(self@, src, *rpc),
    {
        match rpc {
            Rpc::Response { response: Response::Mutation(result), message_id, .. } => {
                let sender = get_source_name(src);
                self.admits_mutation_resp(&sender, result, message_id)
            },
            _ => true,
        }
    }

    /// Takes the operation for `message_id` out if it has concluded, and gives it.
    /// Every other operation stays, and so does one that has not concluded.
    pub fn remove_idata_op_if_concluded(&mut self, message_id: &MessageId) -> (r: Option<IDataOp>)
        requires
            old(self).wf(),
        ensures
            final(self).wf(),
            r is Some <==> old(self)@.ops.contains_key(*message_id) && old(
                self,
            )@.ops[*message_id].concluded(),
            match r {
                Some(op) => old(self)@.ops.contains_key(*message_id) && op@ == old(
                    self,
                )@.ops[*message_id] && op@.concluded() && final(self)@ == old(self)@.with_ops(
                    old(self)@.ops.remove(*message_id),
                ),
                None => final(self)@ == old(self)@ && (old(self)@.ops.contains_key(*message_id)
                    ==> !old(self)@.ops[*message_id].concluded()),
            },
    {
        let is_concluded = match self.idata_ops.get(&message_id.0) {
            Some(op) => op.concluded(),
            None => false,
        };
        if is_concluded {
            let r = self.idata_ops.remove(&message_id.0);
            assert(self@.ops =~= old(self)@.ops.remove(*message_id));
            return r;
        }
        None
    }

    /// The first `wanted` of `candidates` that can take a copy of a chunk that
    /// `taken` hold already: who is a holder cannot, nor can an adult that is full
    /// where `respect_full` says to look at that.
    fn pick(
        &self,
        candidates: &Vec<XorName>,
        respect_full: bool,
        taken: &NameSet,
        wanted: usize,
    ) -> (r: Vec<XorName>)
        ensures
            r@ == pick_holders(
                candidates@,
                unavailable(
                    if respect_full {
                        self@.full_adults
                    } else {
                        Set::empty()
                    },
                    taken.seq(),
                ),
                wanted as nat,
            ),
            r@.len() <= wanted,
    {
        let ghost busy = unavailable(
            if respect_full {
                self@.full_adults
            } else {
                Set::empty()
            },
            taken.seq(),
        );
        let mut out: Vec<XorName> = Vec::new();
        let mut i: usize = 0;
        proof {
            assert(candidates@.subrange(0, candidates@.len() as int) =~= candidates@);
            assert(out@ + pick_holders(candidates@, busy, wanted as nat) =~= pick_holders(
                candidates@,
                busy,
                wanted as nat,
            ));
        }
        while i < candidates.len() && out.len() < wanted
            invariant
                i <= candidates.len(),
                out@.len() <= wanted,
                busy == unavailable(
                    if respect_full {
                        self@.full_adults
                    } else {
                        Set::empty()
                    },
                    taken.seq(),
                ),
                out@ + pick_holders(
                    candidates@.subrange(i as int, candidates@.len() as int),
                    busy,
                    (wanted - out@.len()) as nat,
                ) == pick_holders(candidates@, busy, wanted as nat),
            decreases candidates.len() - i,
        {
            let ghost rest = candidates@.subrange(i as int, candidates@.len() as int);
            let ghost before = out@;
            assert(rest.drop_first() =~= candidates@.subrange(i + 1, candidates@.len() as int));
            assert(rest[0] == candidates@[i as int]);
            let is_full = respect_full && self.full_adults.contains(&candidates[i]);
            if !is_full && !taken.contains(&candidates[i]) {
                out.push(candidates[i]);
                assert(out@ + pick_holders(
                    rest.drop_first(),
                    busy,
                    (wanted - out@.len()) as nat,
                ) =~= before + pick_holders(rest, busy, (wanted - before.len()) as nat));
            }
            i = i + 1;
        }
        proof {
            let rest = candidates@.subrange(i as int, candidates@.len() as int);
            assert(pick_holders(rest, busy, (wanted - out@.len()) as nat) =~= Seq::<
                XorName,
            >::empty());
            assert(out@ =~= pick_holders(candidates@, busy, wanted as nat));
        }
        out
    }

    /// The holders for a new chunk, given the adults and the elders of the section,
    /// each list ordered by closeness to the chunk's name: the first three adults
    /// that are not full; where these are fewer than three, the closest elders fill
    /// up.
    pub fn make_holder_list_for_idata(&self, adults: &Vec<XorName>, elders: &Vec<XorName>) -> (r:
        Vec<XorName>)
        ensures
            r@ == holder_list(adults@, elders@, self@.full_adults),
            r@.len() <= IMMUTABLE_DATA_COPY_COUNT,
    {
        let nobody = NameSet::new();
        let mut closest_adults = self.pick(adults, true, &nobody, IMMUTABLE_DATA_COPY_COUNT);
        let mut closest_elders = self.pick(
            elders,
            false,
            &nobody,
            IMMUTABLE_DATA_COPY_COUNT - closest_adults.len(),
        );
        proof {
            assert(unavailable(self@.full_adults, nobody.seq()) =~= self@.full_adults);
            assert(unavailable(Set::empty(), nobody.seq()) =~= Set::<XorName>::empty());
        }
        closest_adults.append(&mut closest_elders);
        closest_adults
    }

    /// The new holders for a chunk that `holders` hold already, given the adults
    /// and the elders of the section, each list ordered by closeness to the chunk's
    /// name.
    pub fn get_new_holders_for_chunk(
        &self,
        holders: &NameSet,
        adults: &Vec<XorName>,
        elders: &Vec<XorName>,
    ) -> (r: Vec<XorName>)
        requires
            holders.wf(),
        ensures
            r@ == new_holder_list(holders.seq(), adults@, elders@, self@.full_adults),
            r@.len() <= IMMUTABLE_DATA_COPY_COUNT,
    {
        let held = holders.len();
        let missing: usize = if held >= IMMUTABLE_DATA_COPY_COUNT {
            0
        } else {
            IMMUTABLE_DATA_COPY_COUNT - held
        };
        let mut closest_adults = self.pick(adults, true, holders, missing);
        let mut closest_elders = self.pick(elders, false, holders, missing - closest_adults.len());
        closest_adults.append(&mut closest_elders);
        closest_adults
    }

    /// Answers a request to store or to delete at once, for the client handlers of
    /// the requester.
    fn respond_mutation(
        &self,
        requester: PublicId,
        result: Result<(), NdError>,
        message_id: MessageId,
        refund: Option<Coins>,
    ) -> (r: Option<Action>)
        ensures
            action_view(r) == Some(
                mutation_reply(self@.id.name, requester, result, message_id, refund),
            ),
    {
        Some(
            Action::RespondToClientHandlers {
                sender: self.id.name,
                rpc: Rpc::Response {
                    requester,
                    response: Response::Mutation(result),
                    message_id,
                    refund,
                },
            },
        )
    }

    /// Opens an operation for `request` towards `targets` and passes the request
    /// on to them.
    fn open_towards(
        &mut self,
        requester: PublicId,
        request: IDataRequest,
        targets: NameSet,
        message_id: MessageId,
    ) -> (r: Option<Action>)
        requires
            old(self).wf(),
            targets.wf(),
            !old(self)@.ops.contains_key(message_id),
        ensures
            final(self).wf(),
            final(self)@ == old(self)@.with_ops(
                old(self)@.ops.insert(message_id, new_op(requester, request@, targets.seq())),
            ),
            action_view(r) == Some(
                send_to_holders(old(self)@.id, targets.seq(), request@, message_id),
            ),
    {
        let sent = request.duplicate();
        let op = IDataOp::new(requester, request, &targets);
        self.open_op(message_id, op);
        Some(
            Action::SendToPeers {
                targets,
                rpc: Rpc::Request {
                    request: Request::IData(sent),
                    requester: PublicId::Node(self.id),
                    message_id,
                    proof: None,
                },
            },
        )
    }

    /// Handles a request to store a chunk. A chunk that is known already is not
    /// stored again: that is a success for a published chunk and `DataExists` for
    /// an unpublished one. Else holders are chosen among `adults` and `elders`
    /// (each ordered by closeness to the chunk's name), an operation is opened, and
    /// the request goes to the holders; a message identifier that is in use is
    /// refused. Whoever is refused gets the cost of storing back.
    pub fn handle_put_idata_req(
        &mut self,
        requester: PublicId,
        data: IData,
        message_id: MessageId,
        adults: &Vec<XorName>,
        elders: &Vec<XorName>,
    ) -> (r: Option<Action>)
        requires
            old(self).wf(),
        ensures
            final(self).wf(),
            put_req_post(
                old(self)@,
                final(self)@,
                action_view(r),
                requester,
                data@,
                message_id,
                adults@,
                elders@,
            ),
    {
        if self.metadata.has(&data.address()) {
            let result: Result<(), NdError> = if data.is_pub() {
                Ok(())
            } else {
                Err(NdError::DataExists)
            };
            let refund = get_refund_for_put(&result);
            return self.respond_mutation(requester, result, message_id, refund);
        }
        let holders = self.make_holder_list_for_idata(adults, elders);
        let target_holders = NameSet::from_list(&holders);
        if self.idata_ops.contains_key(&message_id.0) {
            let result: Result<(), NdError> = Err(NdError::DuplicateMessageId);
            let refund = get_refund_for_put(&result);
            return self.respond_mutation(requester, result, message_id, refund);
        }
        self.open_towards(requester, IDataRequest::Put(data), target_holders, message_id)
    }

    /// The metadata of the chunk at `address`. Without metadata there is no such
    /// data.
    pub fn get_metadata_for(&self, address: &IDataAddress) -> (r: Result<ChunkMetadata, NdError>)
        ensures
            match r {
                Ok(m) => m.wf() && self@.metadata.contains_key(*address)
                    && self@.metadata[*address] == m@,
                Err(e) => e == NdError::NoSuchData && !self@.metadata.contains_key(*address),
            },
    {
        match self.metadata.get(address) {
            Some(metadata) => Ok(metadata),
            None => Err(NdError::NoSuchData),
        }
    }

    /// Answers a request to fetch a chunk at once, for the client handlers of the
    /// requester.
    fn respond_get(
        &self,
        requester: PublicId,
        result: Result<IData, NdError>,
        message_id: MessageId,
    ) -> (r: Option<Action>)
        ensures
            action_view(r) == Some(
                get_reply(self@.id.name, requester, result_view(result), message_id),
            ),
    {
        Some(
            Action::RespondToClientHandlers {
                sender: self.id.name,
                rpc: Rpc::Response {
                    requester,
                    response: Response::GetIData(result),
                    message_id,
                    refund: None,
                },
            },
        )
    }

    /// Decides what becomes of a request to fetch or to delete the chunk at
    /// `address`; for a request that is admitted, gives the holders of the chunk.
    fn check_access(
        &self,
        requester: &PublicId,
        address: &IDataAddress,
        message_id: &MessageId,
    ) -> (r: (Admission, NameSet))
        ensures
            r.0 == access_verdict(self@, *requester, *address, *message_id),
            r.1.wf(),
            r.0 is Open ==> r.1.seq() == self@.metadata[*address].holders,
    {
        let metadata = match self.get_metadata_for(address) {
            Ok(metadata) => metadata,
            Err(error) => {
                return (Admission::Refuse(error), NameSet::new());
            },
        };
        if let Some(data_owner) = metadata.owner {
            match own_key(requester) {
                None => {
                    return (Admission::Ignore, NameSet::new());
                },
                Some(request_key) => {
                    if !data_owner.same(&request_key) {
                        return (Admission::Refuse(NdError::AccessDenied), NameSet::new());
                    }
                },
            }
        }
        if self.idata_ops.contains_key(&message_id.0) {
            return (Admission::Refuse(NdError::DuplicateMessageId), NameSet::new());
        }
        (Admission::Open, metadata.holders)
    }

    /// Handles a request to delete an unpublished chunk. Without metadata there is
    /// no such data; a chunk with an owner is deleted for a requester with the
    /// owner's key only; a message identifier that is in use is refused. Else an
    /// operation is opened and the request goes to the holders of the chunk.
    /// Deleting is free: nothing is refunded.
    pub fn handle_delete_unpub_idata_req(
        &mut self,
        requester: PublicId,
        address: IDataAddress,
        message_id: MessageId,
    ) -> (r: Option<Action>)
        requires
            old(self).wf(),
        ensures
            final(self).wf(),
            delete_req_post(
                old(self)@,
                final(self)@,
                action_view(r),
                requester,
                address,
                message_id,
            ),
    {
        let (admission, holders) = self.check_access(&requester, &address, &message_id);
        match admission {
            Admission::Refuse(error) => self.respond_mutation(
                requester,
                Err(error),
                message_id,
                None,
            ),
            Admission::Ignore => None,
            Admission::Open => self.open_towards(
                requester,
                IDataRequest::DeleteUnpub(address),
                holders,
                message_id,
            ),
        }
    }

    /// Opens an operation that fetches the chunk at `address` from `holders`, for a
    /// further copy. Without a holder to fetch from, nothing happens. A message
    /// identifier that is in use is refused, towards the data handlers of our
    /// section.
    pub fn get_idata_copy(
        &mut self,
        requester: PublicId,
        address: IDataAddress,
        holders: NameSet,
        message_id: MessageId,
    ) -> (r: Option<Action>)
        requires
            old(self).wf(),
            holders.wf(),
        ensures
            final(self).wf(),
            copy_req_post(
                old(self)@,
                final(self)@,
                action_view(r),
                requester,
                address,
                holders.seq(),
                message_id,
            ),
    {
        if holders.is_empty() {
            return None;
        }
        if self.idata_ops.contains_key(&message_id.0) {
            return Some(
                Action::RespondToOurDataHandlers {
                    rpc: Rpc::Response {
                        requester,
                        response: Response::GetIData(Err(NdError::DuplicateMessageId)),
                        message_id,
                        refund: None,
                    },
                },
            );
        }
        self.open_towards(requester, IDataRequest::Get(address), holders, message_id)
    }

    /// Handles a request to fetch a chunk. Without metadata there is no such data;
    /// a chunk with an owner is handed out to a requester with the owner's key
    /// only; a message identifier that is in use is refused. Else an operation is
    /// opened and the request goes to the holders of the chunk.
    pub fn handle_get_idata_req(
        &mut self,
        requester: PublicId,
        address: IDataAddress,
        message_id: MessageId,
    ) -> (r: Option<Action>)
        requires
            old(self).wf(),
        ensures
            final(self).wf(),
            get_req_post(old(self)@, final(self)@, action_view(r), requester, address, message_id),
    {
        let (admission, holders) = self.check_access(&requester, &address, &message_id);
        match admission {
            Admission::Refuse(error) => self.respond_get(requester, Err(error), message_id),
            Admission::Ignore => None,
            Admission::Open => self.open_towards(
                requester,
                IDataRequest::Get(address),
                holders,
                message_id,
            ),
        }
    }

    /// Handles the answer of `sender` to a request to store or to delete. The
    /// answer is noted in the operation for `message_id`, and the metadata of the
    /// chunk follows: who has stored is a holder now, who has deleted is none any
    /// more. Where the metadata cannot be written, the operation goes on all the
    /// same, and the failure is noted as the outcome of the last write. Once all
    /// holders have answered, the operation is gone and the client handlers of the
    /// requester are told the outcome. An answer that would bring a request to
    /// delete to its end with more than one error cannot be taken in:
    /// `admits_mutation_resp` tells.
    pub fn handle_mutation_resp(
        &mut self,
        sender: XorName,
        result: Result<(), NdError>,
        message_id: MessageId,
    ) -> (r: Option<Action>)
        requires
            old(self).wf(),
            mutation_resp_admitted(old(self)@, sender, result, message_id),
        ensures
            final(self).wf(),
            mutation_resp_post(
                old(self)@,
                final(self)@,
                action_view(r),
                sender,
                result,
                message_id,
            ),
    {
        let mut op = match self.idata_ops.remove(&message_id.0) {
            Some(op) => op,
            None => {
                assert(self@.ops =~= old(self)@.ops);
                return None;
            },
        };
        let op_type = op.op_type();
        let noted = op.handle_mutation_resp(sender, result);
        let _ = self.idata_ops.insert(message_id.0, op);
        let address = match noted {
            Some(address) => address,
            None => {
                assert(self@.ops =~= old(self)@.ops);
                return None;
            },
        };
        assert(self@.ops =~= old(self)@.ops.insert(
            message_id,
            old(self)@.ops[message_id].answered(sender, result_error(result)),
        ));
        let ghost taken = self@.ops[message_id];
        let r = match op_type {
            OpType::Put => self.handle_put_idata_resp(address, sender, &result, message_id),
            _ => self.handle_delete_unpub_idata_resp(address, sender, result, message_id),
        };
        proof {
            if taken.concluded() {
                assert(self@.ops =~= old(self)@.ops.remove(message_id));
            }
        }
        r
    }

    /// Follows up on a holder that has stored a chunk: `sender` is noted as a
    /// holder of the chunk at `idata_address`, with the owner where the chunk is
    /// unpublished. Where the metadata cannot be written, the operation goes on all
    /// the same, and the failure is noted as the outcome of the last write. If the
    /// operation for `message_id` has concluded, it is gone and the client handlers
    /// of the requester are told of the success.
    pub fn handle_put_idata_resp(
        &mut self,
        idata_address: IDataAddress,
        sender: XorName,
        _result: &Result<(), NdError>,
        message_id: MessageId,
    ) -> (r: Option<Action>)
        requires
            old(self).wf(),
        ensures
            final(self).wf(),
            final(self)@.id == old(self)@.id,
            final(self)@.full_adults == old(self)@.full_adults,
            store_written(
                old(self)@.metadata,
                put_resp_store(
                    old(self)@.metadata,
                    idata_address,
                    if old(self)@.ops.contains_key(message_id) {
                        Some(old(self)@.ops[message_id].client)
                    } else {
                        None
                    },
                    sender,
                ),
                final(self)@.metadata,
                idata_address,
                final(self)@.last_write,
            ),
            if old(self)@.ops.contains_key(message_id) && old(self)@.ops[message_id].concluded() {
                final(self)@.ops == old(self)@.ops.remove(message_id) && action_view(r) == Some(
                    mutation_reply(
                        idata_address.spec_name(),
                        old(self)@.ops[message_id].client,
                        Ok(()),
                        message_id,
                        None,
                    ),
                )
            } else {
                final(self)@.ops == old(self)@.ops && r is None
            },
    {
        let mut metadata = match self.metadata.get(&idata_address) {
            Some(metadata) => metadata,
            None => ChunkMetadata::new(),
        };
        let idata_owner = match self.idata_op(&message_id) {
            None => None,
            Some(op) => own_key(op.client()),
        };
        if idata_address.is_unpub() {
            if let Some(public_key) = idata_owner {
                metadata.owner = Some(public_key);
            }
        }
        let _ = metadata.holders.insert(sender);
        let written = self.metadata.put(&idata_address, &metadata);
        self.last_write = written;
        match self.remove_idata_op_if_concluded(&message_id) {
            None => None,
            Some(idata_op) => Some(
                Action::RespondToClientHandlers {
                    sender: idata_address.name(),
                    rpc: Rpc::Response {
                        requester: *idata_op.client(),
                        response: Response::Mutation(Ok(())),
                        message_id,
                        refund: None,
                    },
                },
            ),
        }
    }

    /// Follows up on a holder that has answered a request to delete a chunk: after
    /// a success `sender` is no holder of the chunk at `idata_address` any more, and
    /// a chunk without holders has no record. Where the metadata cannot be written,
    /// the operation goes on all the same, and the failure is noted as the outcome
    /// of the last write. If the operation for `message_id` has concluded, it is
    /// gone and the client handlers of the requester are told the outcome: the
    /// error that a holder has answered with, or success. An operation that has
    /// concluded with more than one error cannot be brought to its end.
    pub fn handle_delete_unpub_idata_resp(
        &mut self,
        idata_address: IDataAddress,
        sender: XorName,
        result: Result<(), NdError>,
        message_id: MessageId,
    ) -> (r: Option<Action>)
        requires
            old(self).wf(),
            delete_resp_admitted(old(self)@, message_id),
        ensures
            final(self).wf(),
            final(self)@.id == old(self)@.id,
            final(self)@.full_adults == old(self)@.full_adults,
            if result is Ok && old(self)@.metadata.contains_key(idata_address) {
                store_written(
                    old(self)@.metadata,
                    delete_resp_store(old(self)@.metadata, idata_address, sender, result),
                    final(self)@.metadata,
                    idata_address,
                    final(self)@.last_write,
                )
            } else {
                final(self)@.metadata == old(self)@.metadata && final(self)@.last_write == old(
                    self,
                )@.last_write
            },
            if old(self)@.ops.contains_key(message_id) && old(self)@.ops[message_id].concluded() {
                final(self)@.ops == old(self)@.ops.remove(message_id) && action_view(r) == Some(
                    mutation_reply(
                        idata_address.spec_name(),
                        old(self)@.ops[message_id].client,
                        delete_outcome(old(self)@.ops[message_id]),
                        message_id,
                        None,
                    ),
                )
            } else {
                final(self)@.ops == old(self)@.ops && r is None
            },
    {
        if result.is_ok() {
            match self.metadata.get(&idata_address) {
                None => {},
                Some(metadata) => {
                    let mut metadata = metadata;
                    let _ = metadata.holders.remove(&sender);
                    let written = self.metadata.put(&idata_address, &metadata);
                    self.last_write = written;
                },
            }
        }
        match self.remove_idata_op_if_concluded(&message_id) {
            None => None,
            Some(idata_op) => {
                let errors_for_req = idata_op.get_any_errors();
                let response: Result<(), NdError> = if errors_for_req.len() > 0 {
                    Err(errors_for_req[0].1)
                } else {
                    Ok(())
                };
                Some(
                    Action::RespondToClientHandlers {
                        sender: idata_address.name(),
                        rpc: Rpc::Response {
                            requester: *idata_op.client(),
                            response: Response::Mutation(response),
                            message_id,
                            refund: None,
                        },
                    },
                )
            },
        }
    }

    /// Handles the answer of `sender` to a request to fetch a chunk. The answer is
    /// noted in the operation for `message_id`. The first answer that is noted is
    /// passed on: to the data handlers of our section where a node fetches the
    /// chunk for a further copy, else to the client handlers of the requester.
    /// Later answers are passed on to nobody. An operation that has concluded is
    /// gone.
    pub fn handle_get_idata_resp(
        &mut self,
        sender: XorName,
        result: Result<IData, NdError>,
        message_id: MessageId,
    ) -> (r: Option<Action>)
        requires
            old(self).wf(),
        ensures
            final(self).wf(),
            get_resp_post(
                old(self)@,
                final(self)@,
                action_view(r),
                sender,
                result_view(result),
                message_id,
            ),
    {
        let mut op = match self.idata_ops.remove(&message_id.0) {
            Some(op) => op,
            None => {
                assert(self@.ops =~= old(self)@.ops);
                return None;
            },
        };
        let action = if op.client().is_node() {
            op.handle_get_copy_idata_resp(sender, result, message_id)
        } else {
            op.handle_get_idata_resp(sender, result, message_id)
        };
        if op.concluded() {
            assert(self@.ops =~= old(self)@.ops.remove(message_id));
        } else {
            let ghost noted = op@;
            let _ = self.idata_ops.insert(message_id.0, op);
            assert(self@.ops =~= old(self)@.ops.insert(message_id, noted));
        }
        action
    }

    /// Takes `holder` out of the metadata of every chunk that it held, and gives
    /// these chunks with the holders that are left. A chunk that `holder` alone
    /// held loses its record. A record that cannot be written stays as it was, and
    /// the failure is noted as the outcome of the last write; where there was
    /// something to write and that outcome is good, every record was written.
    fn get_metadata_for_all_chunks(&mut self, holder: XorName) -> (r: Result<
        Vec<(IDataAddress, NameSet)>,
        NdError,
    >)
        requires
            old(self).wf(),
        ensures
            final(self).wf(),
            final(self)@.id == old(self)@.id,
            final(self)@.ops == old(self)@.ops,
            final(self)@.full_adults == old(self)@.full_adults,
            r matches Ok(list) && is_repair_list(list@, old(self)@.metadata, holder),
            is_repaired_store(final(self)@.metadata, old(self)@.metadata, holder),
            r matches Ok(list) && (list@.len() == 0 ==> final(self)@.last_write == old(
                self,
            )@.last_write),
            r matches Ok(list) && (list@.len() > 0 && final(self)@.last_write is Ok
                ==> is_fully_repaired_store(
                final(self)@.metadata,
                old(self)@.metadata,
                holder,
            )),
    {
        let ghost before = self@.metadata;
        let records = self.metadata.records();
        let mut out: Vec<(IDataAddress, NameSet)> = Vec::new();
        let mut i: usize = 0;
        while i < records.len()
            invariant
                i <= records.len(),
                before == self.metadata@,
                forall|t: int|
                    0 <= t < records@.len() ==> (#[trigger] records@[t]).1.wf()
                        && before.contains_key(records@[t].0) && before[records@[t].0]
                        == records@[t].1@,
                forall|t: int, u: int|
                    0 <= t < records@.len() && 0 <= u < records@.len() && t != u ==> (
                    #[trigger] records@[t]).0 != (#[trigger] records@[u]).0,
                forall|j: int|
                    0 <= j < out@.len() ==> held_by(before, (#[trigger] out@[j]).0, holder)
                        && out@[j].1.wf() && out@[j].1.seq()
                        == before[out@[j].0].holders.remove_value(holder),
                forall|j: int|
                    0 <= j < out@.len() ==> exists|t: int|
                        0 <= t < i && (#[trigger] records@[t]).0 == (#[trigger] out@[j]).0,
                forall|t: int|
                    0 <= t < i && held_by(before, (#[trigger] records@[t]).0, holder)
                        ==> exists|j: int| 0 <= j < out@.len() && (#[trigger] out@[j]).0
                        == records@[t].0,
                forall|j: int, l: int|
                    0 <= j < out@.len() && 0 <= l < out@.len() && j != l ==> (#[trigger] out@[j]).0
                        != (#[trigger] out@[l]).0,
            decreases records.len() - i,
        {
            let ghost listed = out@;
            if records[i].1.holders.contains(&holder) {
                let mut rest = records[i].1.holders.duplicate();
                let _ = rest.remove(&holder);
                proof {
                    assert forall|j: int| 0 <= j < listed.len() implies (#[trigger] listed[j]).0
                        != records@[i as int].0 by {
                        let t = choose|t: int|
                            0 <= t < i && (#[trigger] records@[t]).0 == (#[trigger] listed[j]).0;
                        assert(records@[t].0 != records@[i as int].0);
                    }
                }
                out.push((records[i].0, rest));
                proof {
                    assert forall|j: int| 0 <= j < out@.len() implies exists|t: int|
                        0 <= t < i + 1 && (#[trigger] records@[t]).0 == (#[trigger] out@[j]).0 by {
                        if j < listed.len() {
                            assert(out@[j] == listed[j]);
                            let t = choose|t: int|
                                0 <= t < i && (#[trigger] records@[t]).0 == (
                                #[trigger] listed[j]).0;
                            assert(records@[t].0 == out@[j].0);
                        } else {
                            assert(records@[i as int].0 == out@[j].0);
                        }
                    }
                    assert forall|t: int|
                        0 <= t < i + 1 && held_by(
                            before,
                            (#[trigger] records@[t]).0,
                            holder,
                        ) implies exists|j: int|
                        0 <= j < out@.len() && (#[trigger] out@[j]).0 == records@[t].0 by {
                        if t < i {
                            let j = choose|j: int|
                                0 <= j < listed.len() && (#[trigger] listed[j]).0 == records@[t].0;
                            assert(out@[j].0 == records@[t].0);
                        } else {
                            assert(out@[out@.len() - 1].0 == records@[t].0);
                        }
                    }
                }
            } else {
                proof {
                    assert forall|j: int| 0 <= j < out@.len() implies exists|t: int|
                        0 <= t < i + 1 && (#[trigger] records@[t]).0 == (#[trigger] out@[j]).0 by {
                        let t = choose|t: int|
                            0 <= t < i && (#[trigger] records@[t]).0 == (#[trigger] out@[j]).0;
                        assert(records@[t].0 == out@[j].0);
                    }
                }
            }
            i = i + 1;
        }
        proof {
            assert forall|address: IDataAddress| #[trigger]
                held_by(before, address, holder) implies exists|j: int|
                0 <= j < out@.len() && (#[trigger] out@[j]).0 == address by {
                let t = choose|t: int|
                    0 <= t < records@.len() && (#[trigger] records@[t]).0 == address;
                assert(held_by(before, records@[t].0, holder));
            }
            assert(is_repair_list(out@, before, holder));
        }
        let mut failure: Result<(), StoreError> = Ok(());
        let mut k: usize = 0;
        while k < out.len()
            invariant
                k <= out.len(),
                self.wf(),
                self@.id == old(self)@.id,
                self@.ops == old(self)@.ops,
                self@.full_adults == old(self)@.full_adults,
                self@.last_write == old(self)@.last_write,
                failure is Ok ==> forall|j: int|
                    0 <= j < k ==> lookup(self@.metadata, (#[trigger] out@[j]).0) == repaired(
                        before[out@[j].0],
                        holder,
                    ),
                before == old(self)@.metadata,
                is_repair_list(out@, before, holder),
                is_repaired_store(self@.metadata, before, holder),
                forall|j: int|
                    k <= j < out@.len() ==> lookup(self@.metadata, (#[trigger] out@[j]).0)
                        == lookup(before, out@[j].0),
            decreases out.len() - k,
        {
            let ghost current = self@.metadata;
            let address = out[k].0;
            match self.metadata.get(&address) {
                None => {},
                Some(metadata) => {
                    let mut metadata = metadata;
                    let _ = metadata.holders.remove(&holder);
                    let written = self.metadata.put(&address, &metadata);
                    if written.is_err() {
                        failure = written;
                    }
                },
            }
            proof {
                let now = self@.metadata;
                if failure is Ok {
                    assert forall|j: int| 0 <= j < k + 1 implies lookup(
                        now,
                        (#[trigger] out@[j]).0,
                    ) == repaired(before[out@[j].0], holder) by {
                        if j < k {
                            assert(out@[j].0 != out@[k as int].0);
                            assert(lookup(now, out@[j].0) == lookup(current, out@[j].0));
                        }
                    }
                }
                assert forall|other: IDataAddress| other != address implies lookup(now, other)
                    == lookup(current, other) by {}
                assert forall|other: IDataAddress|
                    #![trigger lookup(now, other)]
                    lookup(now, other) == lookup(before, other) || (held_by(before, other, holder)
                        && lookup(now, other) == repaired(before[other], holder)) by {
                    if other != address {
                        assert(lookup(now, other) == lookup(current, other));
                    }
                }
                assert forall|j: int| k + 1 <= j < out@.len() implies lookup(
                    now,
                    (#[trigger] out@[j]).0,
                ) == lookup(before, out@[j].0) by {
                    assert(out@[j].0 != out@[k as int].0);
                }
            }
            k = k + 1;
        }
        if out.len() > 0 {
            self.last_write = failure;
        }
        proof {
            if out@.len() > 0 && failure is Ok {
                assert forall|address: IDataAddress|
                    #![trigger lookup(self@.metadata, address)]
                    lookup(self@.metadata, address) == if held_by(before, address, holder) {
                        repaired(before[address], holder)
                    } else {
                        lookup(before, address)
                    } by {
                    if held_by(before, address, holder) {
                        let j = choose|j: int|
                            0 <= j < out@.len() && (#[trigger] out@[j]).0 == address;
                        assert(lookup(self@.metadata, out@[j].0) == repaired(
                            before[out@[j].0],
                            holder,
                        ));
                    }
                }
            }
        }
        Ok(out)
    }

    /// Takes `holder`, which has left the section, out of the metadata of every
    /// chunk that it held, and gives these chunks with the holders that are left.
    /// A chunk that `holder` alone held loses its record. A record that cannot be
    /// written stays as it was, and the failure is noted as the outcome of the last
    /// write; where there was something to write and that outcome is good, every
    /// record was written.
    pub fn check_idata_holders(&mut self, holder: XorName) -> (r: Option<
        Vec<(IDataAddress, NameSet)>,
    >)
        requires
            old(self).wf(),
        ensures
            final(self).wf(),
            final(self)@.id == old(self)@.id,
            final(self)@.ops == old(self)@.ops,
            final(self)@.full_adults == old(self)@.full_adults,
            r matches Some(list) && is_repair_list(list@, old(self)@.metadata, holder),
            is_repaired_store(final(self)@.metadata, old(self)@.metadata, holder),
            r matches Some(list) && (list@.len() == 0 ==> final(self)@.last_write == old(
                self,
            )@.last_write),
            r matches Some(list) && (list@.len() > 0 && final(self)@.last_write is Ok
                ==> is_fully_repaired_store(
                final(self)@.metadata,
                old(self)@.metadata,
                holder,
            )),
    {
        match self.get_metadata_for_all_chunks(holder) {
            Ok(addresses) => Some(addresses),
            Err(_error) => None,
        }
    }

    /// Orders a further copy of the chunk at `address`: new holders are chosen
    /// among `adults` and `elders` (each ordered by closeness to the chunk's name),
    /// and they are told to fetch the chunk from who holds it. Gives no order for a
    /// chunk without metadata, nor where nobody is there to take a copy.
    pub fn duplicate_chunk(
        &self,
        address: &IDataAddress,
        adults: &Vec<XorName>,
        elders: &Vec<XorName>,
        message_id: MessageId,
    ) -> (r: Option<Action>)
        ensures
            action_view(r) == duplicate_order(self@, *address, adults@, elders@, message_id),
    {
        let metadata = match self.get_metadata_for(address) {
            Ok(metadata) => metadata,
            Err(_) => {
                return None;
            },
        };
        let new_holders = self.get_new_holders_for_chunk(&metadata.holders, adults, elders);
        let targets = NameSet::from_list(&new_holders);
        if targets.is_empty() {
            return None;
        }
        Some(
            Action::SendToPeers {
                targets,
                rpc: Rpc::Duplicate {
                    address: *address,
                    holders: metadata.holders,
                    message_id,
                    proof: None,
                },
            },
        )
    }

    /// Follows up on an action of the coordinator where chunks are copied: once a
    /// chunk has been fetched for a further copy, the copy is ordered from new
    /// holders, chosen among `adults` and `elders` (each ordered by closeness to
    /// the chunk's name); every other action is handed back as it is.
    pub fn continue_duplication(
        &self,
        action: Option<Action>,
        adults: &Vec<XorName>,
        elders: &Vec<XorName>,
    ) -> (r: Option<Action>)
        ensures
            action_view(r) == duplication_follow_up(self@, action_view(action), adults@, elders@),
    {
        let order = match &action {
            Some(
                Action::RespondToOurDataHandlers {
                    rpc: Rpc::Response { response: Response::GetIData(Ok(data)), message_id, .. },
                },
            ) => self.duplicate_chunk(&data.address, adults, elders, *message_id),
            _ => None,
        };
        match order {
            Some(order) => Some(order),
            None => action,
        }
    }

    /// Takes in the report of `sender` on a further copy of the chunk at
    /// `address`: after a success `sender` is noted as a holder of the chunk.
    /// Where the metadata cannot be written, it stays as it was, and the error is
    /// handed back. The report of a failure changes nothing.
    pub fn handle_duplication_complete(
        &mut self,
        sender: XorName,
        address: IDataAddress,
        result: Result<(), NdError>,
    ) -> (r: Result<(), StoreError>)
        requires
            old(self).wf(),
        ensures
            final(self).wf(),
            duplication_complete_outcome(old(self)@, final(self)@, sender, address, result, r),
    {
        if result.is_ok() {
            let mut metadata = match self.metadata.get(&address) {
                Some(metadata) => metadata,
                None => ChunkMetadata::new(),
            };
            let _ = metadata.holders.insert(sender);
            let written = self.metadata.put(&address, &metadata);
            self.last_write = written;
            written
        } else {
            Ok(())
        }
    }

    /// Handles a message that has come from `src`: a request for a chunk, an
    /// answer of a holder, the order to copy a chunk, or the report of a copy. `adults` and `elders` are
    /// the members of the section, each list ordered by closeness to the name of
    /// the chunk that the message concerns. Any other message is left alone. Whether
    /// a message can be handed over, `admits_vault_rpc` tells.
    pub fn handle_vault_rpc(
        &mut self,
        src: SrcLocation,
        rpc: Rpc,
        adults: &Vec<XorName>,
        elders: &Vec<XorName>,
    ) -> (r: Option<Action>)
        requires
            old(self).wf(),
            rpc matches Rpc::Duplicate { holders, .. } ==> holders.wf(),
            vault_rpc_admitted(old(self)@, src, rpc),
        ensures
            final(self).wf(),
            vault_rpc_post(old(self)@, final(self)@, action_view(r), src, rpc, adults@, elders@),
    {
        match rpc {
            Rpc::Request { request, requester, message_id, .. } => match request {
                Request::IData(IDataRequest::Put(data)) => self.handle_put_idata_req(
                    requester,
                    data,
                    message_id,
                    adults,
                    elders,
                ),
                Request::IData(IDataRequest::Get(address)) => self.handle_get_idata_req(
                    requester,
                    address,
                    message_id,
                ),
                Request::IData(IDataRequest::DeleteUnpub(address)) => {
                    self.handle_delete_unpub_idata_req(requester, address, message_id)
                },
                _ => None,
            },
            Rpc::Response { response, message_id, .. } => match response {
                Response::Mutation(result) => self.handle_mutation_resp(
                    get_source_name(src),
                    result,
                    message_id,
                ),
                Response::GetIData(result) => self.handle_get_idata_resp(
                    get_source_name(src),
                    result,
                    message_id,
                ),
                Response::Other => None,
            },
            Rpc::Duplicate { address, holders, message_id, .. } => {
                let requester = PublicId::Node(self.id);
                self.get_idata_copy(requester, address, holders, message_id)
            },
            Rpc::DuplicationComplete { address, response, .. } => match response {
                Response::Mutation(result) => {
                    if let SrcLocation::Node(sender) = src {
                        let _ = self.handle_duplication_complete(sender, address, result);
                    }
                    None
                },
                _ => None,
            },
        }
    }
}

} // verus!
