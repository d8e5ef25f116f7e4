//! What holds of the coordinator whatever it is asked: laws over the models that
//! the contracts of the handlers are stated in.

use crate::data::{cost_of_put, Coins, IDataAddress, MessageId, NdError, PublicId, PublicKey};
use crate::data::{IDataRequestView, IDataView};
use crate::idata_handler::{
    access_verdict, after_response, copy_reply, delete_outcome, get_reply, get_resp_post,
    holder_list, mutation_reply, mutation_resp_action, mutation_resp_admitted, mutation_resp_op,
    mutation_resp_post, pick_holders, put_resp_metadata, put_verdict, Admission, IDataHandlerView,
    IMMUTABLE_DATA_COPY_COUNT,
};
use crate::idata_op::{
    errors_of, get_resp_accepted, get_resp_action, holder_index, lemma_sent_to, new_op, sent_to,
    IDataOpView, RpcState,
};
use crate::messaging::{ActionView, RpcView};
use crate::metadata::ChunkMetadataView;
use crate::name::XorName;
use crate::utils::{spec_own_key, spec_refund_for_put};
use vstd::prelude::*;

verus! {

/// What an action refunds: the refund of the response that it carries, if it
/// carries one.
pub open spec fn refund_of(action: ActionView) -> Option<Coins> {
    match action {
        ActionView::RespondToClientHandlers { rpc: RpcView::Response { refund, .. }, .. } => refund,
        ActionView::RespondToOurDataHandlers { rpc: RpcView::Response { refund, .. } } => refund,
        _ => None,
    }
}

/// For every message identifier there is at most one operation under way.
pub proof fn lemma_unique_op(
    state: IDataHandlerView,
    message_id: MessageId,
    first: IDataOpView,
    second: IDataOpView,
)
    requires
        state.ops.contains_pair(message_id, first),
        state.ops.contains_pair(message_id, second),
    ensures
        first == second,
{
}

/// An operation that has concluded does not stay: once its last holder has
/// answered, it is gone from the operations; and the outcome of a request to store
/// or to delete is told exactly then.
pub proof fn lemma_concluded_is_gone(
    ops: Map<MessageId, IDataOpView>,
    message_id: MessageId,
    op: IDataOpView,
    address: IDataAddress,
)
    ensures
        after_response(ops, message_id, op).contains_key(message_id) ==> !after_response(
            ops,
            message_id,
            op,
        )[message_id].concluded(),
        after_response(ops, message_id, op).contains_key(message_id) == !op.concluded(),
        mutation_resp_action(op, address, message_id) is Some == op.concluded(),
{
}

/// Whatever answer a handler takes in, the operation that the answer belongs to
/// is not left behind concluded: it is gone if it has concluded, and only then.
/// The end of a request to store or to delete is told exactly when its operation
/// goes.
pub proof fn lemma_no_concluded_op_is_left(
    before: IDataHandlerView,
    after: IDataHandlerView,
    action: Option<ActionView>,
    sender: XorName,
    result: Result<(), NdError>,
    fetched: Result<IDataView, NdError>,
    message_id: MessageId,
)
    ensures
        mutation_resp_post(before, after, action, sender, result, message_id) && mutation_resp_op(
            before,
            sender,
            result,
            message_id,
        ) is Some ==> (after.ops.contains_key(message_id) ==> !after.ops[message_id].concluded())
            && (action is Some <==> !after.ops.contains_key(message_id)),
        get_resp_post(before, after, action, sender, fetched, message_id)
            && before.ops.contains_key(message_id) ==> (after.ops.contains_key(message_id)
            ==> !after.ops[message_id].concluded()),
        forall|other: MessageId|
            other != message_id && (mutation_resp_post(
                before,
                after,
                action,
                sender,
                result,
                message_id,
            ) || get_resp_post(before, after, action, sender, fetched, message_id))
                ==> after.ops.contains_key(other) == before.ops.contains_key(other) && (
            before.ops.contains_key(other) ==> #[trigger] after.ops[other] == before.ops[other]),
{
}

/// A request to delete that can be brought to its end has met with one error at
/// most, and that error, or success, is what the requester is told.
pub proof fn lemma_delete_outcome(
    state: IDataHandlerView,
    sender: XorName,
    result: Result<(), NdError>,
    message_id: MessageId,
)
    requires
        mutation_resp_admitted(state, sender, result, message_id),
        mutation_resp_op(state, sender, result, message_id) matches Some((_, op))
            && op.request is DeleteUnpub && op.concluded(),
    ensures
        mutation_resp_op(state, sender, result, message_id) matches Some((_, op)) && (errors_of(
            op.entries,
        ).len() == 0 ==> delete_outcome(op) == Ok::<(), NdError>(())) && (errors_of(
            op.entries,
        ).len() == 1 ==> delete_outcome(op) == Err::<(), NdError>(errors_of(op.entries)[0].1))
            && errors_of(op.entries).len() <= 1,
{
}

/// An answer never turns a holder that is done into one that is awaited.
pub proof fn lemma_answers_do_not_revert(
    op: IDataOpView,
    sender: XorName,
    error: Option<NdError>,
    i: int,
)
    requires
        0 <= i < op.entries.len(),
        op.entries[i].1 != RpcState::Sent,
    ensures
        op.answered(sender, error).entries.len() == op.entries.len(),
        op.answered(sender, error).entries[i].1 != RpcState::Sent,
        op.answered(sender, error).entries[i].0 == op.entries[i].0,
{
    if op.has_holder(sender) {
        let at = holder_index(op.entries, sender);
        assert(0 <= at < op.entries.len() && op.entries[at].0 == sender);
    }
}

/// The owner of a chunk that a client or an application stores for the first
/// time: there is an owner exactly if the chunk is unpublished, and the owner is
/// the requester's own key.
pub proof fn lemma_owner_set(
    address: IDataAddress,
    client: PublicId,
    sender: XorName,
    key: PublicKey,
)
    requires
        !client.spec_is_node(),
    ensures
        put_resp_metadata(None, address, Some(client), sender).owner == Some(key) <==> (
        address.spec_is_unpub() && spec_own_key(client) == Some(key)),
        put_resp_metadata(None, address, Some(client), sender).owner is Some
            <==> address.spec_is_unpub(),
        put_resp_metadata(None, address, Some(client), sender).holders == seq![sender],
{
    assert(put_resp_metadata(None, address, Some(client), sender).holders =~= seq![sender]);
}

/// Storing never takes a holder away, and it keeps the owner of a published chunk.
pub proof fn lemma_put_keeps_holders(
    before: ChunkMetadataView,
    address: IDataAddress,
    client: Option<PublicId>,
    sender: XorName,
    holder: XorName,
)
    requires
        before.wf(),
    ensures
        put_resp_metadata(Some(before), address, client, sender).wf(),
        put_resp_metadata(Some(before), address, client, sender).holders.contains(sender),
        before.holders.contains(holder) ==> put_resp_metadata(
            Some(before),
            address,
            client,
            sender,
        ).holders.contains(holder),
        address.spec_is_pub() ==> put_resp_metadata(Some(before), address, client, sender).owner
            == before.owner,
{
    let after = put_resp_metadata(Some(before), address, client, sender).holders;
    if before.holders.contains(sender) {
    } else {
        assert(after == before.holders.push(sender));
        assert(after[after.len() - 1] == sender);
        assert forall|i: int, j: int| 0 <= i < after.len() && 0 <= j < after.len() && i
            != j implies after[i] != after[j] by {
            if i < before.holders.len() {
                assert(before.holders.contains(before.holders[i]));
            }
            if j < before.holders.len() {
                assert(before.holders.contains(before.holders[j]));
            }
        }
        if before.holders.contains(holder) {
            let i = choose|i: int| 0 <= i < before.holders.len() && before.holders[i] == holder;
            assert(after[i] == holder);
        }
    }
}

/// A refusal of a request to store refunds the cost of storing, a success
/// refunds nothing; and no other answer refunds anything.
pub proof fn lemma_refund_policy(
    sender: XorName,
    requester: PublicId,
    result: Result<(), NdError>,
    fetched: Result<IDataView, NdError>,
    message_id: MessageId,
    op: IDataOpView,
    address: IDataAddress,
)
    ensures
        refund_of(
            mutation_reply(sender, requester, result, message_id, spec_refund_for_put(result)),
        ) == Some(cost_of_put()) <==> result is Err,
        refund_of(
            mutation_reply(sender, requester, result, message_id, spec_refund_for_put(result)),
        ) is None <==> result is Ok,
        refund_of(get_reply(sender, requester, fetched, message_id)) is None,
        refund_of(copy_reply(requester, fetched, message_id)) is None,
        mutation_resp_action(op, address, message_id) matches Some(action) ==> refund_of(action)
            is None,
{
}

/// A request under a message identifier that is in use opens no operation: it is
/// answered at once, with `DuplicateMessageId` unless there is a reason to refuse
/// it that is looked at before.
pub proof fn lemma_duplicate_rejected(
    state: IDataHandlerView,
    requester: PublicId,
    address: IDataAddress,
    message_id: MessageId,
)
    requires
        state.ops.contains_key(message_id),
    ensures
        put_verdict(state, address, message_id) is Some,
        !state.metadata.contains_key(address) ==> put_verdict(state, address, message_id) == Some(
            Err::<(), NdError>(NdError::DuplicateMessageId),
        ),
        !(access_verdict(state, requester, address, message_id) is Open),
        state.metadata.contains_key(address) && (state.metadata[address].owner is None
            || state.metadata[address].owner == spec_own_key(requester)) ==> access_verdict(
            state,
            requester,
            address,
            message_id,
        ) == Admission::Refuse(NdError::DuplicateMessageId),
{
}

/// Storing a published chunk that is known already succeeds at once, whatever the
/// message identifier; the handler then leaves its state as it is and refunds
/// nothing.
pub proof fn lemma_published_put_idempotent(
    state: IDataHandlerView,
    address: IDataAddress,
    message_id: MessageId,
)
    requires
        state.metadata.contains_key(address),
        address.spec_is_pub(),
    ensures
        put_verdict(state, address, message_id) == Some(Ok::<(), NdError>(())),
        spec_refund_for_put(Ok::<(), NdError>(())) is None,
{
}

/// How many of `candidates` are not in `full`.
pub open spec fn not_full_count(candidates: Seq<XorName>, full: Set<XorName>) -> nat
    decreases candidates.len(),
{
    if candidates.len() == 0 {
        0
    } else if full.contains(candidates[0]) {
        not_full_count(candidates.drop_first(), full)
    } else {
        1 + not_full_count(candidates.drop_first(), full)
    }
}

/// Picking holders gives as many names as are wanted, or all that there are to
/// pick; each of them is a candidate that is not full.
pub proof fn lemma_pick_holders(candidates: Seq<XorName>, full: Set<XorName>, wanted: nat)
    ensures
        pick_holders(candidates, full, wanted).len() == if wanted <= not_full_count(
            candidates,
            full,
        ) {
            wanted
        } else {
            not_full_count(candidates, full)
        },
        forall|i: int|
            0 <= i < pick_holders(candidates, full, wanted).len() ==> candidates.contains(
                #[trigger] pick_holders(candidates, full, wanted)[i],
            ) && !full.contains(pick_holders(candidates, full, wanted)[i]),
    decreases candidates.len(),
{
    let picked = pick_holders(candidates, full, wanted);
    if candidates.len() == 0 {
    } else if wanted == 0 {
    } else {
        let rest = candidates.drop_first();
        let next: nat = if full.contains(candidates[0]) {
            wanted
        } else {
            (wanted - 1) as nat
        };
        lemma_pick_holders(rest, full, next);
        let tail = pick_holders(rest, full, next);
        assert forall|i: int| 0 <= i < picked.len() implies candidates.contains(
            #[trigger] picked[i],
        ) && !full.contains(picked[i]) by {
            if full.contains(candidates[0]) {
                assert(picked[i] == tail[i]);
                let at = choose|at: int| 0 <= at < rest.len() && rest[at] == tail[i];
                assert(candidates[at + 1] == tail[i]);
            } else if i == 0 {
                assert(candidates[0] == picked[0]);
            } else {
                assert(picked[i] == tail[i - 1]);
                let at = choose|at: int| 0 <= at < rest.len() && rest[at] == tail[i - 1];
                assert(candidates[at + 1] == tail[i - 1]);
            }
        }
    }
}

/// Where nobody is full, all candidates count.
pub proof fn lemma_not_full_count_of_all(candidates: Seq<XorName>)
    ensures
        not_full_count(candidates, Set::empty()) == candidates.len(),
    decreases candidates.len(),
{
    if candidates.len() > 0 {
        lemma_not_full_count_of_all(candidates.drop_first());
    }
}

/// A chunk gets three holders, or as many as the section has to offer: the
/// adults that are not full, and the elders. No adult that is full is among them.
pub proof fn lemma_holder_list(adults: Seq<XorName>, elders: Seq<XorName>, full: Set<XorName>)
    ensures
        holder_list(adults, elders, full).len() == if IMMUTABLE_DATA_COPY_COUNT <= not_full_count(
            adults,
            full,
        ) + elders.len() {
            IMMUTABLE_DATA_COPY_COUNT as nat
        } else {
            not_full_count(adults, full) + elders.len()
        },
        forall|i: int|
            0 <= i < holder_list(adults, elders, full).len() ==> (adults.contains(
                #[trigger] holder_list(adults, elders, full)[i],
            ) && !full.contains(holder_list(adults, elders, full)[i])) || elders.contains(
                holder_list(adults, elders, full)[i],
            ),
{
    let chosen = pick_holders(adults, full, IMMUTABLE_DATA_COPY_COUNT as nat);
    let more = pick_holders(
        elders,
        Set::empty(),
        (IMMUTABLE_DATA_COPY_COUNT - chosen.len()) as nat,
    );
    lemma_pick_holders(adults, full, IMMUTABLE_DATA_COPY_COUNT as nat);
    lemma_pick_holders(elders, Set::empty(), (IMMUTABLE_DATA_COPY_COUNT - chosen.len()) as nat);
    lemma_not_full_count_of_all(elders);
    let list = holder_list(adults, elders, full);
    assert(list == chosen + more);
    assert forall|i: int| 0 <= i < list.len() implies (adults.contains(#[trigger] list[i])
        && !full.contains(list[i])) || elders.contains(list[i]) by {
        if i < chosen.len() {
            assert(list[i] == chosen[i]);
        } else {
            assert(list[i] == more[i - chosen.len()]);
        }
    }
}

/// Picking holders keeps the order of the candidates: who is closer to the chunk
/// among the candidates comes earlier among the holders.
pub proof fn lemma_pick_holders_order(
    candidates: Seq<XorName>,
    full: Set<XorName>,
    wanted: nat,
    i: int,
    j: int,
)
    requires
        0 <= i < j < pick_holders(candidates, full, wanted).len(),
    ensures
        exists|a: int, b: int|
            0 <= a < b < candidates.len() && #[trigger] candidates[a] == pick_holders(
                candidates,
                full,
                wanted,
            )[i] && #[trigger] candidates[b] == pick_holders(candidates, full, wanted)[j],
    decreases candidates.len(),
{
    let picked = pick_holders(candidates, full, wanted);
    let rest = candidates.drop_first();
    if full.contains(candidates[0]) {
        lemma_pick_holders_order(rest, full, wanted, i, j);
        let tail = pick_holders(rest, full, wanted);
        let (a, b) = choose|a: int, b: int|
            0 <= a < b < rest.len() && #[trigger] rest[a] == tail[i] && #[trigger] rest[b]
                == tail[j];
        assert(candidates[a + 1] == picked[i] && candidates[b + 1] == picked[j]);
    } else {
        let tail = pick_holders(rest, full, (wanted - 1) as nat);
        assert(picked[j] == tail[j - 1]);
        if i == 0 {
            lemma_pick_holders(rest, full, (wanted - 1) as nat);
            let b = choose|b: int| 0 <= b < rest.len() && rest[b] == tail[j - 1];
            assert(candidates[0] == picked[0] && candidates[b + 1] == picked[j]);
        } else {
            assert(picked[i] == tail[i - 1]);
            lemma_pick_holders_order(rest, full, (wanted - 1) as nat, i - 1, j - 1);
            let (a, b) = choose|a: int, b: int|
                0 <= a < b < rest.len() && #[trigger] rest[a] == tail[i - 1] && #[trigger] rest[b]
                    == tail[j - 1];
            assert(candidates[a + 1] == picked[i] && candidates[b + 1] == picked[j]);
        }
    }
}

/// A new operation awaits every one of its holders: nobody has answered, no
/// error is noted, and it has concluded only if it has no holder at all.
pub proof fn lemma_new_op(client: PublicId, request: IDataRequestView, holders: Seq<XorName>)
    requires
        holders.no_duplicates(),
    ensures
        new_op(client, request, holders).wf(),
        !new_op(client, request, holders).is_any_actioned(),
        new_op(client, request, holders).concluded() <==> holders.len() == 0,
        new_op(client, request, holders).first_error() is None,
        forall|name: XorName|
            holders.contains(name) <==> #[trigger] new_op(client, request, holders).has_holder(name),
{
    lemma_sent_to(holders);
    let entries = sent_to(holders);
    if holders.len() > 0 {
        assert(entries[0].1 == RpcState::Sent);
    }
    assert(errors_of(entries).len() == 0);
    assert forall|name: XorName| holders.contains(name) <==> #[trigger] new_op(
        client,
        request,
        holders,
    ).has_holder(name) by {
        if holders.contains(name) {
            let at = choose|at: int| 0 <= at < holders.len() && holders[at] == name;
            assert(entries[at].0 == name);
        }
        if new_op(client, request, holders).has_holder(name) {
            let at = holder_index(entries, name);
            assert(holders[at] == name);
        }
    }
}

/// Of the answers to a request to fetch a chunk, only the first that is noted is
/// passed on: after it, no answer leads to an action.
pub proof fn lemma_only_the_first_answer_is_passed_on(
    op: IDataOpView,
    first: XorName,
    error: Option<NdError>,
    later: XorName,
    fetched: Result<IDataView, NdError>,
    message_id: MessageId,
    for_copy: bool,
)
    requires
        get_resp_accepted(op, first),
    ensures
        get_resp_action(op.answered(first, error), later, fetched, message_id, for_copy) is None,
        !op.is_any_actioned() ==> get_resp_action(op, first, fetched, message_id, for_copy)
            is Some,
{
    let at = holder_index(op.entries, first);
    assert(0 <= at < op.entries.len() && op.entries[at].0 == first);
    assert(op.answered(first, error).entries[at].1 is Actioned);
}

/// An answer to a request to store or to delete is taken in only from a holder
/// that the request went to: whoever is noted as a holder of a chunk was asked to
/// hold it.
pub proof fn lemma_noted_holder_was_asked(
    state: IDataHandlerView,
    sender: XorName,
    result: Result<(), NdError>,
    message_id: MessageId,
)
    requires
        mutation_resp_op(state, sender, result, message_id) is Some,
    ensures
        state.ops.contains_key(message_id),
        state.ops[message_id].has_holder(sender),
        !(state.ops[message_id].request is Get),
        mutation_resp_op(state, sender, result, message_id) matches Some((address, _))
            && address == state.ops[message_id].request.address(),
{
}

} // verus!
