//! One operation on an immutable chunk: who asked for what, and what each
//! holder has answered so far.

use crate::data::{
    IData, IDataAddress, IDataRequest, IDataRequestView, MessageId, NdError, PublicId,
};
use crate::messaging::{Action, ActionView, Response, ResponseView, Rpc, RpcView};
use crate::name::{NameSet, XorName};
use vstd::prelude::*;

verus! {

/// How far the request to one holder has come.
#[derive(Clone, Copy, Debug, PartialEq, Eq, Structural, PartialOrd, Ord, Hash)]
pub enum RpcState {
    /// The request was sent to the holder.
    Sent,
    /// The holder has answered; of the answer only the error is kept, if there was one.
    Actioned(Option<NdError>),
    /// The holder has left the section without an answer.
    HolderGone,
    /// The holder has not answered in time.
    TimedOut,
}

/// The kind of an operation.
#[derive(Clone, Copy, Debug, PartialEq, Eq, Structural, PartialOrd, Ord, Hash)]
pub enum OpType {
    Put,
    Get,
    Delete,
    GetForCopy,
    Copy,
}

/// Whether no name occurs twice among the holders of `entries`.
pub open spec fn distinct_holders(entries: Seq<(XorName, RpcState)>) -> bool {
    forall|i: int, j: int|
        0 <= i < entries.len() && 0 <= j < entries.len() && i != j ==> (#[trigger] entries[i]).0 != (
        #[trigger] entries[j]).0
}

/// Whether `name` is the holder of one of `entries`.
pub open spec fn has_holder(entries: Seq<(XorName, RpcState)>, name: XorName) -> bool {
    exists|i: int| 0 <= i < entries.len() && (#[trigger] entries[i]).0 == name
}

/// The states of `entries` by holder.
pub open spec fn states_map(entries: Seq<(XorName, RpcState)>) -> Map<XorName, RpcState> {
    Map::new(
        |name: XorName| has_holder(entries, name),
        |name: XorName|
            entries[choose|i: int| 0 <= i < entries.len() && (#[trigger] entries[i]).0 == name].1,
    )
}

/// In a list without repeated holders, the map gives each holder the state that
/// stands beside it.
pub proof fn lemma_states_map_at(entries: Seq<(XorName, RpcState)>, i: int)
    requires
        distinct_holders(entries),
        0 <= i < entries.len(),
    ensures
        states_map(entries).contains_key(entries[i].0),
        states_map(entries)[entries[i].0] == entries[i].1,
{
    let name = entries[i].0;
    let c = choose|c: int| 0 <= c < entries.len() && (#[trigger] entries[c]).0 == name;
    assert(c == i);
}

/// Setting the state beside one holder sets the state of that holder in the map.
pub proof fn lemma_states_map_update(entries: Seq<(XorName, RpcState)>, i: int, state: RpcState)
    requires
        distinct_holders(entries),
        0 <= i < entries.len(),
    ensures
        distinct_holders(entries.update(i, (entries[i].0, state))),
        states_map(entries.update(i, (entries[i].0, state))) == states_map(entries).insert(
            entries[i].0,
            state,
        ),
{
    let after = entries.update(i, (entries[i].0, state));
    assert forall|a: int, b: int|
        0 <= a < after.len() && 0 <= b < after.len() && a != b implies (#[trigger] after[a]).0 != (
    #[trigger] after[b]).0 by {
        assert(after[a].0 == entries[a].0);
        assert(after[b].0 == entries[b].0);
    }
    assert forall|name: XorName| has_holder(after, name) == has_holder(entries, name) by {
        if has_holder(after, name) {
            let c = choose|c: int| 0 <= c < after.len() && (#[trigger] after[c]).0 == name;
            assert(entries[c].0 == name);
        }
        if has_holder(entries, name) {
            let c = choose|c: int| 0 <= c < entries.len() && (#[trigger] entries[c]).0 == name;
            assert(after[c].0 == name);
        }
    }
    assert forall|name: XorName| has_holder(after, name) implies states_map(after)[name]
        == states_map(entries).insert(entries[i].0, state)[name] by {
        let c = choose|c: int| 0 <= c < after.len() && (#[trigger] after[c]).0 == name;
        lemma_states_map_at(after, c);
        lemma_states_map_at(entries, c);
        if c == i {
        } else {
            assert(after[c] == entries[c]);
        }
    }
    assert(states_map(after) =~= states_map(entries).insert(entries[i].0, state));
}

/// The errors that holders have answered with, in the order of the holders.
pub open spec fn errors_of(entries: Seq<(XorName, RpcState)>) -> Seq<(XorName, NdError)>
    decreases entries.len(),
{
    if entries.len() == 0 {
        Seq::empty()
    } else {
        let front = errors_of(entries.drop_last());
        match entries.last().1 {
            RpcState::Actioned(Some(error)) => front.push((entries.last().0, error)),
            _ => front,
        }
    }
}

/// The first error that a holder has answered with, in the order of the holders.
pub open spec fn first_error(entries: Seq<(XorName, RpcState)>) -> Option<NdError> {
    if errors_of(entries).len() > 0 {
        Some(errors_of(entries)[0].1)
    } else {
        None
    }
}

/// One operation on an immutable chunk.
#[derive(Debug, PartialEq, Eq)]
pub struct IDataOp {
    client: PublicId,
    request: IDataRequest,
    rpc_states: Vec<(XorName, RpcState)>,
}

/// An operation as a mathematical value.
pub struct IDataOpView {
    /// Who asked.
    pub client: PublicId,
    /// What was asked.
    pub request: IDataRequestView,
    /// The holders in the order in which they were given, each with the state of
    /// its request.
    pub entries: Seq<(XorName, RpcState)>,
}

/// Where `name` stands among the holders of `entries`.
pub open spec fn holder_index(entries: Seq<(XorName, RpcState)>, name: XorName) -> int {
    choose|i: int| 0 <= i < entries.len() && (#[trigger] entries[i]).0 == name
}

impl IDataOpView {
    /// No holder occurs twice.
    pub open spec fn wf(self) -> bool {
        distinct_holders(self.entries)
    }

    /// How far the request to each holder has come, by holder.
    pub open spec fn rpc_states(self) -> Map<XorName, RpcState> {
        states_map(self.entries)
    }

    /// Whether `name` is one of the holders.
    pub open spec fn has_holder(self, name: XorName) -> bool {
        has_holder(self.entries, name)
    }

    /// The kind of the operation.
    pub open spec fn op_type(self) -> OpType {
        match self.request {
            IDataRequestView::Put(_) => OpType::Put,
            IDataRequestView::Get(_) => OpType::Get,
            IDataRequestView::DeleteUnpub(_) => OpType::Delete,
        }
    }

    /// Whether some holder has answered.
    pub open spec fn is_any_actioned(self) -> bool {
        exists|i: int| 0 <= i < self.entries.len() && (#[trigger] self.entries[i]).1 is Actioned
    }

    /// Whether no holder is still awaited.
    pub open spec fn concluded(self) -> bool {
        forall|i: int|
            0 <= i < self.entries.len() ==> (#[trigger] self.entries[i]).1 != RpcState::Sent
    }

    /// The first error that a holder has answered with, in the order of the holders.
    pub open spec fn first_error(self) -> Option<NdError> {
        first_error(self.entries)
    }

    /// The operation after `sender` has answered, with the error of its answer.
    /// An answer of somebody who is no holder changes nothing.
    pub open spec fn answered(self, sender: XorName, error: Option<NdError>) -> IDataOpView {
        if has_holder(self.entries, sender) {
            IDataOpView {
                client: self.client,
                request: self.request,
                entries: self.entries.update(
                    holder_index(self.entries, sender),
                    (sender, RpcState::Actioned(error)),
                ),
            }
        } else {
            self
        }
    }
}

/// The operation that is opened for `request` of `client` towards `holders`.
pub open spec fn new_op(
    client: PublicId,
    request: IDataRequestView,
    holders: Seq<XorName>,
) -> IDataOpView {
    IDataOpView { client, request, entries: sent_to(holders) }
}

impl View for IDataOp {
    type V = IDataOpView;

    open spec fn view(&self) -> IDataOpView {
        IDataOpView {
            client: self.spec_client(),
            request: self.spec_request()@,
            entries: self.entries(),
        }
    }
}

/// The entries of a new operation: every holder, with its request sent.
pub open spec fn sent_to(holders: Seq<XorName>) -> Seq<(XorName, RpcState)> {
    Seq::new(holders.len(), |i: int| (holders[i], RpcState::Sent))
}

/// A new operation awaits exactly the given holders.
pub proof fn lemma_sent_to(holders: Seq<XorName>)
    requires
        holders.no_duplicates(),
    ensures
        distinct_holders(sent_to(holders)),
        states_map(sent_to(holders)) == Map::new(
            |name: XorName| holders.to_set().contains(name),
            |name: XorName| RpcState::Sent,
        ),
        errors_of(sent_to(holders)) == Seq::<(XorName, NdError)>::empty(),
    decreases holders.len(),
{
    let entries = sent_to(holders);
    assert forall|name: XorName| has_holder(entries, name) == holders.to_set().contains(name) by {
        if has_holder(entries, name) {
            let c = choose|c: int| 0 <= c < entries.len() && (#[trigger] entries[c]).0 == name;
            assert(holders[c] == name);
        }
        if holders.contains(name) {
            let c = choose|c: int| 0 <= c < holders.len() && holders[c] == name;
            assert(entries[c].0 == name);
        }
    }
    assert forall|name: XorName| has_holder(entries, name) implies states_map(entries)[name]
        == RpcState::Sent by {
        let c = choose|c: int| 0 <= c < entries.len() && (#[trigger] entries[c]).0 == name;
        lemma_states_map_at(entries, c);
    }
    assert(states_map(entries) =~= Map::new(
        |name: XorName| holders.to_set().contains(name),
        |name: XorName| RpcState::Sent,
    ));
    if holders.len() > 0 {
        let front = holders.drop_last();
        assert(front.no_duplicates());
        lemma_sent_to(front);
        assert(entries.drop_last() =~= sent_to(front));
    }
}

impl IDataOp {
    /// Who asked.
    pub closed spec fn spec_client(&self) -> PublicId {
        self.client
    }

    /// What was asked.
    pub closed spec fn spec_request(&self) -> IDataRequest {
        self.request
    }

    /// The holders in the order in which they were given, each with the state of
    /// its request.
    pub closed spec fn entries(&self) -> Seq<(XorName, RpcState)> {
        self.rpc_states@
    }

    /// No holder occurs twice.
    pub open spec fn wf(&self) -> bool {
        distinct_holders(self.entries())
    }

    /// A new operation: the request has been sent to every one of `holders`.
    pub fn new(client: PublicId, request: IDataRequest, holders: &NameSet) -> (r: IDataOp)
        requires
            holders.wf(),
        ensures
            r.wf(),
            r.spec_client() == client,
            r.spec_request() == request,
            r.entries() == sent_to(holders.seq()),
            r@ == new_op(client, request@, holders.seq()),
            r@.rpc_states() == Map::new(
                |name: XorName| holders@.contains(name),
                |name: XorName| RpcState::Sent,
            ),
    {
        let names = holders.to_list();
        let mut rpc_states: Vec<(XorName, RpcState)> = Vec::new();
        let mut i: usize = 0;
        while i < names.len()
            invariant
                i <= names.len(),
                rpc_states@ == sent_to(names@.subrange(0, i as int)),
            decreases names.len() - i,
        {
            rpc_states.push((names[i], RpcState::Sent));
            assert(rpc_states@ =~= sent_to(names@.subrange(0, i + 1)));
            i = i + 1;
        }
        proof {
            assert(names@.subrange(0, i as int) =~= names@);
            lemma_sent_to(holders.seq());
        }
        IDataOp { client, request, rpc_states }
    }

    /// A copy of the operation.
    pub fn duplicate(&self) -> (r: IDataOp)
        ensures
            r@ == self@,
            r.entries() == self.entries(),
            r.spec_client() == self.spec_client(),
            r.wf() == self.wf(),
    {
        let mut rpc_states: Vec<(XorName, RpcState)> = Vec::new();
        let mut i: usize = 0;
        while i < self.rpc_states.len()
            invariant
                i <= self.rpc_states.len(),
                rpc_states@ == self.rpc_states@.subrange(0, i as int),
            decreases self.rpc_states.len() - i,
        {
            rpc_states.push(self.rpc_states[i]);
            assert(rpc_states@ =~= self.rpc_states@.subrange(0, i + 1));
            i = i + 1;
        }
        assert(self.rpc_states@.subrange(0, i as int) =~= self.rpc_states@);
        IDataOp { client: self.client, request: self.request.duplicate(), rpc_states }
    }

    /// Who asked.
    pub fn client(&self) -> (r: &PublicId)
        ensures
            *r == self.spec_client(),
    {
        &self.client
    }

    /// What was asked.
    pub fn request(&self) -> (r: &IDataRequest)
        ensures
            *r == self.spec_request(),
    {
        &self.request
    }

    /// The holders of the operation, in the order in which they were given.
    pub fn holders(&self) -> (r: NameSet)
        requires
            self.wf(),
        ensures
            r.wf(),
            r.seq() == Seq::new(self.entries().len(), |i: int| self.entries()[i].0),
            r@ == self@.rpc_states().dom(),
    {
        let mut out = NameSet::new();
        let mut i: usize = 0;
        while i < self.rpc_states.len()
            invariant
                i <= self.rpc_states.len(),
                self.wf(),
                out.wf(),
                out.seq() == Seq::new(i as nat, |k: int| self.entries()[k].0),
            decreases self.rpc_states.len() - i,
        {
            let ghost before = out.seq();
            proof {
                if out@.contains(self.entries()[i as int].0) {
                    let c = choose|c: int|
                        0 <= c < before.len() && before[c] == self.entries()[i as int].0;
                    assert(self.entries()[c].0 == self.entries()[i as int].0);
                }
            }
            let fresh = out.insert(self.rpc_states[i].0);
            assert(fresh);
            assert(out.seq() =~= Seq::new((i + 1) as nat, |k: int| self.entries()[k].0));
            i = i + 1;
        }
        proof {
            let names = out.seq();
            assert forall|name: XorName| names.to_set().contains(name) == has_holder(
                self.entries(),
                name,
            ) by {
                if names.contains(name) {
                    let c = choose|c: int| 0 <= c < names.len() && names[c] == name;
                    assert(self.entries()[c].0 == name);
                }
                if has_holder(self.entries(), name) {
                    let c = choose|c: int|
                        0 <= c < self.entries().len() && (#[trigger] self.entries()[c]).0 == name;
                    assert(names[c] == name);
                }
            }
            assert(out@ =~= self@.rpc_states().dom());
        }
        out
    }

    /// The state of the request to `holder`, if the operation has such a holder.
    pub fn state_of(&self, holder: &XorName) -> (r: Option<RpcState>)
        requires
            self.wf(),
        ensures
            r == if self@.has_holder(*holder) {
                Some(self@.rpc_states()[*holder])
            } else {
                None
            },
    {
        match self.position(holder) {
            Some(i) => {
                proof {
                    lemma_states_map_at(self.entries(), i as int);
                }
                Some(self.rpc_states[i].1)
            },
            None => None,
        }
    }

    /// Where `holder` stands among the entries.
    fn position(&self, holder: &XorName) -> (r: Option<usize>)
        ensures
            match r {
                Some(i) => i < self.entries().len() && self.entries()[i as int].0 == *holder,
                None => !has_holder(self.entries(), *holder),
            },
    {
        let mut i: usize = 0;
        while i < self.rpc_states.len()
            invariant
                i <= self.rpc_states.len(),
                forall|j: int| 0 <= j < i ==> (#[trigger] self.rpc_states@[j]).0 != *holder,
            decreases self.rpc_states.len() - i,
        {
            if self.rpc_states[i].0.same(holder) {
                return Some(i);
            }
            i = i + 1;
        }
        None
    }

    /// Whether some holder has answered.
    pub fn is_any_actioned(&self) -> (r: bool)
        ensures
            r == self@.is_any_actioned(),
    {
        let mut i: usize = 0;
        while i < self.rpc_states.len()
            invariant
                i <= self.rpc_states.len(),
                forall|j: int| 0 <= j < i ==> !((#[trigger] self.rpc_states@[j]).1 is Actioned),
            decreases self.rpc_states.len() - i,
        {
            match self.rpc_states[i].1 {
                RpcState::Actioned(_) => {
                    assert(self.entries()[i as int].1 is Actioned);
                    return true;
                },
                _ => {},
            }
            i = i + 1;
        }
        false
    }

    /// The kind of the operation.
    pub fn op_type(&self) -> (r: OpType)
        ensures
            r == self@.op_type(),
    {
        match self.request {
            IDataRequest::Put(_) => OpType::Put,
            IDataRequest::Get(_) => OpType::Get,
            IDataRequest::DeleteUnpub(_) => OpType::Delete,
        }
    }

    /// Whether no holder is still awaited.
    pub fn concluded(&self) -> (r: bool)
        ensures
            r == self@.concluded(),
    {
        let mut i: usize = 0;
        while i < self.rpc_states.len()
            invariant
                i <= self.rpc_states.len(),
                forall|j: int| 0 <= j < i ==> (#[trigger] self.rpc_states@[j]).1 != RpcState::Sent,
            decreases self.rpc_states.len() - i,
        {
            match self.rpc_states[i].1 {
                RpcState::Sent => {
                    assert(self.entries()[i as int].1 == RpcState::Sent);
                    return false;
                },
                _ => {},
            }
            i = i + 1;
        }
        true
    }

    /// The errors that holders have answered with, in the order of the holders.
    pub fn get_any_errors(&self) -> (r: Vec<(XorName, NdError)>)
        ensures
            r@ == errors_of(self.entries()),
    {
        let mut out: Vec<(XorName, NdError)> = Vec::new();
        let mut i: usize = 0;
        while i < self.rpc_states.len()
            invariant
                i <= self.rpc_states.len(),
                out@ == errors_of(self.rpc_states@.subrange(0, i as int)),
            decreases self.rpc_states.len() - i,
        {
            proof {
                let next = self.rpc_states@.subrange(0, i + 1);
                assert(next.drop_last() =~= self.rpc_states@.subrange(0, i as int));
                assert(next.last() == self.rpc_states@[i as int]);
            }
            match self.rpc_states[i].1 {
                RpcState::Actioned(Some(error)) => {
                    out.push((self.rpc_states[i].0, error));
                },
                _ => {},
            }
            i = i + 1;
        }
        assert(self.rpc_states@.subrange(0, i as int) =~= self.rpc_states@);
        out
    }

    /// Notes the answer of a holder to a request to store or to delete, and gives
    /// the address of the chunk. Nothing is noted, and nothing given, where the
    /// operation fetches a chunk or `sender` is none of its holders.
    pub fn handle_mutation_resp(
        &mut self,
        sender: XorName,
        result: Result<(), NdError>,
    ) -> (r: Option<IDataAddress>)
        requires
            old(self).wf(),
        ensures
            final(self).wf(),
            final(self).spec_client() == old(self).spec_client(),
            final(self).spec_request() == old(self).spec_request(),
            r == mutation_resp_address(old(self)@, sender),
            final(self)@ == (if r is Some {
                old(self)@.answered(sender, result_error(result))
            } else {
                old(self)@
            }),
    {
        if let IDataRequest::Get(_) = self.request {
            return None;
        }
        let error: Option<NdError> = match result {
            Ok(_) => None,
            Err(e) => Some(e),
        };
        if self.set_to_actioned(&sender, error).is_none() {
            return None;
        }
        match &self.request {
            IDataRequest::Put(data) => Some(data.address()),
            IDataRequest::DeleteUnpub(address) => Some(*address),
            IDataRequest::Get(address) => Some(*address),
        }
    }

    /// Notes the answer of a holder to a request that fetches a chunk for a
    /// further copy. The first answer goes to the data handlers of our section.
    pub fn handle_get_copy_idata_resp(
        &mut self,
        sender: XorName,
        result: Result<IData, NdError>,
        message_id: MessageId,
    ) -> (r: Option<Action>)
        requires
            old(self).wf(),
        ensures
            final(self).wf(),
            final(self).spec_client() == old(self).spec_client(),
            final(self).spec_request() == old(self).spec_request(),
            final(self)@ == (if get_resp_accepted(old(self)@, sender) {
                old(self)@.answered(sender, result_error(result))
            } else {
                old(self)@
            }),
            crate::messaging::action_view(r) == get_resp_action(
                old(self)@,
                sender,
                result_view(result),
                message_id,
                true,
            ),
    {
        let is_already_actioned = self.is_any_actioned();
        match self.request {
            IDataRequest::Get(_) => {},
            _ => {
                return None;
            },
        }
        let error: Option<NdError> = match &result {
            Ok(_) => None,
            Err(e) => Some(*e),
        };
        if self.set_to_actioned(&sender, error).is_none() {
            return None;
        }
        if is_already_actioned {
            None
        } else {
            Some(
                Action::RespondToOurDataHandlers {
                    rpc: Rpc::Response {
                        requester: self.client,
                        response: Response::GetIData(result),
                        message_id,
                        refund: None,
                    },
                },
            )
        }
    }

    /// Notes the answer of a holder to a request that fetches a chunk for a
    /// client. The first answer goes to the client handlers of the requester.
    pub fn handle_get_idata_resp(
        &mut self,
        sender: XorName,
        result: Result<IData, NdError>,
        message_id: MessageId,
    ) -> (r: Option<Action>)
        requires
            old(self).wf(),
        ensures
            final(self).wf(),
            final(self).spec_client() == old(self).spec_client(),
            final(self).spec_request() == old(self).spec_request(),
            final(self)@ == (if get_resp_accepted(old(self)@, sender) {
                old(self)@.answered(sender, result_error(result))
            } else {
                old(self)@
            }),
            crate::messaging::action_view(r) == get_resp_action(
                old(self)@,
                sender,
                result_view(result),
                message_id,
                false,
            ),
    {
        let is_already_actioned = self.is_any_actioned();
        let address = if let IDataRequest::Get(address) = self.request {
            address
        } else {
            return None;
        };
        let error: Option<NdError> = match &result {
            Ok(_) => None,
            Err(e) => Some(*e),
        };
        if self.set_to_actioned(&sender, error).is_none() {
            return None;
        }
        if is_already_actioned {
            None
        } else {
            Some(
                Action::RespondToClientHandlers {
                    sender: address.name(),
                    rpc: Rpc::Response {
                        requester: self.client,
                        response: Response::GetIData(result),
                        message_id,
                        refund: None,
                    },
                },
            )
        }
    }

    /// Notes that `sender` has answered, with the error of its answer. Gives
    /// `None`, and notes nothing, where `sender` is none of the holders.
    fn set_to_actioned(
        &mut self,
        sender: &XorName,
        got_error_response: Option<NdError>,
    ) -> (r: Option<()>)
        requires
            old(self).wf(),
        ensures
            final(self).wf(),
            final(self).spec_client() == old(self).spec_client(),
            final(self).spec_request() == old(self).spec_request(),
            r is Some == has_holder(old(self).entries(), *sender),
            final(self)@ == old(self)@.answered(*sender, got_error_response),
    {
        match self.position(sender) {
            None => None,
            Some(i) => {
                proof {
                    lemma_states_map_update(
                        self.entries(),
                        i as int,
                        RpcState::Actioned(got_error_response),
                    );
                    assert(holder_index(self.entries(), *sender) == i);
                }
                self.rpc_states.set(i, (*sender, RpcState::Actioned(got_error_response)));
                Some(())
            },
        }
    }
}

/// The error of a result, if it is one.
pub open spec fn result_error<T>(result: Result<T, NdError>) -> Option<NdError> {
    match result {
        Ok(_) => None,
        Err(error) => Some(error),
    }
}

/// The view of the outcome of fetching a chunk.
pub open spec fn result_view(result: Result<IData, NdError>) -> Result<
    crate::data::IDataView,
    NdError,
> {
    match result {
        Ok(data) => Ok(data@),
        Err(error) => Err(error),
    }
}

/// The address that the answer to a request to store or to delete is noted for:
/// that of the operation's chunk, unless the operation fetches a chunk or
/// `sender` is none of its holders.
pub open spec fn mutation_resp_address(op: IDataOpView, sender: XorName) -> Option<IDataAddress> {
    if op.request is Get || !op.has_holder(sender) {
        None
    } else {
        Some(op.request.address())
    }
}

/// Whether the answer of `sender` to a request that fetches a chunk is noted:
/// the operation fetches a chunk and `sender` is one of its holders.
pub open spec fn get_resp_accepted(op: IDataOpView, sender: XorName) -> bool {
    op.request is Get && op.has_holder(sender)
}

/// What follows the answer of `sender` to a request that fetches a chunk: the
/// first answer that is noted is passed on, to the data handlers of our section
/// where the chunk is fetched for a further copy (`for_copy`), else to the client
/// handlers of the requester; later answers are passed on to nobody.
pub open spec fn get_resp_action(
    op: IDataOpView,
    sender: XorName,
    result: Result<crate::data::IDataView, NdError>,
    message_id: MessageId,
    for_copy: bool,
) -> Option<ActionView> {
    if !get_resp_accepted(op, sender) || op.is_any_actioned() {
        None
    } else {
        let rpc = RpcView::Response {
            requester: op.client,
            response: ResponseView::GetIData(result),
            message_id,
            refund: None,
        };
        if for_copy {
            Some(ActionView::RespondToOurDataHandlers { rpc })
        } else {
            Some(
                ActionView::RespondToClientHandlers {
                    sender: op.request.address().spec_name(),
                    rpc,
                },
            )
        }
    }
}

} // verus!
