use vstd::prelude::*;
use vstd::string::*;
use std::collections::HashMap;
use crate::kv::{ClientId, Command, CommandId, KVCommand, MessageView, NodeId, ServerMessage, Timestamp};
use crate::database::{
    apply_log, command_result, lemma_apply_log_append, next_store, CommandResult, Database, ResultView, Store,
};

verus! {

broadcast use vstd::std_specs::hash::group_hash_axioms;

/// The client id under which commands that arrive through the HTTP shim are
/// ordered.
pub const SHIM_CLIENT_ID: ClientId = 0xffff_ffff_ffff_ffffu64;

/// The message that answers command `id`, given what applying it reported.
pub open spec fn message_for(id: CommandId, r: ResultView) -> MessageView {
    match r {
        ResultView::WriteOk => MessageView::Write(id),
        ResultView::ReadOk(v) => MessageView::Read(id, v),
        ResultView::CasOk => MessageView::CasOk(id),
        ResultView::CasFailed(current) => MessageView::CasFailed(id, current),
    }
}

/// Turns what applying command `id` reported into the message that answers it.
pub fn response_message(id: CommandId, result: CommandResult) -> (m: ServerMessage)
    ensures
        m@ == message_for(id, result@),
{
    match result {
        CommandResult::WriteOk => ServerMessage::Write(id),
        CommandResult::ReadOk(value) => ServerMessage::Read(id, value),
        CommandResult::CasOk => ServerMessage::CasOk(id),
        CommandResult::CasFailed { current } => ServerMessage::CasFailed(id, current),
    }
}

/// An answer to hand out: through the shim responder that waits for it, or
/// over the network to a client.
pub enum Delivery<R> {
    Shim(R, ServerMessage),
    Client(ClientId, ServerMessage),
}

/// The abstract form of a delivery.
pub enum DeliveryView<R> {
    Shim(R, MessageView),
    Client(ClientId, MessageView),
}

impl<R> View for Delivery<R> {
    type V = DeliveryView<R>;

    open spec fn view(&self) -> DeliveryView<R> {
        match self {
            Delivery::Shim(r, m) => DeliveryView::Shim(*r, m@),
            Delivery::Client(c, m) => DeliveryView::Client(*c, m@),
        }
    }
}

/// The abstract state of a replica's apply loop: the store and the shim
/// requests that still wait for an answer.
pub struct ApplyState<R> {
    pub store: Store,
    pub pending: Map<CommandId, R>,
}

/// Applies one decided command: the store moves on, and if this server
/// coordinated the command its answer goes to the waiting shim request (which
/// stops waiting) or to the client.
pub open spec fn apply_step<R>(st: ApplyState<R>, c: Command, self_id: NodeId) -> (ApplyState<R>, Seq<DeliveryView<R>>) {
    let store = next_store(st.store, c.kv_cmd);
    let msg = message_for(c.id, command_result(st.store, c.kv_cmd));
    if c.coordinator_id != self_id {
        (ApplyState { store, pending: st.pending }, Seq::empty())
    } else if c.client_id == SHIM_CLIENT_ID {
        if st.pending.contains_key(c.id) {
            (
                ApplyState { store, pending: st.pending.remove(c.id) },
                seq![DeliveryView::Shim(st.pending[c.id], msg)],
            )
        } else {
            (ApplyState { store, pending: st.pending }, Seq::empty())
        }
    } else {
        (ApplyState { store, pending: st.pending }, seq![DeliveryView::Client(c.client_id, msg)])
    }
}

/// Applies decided commands in log order, collecting the answers.
pub open spec fn apply_commands<R>(st: ApplyState<R>, log: Seq<Command>, self_id: NodeId) -> (ApplyState<R>, Seq<DeliveryView<R>>)
    decreases log.len(),
{
    if log.len() == 0 {
        (st, Seq::empty())
    } else {
        let (mid, out) = apply_commands(st, log.drop_last(), self_id);
        let (last, more) = apply_step(mid, log.last(), self_id);
        (last, out + more)
    }
}

/// The operations of a log of commands, in order.
pub open spec fn kv_log(log: Seq<Command>) -> Seq<KVCommand> {
    log.map_values(|c: Command| c.kv_cmd)
}

/// Applying decided commands leaves the store that the log's operations give
/// in order, whichever server applies them.
pub proof fn lemma_store_follows_log<R>(st: ApplyState<R>, log: Seq<Command>, self_id: NodeId)
    ensures
        apply_commands(st, log, self_id).0.store == apply_log(st.store, kv_log(log)),
    decreases log.len(),
{
    if log.len() > 0 {
        lemma_store_follows_log(st, log.drop_last(), self_id);
        assert(kv_log(log).drop_last() =~= kv_log(log.drop_last()));
    }
}

/// The answer to a client's command that this server coordinated reflects
/// exactly the commands decided before it: it is what the command gives on
/// the store that the earlier log entries leave.
pub proof fn lemma_answer_reflects_log_prefix<R>(st: ApplyState<R>, prefix: Seq<Command>, c: Command, self_id: NodeId)
    requires
        c.coordinator_id == self_id,
        c.client_id != SHIM_CLIENT_ID,
    ensures
        ({
            let d = apply_commands(st, prefix.push(c), self_id).1;
            &&& d.len() == apply_commands(st, prefix, self_id).1.len() + 1
            &&& d.last() == DeliveryView::<R>::Client(
                c.client_id,
                message_for(c.id, command_result(apply_log(st.store, kv_log(prefix)), c.kv_cmd)),
            )
        }),
{
    assert(prefix.push(c).drop_last() =~= prefix);
    lemma_store_follows_log(st, prefix, self_id);
}

/// A read decided right after a write of the same key is answered with the
/// written value, whichever server coordinated the write: no stale read.
pub proof fn lemma_read_sees_preceding_write<R>(st: ApplyState<R>, prefix: Seq<Command>, write: Command, read: Command, self_id: NodeId)
    requires
        write.kv_cmd matches KVCommand::Put(k, _) && read.kv_cmd matches KVCommand::Get(k2) && k2@ == k@,
        read.coordinator_id == self_id,
        read.client_id != SHIM_CLIENT_ID,
    ensures
        ({
            let d = apply_commands(st, prefix.push(write).push(read), self_id).1;
            d.last() == DeliveryView::<R>::Client(
                read.client_id,
                MessageView::Read(read.id, Some(write.kv_cmd->Put_1@)),
            )
        }),
{
    lemma_answer_reflects_log_prefix(st, prefix.push(write), read, self_id);
    let p2 = prefix.push(write);
    assert(kv_log(p2).drop_last() =~= kv_log(prefix));
    assert(kv_log(p2).last() == write.kv_cmd);
    let m = apply_log(st.store, kv_log(prefix));
    match (write.kv_cmd, read.kv_cmd) {
        (KVCommand::Put(k, v), KVCommand::Get(k2)) => {
            crate::database::lemma_read_after_write(m, k, v, k2);
        },
        _ => {},
    }
}

/// The answer to a shim command that this server coordinated, while its
/// responder waits, goes to that responder and reflects exactly the commands
/// decided before it.
pub proof fn lemma_shim_answer_reflects_log_prefix<R>(st: ApplyState<R>, prefix: Seq<Command>, c: Command, self_id: NodeId)
    requires
        c.coordinator_id == self_id,
        c.client_id == SHIM_CLIENT_ID,
        apply_commands(st, prefix, self_id).0.pending.contains_key(c.id),
    ensures
        ({
            let waiting = apply_commands(st, prefix, self_id).0.pending;
            let (after, d) = apply_commands(st, prefix.push(c), self_id);
            &&& d.len() == apply_commands(st, prefix, self_id).1.len() + 1
            &&& d.last() == DeliveryView::<R>::Shim(
                waiting[c.id],
                message_for(c.id, command_result(apply_log(st.store, kv_log(prefix)), c.kv_cmd)),
            )
            &&& !after.pending.contains_key(c.id)
        }),
{
    assert(prefix.push(c).drop_last() =~= prefix);
    lemma_store_follows_log(st, prefix, self_id);
}

/// A shim read decided right after a write of the same key is answered, to
/// its waiting responder, with the written value.
pub proof fn lemma_shim_read_sees_preceding_write<R>(st: ApplyState<R>, prefix: Seq<Command>, write: Command, read: Command, self_id: NodeId)
    requires
        write.kv_cmd matches KVCommand::Put(k, _) && read.kv_cmd matches KVCommand::Get(k2) && k2@ == k@,
        read.coordinator_id == self_id,
        read.client_id == SHIM_CLIENT_ID,
        apply_commands(st, prefix.push(write), self_id).0.pending.contains_key(read.id),
    ensures
        ({
            let waiting = apply_commands(st, prefix.push(write), self_id).0.pending;
            let d = apply_commands(st, prefix.push(write).push(read), self_id).1;
            d.last() == DeliveryView::<R>::Shim(waiting[read.id], MessageView::Read(read.id, Some(write.kv_cmd->Put_1@)))
        }),
{
    lemma_shim_answer_reflects_log_prefix(st, prefix.push(write), read, self_id);
    let p2 = prefix.push(write);
    assert(kv_log(p2).drop_last() =~= kv_log(prefix));
    assert(kv_log(p2).last() == write.kv_cmd);
    let m = apply_log(st.store, kv_log(prefix));
    match (write.kv_cmd, read.kv_cmd) {
        (KVCommand::Put(k, v), KVCommand::Get(k2)) => {
            crate::database::lemma_read_after_write(m, k, v, k2);
        },
        _ => {},
    }
}

/// If the replica had applied exactly the first `from` entries of a decided
/// log, and is handed exactly the entries from `from` up to `to`, it has then
/// applied exactly the first `to` entries: every decided entry once, in log
/// order.
pub proof fn lemma_decided_entries_applied_once(log: Seq<Command>, applied: Seq<Command>, batch: Seq<Command>, from: int, to: int)
    requires
        0 <= from <= to <= log.len(),
        applied == log.take(from),
        batch == log.subrange(from, to),
    ensures
        applied + batch == log.take(to),
{
    assert(applied + batch =~= log.take(to));
}

/// Registering a shim request and then rejecting it leaves no responder
/// waiting under its id, and every other waiting responder as it was.
pub proof fn lemma_register_then_reject<R>(pending: Map<CommandId, R>, id: CommandId, responder: R)
    ensures
        pending.insert(id, responder).remove(id) == pending.remove(id),
        pending.insert(id, responder).contains_key(id),
        pending.insert(id, responder)[id] == responder,
{
    assert(pending.insert(id, responder).remove(id) =~= pending.remove(id));
}

/// The abstract forms of a list of deliveries.
pub open spec fn deliveries_view<R>(d: Seq<Delivery<R>>) -> Seq<DeliveryView<R>> {
    d.map_values(|x: Delivery<R>| x@)
}

/// One server's replica of the store: it applies the decided log and routes
/// the answers to the commands it coordinated.
pub struct Replica<R> {
    id: NodeId,
    database: Database,
    current_decided_idx: usize,
    pending_shim: HashMap<CommandId, R>,
    applied: Ghost<Seq<Command>>,
}

impl<R> Replica<R> {
    /// The server this replica runs on.
    pub closed spec fn node_id(&self) -> NodeId {
        self.id
    }

    /// The server this replica runs on.
    pub fn id(&self) -> (id: NodeId)
        ensures
            id == self.node_id(),
    {
        self.id
    }

    /// The replica's store.
    pub closed spec fn store(&self) -> Store {
        self.database@
    }

    /// The shim requests that wait for their answer, by command id.
    pub closed spec fn pending(&self) -> Map<CommandId, R> {
        self.pending_shim@
    }

    /// How many log entries have been applied.
    pub closed spec fn decided_idx(&self) -> usize {
        self.current_decided_idx
    }

    /// The decided commands applied so far, in the order applied.
    pub closed spec fn applied_log(&self) -> Seq<Command> {
        self.applied@
    }

    /// The store is what the applied commands give, in order, from an empty
    /// store.
    pub open spec fn store_follows_applied(&self) -> bool {
        self.store() == apply_log(Store::empty(), kv_log(self.applied_log()))
    }

    /// The replica is consistent: it has applied exactly `decided_idx()`
    /// commands, and its store is what they give in order.
    pub open spec fn wf(&self) -> bool {
        &&& self.applied_log().len() == self.decided_idx()
        &&& self.store_follows_applied()
    }

    /// The apply state of the replica.
    pub open spec fn apply_state(&self) -> ApplyState<R> {
        ApplyState { store: self.store(), pending: self.pending() }
    }

    /// A replica with an empty store that has applied nothing.
    pub fn new(id: NodeId) -> (r: Self)
        ensures
            r.node_id() == id,
            r.store() == Store::empty(),
            r.pending() == Map::<CommandId, R>::empty(),
            r.decided_idx() == 0,
            r.applied_log() == Seq::<Command>::empty(),
            r.store_follows_applied(),
            r.wf(),
    {
        Replica {
            id,
            database: Database::new(),
            current_decided_idx: 0,
            pending_shim: HashMap::new(),
            applied: Ghost(Seq::empty()),
        }
    }

    /// The index from which the decided log must be read, if entries up to
    /// `decided_idx` are decided and not all of them are applied yet.
    pub fn undecided_from(&self, decided_idx: usize) -> (r: Option<usize>)
        ensures
            r == (if self.decided_idx() < decided_idx { Some(self.decided_idx()) } else { None::<usize> }),
    {
        if self.current_decided_idx < decided_idx {
            Some(self.current_decided_idx)
        } else {
            None
        }
    }

    /// Remembers the responder that waits for shim command `id`, replacing
    /// any earlier one.
    pub fn register_shim_request(&mut self, id: CommandId, responder: R)
        ensures
            final(self).pending() == old(self).pending().insert(id, responder),
            final(self).store() == old(self).store(),
            final(self).applied_log() == old(self).applied_log(),
            final(self).decided_idx() == old(self).decided_idx(),
            final(self).node_id() == old(self).node_id(),
            old(self).wf() ==> final(self).wf(),
    {
        let _ = self.pending_shim.insert(id, responder);
    }

    /// Shim command `id` could not be appended to the log: its responder, if
    /// one waits, stops waiting and is answered that the cluster is unavailable.
    pub fn reject_shim_request(&mut self, id: CommandId) -> (d: Option<Delivery<R>>)
        ensures
            final(self).pending() == old(self).pending().remove(id),
            final(self).store() == old(self).store(),
            final(self).applied_log() == old(self).applied_log(),
            final(self).decided_idx() == old(self).decided_idx(),
            final(self).node_id() == old(self).node_id(),
            old(self).wf() ==> final(self).wf(),
            match d {
                Some(x) => old(self).pending().contains_key(id)
                    && x@ == DeliveryView::Shim(old(self).pending()[id], MessageView::Error(id, "unavailable"@)),
                None => !old(self).pending().contains_key(id),
            },
    {
        match self.pending_shim.remove(&id) {
            Some(responder) => Some(Delivery::Shim(responder, ServerMessage::Error(id, String::from_str("unavailable")))),
            None => None,
        }
    }

    /// Applies newly decided commands, which stand in the log from the
    /// replica's applied index up to `new_decided_idx` (one command per
    /// entry), and returns the answers to hand out.
    pub fn apply_decided(&mut self, new_decided_idx: usize, commands: Vec<Command>) -> (out: Vec<Delivery<R>>)
        requires
            old(self).decided_idx() < new_decided_idx,
            commands@.len() == new_decided_idx - old(self).decided_idx(),
        ensures
            final(self).decided_idx() == new_decided_idx,
            final(self).node_id() == old(self).node_id(),
            final(self).applied_log() == old(self).applied_log() + commands@,
            old(self).store_follows_applied() ==> final(self).store_follows_applied(),
            old(self).wf() ==> final(self).wf(),
            ({
                let (st, d) = apply_commands(old(self).apply_state(), commands@, old(self).node_id());
                &&& final(self).apply_state() == st
                &&& deliveries_view(out@) == d
            }),
    {
        self.current_decided_idx = new_decided_idx;
        self.update_database_and_respond(commands)
    }

    /// Applies decided commands in order and returns the answers to the
    /// commands that this server coordinated.
    fn update_database_and_respond(&mut self, commands: Vec<Command>) -> (out: Vec<Delivery<R>>)
        ensures
            final(self).decided_idx() == old(self).decided_idx(),
            final(self).node_id() == old(self).node_id(),
            final(self).applied_log() == old(self).applied_log() + commands@,
            old(self).store_follows_applied() ==> final(self).store_follows_applied(),
            ({
                let (st, d) = apply_commands(old(self).apply_state(), commands@, old(self).node_id());
                &&& final(self).apply_state() == st
                &&& deliveries_view(out@) == d
            }),
    {
        let ghost log = commands@;
        let ghost start = self.apply_state();
        let mut out: Vec<Delivery<R>> = Vec::new();
        let mut rest = reversed(commands);
        let n = rest.len();
        let mut i: usize = 0;
        while i < n
            invariant
                n == log.len(),
                i <= n,
                rest@.len() == n - i,
                forall|j: int| 0 <= j < n - i ==> #[trigger] rest@[j] == log[n - 1 - j],
                self.id == old(self).id,
                self.decided_idx() == old(self).decided_idx(),
                self.applied@ == old(self).applied@,
                start == old(self).apply_state(),
                ({
                    let (st, d) = apply_commands(start, log.take(i as int), self.id);
                    &&& self.apply_state() == st
                    &&& deliveries_view(out@) == d
                }),
            decreases n - i,
        {
            let command = rest.pop().unwrap();
            proof {
                assert(command == log[i as int]);
                assert(log.take(i + 1).drop_last() =~= log.take(i as int));
                assert(log.take(i + 1).last() == log[i as int]);
            }
            let ghost before = self.apply_state();
            let ghost out_before = out@;
            let Command { client_id, coordinator_id, id, kv_cmd } = command;
            let result = self.database.handle_command(kv_cmd);
            if coordinator_id == self.id {
                let response = response_message(id, result);
                if client_id == SHIM_CLIENT_ID {
                    match self.pending_shim.remove(&id) {
                        Some(responder) => {
                            out.push(Delivery::Shim(responder, response));
                        },
                        None => {},
                    }
                } else {
                    out.push(Delivery::Client(client_id, response));
                }
            }
            proof {
                let (st2, more) = apply_step(before, log[i as int], self.id);
                assert(self.store() == st2.store);
                assert(self.pending() =~= st2.pending);
                assert(self.apply_state() == st2);
                assert(deliveries_view(out@) =~= deliveries_view(out_before) + more);
            }
            i = i + 1;
        }
        proof {
            assert(log.take(n as int) =~= log);
            lemma_store_follows_log(start, log, self.id);
            let a = old(self).applied@;
            lemma_apply_log_append(Store::empty(), kv_log(a), kv_log(log));
            assert(kv_log(a + log) =~= kv_log(a) + kv_log(log));
        }
        self.applied = Ghost(self.applied@ + log);
        out
    }
}

/// What the initial leader does on a leader-takeover tick.
#[derive(Debug, Clone, Copy, PartialEq, Eq, Structural)]
pub enum LeaderAction {
    /// It leads and its leadership is in the accept phase: send the start
    /// signals.
    Start,
    /// Try (again) to become leader.
    TryTakeover,
}

/// The initial leader's step on a leader-takeover tick, given the leader the
/// consensus instance currently knows and whether it is in the accept phase.
pub fn leader_tick_action(self_id: NodeId, current_leader: Option<(NodeId, bool)>) -> (a: LeaderAction)
    ensures
        a == (if current_leader == Some((self_id, true)) { LeaderAction::Start } else { LeaderAction::TryTakeover }),
{
    match current_leader {
        Some((leader, accept_phase)) => {
            if leader == self_id && accept_phase {
                LeaderAction::Start
            } else {
                LeaderAction::TryTakeover
            }
        },
        None => LeaderAction::TryTakeover,
    }
}

/// The clients that get a start signal: ids 1 to `num_clients`.
pub fn start_signal_clients(num_clients: usize) -> (ids: Vec<ClientId>)
    requires
        num_clients < u64::MAX,
    ensures
        ids@ == client_ids(num_clients as nat),
{
    let mut ids: Vec<ClientId> = Vec::new();
    let mut i: usize = 0;
    while i < num_clients
        invariant
            i <= num_clients,
            num_clients < u64::MAX,
            ids@ == Seq::new(i as nat, |j: int| (j + 1) as ClientId),
        decreases num_clients - i,
    {
        ids.push(i as u64 + 1);
        assert(ids@ =~= Seq::new((i + 1) as nat, |j: int| (j + 1) as ClientId));
        i = i + 1;
    }
    ids
}

/// The start time of an experiment whose start is decided at `now`: two
/// seconds later.
pub fn start_time_after(now: Timestamp) -> (t: Timestamp)
    requires
        now <= i64::MAX - 2000,
    ensures
        t == now + 2000,
{
    now + 2000
}

/// What a server learns while the cluster starts up.
pub enum StartupEvent {
    /// The leader-takeover timer fired at time `now` (milliseconds since the
    /// epoch), and the consensus instance reports `current_leader`: the
    /// leader it knows and whether that leadership is in the accept phase.
    TakeoverTick { current_leader: Option<(NodeId, bool)>, now: Timestamp },
    /// A peer announced that the experiment starts at this time.
    LeaderStartSignal(Timestamp),
}

/// What a server does on a start-up event.
#[derive(Debug, PartialEq, Eq)]
pub enum StartupAction {
    /// Nothing: the takeover timer drives only the initial leader.
    Wait,
    /// Ask the consensus instance to take over leadership and keep waiting.
    TryTakeover,
    /// Send `LeaderStartSignal(start)` to each of `peers` and
    /// `StartSignal(start)` to each of `clients`; the start-up phase ends.
    AnnounceStart { start: Timestamp, peers: Vec<NodeId>, clients: Vec<ClientId> },
    /// Send `StartSignal(start)` to each of `clients`; the start-up phase ends.
    SignalClients { start: Timestamp, clients: Vec<ClientId> },
}

/// The clients that get a start signal when there are `n` of them: ids 1 to
/// `n`.
pub open spec fn client_ids(n: nat) -> Seq<ClientId> {
    Seq::new(n, |i: int| (i + 1) as ClientId)
}

/// The start-up step of server `self_id` on event `ev`: the initial leader,
/// once it leads in the accept phase, announces a start two seconds ahead
/// to all peers and to its clients; any server that hears such an
/// announcement passes it on to its own clients.
pub fn startup_step(
    self_id: NodeId,
    initial_leader: NodeId,
    peers: &Vec<NodeId>,
    num_clients: usize,
    ev: StartupEvent,
) -> (a: StartupAction)
    requires
        num_clients < u64::MAX,
        ev matches StartupEvent::TakeoverTick { current_leader, now } ==> (self_id == initial_leader
            && current_leader == Some((self_id, true)) ==> now <= i64::MAX - 2000),
    ensures
        match ev {
            StartupEvent::TakeoverTick { current_leader, now } => {
                if self_id != initial_leader {
                    a == StartupAction::Wait
                } else if current_leader == Some((self_id, true)) {
                    a matches StartupAction::AnnounceStart { start, peers: to_peers, clients }
                        && start == now + 2000
                        && to_peers@ == peers@
                        && clients@ == client_ids(num_clients as nat)
                } else {
                    a == StartupAction::TryTakeover
                }
            },
            StartupEvent::LeaderStartSignal(t) => a matches StartupAction::SignalClients { start, clients }
                && start == t
                && clients@ == client_ids(num_clients as nat),
        },
{
    match ev {
        StartupEvent::TakeoverTick { current_leader, now } => {
            if self_id != initial_leader {
                StartupAction::Wait
            } else {
                match leader_tick_action(self_id, current_leader) {
                    LeaderAction::Start => {
                        let to_peers = peers.clone();
                        assert(to_peers@ =~= peers@);
                        StartupAction::AnnounceStart {
                            start: start_time_after(now),
                            peers: to_peers,
                            clients: start_signal_clients(num_clients),
                        }
                    },
                    LeaderAction::TryTakeover => StartupAction::TryTakeover,
                }
            }
        },
        StartupEvent::LeaderStartSignal(t) => StartupAction::SignalClients {
            start: t,
            clients: start_signal_clients(num_clients),
        },
    }
}

/// The items of `v` in reverse order.
fn reversed<T>(v: Vec<T>) -> (r: Vec<T>)
    ensures
        r@.len() == v@.len(),
        forall|j: int| 0 <= j < v@.len() ==> #[trigger] r@[j] == v@[v@.len() - 1 - j],
{
    let ghost orig = v@;
    let mut src = v;
    let mut r: Vec<T> = Vec::new();
    while src.len() > 0
        invariant
            src@.len() + r@.len() == orig.len(),
            forall|j: int| 0 <= j < src@.len() ==> #[trigger] src@[j] == orig[j],
            forall|j: int| 0 <= j < r@.len() ==> #[trigger] r@[j] == orig[orig.len() - 1 - j],
        decreases src@.len(),
    {
        let x = src.pop().unwrap();
        r.push(x);
    }
    r
}

/// A decided command that another server coordinated is only applied to the
/// store: it is answered to nobody and every waiting shim responder keeps
/// waiting, whatever the command's client.
pub proof fn lemma_foreign_command_not_answered<R>(st: ApplyState<R>, c: Command, self_id: NodeId)
    requires
        c.coordinator_id != self_id,
    ensures
        apply_step(st, c, self_id).1.len() == 0,
        apply_step(st, c, self_id).0.pending == st.pending,
        apply_step(st, c, self_id).0.store == next_store(st.store, c.kv_cmd),
{
}

/// While a log is applied, a waiting shim responder stops waiting only when
/// the log holds a shim command with its id that this server coordinated;
/// otherwise it keeps waiting, unchanged.
pub proof fn lemma_responder_waits_for_own_command<R>(st: ApplyState<R>, log: Seq<Command>, self_id: NodeId, id: CommandId)
    requires
        st.pending.contains_key(id),
        forall|i: int|
            0 <= i < log.len() ==> !(#[trigger] log[i].coordinator_id == self_id && log[i].client_id == SHIM_CLIENT_ID
                && log[i].id == id),
    ensures
        apply_commands(st, log, self_id).0.pending.contains_key(id),
        apply_commands(st, log, self_id).0.pending[id] == st.pending[id],
    decreases log.len(),
{
    if log.len() > 0 {
        let t = log.drop_last();
        assert forall|i: int| 0 <= i < t.len() implies !(#[trigger] t[i].coordinator_id == self_id && t[i].client_id
            == SHIM_CLIENT_ID && t[i].id == id) by {
            assert(t[i] == log[i]);
        }
        lemma_responder_waits_for_own_command(st, t, self_id, id);
        assert(log.last() == log[log.len() - 1]);
    }
}

/// A log in which this server coordinated nothing is answered to nobody and
/// leaves every waiting shim responder waiting.
pub proof fn lemma_foreign_log_not_answered<R>(st: ApplyState<R>, log: Seq<Command>, self_id: NodeId)
    requires
        forall|i: int| 0 <= i < log.len() ==> (#[trigger] log[i]).coordinator_id != self_id,
    ensures
        apply_commands(st, log, self_id).1.len() == 0,
        apply_commands(st, log, self_id).0.pending == st.pending,
    decreases log.len(),
{
    if log.len() > 0 {
        let t = log.drop_last();
        assert forall|i: int| 0 <= i < t.len() implies (#[trigger] t[i]).coordinator_id != self_id by {
            assert(t[i] == log[i]);
        }
        lemma_foreign_log_not_answered(st, t, self_id);
        assert(log.last() == log[log.len() - 1]);
    }
}

/// A decided command that this server coordinated for a network client is
/// answered once, to that client, with the command's id and what the
/// command gives on the store; the waiting shim responders are untouched.
/// One it coordinated through the shim is answered to the responder that
/// waits under its id, which then stops waiting (every other one keeps
/// waiting), or to nobody when none waits.
pub proof fn lemma_own_command_answered<R>(st: ApplyState<R>, c: Command, self_id: NodeId)
    requires
        c.coordinator_id == self_id,
    ensures
        ({
            let (after, d) = apply_step(st, c, self_id);
            let msg = message_for(c.id, command_result(st.store, c.kv_cmd));
            &&& after.store == next_store(st.store, c.kv_cmd)
            &&& c.client_id != SHIM_CLIENT_ID ==> d == seq![DeliveryView::<R>::Client(c.client_id, msg)]
                && after.pending == st.pending
            &&& c.client_id == SHIM_CLIENT_ID && st.pending.contains_key(c.id) ==> d == seq![
                DeliveryView::<R>::Shim(st.pending[c.id], msg),
            ] && !after.pending.contains_key(c.id) && forall|id: CommandId|
                id != c.id ==> (#[trigger] after.pending.contains_key(id) <==> st.pending.contains_key(id))
                    && (st.pending.contains_key(id) ==> after.pending[id] == st.pending[id])
            &&& c.client_id == SHIM_CLIENT_ID && !st.pending.contains_key(c.id) ==> d.len() == 0 && after.pending
                == st.pending
        }),
{
}

/// The id, in every answer, is that of the command answered: the message
/// for command `id` carries `id`, whatever the command reported.
pub proof fn lemma_message_carries_id(id: CommandId, r: ResultView)
    ensures
        match message_for(id, r) {
            MessageView::Write(i) => i == id && r is WriteOk,
            MessageView::Read(i, v) => i == id && r == ResultView::ReadOk(v),
            MessageView::CasOk(i) => i == id && r is CasOk,
            MessageView::CasFailed(i, cur) => i == id && r == ResultView::CasFailed(cur),
            _ => false,
        },
{
}

} // verus!
