//! The host side of workers: a table from worker ids to handles, and what the
//! host answers for each event a worker produces.
use std::collections::HashMap;
use vstd::prelude::*;

verus! {

broadcast use vstd::std_specs::hash::group_hash_axioms;

/// An exception raised by guest code, with the place it was raised at.
pub struct ScriptError {
    pub message: String,
    pub script_resource_name: Option<String>,
    pub line_number: Option<i64>,
    pub start_column: Option<i64>,
}

/// A failure inside a worker: a guest exception, or any other error, of
/// which only its text is known.
pub enum WorkerFailure {
    Script(ScriptError),
    Other(String),
}

/// What a worker thread hands to its host.
pub enum WorkerEvent {
    Message(Vec<u8>),
    Error(WorkerFailure),
    TerminalError(WorkerFailure),
}

/// Where an error was raised, as far as the engine could tell.
pub struct SourcePosition {
    pub file_name: Option<String>,
    pub line_number: Option<i64>,
    pub column_number: Option<i64>,
}

/// The structured form of a failure that the owning script receives.
pub struct ErrorReport {
    pub message: String,
    pub position: Option<SourcePosition>,
}

/// The answer of `getMessage`: `{type: "msg" | "error" | "terminalError" | "close"}`.
pub enum HostMessage {
    Msg(Vec<u8>),
    Error(ErrorReport),
    TerminalError(ErrorReport),
    Close,
}

pub enum WorkerHostError {
    /// No worker is registered under the id.
    UnknownWorker,
    /// The worker could not be set up; nothing was registered.
    SetupError(String),
    /// Every worker id has been handed out once already.
    IdsExhausted,
}

pub open spec fn report_of(f: WorkerFailure) -> ErrorReport {
    match f {
        WorkerFailure::Script(e) => ErrorReport {
            message: e.message,
            position: Some(
                SourcePosition {
                    file_name: e.script_resource_name,
                    line_number: e.line_number,
                    column_number: e.start_column,
                },
            ),
        },
        WorkerFailure::Other(m) => ErrorReport { message: m, position: None },
    }
}

pub open spec fn serialized(ev: WorkerEvent) -> HostMessage {
    match ev {
        WorkerEvent::Message(b) => HostMessage::Msg(b),
        WorkerEvent::Error(f) => HostMessage::Error(report_of(f)),
        WorkerEvent::TerminalError(f) => HostMessage::TerminalError(report_of(f)),
    }
}

/// The answer to a `getMessage` whose wait ended with `ev`; `None` means the
/// worker's channel closed.
pub open spec fn response_of(ev: Option<WorkerEvent>) -> HostMessage {
    match ev {
        Some(e) => serialized(e),
        None => HostMessage::Close,
    }
}

/// An event after which the worker is gone: a terminal error, or the end of
/// its channel.
pub open spec fn ends_worker(ev: Option<WorkerEvent>) -> bool {
    match ev {
        Some(WorkerEvent::TerminalError(_)) => true,
        None => true,
        _ => false,
    }
}

/// The worker table as a value: the next id to hand out and the live workers.
pub struct WorkerTable<H> {
    pub next_id: nat,
    pub workers: Map<u32, H>,
}

/// Every live worker holds an id that was handed out already.
pub open spec fn table_wf<H>(t: WorkerTable<H>) -> bool {
    &&& t.next_id <= u32::MAX
    &&& forall|id: u32| #[trigger] t.workers.contains_key(id) ==> (id as nat) < t.next_id
}

pub open spec fn can_register<H>(t: WorkerTable<H>) -> bool {
    t.next_id < u32::MAX
}

pub open spec fn after_register<H>(t: WorkerTable<H>, h: H) -> WorkerTable<H> {
    WorkerTable { next_id: t.next_id + 1, workers: t.workers.insert(t.next_id as u32, h) }
}

pub open spec fn after_remove<H>(t: WorkerTable<H>, id: u32) -> WorkerTable<H> {
    WorkerTable { next_id: t.next_id, workers: t.workers.remove(id) }
}

pub open spec fn after_event<H>(t: WorkerTable<H>, id: u32, ev: Option<WorkerEvent>) -> WorkerTable<
    H,
> {
    if ends_worker(ev) {
        after_remove(t, id)
    } else {
        t
    }
}

/// One change of the worker table, as the host makes it.
pub enum HostOp<H> {
    Register(H),
    Terminate(u32),
    Event(u32, Option<WorkerEvent>),
}

pub open spec fn apply_op<H>(t: WorkerTable<H>, op: HostOp<H>) -> WorkerTable<H> {
    match op {
        HostOp::Register(h) => if can_register(t) {
            after_register(t, h)
        } else {
            t
        },
        HostOp::Terminate(id) => after_remove(t, id),
        HostOp::Event(id, ev) => after_event(t, id, ev),
    }
}

pub open spec fn apply_ops<H>(t: WorkerTable<H>, ops: Seq<HostOp<H>>) -> WorkerTable<H>
    decreases ops.len(),
{
    if ops.len() == 0 {
        t
    } else {
        apply_ops(apply_op(t, ops[0]), ops.drop_first())
    }
}

/// Each operation keeps the table well formed, and never lowers the next id.
pub proof fn lemma_apply_op_wf<H>(t: WorkerTable<H>, op: HostOp<H>)
    requires
        table_wf(t),
    ensures
        table_wf(apply_op(t, op)),
        apply_op(t, op).next_id >= t.next_id,
{
    let t2 = apply_op(t, op);
    assert forall|id: u32| #[trigger] t2.workers.contains_key(id) implies (id as nat)
        < t2.next_id by {
        if t2.workers.contains_key(id) {
            match op {
                HostOp::Register(h) => {
                    if can_register(t) && id != t.next_id as u32 {
                        assert(t.workers.contains_key(id));
                    }
                },
                _ => {
                    assert(t.workers.contains_key(id));
                },
            }
        }
    }
}

pub proof fn lemma_apply_ops_wf<H>(t: WorkerTable<H>, ops: Seq<HostOp<H>>)
    requires
        table_wf(t),
    ensures
        table_wf(apply_ops(t, ops)),
        apply_ops(t, ops).next_id >= t.next_id,
    decreases ops.len(),
{
    if ops.len() > 0 {
        lemma_apply_op_wf(t, ops[0]);
        lemma_apply_ops_wf(apply_op(t, ops[0]), ops.drop_first());
    }
}

/// An id that was handed out and is no longer in the table never comes back.
pub proof fn lemma_retired_id_stays_unknown<H>(t: WorkerTable<H>, id: u32, ops: Seq<HostOp<H>>)
    requires
        table_wf(t),
        (id as nat) < t.next_id,
        !t.workers.contains_key(id),
    ensures
        !apply_ops(t, ops).workers.contains_key(id),
    decreases ops.len(),
{
    if ops.len() > 0 {
        let t1 = apply_op(t, ops[0]);
        lemma_apply_op_wf(t, ops[0]);
        match ops[0] {
            HostOp::Register(h) => {
                if can_register(t) {
                    assert(id != t.next_id as u32);
                }
            },
            _ => {},
        }
        assert(!t1.workers.contains_key(id));
        lemma_retired_id_stays_unknown(t1, id, ops.drop_first());
    }
}

/// Worker ids strictly increase: a registration after any sequence of host
/// operations (removals included) hands out a larger id than an earlier one,
/// and an id handed out is never that of a worker in the table.
pub proof fn lemma_worker_ids_increase<H>(t: WorkerTable<H>, first: H, ops: Seq<HostOp<H>>)
    requires
        table_wf(t),
        can_register(t),
    ensures
        !t.workers.contains_key(t.next_id as u32),
        apply_ops(after_register(t, first), ops).next_id > t.next_id,
        !apply_ops(after_register(t, first), ops).workers.contains_key(
            apply_ops(after_register(t, first), ops).next_id as u32,
        ),
{
    lemma_apply_op_wf(t, HostOp::Register(first));
    let t1 = after_register(t, first);
    assert(t1 == apply_op(t, HostOp::Register(first)));
    lemma_apply_ops_wf(t1, ops);
    let t2 = apply_ops(t1, ops);
    if t2.workers.contains_key(t2.next_id as u32) {
        if t2.next_id < u32::MAX {
            assert((t2.next_id as u32) as nat == t2.next_id);
        }
    }
}

/// After `terminateWorker(id)` succeeds, the id stays unknown to every later
/// `postMessage`, `getMessage` and `terminateWorker`.
pub proof fn lemma_terminated_worker_stays_unknown<H>(
    t: WorkerTable<H>,
    id: u32,
    ops: Seq<HostOp<H>>,
)
    requires
        table_wf(t),
        t.workers.contains_key(id),
    ensures
        !apply_ops(apply_op(t, HostOp::Terminate(id)), ops).workers.contains_key(id),
{
    lemma_apply_op_wf(t, HostOp::Terminate(id));
    lemma_retired_id_stays_unknown(apply_op(t, HostOp::Terminate(id)), id, ops);
}

/// A terminal error is the last event observable for a worker: once the host
/// has taken it, no later `getMessage` for that id finds the worker.
pub proof fn lemma_terminal_error_is_last<H>(
    t: WorkerTable<H>,
    id: u32,
    failure: WorkerFailure,
    ops: Seq<HostOp<H>>,
)
    requires
        table_wf(t),
        t.workers.contains_key(id),
    ensures
        response_of(Some(WorkerEvent::TerminalError(failure))) == HostMessage::TerminalError(
            report_of(failure),
        ),
        !apply_ops(
            apply_op(t, HostOp::Event(id, Some(WorkerEvent::TerminalError(failure)))),
            ops,
        ).workers.contains_key(id),
{
    let op = HostOp::Event(id, Some(WorkerEvent::TerminalError(failure)));
    lemma_apply_op_wf(t, op);
    lemma_retired_id_stays_unknown(apply_op(t, op), id, ops);
}

/// Bytes that a worker echoes come back to the host unchanged, and a message
/// leaves the worker registered.
pub proof fn lemma_echo_round_trip<H>(t: WorkerTable<H>, id: u32, bytes: Vec<u8>)
    requires
        table_wf(t),
        t.workers.contains_key(id),
    ensures
        response_of(Some(WorkerEvent::Message(bytes))) == HostMessage::Msg(bytes),
        apply_op(t, HostOp::Event(id, Some(WorkerEvent::Message(bytes)))) == t,
{
}

/// The host's table of running workers, each under an id of its own.
pub struct WorkerHost<H> {
    next_worker_id: u32,
    workers: HashMap<u32, H>,
}

impl<H> WorkerHost<H> {
    pub closed spec fn table(&self) -> WorkerTable<H> {
        WorkerTable { next_id: self.next_worker_id as nat, workers: self.workers@ }
    }

    pub open spec fn wf(&self) -> bool {
        table_wf(self.table())
    }

    pub fn new() -> (r: Self)
        ensures
            r.wf(),
            r.table().next_id == 0,
            r.table().workers == Map::<u32, H>::empty(),
    {
        WorkerHost { next_worker_id: 0, workers: HashMap::new() }
    }

    /// Whether a worker id is left to hand out.
    pub fn can_register(&self) -> (r: bool)
        ensures
            r == can_register(self.table()),
    {
        self.next_worker_id < u32::MAX
    }

    /// Registers a running worker under a fresh id and returns that id.
    pub fn register_worker(&mut self, handle: H) -> (id: u32)
        requires
            old(self).wf(),
            can_register(old(self).table()),
        ensures
            final(self).wf(),
            id as nat == old(self).table().next_id,
            !old(self).table().workers.contains_key(id),
            final(self).table() == apply_op(old(self).table(), HostOp::Register(handle)),
    {
        proof {
            lemma_apply_op_wf(self.table(), HostOp::Register(handle));
        }
        let id = self.next_worker_id;
        self.workers.insert(id, handle);
        self.next_worker_id = id + 1;
        id
    }

    /// The first step of creating a worker: the specifier as the module
    /// resolver answered it.  An unresolvable specifier is a setup error, and
    /// no worker may be started for it.
    pub fn prepare_worker(&self, resolved: Result<String, String>) -> (r: Result<
        String,
        WorkerHostError,
    >)
        ensures
            match resolved {
                Err(m) => r == Err::<String, WorkerHostError>(WorkerHostError::SetupError(m)),
                Ok(s) => if can_register(self.table()) {
                    r == Ok::<String, WorkerHostError>(s)
                } else {
                    r == Err::<String, WorkerHostError>(WorkerHostError::IdsExhausted)
                },
            },
    {
        match resolved {
            Err(m) => Err(WorkerHostError::SetupError(m)),
            Ok(s) => {
                if self.can_register() {
                    Ok(s)
                } else {
                    Err(WorkerHostError::IdsExhausted)
                }
            },
        }
    }

    /// The last step of creating a worker: the outcome of the handshake with
    /// its thread.  A worker that came up is registered; one that failed to
    /// set up leaves the table as it was.
    pub fn finish_create_worker(&mut self, handshake: Result<H, String>) -> (r: Result<
        u32,
        WorkerHostError,
    >)
        requires
            old(self).wf(),
            can_register(old(self).table()),
        ensures
            final(self).wf(),
            match handshake {
                Ok(h) => r == Ok::<u32, WorkerHostError>(old(self).table().next_id as u32)
                    && final(self).table() == after_register(old(self).table(), h),
                Err(m) => r == Err::<u32, WorkerHostError>(WorkerHostError::SetupError(m))
                    && final(self).table() == old(self).table(),
            },
    {
        match handshake {
            Ok(h) => Ok(self.register_worker(h)),
            Err(m) => Err(WorkerHostError::SetupError(m)),
        }
    }

    /// The handle of a registered worker, for `postMessage` and `getMessage`.
    pub fn worker(&self, id: u32) -> (r: Result<&H, WorkerHostError>)
        ensures
            match r {
                Ok(h) => self.table().workers.contains_key(id) && *h == self.table().workers[id],
                Err(e) => !self.table().workers.contains_key(id) && e
                    == WorkerHostError::UnknownWorker,
            },
    {
        match self.workers.get(&id) {
            Some(h) => Ok(h),
            None => Err(WorkerHostError::UnknownWorker),
        }
    }

    /// Removes a worker for `terminateWorker`, handing back its handle so that
    /// the caller can signal it and wait for its thread.
    pub fn terminate_worker(&mut self, id: u32) -> (r: Result<H, WorkerHostError>)
        requires
            old(self).wf(),
        ensures
            final(self).wf(),
            final(self).table() == apply_op(old(self).table(), HostOp::Terminate(id)),
            match r {
                Ok(h) => {
                    &&& old(self).table().workers.contains_key(id)
                    &&& h == old(self).table().workers[id]
                },
                Err(e) => !old(self).table().workers.contains_key(id) && e
                    == WorkerHostError::UnknownWorker,
            },
    {
        proof {
            lemma_apply_op_wf(self.table(), HostOp::Terminate(id));
        }
        match self.workers.remove(&id) {
            Some(h) => Ok(h),
            None => Err(WorkerHostError::UnknownWorker),
        }
    }

    /// What the host does when the wait of a `getMessage` ends with `event`
    /// (`None`: the worker's channel closed).  A terminal error or the end of
    /// the channel removes the worker, unless it was removed already, and
    /// hands back its handle so that the caller can wait for its thread.
    pub fn on_worker_event(&mut self, id: u32, event: Option<WorkerEvent>) -> (r: (
        HostMessage,
        Option<H>,
    ))
        requires
            old(self).wf(),
        ensures
            final(self).wf(),
            final(self).table() == apply_op(old(self).table(), HostOp::Event(id, event)),
            r.0 == response_of(event),
            r.1 == (if ends_worker(event) && old(self).table().workers.contains_key(id) {
                Some(old(self).table().workers[id])
            } else {
                None
            }),
    {
        proof {
            lemma_apply_op_wf(self.table(), HostOp::Event(id, event));
        }
        match event {
            Some(WorkerEvent::TerminalError(f)) => {
                let removed = self.workers.remove(&id);
                (serialize_worker_event(WorkerEvent::TerminalError(f)), removed)
            },
            Some(e) => (serialize_worker_event(e), None),
            None => {
                let removed = self.workers.remove(&id);
                (HostMessage::Close, removed)
            },
        }
    }
}

pub fn error_report(f: WorkerFailure) -> (r: ErrorReport)
    ensures
        r == report_of(f),
{
    match f {
        WorkerFailure::Script(e) => ErrorReport {
            message: e.message,
            position: Some(
                SourcePosition {
                    file_name: e.script_resource_name,
                    line_number: e.line_number,
                    column_number: e.start_column,
                },
            ),
        },
        WorkerFailure::Other(m) => ErrorReport { message: m, position: None },
    }
}

/// The form in which the owning script receives a worker's event.
pub fn serialize_worker_event(event: WorkerEvent) -> (r: HostMessage)
    ensures
        r == serialized(event),
{
    match event {
        WorkerEvent::Message(b) => HostMessage::Msg(b),
        WorkerEvent::Error(f) => HostMessage::Error(error_report(f)),
        WorkerEvent::TerminalError(f) => HostMessage::TerminalError(error_report(f)),
    }
}

} // verus!
