//! The state that engine callbacks act on, one value per isolate, and the
//! decisions those callbacks make.  Engine values (promise resolvers,
//! rejection reasons, the dispatcher function, the shared view) are type
//! parameters: the state only keeps them and hands them back.
use std::collections::HashMap;
use vstd::prelude::*;

verus! {

broadcast use vstd::std_specs::hash::group_hash_axioms;

/// The op-dispatch slot: at most one op call is in flight per isolate.
pub enum DispatchSlot {
    Idle,
    /// An op call is in flight; the token names its call context.
    PendingSync(u64),
}

/// How an op call ended once its handler returned.
pub enum DispatchCompletion {
    /// The handler answered while it ran; the result goes back synchronously.
    Inline,
    /// The handler answers later; the slot stays taken until it is cleared.
    Deferred,
}

/// The four promise-rejection events that the engine reports.
pub enum PromiseRejectEvent<V> {
    /// A promise was rejected with no handler; the value is the reason.
    RejectWithNoHandler(V),
    HandlerAddedAfterReject,
    RejectAfterResolved,
    ResolveAfterResolved,
}

/// What the module registry knows of a module.
pub struct ModuleInfo {
    pub name: String,
    pub main: bool,
}

/// The fields of an `import.meta` object.
pub struct ImportMeta {
    pub url: String,
    pub main: bool,
}

pub enum BridgeError {
    /// `recv` was called a second time.
    DispatcherAlreadyRegistered,
    /// No module of the registry has the identity asked for.
    ModuleNotFound,
    /// A callback got an argument of the wrong kind.
    InvalidArgument,
    /// Every dynamic-import id has been handed out once already.
    ImportIdsExhausted,
}

/// Where `print` writes.
pub enum OutputStream {
    Stdout,
    Stderr,
}

/// How the shared view is to be had on an access.
pub enum SharedAccess<'a, S> {
    /// No shared region was configured: the getter returns nothing.
    NotConfigured,
    /// A region is configured and no view was made yet: make one and cache it.
    NeedsView,
    /// The cached view.
    Cached(&'a S),
}

/// What `evalContext` learned from compiling and running a source.
pub enum EvalStep<T> {
    CompileFailed { thrown: T, is_native_error: bool },
    RunFailed { thrown: T, is_native_error: bool },
    Completed(T),
}

/// `{isCompileError, isNativeError, thrown}`.
pub struct EvalErrorInfo<T> {
    pub is_compile_error: bool,
    pub is_native_error: bool,
    pub thrown: T,
}

/// The two-element result `[value, errorInfo]` of `evalContext`; `None`
/// stands for `null`.
pub struct EvalOutput<T> {
    pub value: Option<T>,
    pub error: Option<EvalErrorInfo<T>>,
}

pub open spec fn eval_output_of<T>(step: EvalStep<T>) -> EvalOutput<T> {
    match step {
        EvalStep::CompileFailed { thrown, is_native_error } => EvalOutput {
            value: None,
            error: Some(EvalErrorInfo { is_compile_error: true, is_native_error, thrown }),
        },
        EvalStep::RunFailed { thrown, is_native_error } => EvalOutput {
            value: None,
            error: Some(EvalErrorInfo { is_compile_error: false, is_native_error, thrown }),
        },
        EvalStep::Completed(v) => EvalOutput { value: Some(v), error: None },
    }
}

/// Lays out the result of `evalContext`: `[value, null]` on success,
/// `[null, {isCompileError, isNativeError, thrown}]` on failure.
pub fn eval_output<T>(step: EvalStep<T>) -> (r: EvalOutput<T>)
    ensures
        r == eval_output_of(step),
{
    match step {
        EvalStep::CompileFailed { thrown, is_native_error } => EvalOutput {
            value: None,
            error: Some(EvalErrorInfo { is_compile_error: true, is_native_error, thrown }),
        },
        EvalStep::RunFailed { thrown, is_native_error } => EvalOutput {
            value: None,
            error: Some(EvalErrorInfo { is_compile_error: false, is_native_error, thrown }),
        },
        EvalStep::Completed(v) => EvalOutput { value: Some(v), error: None },
    }
}

/// The stream `print` writes to: standard error when a second argument is
/// given and is a non-zero integer.  `print` takes at most two arguments, and
/// a second one must convert to an integer.
pub fn print_stream(arg_count: i32, is_err_arg: Option<i64>) -> (r: OutputStream)
    requires
        0 <= arg_count <= 2,
        arg_count == 2 ==> is_err_arg.is_some(),
    ensures
        r == (if arg_count == 2 && is_err_arg.unwrap() != 0 {
            OutputStream::Stderr
        } else {
            OutputStream::Stdout
        }),
{
    if arg_count == 2 {
        match is_err_arg {
            Some(v) => if v != 0 {
                OutputStream::Stderr
            } else {
                OutputStream::Stdout
            },
            None => OutputStream::Stdout,
        }
    } else {
        OutputStream::Stdout
    }
}

/// `queueMicrotask` accepts a callable only.
pub fn microtask_to_queue<F>(callable: Option<F>) -> (r: Result<F, BridgeError>)
    ensures
        match callable {
            Some(f) => r == Ok::<F, BridgeError>(f),
            None => r == Err::<F, BridgeError>(BridgeError::InvalidArgument),
        },
{
    match callable {
        Some(f) => Ok(f),
        None => Err(BridgeError::InvalidArgument),
    }
}

/// The rejection table after one promise-rejection event for `promise_id`.
pub open spec fn after_reject_event<V>(
    m: Map<i32, V>,
    promise_id: i32,
    ev: PromiseRejectEvent<V>,
) -> Map<i32, V> {
    match ev {
        PromiseRejectEvent::RejectWithNoHandler(reason) => m.insert(promise_id, reason),
        PromiseRejectEvent::HandlerAddedAfterReject => m.remove(promise_id),
        _ => m,
    }
}

/// A rejection without handler, followed by a handler added to the same
/// promise, leaves nothing to report for it; the rejection alone leaves
/// exactly its reason.
pub proof fn lemma_handled_rejection_not_reported<V>(m: Map<i32, V>, p: i32, reason: V)
    ensures
        !after_reject_event(
            after_reject_event(m, p, PromiseRejectEvent::RejectWithNoHandler(reason)),
            p,
            PromiseRejectEvent::HandlerAddedAfterReject,
        ).contains_key(p),
        after_reject_event(m, p, PromiseRejectEvent::RejectWithNoHandler(reason)).contains_key(p),
        after_reject_event(m, p, PromiseRejectEvent::RejectWithNoHandler(reason))[p] == reason,
        after_reject_event(Map::empty(), p, PromiseRejectEvent::RejectWithNoHandler(reason)).dom()
            == set![p],
{
    assert(after_reject_event(Map::empty(), p, PromiseRejectEvent::RejectWithNoHandler(reason)).dom()
        =~= set![p]);
}

/// The per-isolate state: `R` is a promise resolver, `V` a rejection reason,
/// `F` the guest's dispatcher function and `S` the shared view.
pub struct IsolateState<R, V, F, S> {
    dispatcher: Option<F>,
    slot: DispatchSlot,
    next_dyn_import_id: u64,
    dyn_imports: HashMap<u64, R>,
    pending_rejections: HashMap<i32, V>,
    modules: HashMap<i32, ModuleInfo>,
    shared_configured: bool,
    shared_view: Option<S>,
    last_exception: Option<String>,
}

impl<R, V, F, S> IsolateState<R, V, F, S> {
    pub closed spec fn dispatcher(&self) -> Option<F> {
        self.dispatcher
    }

    pub closed spec fn slot(&self) -> DispatchSlot {
        self.slot
    }

    pub closed spec fn next_dyn_import_id(&self) -> nat {
        self.next_dyn_import_id as nat
    }

    pub closed spec fn dyn_imports(&self) -> Map<u64, R> {
        self.dyn_imports@
    }

    pub open spec fn import_table(&self) -> ImportTable<R> {
        ImportTable { next_id: self.next_dyn_import_id(), pending: self.dyn_imports() }
    }

    pub closed spec fn rejections(&self) -> Map<i32, V> {
        self.pending_rejections@
    }

    pub closed spec fn modules(&self) -> Map<i32, ModuleInfo> {
        self.modules@
    }

    pub closed spec fn shared_configured(&self) -> bool {
        self.shared_configured
    }

    pub closed spec fn shared_view(&self) -> Option<S> {
        self.shared_view
    }

    pub closed spec fn last_exception(&self) -> Option<String> {
        self.last_exception
    }

    /// Every pending dynamic import holds an id that was handed out already,
    /// and a view is cached only over a configured region.
    pub open spec fn wf(&self) -> bool {
        &&& import_table_wf(self.import_table())
        &&& self.shared_view().is_some() ==> self.shared_configured()
    }

    /// A fresh isolate: no dispatcher, an idle slot, empty tables.
    pub fn new(shared_configured: bool) -> (r: Self)
        ensures
            r.wf(),
            r.dispatcher().is_none(),
            r.slot() == DispatchSlot::Idle,
            r.next_dyn_import_id() == 0,
            r.dyn_imports() == Map::<u64, R>::empty(),
            r.rejections() == Map::<i32, V>::empty(),
            r.modules() == Map::<i32, ModuleInfo>::empty(),
            r.shared_configured() == shared_configured,
            r.shared_view().is_none(),
            r.last_exception().is_none(),
    {
        IsolateState {
            dispatcher: None,
            slot: DispatchSlot::Idle,
            next_dyn_import_id: 0,
            dyn_imports: HashMap::new(),
            pending_rejections: HashMap::new(),
            modules: HashMap::new(),
            shared_configured,
            shared_view: None,
            last_exception: None,
        }
    }

    /// `recv`: registers the guest's op dispatcher, once per isolate.
    pub fn register_dispatcher(&mut self, f: F) -> (r: Result<(), BridgeError>)
        ensures
            match old(self).dispatcher() {
                None => r is Ok && final(self).dispatcher() == Some(f),
                Some(_) => r == Err::<(), BridgeError>(BridgeError::DispatcherAlreadyRegistered)
                    && final(self).dispatcher() == old(self).dispatcher(),
            },
            final(self).slot() == old(self).slot(),
            final(self).next_dyn_import_id() == old(self).next_dyn_import_id(),
            final(self).dyn_imports() == old(self).dyn_imports(),
            final(self).rejections() == old(self).rejections(),
            final(self).modules() == old(self).modules(),
            final(self).shared_configured() == old(self).shared_configured(),
            final(self).shared_view() == old(self).shared_view(),
            final(self).last_exception() == old(self).last_exception(),
    {
        if self.dispatcher.is_some() {
            Err(BridgeError::DispatcherAlreadyRegistered)
        } else {
            self.dispatcher = Some(f);
            Ok(())
        }
    }

    pub fn is_idle(&self) -> (r: bool)
        ensures
            r == (self.slot() == DispatchSlot::Idle),
    {
        match self.slot {
            DispatchSlot::Idle => true,
            DispatchSlot::PendingSync(_) => false,
        }
    }

    /// `send`, before the op handler runs: takes the slot for the call
    /// context `token`.  A call may only start from an idle slot.
    pub fn begin_dispatch(&mut self, token: u64)
        requires
            old(self).slot() == DispatchSlot::Idle,
        ensures
            final(self).slot() == DispatchSlot::PendingSync(token),
            final(self).dispatcher() == old(self).dispatcher(),
            final(self).next_dyn_import_id() == old(self).next_dyn_import_id(),
            final(self).dyn_imports() == old(self).dyn_imports(),
            final(self).rejections() == old(self).rejections(),
            final(self).modules() == old(self).modules(),
            final(self).shared_configured() == old(self).shared_configured(),
            final(self).shared_view() == old(self).shared_view(),
            final(self).last_exception() == old(self).last_exception(),
    {
        self.slot = DispatchSlot::PendingSync(token);
    }

    /// The handler answers while its call is in flight: the slot is freed and
    /// the call's token returned, so that the answer goes to that call.  With
    /// no call in flight the answer is asynchronous and `None` is returned.
    pub fn respond(&mut self) -> (r: Option<u64>)
        ensures
            match old(self).slot() {
                DispatchSlot::PendingSync(t) => r == Some(t),
                DispatchSlot::Idle => r.is_none(),
            },
            final(self).slot() == DispatchSlot::Idle,
            final(self).dispatcher() == old(self).dispatcher(),
            final(self).next_dyn_import_id() == old(self).next_dyn_import_id(),
            final(self).dyn_imports() == old(self).dyn_imports(),
            final(self).rejections() == old(self).rejections(),
            final(self).modules() == old(self).modules(),
            final(self).shared_configured() == old(self).shared_configured(),
            final(self).shared_view() == old(self).shared_view(),
            final(self).last_exception() == old(self).last_exception(),
    {
        let r = match self.slot {
            DispatchSlot::PendingSync(t) => Some(t),
            DispatchSlot::Idle => None,
        };
        self.slot = DispatchSlot::Idle;
        r
    }

    /// `send`, after the op handler returned: inline if the handler already
    /// answered (the slot is idle again), deferred otherwise, with the slot
    /// left taken.
    pub fn finish_dispatch(&self) -> (r: DispatchCompletion)
        ensures
            r == (if self.slot() == DispatchSlot::Idle {
                DispatchCompletion::Inline
            } else {
                DispatchCompletion::Deferred
            }),
    {
        match self.slot {
            DispatchSlot::Idle => DispatchCompletion::Inline,
            DispatchSlot::PendingSync(_) => DispatchCompletion::Deferred,
        }
    }

    /// A dynamic import: hands out the next id and keeps the resolver of the
    /// promise under it until a collaborator settles it.
    pub fn begin_dynamic_import(&mut self, resolver: R) -> (r: Result<u64, BridgeError>)
        requires
            old(self).wf(),
        ensures
            final(self).wf(),
            final(self).import_table() == apply_import_op(
                old(self).import_table(),
                ImportOp::Begin(resolver),
            ),
            match r {
                Ok(id) => {
                    &&& old(self).next_dyn_import_id() < u64::MAX
                    &&& id as nat == old(self).next_dyn_import_id()
                    &&& !old(self).dyn_imports().contains_key(id)
                    &&& final(self).dyn_imports() == old(self).dyn_imports().insert(id, resolver)
                },
                Err(e) => {
                    &&& old(self).next_dyn_import_id() == u64::MAX
                    &&& e == BridgeError::ImportIdsExhausted
                },
            },
            final(self).dispatcher() == old(self).dispatcher(),
            final(self).slot() == old(self).slot(),
            final(self).rejections() == old(self).rejections(),
            final(self).modules() == old(self).modules(),
            final(self).shared_configured() == old(self).shared_configured(),
            final(self).shared_view() == old(self).shared_view(),
            final(self).last_exception() == old(self).last_exception(),
    {
        proof {
            lemma_import_op_wf(self.import_table(), ImportOp::Begin(resolver));
        }
        if self.next_dyn_import_id == u64::MAX {
            return Err(BridgeError::ImportIdsExhausted);
        }
        let id = self.next_dyn_import_id;
        self.dyn_imports.insert(id, resolver);
        self.next_dyn_import_id = id + 1;
        Ok(id)
    }

    /// Takes the resolver of a dynamic import out, to settle its promise.
    pub fn settle_dynamic_import(&mut self, id: u64) -> (r: Option<R>)
        requires
            old(self).wf(),
        ensures
            final(self).wf(),
            match r {
                Some(res) => old(self).dyn_imports().contains_key(id) && res == old(self).dyn_imports()[id],
                None => !old(self).dyn_imports().contains_key(id),
            },
            final(self).import_table() == apply_import_op(
                old(self).import_table(),
                ImportOp::Settle(id),
            ),
            final(self).dispatcher() == old(self).dispatcher(),
            final(self).slot() == old(self).slot(),
            final(self).rejections() == old(self).rejections(),
            final(self).modules() == old(self).modules(),
            final(self).shared_configured() == old(self).shared_configured(),
            final(self).shared_view() == old(self).shared_view(),
            final(self).last_exception() == old(self).last_exception(),
    {
        proof {
            lemma_import_op_wf(self.import_table(), ImportOp::Settle(id));
        }
        self.dyn_imports.remove(&id)
    }

    /// `promiseRejectCallback`: records a rejection without handler, forgets
    /// it when a handler is added later, and ignores already-settled
    /// promises.
    pub fn on_promise_reject(&mut self, promise_id: i32, event: PromiseRejectEvent<V>)
        requires
            old(self).wf(),
        ensures
            final(self).wf(),
            final(self).rejections() == after_reject_event(
                old(self).rejections(),
                promise_id,
                event,
            ),
            final(self).dispatcher() == old(self).dispatcher(),
            final(self).slot() == old(self).slot(),
            final(self).next_dyn_import_id() == old(self).next_dyn_import_id(),
            final(self).dyn_imports() == old(self).dyn_imports(),
            final(self).modules() == old(self).modules(),
            final(self).shared_configured() == old(self).shared_configured(),
            final(self).shared_view() == old(self).shared_view(),
            final(self).last_exception() == old(self).last_exception(),
    {
        match event {
            PromiseRejectEvent::RejectWithNoHandler(reason) => {
                self.pending_rejections.insert(promise_id, reason);
            },
            PromiseRejectEvent::HandlerAddedAfterReject => {
                self.pending_rejections.remove(&promise_id);
            },
            PromiseRejectEvent::RejectAfterResolved => {},
            PromiseRejectEvent::ResolveAfterResolved => {},
        }
    }

    /// Adds a module to the registry under its identity hash.
    pub fn register_module(&mut self, id: i32, info: ModuleInfo)
        requires
            old(self).wf(),
        ensures
            final(self).wf(),
            final(self).modules() == old(self).modules().insert(id, info),
            final(self).dispatcher() == old(self).dispatcher(),
            final(self).slot() == old(self).slot(),
            final(self).next_dyn_import_id() == old(self).next_dyn_import_id(),
            final(self).dyn_imports() == old(self).dyn_imports(),
            final(self).rejections() == old(self).rejections(),
            final(self).shared_configured() == old(self).shared_configured(),
            final(self).shared_view() == old(self).shared_view(),
            final(self).last_exception() == old(self).last_exception(),
    {
        self.modules.insert(id, info);
    }

    /// `import.meta` of the module with identity `id`: its url and whether it
    /// is the entry point.  The engine never reports the identity 0.
    pub fn import_meta(&self, id: i32) -> (r: Result<ImportMeta, BridgeError>)
        requires
            id != 0,
        ensures
            match r {
                Ok(m) => self.modules().contains_key(id) && m.url@ == self.modules()[id].name@
                    && m.main == self.modules()[id].main,
                Err(e) => !self.modules().contains_key(id) && e == BridgeError::ModuleNotFound,
            },
    {
        match self.modules.get(&id) {
            Some(info) => Ok(ImportMeta { url: info.name.clone(), main: info.main }),
            None => Err(BridgeError::ModuleNotFound),
        }
    }

    /// The message callback: while execution is being terminated the
    /// exception is handled elsewhere and `false` is returned; otherwise the
    /// encoded message becomes the isolate's last exception.
    pub fn record_message(&mut self, terminating: bool, encoded: String) -> (r: bool)
        requires
            old(self).wf(),
        ensures
            final(self).wf(),
            r == !terminating,
            final(self).last_exception() == (if terminating {
                old(self).last_exception()
            } else {
                Some(encoded)
            }),
            final(self).dispatcher() == old(self).dispatcher(),
            final(self).slot() == old(self).slot(),
            final(self).next_dyn_import_id() == old(self).next_dyn_import_id(),
            final(self).dyn_imports() == old(self).dyn_imports(),
            final(self).rejections() == old(self).rejections(),
            final(self).modules() == old(self).modules(),
            final(self).shared_configured() == old(self).shared_configured(),
            final(self).shared_view() == old(self).shared_view(),
    {
        if terminating {
            false
        } else {
            self.last_exception = Some(encoded);
            true
        }
    }

    /// `sharedGetter`, first step: nothing without a configured region, the
    /// cached view if there is one, else a view is to be made.
    pub fn shared_access(&self) -> (r: SharedAccess<'_, S>)
        ensures
            match r {
                SharedAccess::NotConfigured => !self.shared_configured(),
                SharedAccess::NeedsView => self.shared_configured() && self.shared_view().is_none(),
                SharedAccess::Cached(v) => self.shared_configured() && self.shared_view() == Some(
                    *v,
                ),
            },
    {
        if !self.shared_configured {
            return SharedAccess::NotConfigured;
        }
        match &self.shared_view {
            Some(v) => SharedAccess::Cached(v),
            None => SharedAccess::NeedsView,
        }
    }

    /// `sharedGetter`, second step: caches the view made over the region; it
    /// is kept for the isolate's lifetime.
    pub fn cache_shared_view(&mut self, view: S)
        requires
            old(self).wf(),
            old(self).shared_configured(),
            old(self).shared_view().is_none(),
        ensures
            final(self).wf(),
            final(self).shared_view() == Some(view),
            final(self).shared_configured() == old(self).shared_configured(),
            final(self).dispatcher() == old(self).dispatcher(),
            final(self).slot() == old(self).slot(),
            final(self).next_dyn_import_id() == old(self).next_dyn_import_id(),
            final(self).dyn_imports() == old(self).dyn_imports(),
            final(self).rejections() == old(self).rejections(),
            final(self).modules() == old(self).modules(),
            final(self).last_exception() == old(self).last_exception(),
    {
        self.shared_view = Some(view);
    }

    /// The rejections without handler that are pending a report.
    pub fn pending_rejection_count(&self) -> (r: usize)
        ensures
            r == self.rejections().len(),
    {
        self.pending_rejections.len()
    }

    pub fn has_pending_rejection(&self, promise_id: i32) -> (r: bool)
        ensures
            r == self.rejections().contains_key(promise_id),
    {
        self.pending_rejections.contains_key(&promise_id)
    }
}

/// The dynamic-import table as a value: the next id and the pending imports.
pub struct ImportTable<R> {
    pub next_id: nat,
    pub pending: Map<u64, R>,
}

pub open spec fn import_table_wf<R>(t: ImportTable<R>) -> bool {
    &&& t.next_id <= u64::MAX
    &&& forall|id: u64| #[trigger] t.pending.contains_key(id) ==> (id as nat) < t.next_id
}

/// One change of the dynamic-import table.
pub enum ImportOp<R> {
    Begin(R),
    Settle(u64),
}

pub open spec fn apply_import_op<R>(t: ImportTable<R>, op: ImportOp<R>) -> ImportTable<R> {
    match op {
        ImportOp::Begin(r) => if t.next_id < u64::MAX {
            ImportTable { next_id: t.next_id + 1, pending: t.pending.insert(t.next_id as u64, r) }
        } else {
            t
        },
        ImportOp::Settle(id) => ImportTable { next_id: t.next_id, pending: t.pending.remove(id) },
    }
}

pub open spec fn apply_import_ops<R>(t: ImportTable<R>, ops: Seq<ImportOp<R>>) -> ImportTable<R>
    decreases ops.len(),
{
    if ops.len() == 0 {
        t
    } else {
        apply_import_ops(apply_import_op(t, ops[0]), ops.drop_first())
    }
}

pub proof fn lemma_import_op_wf<R>(t: ImportTable<R>, op: ImportOp<R>)
    requires
        import_table_wf(t),
    ensures
        import_table_wf(apply_import_op(t, op)),
        apply_import_op(t, op).next_id >= t.next_id,
{
    let t2 = apply_import_op(t, op);
    assert forall|id: u64| #[trigger] t2.pending.contains_key(id) implies (id as nat)
        < t2.next_id by {
        match op {
            ImportOp::Begin(r) => {
                if t.next_id < u64::MAX && id != t.next_id as u64 {
                    assert(t.pending.contains_key(id));
                }
            },
            ImportOp::Settle(_) => {
                assert(t.pending.contains_key(id));
            },
        }
    }
}

pub proof fn lemma_import_ops_wf<R>(t: ImportTable<R>, ops: Seq<ImportOp<R>>)
    requires
        import_table_wf(t),
    ensures
        import_table_wf(apply_import_ops(t, ops)),
        apply_import_ops(t, ops).next_id >= t.next_id,
    decreases ops.len(),
{
    if ops.len() > 0 {
        lemma_import_op_wf(t, ops[0]);
        lemma_import_ops_wf(apply_import_op(t, ops[0]), ops.drop_first());
    }
}

/// Dynamic-import ids strictly increase over an isolate's lifetime: an id
/// handed out after any sequence of imports and settlements is above every
/// earlier one, and is never that of a pending import.
pub proof fn lemma_dyn_import_ids_increase<R>(
    t: ImportTable<R>,
    first: R,
    ops: Seq<ImportOp<R>>,
)
    requires
        import_table_wf(t),
        t.next_id < u64::MAX,
    ensures
        !t.pending.contains_key(t.next_id as u64),
        apply_import_ops(apply_import_op(t, ImportOp::Begin(first)), ops).next_id > t.next_id,
        !apply_import_ops(apply_import_op(t, ImportOp::Begin(first)), ops).pending.contains_key(
            apply_import_ops(apply_import_op(t, ImportOp::Begin(first)), ops).next_id as u64,
        ),
{
    lemma_import_op_wf(t, ImportOp::Begin(first));
    let t1 = apply_import_op(t, ImportOp::Begin(first));
    lemma_import_ops_wf(t1, ops);
    let t2 = apply_import_ops(t1, ops);
    if t2.pending.contains_key(t2.next_id as u64) {
        if t2.next_id < u64::MAX {
            assert((t2.next_id as u64) as nat == t2.next_id);
        }
    }
}

} // verus!
