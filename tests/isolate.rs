use deno_isolate::isolate::eval_output;
use deno_isolate::isolate::microtask_to_queue;
use deno_isolate::isolate::print_stream;
use deno_isolate::isolate::BridgeError;
use deno_isolate::isolate::DispatchCompletion;
use deno_isolate::isolate::EvalStep;
use deno_isolate::isolate::IsolateState;
use deno_isolate::isolate::ModuleInfo;
use deno_isolate::isolate::OutputStream;
use deno_isolate::isolate::PromiseRejectEvent;
use deno_isolate::isolate::SharedAccess;

type State = IsolateState<&'static str, &'static str, u8, Vec<u8>>;

#[test]
fn dyn_import_ids_increase() {
    let mut s: State = IsolateState::new(false);
    let a = s.begin_dynamic_import("ra").ok().unwrap();
    let b = s.begin_dynamic_import("rb").ok().unwrap();
    assert_eq!((a, b), (0, 1));
    assert_eq!(s.settle_dynamic_import(a), Some("ra"));
    assert_eq!(s.settle_dynamic_import(a), None);
    let c = s.begin_dynamic_import("rc").ok().unwrap();
    assert_eq!(c, 2);
    assert_eq!(s.settle_dynamic_import(b), Some("rb"));
    assert_eq!(s.settle_dynamic_import(c), Some("rc"));
}

#[test]
fn handler_added_after_reject_clears_it() {
    let mut s: State = IsolateState::new(false);
    s.on_promise_reject(7, PromiseRejectEvent::RejectWithNoHandler("boom"));
    s.on_promise_reject(7, PromiseRejectEvent::HandlerAddedAfterReject);
    assert_eq!(s.pending_rejection_count(), 0);
    assert!(!s.has_pending_rejection(7));
}

#[test]
fn unhandled_rejection_is_reported_once() {
    let mut s: State = IsolateState::new(false);
    s.on_promise_reject(9, PromiseRejectEvent::RejectWithNoHandler("boom"));
    assert_eq!(s.pending_rejection_count(), 1);
    assert!(s.has_pending_rejection(9));
    s.on_promise_reject(9, PromiseRejectEvent::RejectAfterResolved);
    s.on_promise_reject(9, PromiseRejectEvent::ResolveAfterResolved);
    s.on_promise_reject(3, PromiseRejectEvent::HandlerAddedAfterReject);
    assert_eq!(s.pending_rejection_count(), 1);
}

#[test]
fn dispatcher_registers_once() {
    let mut s: State = IsolateState::new(false);
    assert!(s.register_dispatcher(1).is_ok());
    assert!(matches!(s.register_dispatcher(2), Err(BridgeError::DispatcherAlreadyRegistered)));
}

#[test]
fn dispatch_slot_sync_and_async() {
    let mut s: State = IsolateState::new(false);
    assert!(s.is_idle());
    s.begin_dispatch(11);
    assert!(!s.is_idle());
    assert_eq!(s.respond(), Some(11));
    assert!(matches!(s.finish_dispatch(), DispatchCompletion::Inline));
    s.begin_dispatch(12);
    assert!(matches!(s.finish_dispatch(), DispatchCompletion::Deferred));
    assert!(!s.is_idle());
    assert_eq!(s.respond(), Some(12));
    assert!(s.is_idle());
    assert_eq!(s.respond(), None);
}

#[test]
fn import_meta_lookup() {
    let mut s: State = IsolateState::new(false);
    s.register_module(5, ModuleInfo { name: "file:///main.ts".to_string(), main: true });
    let m = s.import_meta(5).ok().unwrap();
    assert_eq!(m.url, "file:///main.ts");
    assert!(m.main);
    assert!(matches!(s.import_meta(6), Err(BridgeError::ModuleNotFound)));
}

#[test]
fn shared_view_is_made_once() {
    let none: State = IsolateState::new(false);
    assert!(matches!(none.shared_access(), SharedAccess::NotConfigured));
    let mut s: State = IsolateState::new(true);
    assert!(matches!(s.shared_access(), SharedAccess::NeedsView));
    s.cache_shared_view(vec![1, 2, 3]);
    match s.shared_access() {
        SharedAccess::Cached(v) => assert_eq!(*v, vec![1u8, 2, 3]),
        _ => panic!("expected the cached view"),
    }
}

#[test]
fn message_callback_records_unless_terminating() {
    let mut s: State = IsolateState::new(false);
    assert!(!s.record_message(true, "{}".to_string()));
    assert!(s.record_message(false, "{\"message\":\"x\"}".to_string()));
}

#[test]
fn print_picks_stream() {
    assert!(matches!(print_stream(1, None), OutputStream::Stdout));
    assert!(matches!(print_stream(2, Some(0)), OutputStream::Stdout));
    assert!(matches!(print_stream(2, Some(1)), OutputStream::Stderr));
    assert!(matches!(print_stream(0, None), OutputStream::Stdout));
}

#[test]
fn eval_output_shapes() {
    let ok = eval_output(EvalStep::Completed(3));
    assert_eq!(ok.value, Some(3));
    assert!(ok.error.is_none());
    let compile = eval_output(EvalStep::CompileFailed { thrown: 4, is_native_error: true });
    assert!(compile.value.is_none());
    let e = compile.error.unwrap();
    assert!(e.is_compile_error && e.is_native_error);
    assert_eq!(e.thrown, 4);
    let run = eval_output(EvalStep::RunFailed { thrown: 5, is_native_error: false });
    let e = run.error.unwrap();
    assert!(!e.is_compile_error && !e.is_native_error);
    assert_eq!(e.thrown, 5);
}

#[test]
fn microtask_needs_callable() {
    assert_eq!(microtask_to_queue(Some(1)).ok(), Some(1));
    assert!(matches!(microtask_to_queue::<u8>(None), Err(BridgeError::InvalidArgument)));
}
