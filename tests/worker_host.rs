use deno_isolate::worker_host::serialize_worker_event;
use deno_isolate::worker_host::HostMessage;
use deno_isolate::worker_host::ScriptError;
use deno_isolate::worker_host::WorkerEvent;
use deno_isolate::worker_host::WorkerFailure;
use deno_isolate::worker_host::WorkerHost;
use deno_isolate::worker_host::WorkerHostError;

fn started(host: &mut WorkerHost<&'static str>, name: &'static str) -> u32 {
    let spec = host.prepare_worker(Ok(format!("file:///{}.ts", name))).ok().unwrap();
    assert!(spec.ends_with(".ts"));
    host.finish_create_worker(Ok(name)).ok().unwrap()
}

#[test]
fn worker_ids_increase_and_are_not_reused() {
    let mut host = WorkerHost::new();
    let a = started(&mut host, "a");
    let b = started(&mut host, "b");
    assert_eq!((a, b), (0, 1));
    assert_eq!(host.terminate_worker(b).ok(), Some("b"));
    let c = started(&mut host, "c");
    assert_eq!(c, 2);
    assert!(matches!(host.worker(b), Err(WorkerHostError::UnknownWorker)));
    assert_eq!(*host.worker(c).ok().unwrap(), "c");
}

#[test]
fn unresolvable_specifier_is_a_setup_error() {
    let mut host: WorkerHost<&'static str> = WorkerHost::new();
    match host.prepare_worker(Err("Relative import path \"x\" not prefixed".to_string())) {
        Err(WorkerHostError::SetupError(m)) => assert!(m.starts_with("Relative import")),
        _ => panic!("expected a setup error"),
    }
    assert!(matches!(host.worker(0), Err(WorkerHostError::UnknownWorker)));
    // A failed handshake leaves no entry and uses no id.
    match host.finish_create_worker(Err("bootstrap failed".to_string())) {
        Err(WorkerHostError::SetupError(m)) => assert_eq!(m, "bootstrap failed"),
        _ => panic!("expected a setup error"),
    }
    assert_eq!(started(&mut host, "a"), 0);
}

#[test]
fn terminated_worker_is_unknown() {
    let mut host = WorkerHost::new();
    let id = started(&mut host, "w");
    assert!(host.terminate_worker(id).is_ok());
    assert!(matches!(host.worker(id), Err(WorkerHostError::UnknownWorker)));
    assert!(matches!(host.terminate_worker(id), Err(WorkerHostError::UnknownWorker)));
    // A closing channel of a worker already terminated is skipped silently.
    let (msg, removed) = host.on_worker_event(id, None);
    assert!(matches!(msg, HostMessage::Close));
    assert!(removed.is_none());
}

#[test]
fn posts_then_closes() {
    let mut host = WorkerHost::new();
    let id = started(&mut host, "w");
    let (first, removed) = host.on_worker_event(id, Some(WorkerEvent::Message(vec![1])));
    match first {
        HostMessage::Msg(data) => assert_eq!(data, vec![1u8]),
        _ => panic!("expected a message"),
    }
    assert!(removed.is_none());
    assert!(host.worker(id).is_ok());
    let (second, removed) = host.on_worker_event(id, None);
    assert!(matches!(second, HostMessage::Close));
    assert_eq!(removed, Some("w"));
    assert!(matches!(host.worker(id), Err(WorkerHostError::UnknownWorker)));
}

#[test]
fn top_level_throw_is_terminal() {
    let mut host = WorkerHost::new();
    let id = started(&mut host, "w");
    let failure = WorkerFailure::Script(ScriptError {
        message: "Uncaught Error: boom".to_string(),
        script_resource_name: Some("file:///w.ts".to_string()),
        line_number: Some(1),
        start_column: Some(6),
    });
    let (msg, removed) = host.on_worker_event(id, Some(WorkerEvent::TerminalError(failure)));
    match msg {
        HostMessage::TerminalError(report) => {
            assert_eq!(report.message, "Uncaught Error: boom");
            let pos = report.position.unwrap();
            assert_eq!(pos.file_name, Some("file:///w.ts".to_string()));
            assert_eq!(pos.line_number, Some(1));
            assert_eq!(pos.column_number, Some(6));
        }
        _ => panic!("expected a terminal error"),
    }
    assert_eq!(removed, Some("w"));
    assert!(matches!(host.worker(id), Err(WorkerHostError::UnknownWorker)));
}

#[test]
fn echo_comes_back_byte_exact() {
    let mut host = WorkerHost::new();
    let id = started(&mut host, "echo");
    let bytes = vec![0u8, 255, 7, 7, 42];
    assert!(host.worker(id).is_ok());
    let (msg, removed) = host.on_worker_event(id, Some(WorkerEvent::Message(bytes.clone())));
    match msg {
        HostMessage::Msg(data) => assert_eq!(data, bytes),
        _ => panic!("expected a message"),
    }
    assert!(removed.is_none());
    assert!(host.worker(id).is_ok());
}

#[test]
fn non_terminal_error_keeps_worker() {
    let mut host = WorkerHost::new();
    let id = started(&mut host, "w");
    let (msg, removed) =
        host.on_worker_event(id, Some(WorkerEvent::Error(WorkerFailure::Other("oops".to_string()))));
    match msg {
        HostMessage::Error(report) => {
            assert_eq!(report.message, "oops");
            assert!(report.position.is_none());
        }
        _ => panic!("expected an error"),
    }
    assert!(removed.is_none());
    assert!(host.worker(id).is_ok());
}

#[test]
fn serialize_other_terminal_error() {
    match serialize_worker_event(WorkerEvent::TerminalError(WorkerFailure::Other("gone".to_string()))) {
        HostMessage::TerminalError(report) => {
            assert_eq!(report.message, "gone");
            assert!(report.position.is_none());
        }
        _ => panic!("expected a terminal error"),
    }
}
