use offline_bridge::dispatch::{run, Action, Command, Response, Step};
use offline_bridge::errors::BridgeError;
use offline_bridge::files::{
    resolve_open_file, resolve_read_file, resolve_save_file, FileReadOutcome, FileWriteOutcome,
};
use offline_bridge::remote::{
    connectivity_from_probe, response_of, HttpOutcome, Method, RemoteProxy,
};
use offline_bridge::store::LocalStore;

fn s(text: &str) -> String {
    String::from(text)
}

fn configured_proxy() -> RemoteProxy {
    RemoteProxy::new(Some(s("https://backend.example")), Some(s("k123")))
}

#[test]
fn save_then_get_returns_exact_bytes() {
    let mut store = LocalStore::new();
    store.save(s("patient:1"), vec![0, 159, 146, 150], 10);
    assert_eq!(store.get(&s("patient:1")), Ok(vec![0, 159, 146, 150]));
}

#[test]
fn get_missing_returns_not_found() {
    let store = LocalStore::new();
    assert_eq!(store.get(&s("absent")), Err(BridgeError::NotFound));
}

#[test]
fn delete_then_get_returns_not_found() {
    let mut store = LocalStore::new();
    store.save(s("k"), vec![1, 2, 3], 1);
    assert!(store.delete(&s("k")));
    assert_eq!(store.get(&s("k")), Err(BridgeError::NotFound));
}

#[test]
fn delete_absent_key_is_noop_success() {
    let mut store = LocalStore::new();
    store.save(s("other"), vec![1], 1);
    assert!(!store.delete(&s("absent")));
    assert_eq!(store.len(), 1);
}

#[test]
fn overwrite_replaces_value_and_keeps_one_entry() {
    let mut store = LocalStore::new();
    store.save(s("k"), vec![1], 1);
    store.save(s("k"), vec![2, 2], 2);
    assert_eq!(store.len(), 1);
    assert_eq!(store.get(&s("k")), Ok(vec![2, 2]));
}

#[test]
fn clear_then_list_keys_is_empty() {
    let mut store = LocalStore::new();
    store.save(s("a"), vec![1], 1);
    store.save(s("b"), vec![2], 2);
    store.save(s("c"), vec![3], 3);
    store.clear();
    assert!(store.list_keys().is_empty());
    assert_eq!(store.len(), 0);
}

#[test]
fn clear_twice_gives_same_empty_result() {
    let mut store = LocalStore::new();
    store.save(s("a"), vec![1], 1);
    store.clear();
    let first: Vec<String> = store.list_keys();
    store.clear();
    let second: Vec<String> = store.list_keys();
    assert_eq!(first, second);
    assert!(second.is_empty());
}

#[test]
fn list_keys_enumerates_each_live_key_once() {
    let mut store = LocalStore::new();
    store.save(s("a"), vec![1], 1);
    store.save(s("b"), vec![2], 2);
    store.save(s("b"), vec![3], 3);
    let mut keys = store.list_keys();
    keys.sort();
    assert_eq!(keys, vec![s("a"), s("b")]);
}

#[test]
fn snapshot_lists_keys_values_and_timestamps() {
    let mut store = LocalStore::new();
    store.save(s("a"), vec![1], 11);
    store.save(s("b"), vec![2, 2], 22);
    let mut rows = store.snapshot();
    rows.sort();
    assert_eq!(rows, vec![(s("a"), vec![1], 11), (s("b"), vec![2, 2], 22)]);
}

#[test]
fn offline_scenario_patient_record() {
    let mut store = LocalStore::new();
    let proxy = RemoteProxy::new(None, None);
    let step = run(
        &mut store,
        &proxy,
        Command::SaveOfflineData {
            key: s("patient:42"),
            value: b"{\"name\":\"Ana\"}".to_vec(),
        },
        100,
    );
    assert!(matches!(step, Step::Done(Response::Saved)));
    let step = run(&mut store, &proxy, Command::GetOfflineKeys, 101);
    match step {
        Step::Done(Response::Keys(keys)) => assert!(keys.contains(&s("patient:42"))),
        _ => panic!("expected keys"),
    }
    let step = run(
        &mut store,
        &proxy,
        Command::DeleteOfflineData { key: s("patient:42") },
        102,
    );
    assert!(matches!(step, Step::Done(Response::Deleted)));
    let step = run(
        &mut store,
        &proxy,
        Command::GetOfflineData { key: s("patient:42") },
        103,
    );
    assert!(matches!(
        step,
        Step::Done(Response::Failure(BridgeError::NotFound))
    ));
}

#[test]
fn missing_configuration_fails_fast_without_a_request() {
    let half = RemoteProxy::new(Some(s("https://backend.example")), None);
    assert_eq!(
        half.get(&s("/appointments")).err(),
        Some(BridgeError::ConfigurationError)
    );
    let mut store = LocalStore::new();
    let none = RemoteProxy::new(None, None);
    let step = run(
        &mut store,
        &none,
        Command::SupabaseGet { path: s("/appointments") },
        0,
    );
    // A `Done` failure means no action was handed out: nothing reaches the wire.
    assert!(matches!(
        step,
        Step::Done(Response::Failure(BridgeError::ConfigurationError))
    ));
}

#[test]
fn request_carries_url_credential_headers_and_body() {
    let proxy = configured_proxy();
    let req = proxy.post(&s("/appointments"), vec![7, 8]).unwrap();
    assert!(matches!(req.method, Method::Post));
    assert_eq!(req.url, s("https://backend.example/appointments"));
    assert_eq!(req.body, Some(vec![7, 8]));
    assert!(req
        .headers
        .contains(&(s("apikey"), s("k123"))));
    assert!(req
        .headers
        .contains(&(s("Authorization"), s("Bearer k123"))));
}

#[test]
fn request_method_follows_operation() {
    let proxy = configured_proxy();
    assert!(matches!(proxy.get(&s("/a")).unwrap().method, Method::Get));
    assert!(matches!(
        proxy.patch(&s("/a"), vec![]).unwrap().method,
        Method::Patch
    ));
    assert!(matches!(
        proxy.delete(&s("/a")).unwrap().method,
        Method::Delete
    ));
}

#[test]
fn response_of_completed_returns_status_and_body() {
    let r = response_of(HttpOutcome::Completed { status: 201, body: vec![4, 5] }).unwrap();
    assert_eq!(r.status, 201);
    assert_eq!(r.body, vec![4, 5]);
}

#[test]
fn response_of_network_error_and_timeout() {
    assert_eq!(
        response_of(HttpOutcome::NetworkError).err(),
        Some(BridgeError::NetworkFailure)
    );
    assert_eq!(
        response_of(HttpOutcome::TimedOut).err(),
        Some(BridgeError::Timeout)
    );
}

#[test]
fn connectivity_is_false_for_unreachable_and_never_an_error() {
    assert!(!connectivity_from_probe(&HttpOutcome::NetworkError));
    assert!(!connectivity_from_probe(&HttpOutcome::TimedOut));
    assert!(connectivity_from_probe(&HttpOutcome::Completed { status: 500, body: vec![] }));
}

#[test]
fn remote_failure_leaves_local_state_intact() {
    let mut store = LocalStore::new();
    let proxy = configured_proxy();
    store.save(s("patient:7"), vec![9], 1);
    let step = run(
        &mut store,
        &proxy,
        Command::SupabaseGet { path: s("/appointments") },
        2,
    );
    let req = match step {
        Step::Perform(Action::SendHttp(req)) => req,
        _ => panic!("expected an outbound request"),
    };
    assert_eq!(req.url, s("https://backend.example/appointments"));
    // The host is down: the attempt comes back as a typed failure, not a crash.
    assert_eq!(
        response_of(HttpOutcome::NetworkError).err(),
        Some(BridgeError::NetworkFailure)
    );
    let step = run(&mut store, &proxy, Command::GetOfflineKeys, 3);
    match step {
        Step::Done(Response::Keys(keys)) => assert_eq!(keys, vec![s("patient:7")]),
        _ => panic!("expected keys"),
    }
}

#[test]
fn open_file_cancel_is_distinct_from_io_failure() {
    let cancelled = resolve_open_file(None).err().unwrap();
    assert_eq!(cancelled, BridgeError::Cancelled);
    assert_ne!(cancelled, BridgeError::IoFailure);
    assert_eq!(resolve_open_file(Some(s("/tmp/a.pdf"))), Ok(s("/tmp/a.pdf")));
}

#[test]
fn read_file_outcomes_map_to_their_kinds() {
    assert_eq!(resolve_read_file(FileReadOutcome::Data(vec![1])), Ok(vec![1]));
    assert_eq!(
        resolve_read_file(FileReadOutcome::Missing).err(),
        Some(BridgeError::NotFound)
    );
    assert_eq!(
        resolve_read_file(FileReadOutcome::Failed).err(),
        Some(BridgeError::IoFailure)
    );
}

#[test]
fn save_file_outcomes_map_to_their_kinds() {
    assert_eq!(
        resolve_save_file(FileWriteOutcome::Written(s("/tmp/out.bin"))),
        Ok(s("/tmp/out.bin"))
    );
    assert_eq!(
        resolve_save_file(FileWriteOutcome::Failed).err(),
        Some(BridgeError::IoFailure)
    );
}

#[test]
fn empty_key_is_rejected_before_the_store() {
    let mut store = LocalStore::new();
    let proxy = RemoteProxy::new(None, None);
    for cmd in [
        Command::GetOfflineData { key: s("") },
        Command::SaveOfflineData { key: s(""), value: vec![1] },
        Command::DeleteOfflineData { key: s("") },
    ] {
        let step = run(&mut store, &proxy, cmd, 0);
        assert!(matches!(
            step,
            Step::Done(Response::Failure(BridgeError::BadRequest))
        ));
    }
    assert_eq!(store.len(), 0);
}

#[test]
fn non_relative_route_is_rejected_before_the_proxy() {
    let mut store = LocalStore::new();
    let proxy = configured_proxy();
    for cmd in [
        Command::SupabaseGet { path: s("") },
        Command::SupabaseGet { path: s("https://elsewhere.example/x") },
        Command::SupabasePost { path: s("no-slash"), body: vec![] },
    ] {
        let step = run(&mut store, &proxy, cmd, 0);
        assert!(matches!(
            step,
            Step::Done(Response::Failure(BridgeError::BadRequest))
        ));
    }
}

#[test]
fn dispatch_save_then_get_roundtrip() {
    let mut store = LocalStore::new();
    let proxy = RemoteProxy::new(None, None);
    let step = run(
        &mut store,
        &proxy,
        Command::SaveOfflineData { key: s("k"), value: vec![42] },
        5,
    );
    assert!(matches!(step, Step::Done(Response::Saved)));
    let step = run(&mut store, &proxy, Command::GetOfflineData { key: s("k") }, 6);
    match step {
        Step::Done(Response::Value(v)) => assert_eq!(v, vec![42]),
        _ => panic!("expected the saved bytes"),
    }
}

#[test]
fn dispatch_clear_empties_the_store() {
    let mut store = LocalStore::new();
    let proxy = RemoteProxy::new(None, None);
    store.save(s("a"), vec![1], 1);
    let step = run(&mut store, &proxy, Command::ClearOfflineData, 2);
    assert!(matches!(step, Step::Done(Response::Cleared)));
    assert_eq!(store.len(), 0);
}

#[test]
fn connectivity_dispatch_depends_on_configuration() {
    let mut store = LocalStore::new();
    let none = RemoteProxy::new(None, None);
    let step = run(&mut store, &none, Command::CheckConnectivity, 0);
    assert!(matches!(step, Step::Done(Response::Reachable(false))));
    let proxy = configured_proxy();
    let step = run(&mut store, &proxy, Command::CheckConnectivity, 0);
    match step {
        Step::Perform(Action::Probe { url }) => assert_eq!(url, s("https://backend.example")),
        _ => panic!("expected a probe"),
    }
}

#[test]
fn file_commands_hand_the_shell_their_actions() {
    let mut store = LocalStore::new();
    let proxy = RemoteProxy::new(None, None);
    let step = run(
        &mut store,
        &proxy,
        Command::SaveFileLocally { name: s("report.pdf"), bytes: vec![1, 2] },
        0,
    );
    match step {
        Step::Perform(Action::PickSaveFile { name, bytes }) => {
            assert_eq!(name, s("report.pdf"));
            assert_eq!(bytes, vec![1, 2]);
        },
        _ => panic!("expected a save dialog action"),
    }
    let step = run(&mut store, &proxy, Command::OpenFile, 0);
    assert!(matches!(step, Step::Perform(Action::PickOpenFile)));
    let step = run(
        &mut store,
        &proxy,
        Command::ReadFileLocally { path: s("/tmp/a") },
        0,
    );
    match step {
        Step::Perform(Action::ReadFile { path }) => assert_eq!(path, s("/tmp/a")),
        _ => panic!("expected a read action"),
    }
    let step = run(&mut store, &proxy, Command::ReadFileLocally { path: s("") }, 0);
    assert!(matches!(
        step,
        Step::Done(Response::Failure(BridgeError::BadRequest))
    ));
}
