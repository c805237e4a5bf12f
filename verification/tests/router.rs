use openab_core::json::{Json, JsonObject, Number};
use openab_core::protocol::{JsonRpcError, JsonRpcMessage};
use openab_core::router::{ReaderEvent, ReaderStep, Routed, Router};
use serde_json::Value;
use tokio::sync::{mpsc, oneshot};

type Channels = Router<oneshot::Sender<JsonRpcMessage>, mpsc::UnboundedSender<JsonRpcMessage>>;

fn doc(value: &Value) -> Json {
    match value {
        Value::Null => Json::Null,
        Value::Bool(b) => Json::Bool(*b),
        Value::Number(n) => Json::Number(Number::Unsigned(n.as_u64().unwrap())),
        Value::String(s) => Json::text(s),
        Value::Array(elements) => Json::Array(elements.iter().map(doc).collect()),
        Value::Object(members) => {
            let mut object = JsonObject::new();
            for (name, value) in members {
                object = object.with(name, doc(value));
            }
            Json::Object(object)
        }
    }
}

/// What the agent wrote, as the reader takes it in.
fn read(line: &[u8]) -> ReaderEvent {
    match serde_json::from_slice::<Value>(line) {
        Ok(value) => ReaderEvent::Message(JsonRpcMessage {
            id: value.get("id").and_then(|id| id.as_u64()),
            method: value
                .get("method")
                .and_then(|method| method.as_str())
                .map(str::to_owned),
            result: value.get("result").map(doc),
            error: None,
            params: value.get("params").map(doc),
        }),
        Err(_) => ReaderEvent::Unreadable,
    }
}

/// Does what the router says, as the reader does.
fn deliver(router: &mut Channels, event: ReaderEvent) -> bool {
    match router.step(event) {
        ReaderStep::Continue(Routed::Resolved { slot, reply, copy }) => {
            if let (Some(tx), Some(copy)) = (router.subscriber(), copy) {
                let _ = tx.send(copy);
            }
            let _ = slot.send(reply);
            true
        }
        ReaderStep::Continue(Routed::Forwarded(message)) => {
            let _ = router.subscriber().unwrap().send(message);
            true
        }
        ReaderStep::Continue(_) => true,
        ReaderStep::Stop(orphans) => {
            for orphan in orphans {
                let _ = orphan.slot.send(orphan.message);
            }
            false
        }
    }
}

fn message(id: Option<u64>, method: Option<&str>) -> JsonRpcMessage {
    JsonRpcMessage {
        id,
        method: method.map(str::to_owned),
        result: None,
        error: None,
        params: None,
    }
}

/// The response to a request that was abandoned leaves the waiting requests
/// untouched and still goes to whoever is subscribed.
#[test]
fn stale_id_response_is_forwarded_without_pending_entry() {
    let mut router = Channels::new();
    let (sub_tx, mut sub_rx) = mpsc::unbounded_channel();
    router.subscribe(sub_tx);

    let stale = b"{\"jsonrpc\":\"2.0\",\"id\":42,\"result\":{\"stopReason\":\"ok\"}}\n";
    assert!(deliver(&mut router, read(stale)));

    let forwarded = sub_rx
        .try_recv()
        .expect("subscriber should receive stale message");
    assert_eq!(forwarded.id, Some(42));
    assert_eq!(router.pending_count(), 0);

    assert!(!deliver(&mut router, ReaderEvent::Ended));
}

/// The response to a waiting request resolves it, and a copy goes to the subscriber.
#[test]
fn matched_id_response_resolves_pending_and_forwards() {
    let mut router = Channels::new();
    let (resp_tx, mut resp_rx) = oneshot::channel();
    assert!(router.register(7, resp_tx).is_none());
    let (sub_tx, mut sub_rx) = mpsc::unbounded_channel();
    router.subscribe(sub_tx);

    let payload = b"{\"jsonrpc\":\"2.0\",\"id\":7,\"result\":{\"stopReason\":\"end_turn\"}}\n";
    assert!(deliver(&mut router, read(payload)));

    let resolved = resp_rx.try_recv().expect("oneshot should resolve");
    assert_eq!(resolved.id, Some(7));

    let forwarded = sub_rx
        .try_recv()
        .expect("subscriber should receive forwarded copy");
    assert_eq!(forwarded.id, Some(7));
    assert_eq!(router.pending_count(), 0);

    assert!(!deliver(&mut router, ReaderEvent::Ended));
}

#[test]
fn a_copy_holds_the_outcome_only() {
    let mut router: Router<&str, &str> = Router::new();
    router.register(3, "slot");
    router.subscribe("subscriber");
    let routed = router.receive(JsonRpcMessage {
        id: Some(3),
        method: Some("odd".to_string()),
        result: Some(Json::text("done")),
        error: Some(JsonRpcError {
            code: -32000,
            message: "partly".to_string(),
            data: Some(Json::Null),
        }),
        params: Some(Json::Bool(true)),
    });
    match routed {
        Routed::Resolved { slot, reply, copy } => {
            assert_eq!(slot, "slot");
            assert_eq!(reply.method.as_deref(), Some("odd"));
            assert_eq!(reply.params, Some(Json::Bool(true)));
            let copy = copy.unwrap();
            assert_eq!(copy.id, Some(3));
            assert_eq!(copy.method, None);
            assert_eq!(copy.params, None);
            assert_eq!(copy.result, Some(Json::text("done")));
            let error = copy.error.unwrap();
            assert_eq!(error.code, -32000);
            assert_eq!(error.message, "partly");
            assert_eq!(error.data, Some(Json::Null));
        }
        _ => panic!("the request should be resolved"),
    }
}

#[test]
fn without_a_subscriber_a_response_has_no_copy() {
    let mut router: Router<u8, u8> = Router::new();
    router.register(1, 10);
    router.register(2, 20);
    match router.receive(message(Some(2), None)) {
        Routed::Resolved { slot, reply, copy } => {
            assert_eq!(slot, 20);
            assert_eq!(reply.id, Some(2));
            assert!(copy.is_none());
        }
        _ => panic!("the request should be resolved"),
    }
    assert!(router.is_pending(1));
    assert!(!router.is_pending(2));
}

#[test]
fn a_second_response_is_stale() {
    let mut router: Router<u8, u8> = Router::new();
    router.register(1, 10);
    router.subscribe(99);
    assert!(matches!(
        router.receive(message(Some(1), None)),
        Routed::Resolved { .. }
    ));
    match router.receive(message(Some(1), None)) {
        Routed::Forwarded(forwarded) => assert_eq!(forwarded.id, Some(1)),
        _ => panic!("the message should be forwarded"),
    }
}

#[test]
fn an_abandoned_request_is_not_resolved() {
    let mut router: Router<u8, u8> = Router::new();
    router.register(1, 10);
    assert_eq!(router.forget(1), Some(10));
    assert_eq!(router.forget(1), None);
    assert!(matches!(
        router.receive(message(Some(1), None)),
        Routed::Dropped
    ));
    router.subscribe(99);
    assert!(matches!(
        router.receive(message(Some(1), None)),
        Routed::Forwarded(_)
    ));
}

#[test]
fn notifications_go_to_the_subscriber() {
    let mut router: Router<u8, u8> = Router::new();
    router.register(1, 10);
    let update = || message(None, Some("session/update"));
    assert!(matches!(router.receive(update()), Routed::Dropped));
    router.subscribe(99);
    match router.receive(update()) {
        Routed::Forwarded(forwarded) => {
            assert_eq!(forwarded.method.as_deref(), Some("session/update"))
        }
        _ => panic!("the notification should be forwarded"),
    }
    router.unsubscribe();
    assert!(router.subscriber().is_none());
    assert!(matches!(router.receive(update()), Routed::Dropped));
    assert_eq!(router.pending_count(), 1);
}

#[test]
fn permission_requests_are_answered_and_resolve_nothing() {
    let mut router: Router<u8, u8> = Router::new();
    router.register(5, 50);
    router.subscribe(99);
    let ask = b"{\"id\":5,\"method\":\"session/request_permission\",\"params\":{\"toolCall\":{\"title\":\"Edit\"},\"options\":[{\"kind\":\"allow_once\",\"optionId\":\"go\"}]}}";
    match router.step(read(ask)) {
        ReaderStep::Continue(Routed::Answered { title, response }) => {
            assert_eq!(title, "Edit");
            assert_eq!(response.id, 5);
            let outcome = response.result.get("outcome").unwrap();
            assert_eq!(outcome.get_str("outcome"), Some("selected"));
            assert_eq!(outcome.get_str("optionId"), Some("go"));
        }
        _ => panic!("the request should be answered"),
    }
    assert!(router.is_pending(5));
    assert!(matches!(
        router.receive(message(None, Some("session/request_permission"))),
        Routed::Ignored
    ));
}

#[test]
fn unreadable_lines_are_skipped() {
    let mut router: Router<u8, u8> = Router::new();
    router.register(1, 10);
    router.subscribe(99);
    assert!(matches!(
        router.step(read(b"not json")),
        ReaderStep::Continue(Routed::Ignored)
    ));
    assert!(router.is_pending(1));
    assert_eq!(router.subscriber(), Some(&99));
}

#[test]
fn closing_resolves_every_waiting_request() {
    let mut router = Channels::new();
    let (first_tx, mut first_rx) = oneshot::channel();
    let (second_tx, mut second_rx) = oneshot::channel();
    router.register(1, first_tx);
    router.register(2, second_tx);
    let (sub_tx, mut sub_rx) = mpsc::unbounded_channel();
    router.subscribe(sub_tx);

    assert!(!deliver(&mut router, ReaderEvent::Ended));

    for response in [first_rx.try_recv().unwrap(), second_rx.try_recv().unwrap()] {
        assert_eq!(response.id, None);
        assert_eq!(response.result, None);
        let error = response.error.unwrap();
        assert_eq!(error.code, -1);
        assert_eq!(error.message, "connection closed");
        assert_eq!(error.data, None);
    }
    assert_eq!(router.pending_count(), 0);
    assert!(router.subscriber().is_none());
    assert_eq!(
        sub_rx.try_recv().err(),
        Some(mpsc::error::TryRecvError::Disconnected)
    );
    assert!(matches!(
        router.receive(message(Some(1), None)),
        Routed::Dropped
    ));
}

#[test]
fn orphans_are_named_once() {
    let mut router: Router<u64, u8> = Router::new();
    for id in 0..20 {
        router.register(id, id * 10);
    }
    let mut orphans: Vec<(u64, u64)> = router
        .close()
        .into_iter()
        .map(|orphan| (orphan.id, orphan.slot))
        .collect();
    orphans.sort();
    let expected: Vec<(u64, u64)> = (0..20).map(|id| (id, id * 10)).collect();
    assert_eq!(orphans, expected);
}

#[test]
fn a_request_under_the_same_identifier_displaces_the_first() {
    let mut router: Router<u8, u8> = Router::new();
    assert_eq!(router.register(1, 10), None);
    assert_eq!(router.register(1, 11), Some(10));
    assert_eq!(router.pending_count(), 1);
    assert_eq!(router.forget(1), Some(11));
}

#[test]
fn a_request_waits_while_other_messages_come_in() {
    let mut router: Router<u8, u8> = Router::new();
    router.register(1, 10);
    router.register(2, 20);
    router.subscribe(99);
    for other in [
        message(None, Some("session/update")),
        message(Some(2), None),
        message(Some(1), Some("session/request_permission")),
        message(Some(3), None),
    ] {
        router.receive(other);
        assert!(router.is_pending(1));
    }
    router.receive(message(Some(1), None));
    assert!(!router.is_pending(1));
    assert_eq!(router.subscriber(), Some(&99));
}

#[test]
fn a_run_with_unreadable_lines_comes_to_the_same() {
    let run = |lines: &[&[u8]]| {
        let mut router = Channels::new();
        let (resp_tx, mut resp_rx) = oneshot::channel();
        let (lost_tx, mut lost_rx) = oneshot::channel();
        router.register(1, resp_tx);
        router.register(2, lost_tx);
        let (sub_tx, mut sub_rx) = mpsc::unbounded_channel();
        router.subscribe(sub_tx);
        for line in lines {
            assert!(deliver(&mut router, read(line)));
        }
        assert!(!deliver(&mut router, ReaderEvent::Ended));
        let mut seen = Vec::new();
        while let Ok(message) = sub_rx.try_recv() {
            seen.push((message.id, message.method));
        }
        (
            seen,
            resp_rx.try_recv().unwrap().result,
            lost_rx.try_recv().unwrap().error.map(|error| error.code),
        )
    };
    let update: &[u8] = b"{\"method\":\"session/update\"}";
    let response: &[u8] = b"{\"id\":1,\"result\":true}";
    let plain = run(&[update, response, update]);
    let noisy = run(&[b"", b"{", update, b"starting...", response, b"\"", update, b"bye"]);
    assert_eq!(plain.0.len(), 3);
    assert_eq!(plain.1, Some(Json::Bool(true)));
    assert_eq!(plain.2, Some(-1));
    assert_eq!(noisy, plain);
}
