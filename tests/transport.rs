use crossbeam_channel::Sender;
use lapce_rpc::{
    answer, decode, encode, frame, io_error, message_of, start_request, terminate, unframe, Action,
    CodeAction, ControlFlow, Correlator, DecodeError, Dispatcher, FrameError, Message, Outcome,
    IO_ERROR, MALFORMED_RESPONSE,
};
use serde_json::Value;

fn value(text: &str) -> Value {
    serde_json::from_str(text).unwrap()
}

fn text(s: &str) -> Value {
    Value::from(s)
}

type Slot = Sender<Outcome>;

fn resolve_with(dispatcher: &Dispatcher, table: &mut Correlator<Slot>, msg: Message) -> bool {
    match dispatcher.step(table, msg) {
        Action::Complete(tx, outcome) => {
            tx.send(outcome).unwrap();
            true
        }
        _ => false,
    }
}

#[test]
fn ping_request_gets_pong() {
    let mut table: Correlator<Slot> = Correlator::new();
    let (tx0, _rx0) = crossbeam_channel::bounded(1);
    let (id0, first) = start_request(&mut table, "warmup".to_string(), value("null"), tx0).ok().unwrap();
    assert_eq!(id0, 0);
    assert!(matches!(first, Message::Request { id: 0, .. }));

    let (tx, rx) = crossbeam_channel::bounded(1);
    let req = start_request(&mut table, "ping".to_string(), value("{}"), tx).ok().unwrap().1;
    let line = frame(req);
    assert_eq!(line, "{\"id\":1,\"method\":\"ping\",\"params\":{}}\n");

    let resp = unframe("{\"id\":1,\"result\":\"pong\"}\n").unwrap();
    let dispatcher = Dispatcher::new();
    assert!(resolve_with(&dispatcher, &mut table, resp));
    assert_eq!(rx.recv().unwrap(), Ok(text("pong")));
    assert!(!table.is_pending(1));
    assert!(table.is_pending(0));
}

#[test]
fn closed_transport_fails_waiting_request() {
    let mut table: Correlator<Slot> = Correlator::new();
    let mut keep = Vec::new();
    for _ in 0..5 {
        let (tx, rx) = crossbeam_channel::bounded(1);
        start_request(&mut table, "noop".to_string(), value("null"), tx).ok().unwrap().1;
        keep.push(rx);
    }
    let (tx, rx) = crossbeam_channel::bounded(1);
    let req = start_request(&mut table, "slow".to_string(), value("null"), tx).ok().unwrap().1;
    assert!(matches!(req, Message::Request { id: 5, .. }));

    let waiting = table.close();
    assert_eq!(waiting.len(), 6);
    for (_, slot) in waiting {
        slot.send(io_error()).unwrap();
    }
    assert_eq!(rx.recv().unwrap(), Err(text("io error")));
    assert!(table.is_closed());
    assert_eq!(table.pending_count(), 0);
}

#[test]
fn request_after_close_is_handed_back() {
    let mut table: Correlator<u32> = Correlator::new();
    table.close();
    let back = start_request(&mut table, "late".to_string(), value("null"), 7u32);
    assert_eq!(back.err(), Some(7));
    assert_eq!(table.next_id(), 0);
}

#[test]
fn notification_reaches_handler_without_reply() {
    let mut table: Correlator<u32> = Correlator::new();
    let msg = unframe("{\"method\":\"log\",\"params\":{\"msg\":\"hi\"}}\n").unwrap();
    let dispatcher = Dispatcher::new();
    match dispatcher.step(&mut table, msg) {
        Action::Notify(method, params) => {
            assert_eq!(method, "log");
            assert_eq!(params, value("{\"msg\":\"hi\"}"));
        }
        other => panic!("unexpected action {:?}", other),
    }
    assert_eq!(table.pending_count(), 0);
    assert_eq!(table.next_id(), 0);
}

#[test]
fn responses_out_of_order_reach_their_callers() {
    let mut table: Correlator<Slot> = Correlator::new();
    let (tx0, _rx0) = crossbeam_channel::bounded(1);
    start_request(&mut table, "zero".to_string(), value("null"), tx0).ok().unwrap().1;
    let (tx1, rx1) = crossbeam_channel::bounded(1);
    let (tx2, rx2) = crossbeam_channel::bounded(1);
    start_request(&mut table, "one".to_string(), value("null"), tx1).ok().unwrap().1;
    start_request(&mut table, "two".to_string(), value("null"), tx2).ok().unwrap().1;

    let dispatcher = Dispatcher::new();
    let second = unframe("{\"id\":2,\"result\":\"for two\"}").unwrap();
    let first = unframe("{\"id\":1,\"error\":\"for one\"}").unwrap();
    assert!(resolve_with(&dispatcher, &mut table, second));
    assert!(rx1.try_recv().is_err());
    assert!(resolve_with(&dispatcher, &mut table, first));
    assert_eq!(rx2.recv().unwrap(), Ok(text("for two")));
    assert_eq!(rx1.recv().unwrap(), Err(text("for one")));
}

#[test]
fn duplicate_response_is_dropped() {
    let mut table: Correlator<u32> = Correlator::new();
    start_request(&mut table, "m".to_string(), value("null"), 40u32).ok().unwrap().1;
    let dispatcher = Dispatcher::new();
    let first = dispatcher.step(&mut table, unframe("{\"id\":0,\"result\":1}").unwrap());
    assert!(matches!(first, Action::Complete(40, Ok(_))));
    let again = dispatcher.step(&mut table, unframe("{\"id\":0,\"result\":1}").unwrap());
    assert!(matches!(again, Action::Ignore));
    let unknown = dispatcher.step(&mut table, unframe("{\"id\":9,\"result\":1}").unwrap());
    assert!(matches!(unknown, Action::Ignore));
}

#[test]
fn envelope_round_trips() {
    let msgs = vec![
        Message::Notification { method: "log".to_string(), params: value("{\"msg\":\"hi\"}") },
        Message::Request { id: 42, method: "read".to_string(), params: value("[1,2]") },
        Message::Response { id: 7, outcome: Ok(value("{\"a\":true}")) },
        Message::Response { id: u64::MAX, outcome: Err(text("bad")) },
    ];
    let copies = vec![
        Message::Notification { method: "log".to_string(), params: value("{\"msg\":\"hi\"}") },
        Message::Request { id: 42, method: "read".to_string(), params: value("[1,2]") },
        Message::Response { id: 7, outcome: Ok(value("{\"a\":true}")) },
        Message::Response { id: u64::MAX, outcome: Err(text("bad")) },
    ];
    for (msg, copy) in msgs.into_iter().zip(copies) {
        let back = decode(encode(msg)).unwrap();
        assert_eq!(back, copy);
    }
}

#[test]
fn framed_line_round_trips() {
    let msg = Message::Request { id: 3, method: "save".to_string(), params: value("{\"rev\":2}") };
    let line = frame(msg);
    assert!(line.ends_with('\n'));
    assert_eq!(line.matches('\n').count(), 1);
    let back = unframe(&line).unwrap();
    assert_eq!(
        back,
        Message::Request { id: 3, method: "save".to_string(), params: value("{\"rev\":2}") }
    );
}

#[test]
fn response_with_both_fields_is_an_error() {
    let msg = unframe("{\"id\":4,\"result\":1,\"error\":2}").unwrap();
    assert_eq!(msg, Message::Response { id: 4, outcome: Err(text(MALFORMED_RESPONSE)) });
    let mut table: Correlator<u32> = Correlator::new();
    for k in 0..5u32 {
        start_request(&mut table, "m".to_string(), value("null"), k).ok().unwrap().1;
    }
    let dispatcher = Dispatcher::new();
    match dispatcher.step(&mut table, msg) {
        Action::Complete(4, Err(v)) => assert_eq!(v, text(MALFORMED_RESPONSE)),
        other => panic!("unexpected action {:?}", other),
    }
}

#[test]
fn response_with_neither_field_is_an_error() {
    let msg = unframe("{\"id\":0}").unwrap();
    assert_eq!(msg, Message::Response { id: 0, outcome: Err(text(MALFORMED_RESPONSE)) });
}

#[test]
fn exit_stops_the_loop() {
    let mut table: Correlator<u32> = Correlator::new();
    start_request(&mut table, "m".to_string(), value("null"), 1u32).ok().unwrap().1;
    let mut dispatcher = Dispatcher::new();
    let queued = vec![
        unframe("{\"method\":\"quit\",\"params\":null}").unwrap(),
        unframe("{\"id\":0,\"result\":1}").unwrap(),
        unframe("{\"method\":\"log\",\"params\":null}").unwrap(),
    ];
    let mut handled = Vec::new();
    for msg in queued {
        match dispatcher.step(&mut table, msg) {
            Action::Notify(method, _) => {
                handled.push(method);
                dispatcher.notified(ControlFlow::Exit);
            }
            Action::Halt => {}
            other => panic!("unexpected action {:?}", other),
        }
    }
    assert_eq!(handled, vec!["quit".to_string()]);
    assert!(dispatcher.is_stopped());
    assert!(table.is_pending(0));
}

#[test]
fn continue_keeps_the_loop_running() {
    let mut dispatcher = Dispatcher::new();
    dispatcher.notified(ControlFlow::Continue);
    assert!(!dispatcher.is_stopped());
}

#[test]
fn ids_are_distinct() {
    let mut table: Correlator<u32> = Correlator::new();
    let mut ids = Vec::new();
    for k in 0..100u32 {
        ids.push(table.register(k).unwrap());
        if k % 3 == 0 {
            table.resolve(ids[ids.len() - 1]);
        }
    }
    let mut sorted = ids.clone();
    sorted.sort();
    sorted.dedup();
    assert_eq!(sorted.len(), 100);
    assert_eq!(ids, (0..100u64).collect::<Vec<u64>>());
}

#[test]
fn request_is_answered_under_its_id() {
    let mut table: Correlator<u32> = Correlator::new();
    let dispatcher = Dispatcher::new();
    let msg = unframe("{\"id\":11,\"method\":\"read\",\"params\":[]}").unwrap();
    let (id, method) = match dispatcher.step(&mut table, msg) {
        Action::Answer(id, method, params) => {
            assert_eq!(params, value("[]"));
            (id, method)
        }
        other => panic!("unexpected action {:?}", other),
    };
    assert_eq!((id, method.as_str()), (11, "read"));
    let line = frame(answer(id, Err(text("no such file"))));
    assert_eq!(line, "{\"error\":\"no such file\",\"id\":11}\n");
    let line = frame(answer(id, Ok(value("3"))));
    assert_eq!(line, "{\"id\":11,\"result\":3}\n");
}

#[test]
fn malformed_lines_are_errors() {
    assert_eq!(unframe("not json").err(), Some(FrameError::Syntax));
    assert_eq!(unframe("[1,2]").err(), Some(FrameError::Syntax));
    assert_eq!(unframe("").err(), Some(FrameError::Syntax));
    assert_eq!(
        unframe("{\"id\":\"x\",\"result\":1}").err(),
        Some(FrameError::Malformed(DecodeError::BadId))
    );
    assert_eq!(
        unframe("{\"id\":-1,\"result\":1}").err(),
        Some(FrameError::Malformed(DecodeError::BadId))
    );
    assert_eq!(
        unframe("{\"params\":{}}").err(),
        Some(FrameError::Malformed(DecodeError::BadMethod))
    );
    assert_eq!(
        unframe("{\"id\":1,\"method\":5,\"params\":{}}").err(),
        Some(FrameError::Malformed(DecodeError::BadMethod))
    );
    assert_eq!(
        unframe("{\"method\":\"log\"}").err(),
        Some(FrameError::Malformed(DecodeError::MissingParams))
    );
}

#[test]
fn message_of_parsed_object() {
    let obj: serde_json::Map<String, Value> = serde_json::from_str("{\"id\":2,\"result\":null}").unwrap();
    assert_eq!(
        message_of(obj).unwrap(),
        Message::Response { id: 2, outcome: Ok(value("null")) }
    );
}

#[test]
fn io_error_text() {
    assert_eq!(io_error(), Err(text(IO_ERROR)));
    assert_eq!(IO_ERROR, "io error");
}

#[test]
fn terminate_appends_newline() {
    assert_eq!(terminate("{}".to_string()), "{}\n");
    assert_eq!(terminate(String::new()), "\n");
}

#[test]
fn code_action_popup() {
    let popup = CodeAction::new();
    assert!(matches!(popup, CodeAction {}));
}
