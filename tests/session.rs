use std::cell::RefCell;
use std::rc::Rc;

use qemu_qmp_test::cli::{Args, Commands};
use qemu_qmp_test::json::Json;
use qemu_qmp_test::messages::server::{ParseFailure, Return};
use qemu_qmp_test::session::{Dispatch, Session};

type Callback = Box<dyn FnOnce(Return)>;

const GREETING: &str = r#"{"QMP":{"version":{"qemu":{"micro":3,"minor":0,"major":8},"package":""},"capabilities":["oob"]}}"#;

fn s(text: &str) -> String {
    text.to_string()
}

fn recorder(log: &Rc<RefCell<Vec<Json>>>) -> Callback {
    let log = Rc::clone(log);
    Box::new(move |r: Return| log.borrow_mut().push(r.ret))
}

/// Performs a dispatch the way the reader does; returns whether a callback ran.
fn perform(d: Dispatch<Callback>) -> bool {
    match d {
        Dispatch::Resolve(cb, reply) => {
            cb(reply);
            true
        }
        _ => false,
    }
}

#[test]
fn greeting_enqueues_the_handshake() {
    let mut session: Session<Callback> = Session::new();
    match session.on_line(s(GREETING)) {
        Dispatch::Send(m) => assert_eq!(
            m.encode().unwrap(),
            r#"{"execute":"qmp_capabilities","arguments":{"enable":["oob"]},"id":1}"#
        ),
        _ => panic!("the greeting was not answered"),
    }
}

#[test]
fn reply_invokes_its_callback_once() {
    let log = Rc::new(RefCell::new(Vec::new()));
    let mut session: Session<Callback> = Session::new();
    for _ in 0..2 {
        session.call(s("query-status"), vec![], Box::new(|_| ())).unwrap();
    }
    let m = session.call(s("stop"), vec![], recorder(&log)).unwrap();
    assert_eq!(m.id, 3);
    assert!(session.is_pending(3));
    assert!(perform(session.on_line(s(r#"{"return":{},"id":3}"#))));
    assert_eq!(*log.borrow(), vec![Json::Object(vec![])]);
    assert!(!session.is_pending(3));
    // the same reply again fires nothing
    let again = session.on_line(s(r#"{"return":{},"id":3}"#));
    assert!(matches!(again, Dispatch::Unmatched(_)));
    assert_eq!(log.borrow().len(), 1);
}

#[test]
fn reply_without_id_fires_nothing() {
    let log = Rc::new(RefCell::new(Vec::new()));
    let mut session: Session<Callback> = Session::new();
    session.call(s("stop"), vec![], recorder(&log)).unwrap();
    match session.on_line(s(r#"{"return":{}}"#)) {
        Dispatch::Unmatched(r) => assert_eq!(r.id, None),
        _ => panic!("a reply without id was routed"),
    }
    assert!(log.borrow().is_empty());
    assert!(session.is_pending(1));
}

#[test]
fn reply_to_an_unknown_id_fires_nothing() {
    let mut session: Session<Callback> = Session::new();
    match session.on_line(s(r#"{"return":{},"id":12}"#)) {
        Dispatch::Unmatched(r) => assert_eq!(r.id, Some(12)),
        _ => panic!("an unmatched reply was routed"),
    }
}

#[test]
fn malformed_line_between_two_lines_is_skipped() {
    let log = Rc::new(RefCell::new(Vec::new()));
    let mut session: Session<Callback> = Session::new();
    session.call(s("a"), vec![], recorder(&log)).unwrap();
    session.call(s("b"), vec![], recorder(&log)).unwrap();
    let lines = [r#"{"return":1,"id":1}"#, "BADJSON", r#"{"return":2,"id":2}"#];
    let mut fired = 0;
    let mut failures = 0;
    for line in lines {
        match session.on_line(s(line)) {
            Dispatch::Malformed(e) => {
                assert!(matches!(e.cause, ParseFailure::NotJson));
                failures += 1;
            }
            d => fired += perform(d) as usize,
        }
    }
    assert_eq!(fired, 2);
    assert_eq!(failures, 1);
    assert_eq!(*log.borrow(), vec![Json::PosInt(1), Json::PosInt(2)]);
}

#[test]
fn call_ids_count_up_from_one() {
    let mut session: Session<Callback> = Session::new();
    let ids: Vec<usize> = (0..5)
        .map(|i| session.call(format!("c{i}"), vec![], Box::new(|_| ())).unwrap().id)
        .collect();
    assert_eq!(ids, vec![1, 2, 3, 4, 5]);
    let m = session.call(s("x"), vec![(s("k"), Json::Bool(false))], Box::new(|_| ())).unwrap();
    assert_eq!(m.execute, "x");
    assert_eq!(m.arguments, vec![(s("k"), Json::Bool(false))]);
}

#[test]
fn handshake_and_calls_share_one_counter() {
    let mut session: Session<Callback> = Session::new();
    assert_eq!(session.call(s("a"), vec![], Box::new(|_| ())).unwrap().id, 1);
    match session.on_line(s(GREETING)) {
        Dispatch::Send(m) => assert_eq!(m.id, 2),
        _ => panic!("the greeting was not answered"),
    }
    assert_eq!(session.next_id(), Some(3));
}

#[test]
fn cancel_withdraws_a_registration() {
    let mut session: Session<Callback> = Session::new();
    let m = session.call(s("a"), vec![], Box::new(|_| ())).unwrap();
    assert!(session.cancel(m.id).is_some());
    assert!(!session.is_pending(m.id));
    assert!(session.cancel(m.id).is_none());
    assert!(matches!(session.on_line(s(r#"{"return":{},"id":1}"#)), Dispatch::Unmatched(_)));
}

#[test]
fn event_goes_to_the_sink() {
    let mut session: Session<Callback> = Session::new();
    let line = r#"{"timestamp":{"seconds":1,"microseconds":2},"event":"STOP","data":{}}"#;
    match session.on_line(s(line)) {
        Dispatch::Notify(e) => assert_eq!(e.event, "STOP"),
        _ => panic!("the event was not forwarded"),
    }
}

#[test]
fn unknown_shape_is_reported() {
    let mut session: Session<Callback> = Session::new();
    match session.on_line(s(r#"{"greeting":true}"#)) {
        Dispatch::Malformed(e) => {
            assert!(matches!(e.cause, ParseFailure::UnknownShape));
            assert_eq!(e.line, r#"{"greeting":true}"#);
        }
        _ => panic!("an unknown shape was routed"),
    }
}

#[test]
fn args_from_the_command_line() {
    let a = Args::load_from_cli(s("/tmp/qmp.sock"), Some(s("{}")));
    assert_eq!(a.path, "/tmp/qmp.sock");
    assert!(matches!(a.command, Some(Commands::Send { ref payload }) if payload == "{}"));
    assert!(Args::load_from_cli(s("p"), None).command.is_none());
}
