use avdan_runtime::task::{Action, Message, Runtime, Type};

type Builder = fn(Vec<u8>) -> String;

fn decode_tick(bytes: Vec<u8>) -> String {
    format!("tick {}", bytes[0])
}

fn decode_empty(bytes: Vec<u8>) -> String {
    format!("done {}", bytes.len())
}

#[test]
fn progress_then_result_settles_the_task() {
    let mut rt: Runtime<&str, &str> = Runtime::new();
    let id = rt.prom_map_insert("resolver");
    assert!(rt.on(id, String::from("tick"), "tick-handler"));
    let tick: Message<Builder> = Message(id, Type::Auxiliary(String::from("tick"), vec![3], decode_tick));
    let mut fired = Vec::new();
    match rt.dispatch(tick) {
        Action::Notify { task, event, payload, builder } => {
            assert_eq!(task, id);
            assert_eq!(rt.handler(task, &event), Some(&"tick-handler"));
            fired.push(builder(payload));
        }
        _ => panic!("expected the handler to fire"),
    }
    assert_eq!(fired, vec!["tick 3"]);
    assert!(rt.contains(id));
    let done: Message<Builder> = Message(id, Type::Result(Ok(vec![]), decode_empty));
    match rt.dispatch(done) {
        Action::Resolve { resolver, payload, builder } => {
            assert_eq!(resolver, "resolver");
            assert_eq!(builder(payload), "done 0");
        }
        _ => panic!("expected the result to resolve"),
    }
    assert!(!rt.contains(id));
    assert!(rt.is_idle());
    assert_eq!(fired.len(), 1);
}

#[test]
fn failed_task_rejects() {
    let mut rt: Runtime<u8, u8> = Runtime::new();
    let id = rt.prom_map_insert(9);
    let msg: Message<Builder> = Message(id, Type::Result(Err(String::from("boom")), decode_empty));
    match rt.dispatch(msg) {
        Action::Reject { resolver, reason } => {
            assert_eq!(resolver, 9);
            assert_eq!(reason, "boom");
        }
        _ => panic!("expected a rejection"),
    }
    assert_eq!(rt.pending(), 0);
}

#[test]
fn unhandled_progress_is_ignored() {
    let mut rt: Runtime<u8, u8> = Runtime::new();
    let id = rt.prom_map_insert(1);
    let msg: Message<Builder> = Message(id, Type::Auxiliary(String::from("tock"), vec![1], decode_tick));
    assert!(matches!(rt.dispatch(msg), Action::Ignore));
    assert!(rt.contains(id));
}

#[test]
fn message_for_unknown_task_is_stray() {
    let mut rt: Runtime<u8, u8> = Runtime::new();
    let id = rt.prom_map_insert(1);
    let other = id.wrapping_add(1);
    let msg: Message<Builder> = Message(other, Type::Result(Ok(vec![]), decode_empty));
    assert!(matches!(rt.dispatch(msg), Action::Stray(i) if i == other));
    assert!(rt.contains(id));
    assert!(!rt.on(other, String::from("tick"), 2));
}

#[test]
fn later_handler_takes_precedence() {
    let mut rt: Runtime<u8, u8> = Runtime::new();
    let id = rt.prom_map_insert(1);
    rt.on(id, String::from("tick"), 10);
    rt.on(id, String::from("tock"), 20);
    rt.on(id, String::from("tick"), 30);
    assert_eq!(rt.handler(id, "tick"), Some(&30));
    assert_eq!(rt.handler(id, "tock"), Some(&20));
    assert_eq!(rt.handler(id, "other"), None);
}

#[test]
fn indices_never_collide_with_live_tasks() {
    let mut rt: Runtime<u32, u8> = Runtime::new();
    let mut seen = std::collections::HashSet::new();
    for n in 0..200u32 {
        let id = rt.prom_map_insert(n);
        assert!(seen.insert(id));
    }
    assert_eq!(rt.pending(), 200);
    let fresh = rt.fresh_index();
    assert!(!seen.contains(&fresh));
}

#[test]
fn message_copies_report() {
    let t: Type<Builder> = Type::Auxiliary(String::from("tick"), vec![3], decode_tick);
    let m = t.message(5);
    assert_eq!(m.0, 5);
    match m.1 {
        Type::Auxiliary(name, bytes, _) => {
            assert_eq!(name, "tick");
            assert_eq!(bytes, vec![3]);
        }
        _ => panic!("expected a progress event"),
    }
}

#[test]
fn progress_for_other_tasks_interleaves() {
    let mut rt: Runtime<u8, u8> = Runtime::new();
    let a = rt.prom_map_insert(1);
    let b = rt.prom_map_insert(2);
    rt.on(a, String::from("tick"), 5);
    let m1: Message<Builder> = Message(a, Type::Auxiliary(String::from("tick"), vec![1], decode_tick));
    let m2: Message<Builder> = Message(b, Type::Result(Ok(vec![]), decode_empty));
    let m3: Message<Builder> = Message(a, Type::Result(Err(String::from("x")), decode_empty));
    assert!(matches!(rt.dispatch(m1), Action::Notify { .. }));
    assert!(rt.contains(a) && rt.contains(b));
    assert!(matches!(rt.dispatch(m2), Action::Resolve { resolver: 2, .. }));
    assert!(rt.contains(a) && !rt.contains(b));
    assert_eq!(rt.resolver(a), Some(&1));
    assert!(matches!(rt.dispatch(m3), Action::Reject { resolver: 1, .. }));
    assert!(rt.is_idle());
    assert_eq!(rt.resolver(a), None);
}
