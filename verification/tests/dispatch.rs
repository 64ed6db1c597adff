use crossroads::context::{Context, PropCtx};
use crossroads::crossroads::{Crossroads, Handler, INTROSPECTABLE, PROPERTIES};
use crossroads::error::MethodErr;
use crossroads::message::{Arg, CappedSender, Message, MessageKind, Sender, VecSender};
use crossroads::registry::{IfaceDesc, MethodDesc};

/// Handlers used by the tests; the payload type is a plain counter.
enum TestHandler {
    /// Replies with the sum of the two body arguments.
    Add,
    /// Replies with the sum and queues a signal before returning.
    AddAndSignal,
    /// Reports a domain-specific failure through the failure screen.
    Fail,
    /// Tries to check its own (interface id, method) pair out again and
    /// replies 1 when that fails as "unknown method".
    Reenter,
    /// Defers the reply: returns no Context, so nothing is flushed.
    Defer,
    /// Stages a success reply twice; only the first may stick.
    DoubleReply,
    /// Increments the payload at /calc through typed access, then replies.
    CountCalls,
}

const CALC_TAG: u64 = 7;

impl Handler<i64> for TestHandler {
    fn call(&mut self, mut ctx: Context, cr: &mut Crossroads<Self, i64>) -> Option<Context> {
        match self {
            TestHandler::Add => {
                let sum = body_sum(ctx.message());
                ctx.do_reply(vec![Arg::Int(sum)]);
                Some(ctx)
            }
            TestHandler::AddAndSignal => {
                let sum = body_sum(ctx.message());
                if ctx.interface().is_some() {
                    let sig = ctx.make_signal(&"Computed".to_string(), vec![Arg::Int(sum)]);
                    ctx.push_msg(sig);
                }
                ctx.do_reply(vec![Arg::Int(sum)]);
                Some(ctx)
            }
            TestHandler::Fail => {
                let step: Result<(), MethodErr> = Err(MethodErr::failed("boom".to_string()));
                let _ = ctx.check(step);
                Some(ctx)
            }
            TestHandler::Reenter => {
                let again = cr.registry.take_method(2, &ctx.method().clone());
                let outcome = match again {
                    Err(_) => 1,
                    Ok(_) => 0,
                };
                ctx.do_reply(vec![Arg::Int(outcome)]);
                Some(ctx)
            }
            TestHandler::Defer => None,
            TestHandler::DoubleReply => {
                ctx.do_reply(vec![Arg::Int(1)]);
                ctx.do_reply(vec![Arg::Int(2)]);
                Some(ctx)
            }
            TestHandler::CountCalls => {
                if let Some(d) = cr.data_mut(&"/calc".to_string(), CALC_TAG) {
                    *d += 1;
                }
                ctx.do_reply(vec![Arg::Int(0)]);
                Some(ctx)
            }
        }
    }
}

/// The sum of the integer arguments of a message body.
fn body_sum(m: &Message) -> i64 {
    m.body
        .iter()
        .map(|a| match a {
            Arg::Int(v) => *v,
            Arg::Str(_) => 0,
        })
        .sum()
}

fn new_cr() -> Crossroads<TestHandler, i64> {
    Crossroads::new(
        IfaceDesc {
            name: Some("org.freedesktop.DBus.Introspectable".to_string()),
            methods: vec![],
            props: vec![],
        },
        IfaceDesc {
            name: Some("org.freedesktop.DBus.Properties".to_string()),
            methods: vec![],
            props: vec![],
        },
    )
}

fn calc_cr(handler: TestHandler) -> Crossroads<TestHandler, i64> {
    let mut cr = new_cr();
    let tok = cr.register(
        "org.test.Calc".to_string(),
        vec![MethodDesc::new("Add".to_string(), handler)],
        vec![],
        CALC_TAG,
    );
    cr.insert("/calc".to_string(), &vec![tok], CALC_TAG, 0);
    cr
}

fn add_call(no_reply: bool) -> Message {
    Message::call(
        "/calc".to_string(),
        Some("org.test.Calc".to_string()),
        "Add".to_string(),
        no_reply,
        42,
        vec![Arg::Int(2), Arg::Int(3)],
    )
}

#[test]
fn add_reply_carries_sum() {
    let mut cr = calc_cr(TestHandler::Add);
    let mut conn = VecSender::new();
    let r = cr.handle_message(add_call(false), &mut conn);
    assert!(r.is_ok());
    assert_eq!(conn.msgs.len(), 1);
    assert_eq!(conn.msgs[0].kind, MessageKind::MethodReturn);
    assert_eq!(conn.msgs[0].body, vec![Arg::Int(5)]);
    assert_eq!(conn.msgs[0].reply_serial, Some(42));
}

#[test]
fn handler_runs_exactly_once_per_dispatch() {
    let mut cr = calc_cr(TestHandler::CountCalls);
    let mut conn = VecSender::new();
    assert!(cr.handle_message(add_call(false), &mut conn).is_ok());
    assert_eq!(cr.data_mut(&"/calc".to_string(), CALC_TAG), Some(&mut 1));
    assert_eq!(conn.msgs.len(), 1);
    assert!(cr.handle_message(add_call(false), &mut conn).is_ok());
    assert_eq!(cr.data_mut(&"/calc".to_string(), CALC_TAG), Some(&mut 2));
    assert_eq!(conn.msgs.len(), 2);
}

#[test]
fn no_reply_call_sends_nothing_on_success() {
    let mut cr = calc_cr(TestHandler::Add);
    let mut conn = VecSender::new();
    let r = cr.handle_message(add_call(true), &mut conn);
    assert!(r.is_ok());
    assert_eq!(conn.msgs.len(), 0);
}

#[test]
fn no_reply_call_sends_nothing_on_failure() {
    let mut cr = calc_cr(TestHandler::Fail);
    let mut conn = VecSender::new();
    let r = cr.handle_message(add_call(true), &mut conn);
    assert!(r.is_ok());
    assert_eq!(conn.msgs.len(), 0);
}

#[test]
fn reentrant_checkout_fails_as_unknown_method() {
    let mut cr = calc_cr(TestHandler::Reenter);
    let mut conn = VecSender::new();
    let r = cr.handle_message(add_call(false), &mut conn);
    assert!(r.is_ok());
    // The handler saw its own slot as absent.
    assert_eq!(conn.msgs[0].body, vec![Arg::Int(1)]);
    // The handler was given back: the registry is usable again.
    let back = cr.registry.take_method(2, &"Add".to_string());
    assert!(back.is_ok());
}

#[test]
fn missing_path_gives_no_such_path_and_leaves_registry_intact() {
    let mut cr = calc_cr(TestHandler::Add);
    let mut conn = VecSender::new();
    let msg = Message::call(
        "/missing".to_string(),
        Some("org.test.Calc".to_string()),
        "Add".to_string(),
        false,
        9,
        vec![],
    );
    let r = cr.handle_message(msg, &mut conn);
    assert!(r.is_ok());
    assert_eq!(conn.msgs.len(), 1);
    assert_eq!(conn.msgs[0].kind, MessageKind::Error);
    assert_eq!(
        conn.msgs[0].error_name.as_deref(),
        Some("org.freedesktop.DBus.Error.UnknownObject")
    );
    assert_eq!(conn.msgs[0].reply_serial, Some(9));
    // No handler was left checked out.
    let back = cr.registry.take_method(2, &"Add".to_string());
    assert!(back.is_ok());
}

#[test]
fn unknown_interface_gives_its_error() {
    let mut cr = calc_cr(TestHandler::Add);
    let mut conn = VecSender::new();
    let msg = Message::call(
        "/calc".to_string(),
        Some("org.test.Nope".to_string()),
        "Add".to_string(),
        false,
        1,
        vec![],
    );
    assert!(cr.handle_message(msg, &mut conn).is_ok());
    assert_eq!(
        conn.msgs[0].error_name.as_deref(),
        Some("org.freedesktop.DBus.Error.UnknownInterface")
    );
}

#[test]
fn unknown_method_gives_its_error() {
    let mut cr = calc_cr(TestHandler::Add);
    let mut conn = VecSender::new();
    let msg = Message::call(
        "/calc".to_string(),
        Some("org.test.Calc".to_string()),
        "Sub".to_string(),
        false,
        1,
        vec![],
    );
    assert!(cr.handle_message(msg, &mut conn).is_ok());
    assert_eq!(
        conn.msgs[0].error_name.as_deref(),
        Some("org.freedesktop.DBus.Error.UnknownMethod")
    );
}

#[test]
fn handler_failure_gives_failed_error_with_detail() {
    let mut cr = calc_cr(TestHandler::Fail);
    let mut conn = VecSender::new();
    assert!(cr.handle_message(add_call(false), &mut conn).is_ok());
    assert_eq!(conn.msgs.len(), 1);
    assert_eq!(conn.msgs[0].kind, MessageKind::Error);
    assert_eq!(
        conn.msgs[0].error_name.as_deref(),
        Some("org.freedesktop.DBus.Error.Failed")
    );
    assert_eq!(conn.msgs[0].error_text.as_deref(), Some("boom"));
}

#[test]
fn omitted_interface_is_unknown_method_when_ambiguous() {
    // With the standard interfaces auto-added the object carries two ids,
    // so a call without an interface cannot be resolved.
    let mut cr = calc_cr(TestHandler::Add);
    let mut conn = VecSender::new();
    let msg = Message::call(
        "/calc".to_string(),
        None,
        "Add".to_string(),
        false,
        1,
        vec![Arg::Int(2), Arg::Int(3)],
    );
    assert!(cr.handle_message(msg, &mut conn).is_ok());
    assert_eq!(
        conn.msgs[0].error_name.as_deref(),
        Some("org.freedesktop.DBus.Error.UnknownMethod")
    );
}

#[test]
fn omitted_interface_resolves_when_unambiguous() {
    let mut cr = new_cr();
    cr.set_add_standard_ifaces(false);
    let tok = cr.register(
        "org.test.Calc".to_string(),
        vec![MethodDesc::new("Add".to_string(), TestHandler::Add)],
        vec![],
        CALC_TAG,
    );
    cr.insert("/calc".to_string(), &vec![tok], CALC_TAG, 0);
    let mut conn = VecSender::new();
    let msg = Message::call(
        "/calc".to_string(),
        None,
        "Add".to_string(),
        false,
        5,
        vec![Arg::Int(2), Arg::Int(3)],
    );
    assert!(cr.handle_message(msg, &mut conn).is_ok());
    assert_eq!(conn.msgs[0].kind, MessageKind::MethodReturn);
    assert_eq!(conn.msgs[0].body, vec![Arg::Int(5)]);
}

#[test]
fn deferred_reply_flushes_nothing() {
    let mut cr = calc_cr(TestHandler::Defer);
    let mut conn = VecSender::new();
    let r = cr.handle_message(add_call(false), &mut conn);
    assert!(r.is_ok());
    assert_eq!(conn.msgs.len(), 0);
}

#[test]
fn reply_staging_is_idempotent() {
    let mut cr = calc_cr(TestHandler::DoubleReply);
    let mut conn = VecSender::new();
    assert!(cr.handle_message(add_call(false), &mut conn).is_ok());
    assert_eq!(conn.msgs.len(), 1);
    assert_eq!(conn.msgs[0].body, vec![Arg::Int(1)]);
}

#[test]
fn signal_is_flushed_after_the_reply() {
    let mut cr = calc_cr(TestHandler::AddAndSignal);
    let mut conn = VecSender::new();
    assert!(cr.handle_message(add_call(false), &mut conn).is_ok());
    assert_eq!(conn.msgs.len(), 2);
    assert_eq!(conn.msgs[0].kind, MessageKind::MethodReturn);
    assert_eq!(conn.msgs[0].body, vec![Arg::Int(5)]);
    assert_eq!(conn.msgs[1].kind, MessageKind::Signal);
    assert_eq!(conn.msgs[1].path.as_deref(), Some("/calc"));
    assert_eq!(conn.msgs[1].interface.as_deref(), Some("org.test.Calc"));
    assert_eq!(conn.msgs[1].member.as_deref(), Some("Computed"));
    assert_eq!(conn.msgs[1].body, vec![Arg::Int(5)]);
}

#[test]
fn send_failure_aborts_the_rest_of_the_flush() {
    let mut cr = calc_cr(TestHandler::AddAndSignal);
    let mut conn = CappedSender::new(1);
    let r = cr.handle_message(add_call(false), &mut conn);
    assert!(r.is_err());
    // The reply went out; the signal was dropped with the abort.
    assert_eq!(conn.msgs.len(), 1);
    assert_eq!(conn.msgs[0].kind, MessageKind::MethodReturn);
}

#[test]
fn malformed_messages_are_dropped_silently() {
    let mut cr = calc_cr(TestHandler::Add);
    let mut conn = VecSender::new();
    let sig = Message::signal(
        &"/calc".to_string(),
        &"org.test.Calc".to_string(),
        &"Computed".to_string(),
        vec![],
    );
    assert!(cr.handle_message(sig, &mut conn).is_err());
    let mut no_member = add_call(false);
    no_member.member = None;
    assert!(cr.handle_message(no_member, &mut conn).is_err());
    assert_eq!(conn.msgs.len(), 0);
}

#[test]
fn insert_replaces_wholesale() {
    let mut cr = calc_cr(TestHandler::Add);
    assert_eq!(cr.data_mut(&"/calc".to_string(), CALC_TAG), Some(&mut 0));
    // Replace the object with one of another type and no interfaces.
    cr.insert("/calc".to_string(), &vec![], 99, 5);
    // The old payload and its tag are gone ...
    assert_eq!(cr.data_mut(&"/calc".to_string(), CALC_TAG), None);
    assert_eq!(cr.data_mut(&"/calc".to_string(), 99), Some(&mut 5));
    // ... and so is the old interface set.
    let mut conn = VecSender::new();
    assert!(cr.handle_message(add_call(false), &mut conn).is_ok());
    assert_eq!(
        conn.msgs[0].error_name.as_deref(),
        Some("org.freedesktop.DBus.Error.UnknownInterface")
    );
}

#[test]
fn typed_access_checks_path_and_tag() {
    let mut cr = calc_cr(TestHandler::Add);
    assert_eq!(cr.data_mut(&"/calc".to_string(), CALC_TAG), Some(&mut 0));
    assert_eq!(cr.data_mut(&"/calc".to_string(), 8), None);
    assert_eq!(cr.data_mut(&"/nope".to_string(), CALC_TAG), None);
    if let Some(d) = cr.data_mut(&"/calc".to_string(), CALC_TAG) {
        *d = 11;
    }
    assert_eq!(cr.data_mut(&"/calc".to_string(), CALC_TAG), Some(&mut 11));
}

#[test]
fn get_children_lists_strict_descendants() {
    let mut cr = new_cr();
    cr.insert("/a/b".to_string(), &vec![], 1, 0);
    cr.insert("/a/c".to_string(), &vec![], 1, 0);
    cr.insert("/ax".to_string(), &vec![], 1, 0);
    cr.insert("/a".to_string(), &vec![], 1, 0);
    let kids = cr.get_children(&"/a".to_string());
    assert_eq!(kids, vec!["b".to_string(), "c".to_string()]);
}

#[test]
fn get_children_order_ignores_insertion_order() {
    // The table keeps its keys sorted, so the listing is the same
    // whichever way the objects were inserted.
    let mut cr = new_cr();
    cr.insert("/a/c".to_string(), &vec![], 1, 0);
    cr.insert("/a/b".to_string(), &vec![], 1, 0);
    let kids = cr.get_children(&"/a".to_string());
    assert_eq!(kids, vec!["b".to_string(), "c".to_string()]);
}

#[test]
fn get_children_keeps_deeper_suffixes() {
    let mut cr = new_cr();
    cr.insert("/a/b".to_string(), &vec![], 1, 0);
    cr.insert("/a/b/c".to_string(), &vec![], 1, 0);
    let kids = cr.get_children(&"/a".to_string());
    assert_eq!(kids, vec!["b".to_string(), "b/c".to_string()]);
}

#[test]
fn no_reply_call_sends_nothing_even_with_queued_signal() {
    // The handler queues a signal, but the caller asked for no reply:
    // nothing at all goes out.
    let mut cr = calc_cr(TestHandler::AddAndSignal);
    let mut conn = VecSender::new();
    let r = cr.handle_message(add_call(true), &mut conn);
    assert!(r.is_ok());
    assert_eq!(conn.msgs.len(), 0);
}

#[test]
fn properties_interface_is_added_iff_some_interface_declares_one() {
    let mut cr = new_cr();
    let plain = cr.register(
        "org.test.Plain".to_string(),
        vec![MethodDesc::new("Add".to_string(), TestHandler::Add)],
        vec![],
        1,
    );
    let propsy = cr.register(
        "org.test.Propsy".to_string(),
        vec![],
        vec!["Level".to_string()],
        1,
    );
    cr.insert("/plain".to_string(), &vec![plain], 1, 0);
    cr.insert("/propsy".to_string(), &vec![propsy], 1, 0);
    let props_name = "org.freedesktop.DBus.Properties".to_string();
    let intro_name = "org.freedesktop.DBus.Introspectable".to_string();
    assert!(cr
        .find_iface_token(&"/plain".to_string(), Some(&props_name))
        .is_err());
    assert_eq!(
        cr.find_iface_token(&"/propsy".to_string(), Some(&props_name))
            .ok(),
        Some(PROPERTIES)
    );
    // Introspectable is always included.
    assert_eq!(
        cr.find_iface_token(&"/plain".to_string(), Some(&intro_name))
            .ok(),
        Some(INTROSPECTABLE)
    );
}

#[test]
fn builtin_tokens_carry_the_reserved_ids() {
    let cr = calc_cr(TestHandler::Add);
    assert_eq!(cr.introspectable(3).id, INTROSPECTABLE);
    assert_eq!(cr.introspectable(3).tag, 3);
    assert_eq!(cr.properties(4).id, PROPERTIES);
    assert_eq!(cr.properties(4).tag, 4);
}

#[test]
fn registry_and_ifaces_exposes_the_object_set() {
    let cr = calc_cr(TestHandler::Add);
    let (reg, ids) = cr.registry_and_ifaces(&"/calc".to_string());
    assert_eq!(reg.ifaces.len(), 3);
    let mut sorted = ids.clone();
    sorted.sort();
    assert_eq!(sorted, vec![INTROSPECTABLE, 2]);
}

#[test]
fn context_construction_validates_addressing() {
    let ok = Context::new(add_call(false));
    assert!(ok.is_some());
    let ctx = ok.unwrap();
    assert_eq!(ctx.path().as_str(), "/calc");
    assert_eq!(ctx.interface().map(|s| s.as_str()), Some("org.test.Calc"));
    assert_eq!(ctx.method().as_str(), "Add");
    assert!(!ctx.has_reply());
    let mut no_path = add_call(false);
    no_path.path = None;
    assert!(Context::new(no_path).is_none());
}

#[test]
fn set_reply_respects_its_gates() {
    let mut ctx = Context::new(add_call(false)).unwrap();
    let probe = Message::method_return(ctx.message(), vec![Arg::Int(1)]);
    ctx.set_reply(Some(probe), true, true);
    assert!(ctx.has_reply());
    // Respecting an already-set reply keeps the first one.
    let probe2 = Message::method_return(ctx.message(), vec![Arg::Int(2)]);
    ctx.set_reply(Some(probe2), false, true);
    let mut conn = VecSender::new();
    assert!(ctx.flush_messages(&mut conn).is_ok());
    assert_eq!(conn.msgs[0].body, vec![Arg::Int(1)]);
    assert!(!ctx.has_reply());
    // With both flags false the reply can be replaced or cleared.
    let probe3 = Message::method_return(ctx.message(), vec![Arg::Int(3)]);
    ctx.set_reply(Some(probe3), false, false);
    ctx.set_reply(None, false, false);
    assert!(!ctx.has_reply());
}

#[test]
fn set_reply_respects_no_reply_when_asked() {
    let mut ctx = Context::new(add_call(true)).unwrap();
    let probe = Message::method_return(ctx.message(), vec![Arg::Int(1)]);
    ctx.set_reply(Some(probe), true, true);
    assert!(!ctx.has_reply());
    // A deliberate override may ignore the flag.
    let probe2 = Message::method_return(ctx.message(), vec![Arg::Int(2)]);
    ctx.set_reply(Some(probe2), false, true);
    assert!(ctx.has_reply());
}

#[test]
fn prop_ctx_checkout_discipline() {
    let mut ctx = Context::new(add_call(false)).unwrap();
    ctx.give_prop_ctx(PropCtx {
        interface_name: "org.test.Calc".to_string(),
        property_name: Some("Level".to_string()),
    });
    {
        let p = ctx.prop_ctx();
        p.property_name = None;
    }
    let taken = ctx.take_prop_ctx();
    assert_eq!(taken.interface_name, "org.test.Calc");
    assert_eq!(taken.property_name, None);
}

#[test]
fn sender_models_record_and_reject() {
    let mut v = VecSender::new();
    assert!(v.send(add_call(false)).is_ok());
    assert_eq!(v.msgs.len(), 1);
    let mut c = CappedSender::new(1);
    assert!(c.send(add_call(false)).is_ok());
    assert!(c.send(add_call(false)).is_err());
    assert_eq!(c.msgs.len(), 1);
}

#[test]
fn registry_checkout_and_return_protocol() {
    let mut reg = crossroads::registry::Registry::new();
    let id = reg.push(IfaceDesc {
        name: Some("org.test.Calc".to_string()),
        methods: vec![MethodDesc::new("Add".to_string(), TestHandler::Add)],
        props: vec![],
    });
    assert_eq!(id, 0);
    assert!(!reg.has_props(id));
    let with_props = reg.push(IfaceDesc {
        name: Some("org.test.Propsy".to_string()),
        methods: vec![],
        props: vec!["Level".to_string()],
    });
    assert!(reg.has_props(with_props));
    // Named resolution over a candidate set, and the unnamed singleton rule.
    let cands = vec![id, with_props];
    assert_eq!(
        reg.find_token(Some(&"org.test.Propsy".to_string()), &cands).ok(),
        Some(with_props)
    );
    assert!(reg.find_token(Some(&"org.test.Nope".to_string()), &cands).is_err());
    assert!(reg.find_token(None, &cands).is_err());
    assert_eq!(reg.find_token(None, &vec![id]).ok(), Some(id));
    // Checkout makes the slot indistinguishable from absence ...
    let name = "Add".to_string();
    let h = reg.take_method(id, &name);
    assert!(h.is_ok());
    assert!(reg.take_method(id, &name).is_err());
    // ... and the return restores it; a stray return is discarded.
    reg.give_method(id, &name, h.unwrap());
    reg.give_method(id, &"Gone".to_string(), TestHandler::Defer);
    assert!(reg.take_method(id, &name).is_ok());
}
