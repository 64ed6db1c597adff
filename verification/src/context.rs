use vstd::prelude::*;
use crate::error::{MethodErr, is_err_reply_for};
use crate::message::{Arg, Message, MessageKind, Sender, is_method_return_for, is_signal_msg};

verus! {

/// Transient state used only while servicing the built-in Properties
/// interface; taken out of and given back to the Context with the same
/// checkout discipline as method handlers, so that no two conflicting
/// mutable views of the Context exist at once.
#[derive(Clone, Debug)]
pub struct PropCtx {
    /// The interface whose properties are being operated on.
    pub interface_name: String,
    /// The property named by a get or set operation; absent for get-all.
    pub property_name: Option<String>,
}

/// Per-invocation state of one method call: the resolved addressing, the
/// inbound message, a staged reply, and a queue of extra outgoing messages.
#[derive(Debug)]
pub struct Context {
    pub path: String,
    pub interface: Option<String>,
    pub method: String,
    pub message: Message,
    pub prop_ctx: Option<PropCtx>,
    pub reply: Option<Message>,
    pub send_extra: Vec<Message>,
}

impl Context {
    /// Everything sending a flush would emit, in order: the staged reply,
    /// if any, then the queued extra messages.
    pub open spec fn pending(self) -> Seq<Message> {
        (match self.reply {
            Some(m) => seq![m],
            None => Seq::<Message>::empty(),
        }) + self.send_extra@
    }

    /// Holds when `a` and `b` agree on everything but the staged reply.
    pub open spec fn same_but_reply(a: Context, b: Context) -> bool {
        &&& a.path == b.path
        &&& a.interface == b.interface
        &&& a.method == b.method
        &&& a.message == b.message
        &&& a.prop_ctx == b.prop_ctx
        &&& a.send_extra == b.send_extra
    }

    /// Holds when `post` is what screening the failure `e` leaves of `pre`:
    /// an error reply for `e` staged when the caller asked for a reply,
    /// the staged reply untouched when it asked for none, everything else
    /// unchanged.
    pub open spec fn check_err_rel(pre: Context, post: Context, e: MethodErr) -> bool {
        &&& Context::same_but_reply(post, pre)
        &&& if pre.message.no_reply {
            post.reply == pre.reply
        } else {
            post.reply matches Some(m) && is_err_reply_for(m, e, pre.message)
        }
    }

    /// Holds when `post` is what staging a success reply carrying `body`
    /// leaves of `pre`: a no-op when the caller asked for no reply or a
    /// reply is already staged, and otherwise a fresh successful reply.
    pub open spec fn do_reply_rel(pre: Context, post: Context, body: Seq<Arg>) -> bool {
        &&& Context::same_but_reply(post, pre)
        &&& if pre.message.no_reply || pre.reply is Some {
            post.reply == pre.reply
        } else {
            post.reply matches Some(m) && is_method_return_for(m, pre.message, body)
        }
    }

    /// Holds when `post` is what the low-level reply override leaves of
    /// `pre`: `msg` installed as the staged reply unless a respected gate —
    /// the caller's no-reply wish, or a reply already being set — stops it.
    pub open spec fn set_reply_rel(
        pre: Context,
        post: Context,
        msg: Option<Message>,
        check_no_reply: bool,
        check_set: bool,
    ) -> bool {
        &&& Context::same_but_reply(post, pre)
        &&& post.reply == if (check_no_reply && pre.message.no_reply) || (check_set
            && pre.reply is Some) {
            pre.reply
        } else {
            msg
        }
    }

    /// Builds the Context for one inbound message. Succeeds only for a
    /// method call that carries a path and a method name; any other message
    /// is not a routable call and is to be dropped silently.
    pub fn new(msg: Message) -> (r: Option<Context>)
        ensures
            r is Some <==> (msg.kind == MessageKind::MethodCall && msg.path is Some
                && msg.member is Some),
            r matches Some(c) ==> {
                &&& c.path == msg.path.unwrap()
                &&& c.interface == msg.interface
                &&& c.method == msg.member.unwrap()
                &&& c.message == msg
                &&& c.prop_ctx is None
                &&& c.reply is None
                &&& c.send_extra@ == Seq::<Message>::empty()
            },
    {
        match msg.kind {
            MessageKind::MethodCall => {},
            _ => { return None; },
        }
        let p = match &msg.path {
            Some(p) => p.clone(),
            None => { return None; },
        };
        let i = match &msg.interface {
            Some(i) => Some(i.clone()),
            None => None,
        };
        let m = match &msg.member {
            Some(m) => m.clone(),
            None => { return None; },
        };
        Some(
            Context {
                path: p,
                interface: i,
                method: m,
                message: msg,
                prop_ctx: None,
                reply: None,
                send_extra: Vec::new(),
            },
        )
    }

    /// Screens the outcome of a fallible resolution or handler step. On
    /// failure, stages an error reply if the caller asked for one, and
    /// turns the failure into a uniform abort signal.
    pub fn check<R>(&mut self, step: Result<R, MethodErr>) -> (r: Result<R, ()>)
        ensures
            r is Ok <==> step is Ok,
            step matches Ok(v) ==> r == Ok::<R, ()>(v) && *final (self) == *old(self),
            step matches Err(e) ==> Context::check_err_rel(*old(self), *final (self), e),
    {
        match step {
            Ok(v) => Ok(v),
            Err(e) => {
                if !self.message.get_no_reply() {
                    self.reply = Some(e.to_message(&self.message));
                }
                Err(())
            },
        }
    }

    /// Stages a successful reply carrying `body`. A no-op if the caller
    /// asked for no reply or if a reply is already staged: the first
    /// writer wins.
    pub fn do_reply(&mut self, body: Vec<Arg>)
        ensures
            Context::do_reply_rel(*old(self), *final (self), body@),
    {
        if self.message.get_no_reply() {
            return ;
        }
        if self.reply.is_some() {
            return ;
        }
        let msg = Message::method_return(&self.message, body);
        self.reply = Some(msg);
    }

    /// Replaces or clears the staged reply, gated by independent "respect
    /// no-reply" and "respect already-set" flags; supports handlers that
    /// defer replying.
    pub fn set_reply(&mut self, msg: Option<Message>, check_no_reply: bool, check_set: bool)
        ensures
            Context::set_reply_rel(*old(self), *final (self), msg, check_no_reply, check_set),
    {
        if check_no_reply && self.message.get_no_reply() {
            return ;
        }
        if check_set && self.reply.is_some() {
            return ;
        }
        self.reply = msg;
    }

    /// Sends the staged reply, if any, then the queued extra messages in
    /// enqueue order. A send failure aborts the remaining flush at once;
    /// messages already sent stay sent. The Context's outbox is emptied
    /// either way.
    pub fn flush_messages<S: Sender>(&mut self, conn: &mut S) -> (r: Result<(), ()>)
        ensures
            final (self).path == old(self).path,
            final (self).interface == old(self).interface,
            final (self).method == old(self).method,
            final (self).message == old(self).message,
            final (self).prop_ctx == old(self).prop_ctx,
            final (self).reply is None,
            final (self).send_extra@ == Seq::<Message>::empty(),
            r is Ok ==> final (conn).sent() == old(conn).sent() + old(self).pending(),
            r is Err ==> exists|k: int|
                0 <= k < old(self).pending().len() && final (conn).sent() == old(conn).sent()
                    + old(self).pending().take(k),
            final (conn).infallible() == old(conn).infallible(),
            old(conn).infallible() ==> r is Ok,
    {
        let ghost pend = self.pending();
        let mut staged: Option<Message> = None;
        core::mem::swap(&mut staged, &mut self.reply);
        let mut extras: Vec<Message> = Vec::new();
        core::mem::swap(&mut extras, &mut self.send_extra);
        match staged {
            Some(m) => {
                if conn.send(m).is_err() {
                    proof {
                        assert(pend.take(0) == Seq::<Message>::empty());
                        assert(conn.sent() == old(conn).sent() + pend.take(0));
                    }
                    return Err(());
                }
                proof {
                    assert(pend.take(1) == seq![pend[0]]);
                }
            },
            None => {},
        }
        let ghost base: int = if old(self).reply is Some {
            1int
        } else {
            0int
        };
        let ghost total: int = extras@.len() as int;
        while extras.len() > 0
            invariant
                self.path == old(self).path,
                self.interface == old(self).interface,
                self.method == old(self).method,
                self.message == old(self).message,
                self.prop_ctx == old(self).prop_ctx,
                self.reply is None,
                self.send_extra@ == Seq::<Message>::empty(),
                conn.infallible() == old(conn).infallible(),
                pend == old(self).pending(),
                base + total == pend.len(),
                0 <= base,
                extras@.len() <= total,
                extras@ == pend.subrange(pend.len() - extras@.len(), pend.len() as int),
                conn.sent() == old(conn).sent() + pend.take(pend.len() - extras@.len()),
            decreases extras.len(),
        {
            let ghost k: int = pend.len() - extras@.len();
            let m = extras.remove(0);
            proof {
                assert(m == pend[k]);
            }
            if conn.send(m).is_err() {
                proof {
                    assert(conn.sent() == old(conn).sent() + pend.take(k));
                }
                return Err(());
            }
            proof {
                assert(pend.take(k + 1) == pend.take(k).push(pend[k]));
                assert(extras@ == pend.subrange(pend.len() - extras@.len(), pend.len() as int));
            }
        }
        proof {
            assert(pend.take(pend.len() as int) == pend);
        }
        Ok(())
    }

    /// Builds an outbound signal addressed to this Context's own path and
    /// interface. Only valid while servicing a call whose interface is
    /// resolved.
    pub fn make_signal(&self, name: &String, args: Vec<Arg>) -> (m: Message)
        requires
            self.interface is Some,
        ensures
            is_signal_msg(m, self.path@, self.interface.unwrap()@, name@, args@),
    {
        let iface = match &self.interface {
            Some(i) => i,
            None => { return vstd::pervasive::unreached() },
        };
        Message::signal(&self.path, iface, name, args)
    }

    /// Queues an extra message to send together with the reply, e.g. a
    /// custom signal. Order among queued messages is preserved; the reply
    /// is always flushed first.
    pub fn push_msg(&mut self, msg: Message)
        ensures
            *final (self) == (Context { send_extra: final (self).send_extra, ..*old(self) }),
            final (self).send_extra@ == old(self).send_extra@.push(msg),
    {
        self.send_extra.push(msg);
    }

    /// The call's target path.
    pub fn path(&self) -> (r: &String)
        ensures
            r == &self.path,
    {
        &self.path
    }

    /// The call's interface name, if one was given.
    pub fn interface(&self) -> (r: Option<&String>)
        ensures
            match r {
                Some(i) => self.interface matches Some(j) && i == j,
                None => self.interface is None,
            },
    {
        self.interface.as_ref()
    }

    /// The called method's name.
    pub fn method(&self) -> (r: &String)
        ensures
            r == &self.method,
    {
        &self.method
    }

    /// The inbound message being serviced.
    pub fn message(&self) -> (r: &Message)
        ensures
            r == &self.message,
    {
        &self.message
    }

    /// True when a reply is staged.
    pub fn has_reply(&self) -> (r: bool)
        ensures
            r == (self.reply is Some),
    {
        self.reply.is_some()
    }

    /// Removes and returns the property sub-context. Only valid while one
    /// is installed.
    pub fn take_prop_ctx(&mut self) -> (p: PropCtx)
        requires
            old(self).prop_ctx is Some,
        ensures
            old(self).prop_ctx == Some(p),
            *final (self) == (Context { prop_ctx: None, ..*old(self) }),
    {
        let mut taken: Option<PropCtx> = None;
        core::mem::swap(&mut taken, &mut self.prop_ctx);
        match taken {
            Some(p) => p,
            None => vstd::pervasive::unreached(),
        }
    }

    /// Installs a property sub-context.
    pub fn give_prop_ctx(&mut self, p: PropCtx)
        ensures
            *final (self) == (Context { prop_ctx: Some(p), ..*old(self) }),
    {
        self.prop_ctx = Some(p);
    }

    /// Mutable access to the installed property sub-context. Only valid
    /// while one is installed.
    pub fn prop_ctx(&mut self) -> (p: &mut PropCtx)
        requires
            old(self).prop_ctx is Some,
        ensures
            *p == old(self).prop_ctx.unwrap(),
            *final (self) == (Context { prop_ctx: Some(*final (p)), ..*old(self) }),
    {
        match &mut self.prop_ctx {
            Some(p) => p,
            None => vstd::pervasive::unreached(),
        }
    }
}

} // verus!
