use vstd::prelude::*;

verus! {

/// The kinds of bus message this core distinguishes. Calls may request no
/// reply; replies and errors answer a call; signals are unsolicited.
#[derive(Clone, Copy, PartialEq, Eq, Structural, Debug)]
pub enum MessageKind {
    MethodCall,
    MethodReturn,
    Error,
    Signal,
}

/// One marshalled argument of a message body. The full argument type
/// system is outside this core; integer and string arguments are enough
/// for its callers.
#[derive(Clone, Debug, PartialEq)]
pub enum Arg {
    Int(i64),
    Str(String),
}

/// An inbound or outbound bus message, held as plain values. Wire-level
/// encoding is outside this core; a body is a sequence of arguments.
#[derive(Clone, Debug, PartialEq)]
pub struct Message {
    pub kind: MessageKind,
    pub path: Option<String>,
    pub interface: Option<String>,
    pub member: Option<String>,
    /// True when the caller asks that no reply be sent.
    pub no_reply: bool,
    /// Serial number assigned by the sender of this message.
    pub serial: u64,
    /// For replies and errors: the serial of the call being answered.
    pub reply_serial: Option<u64>,
    pub body: Vec<Arg>,
    /// For error messages: the error's name.
    pub error_name: Option<String>,
    /// For error messages: human-readable detail.
    pub error_text: Option<String>,
}

/// Holds when `m` is a successful reply to `call` carrying `body`.
pub open spec fn is_method_return_for(m: Message, call: Message, body: Seq<Arg>) -> bool {
    &&& m.kind == MessageKind::MethodReturn
    &&& m.path is None
    &&& m.interface is None
    &&& m.member is None
    &&& m.no_reply
    &&& m.serial == 0
    &&& m.reply_serial == Some(call.serial)
    &&& m.body@ == body
    &&& m.error_name is None
    &&& m.error_text is None
}

/// Holds when `m` is a signal addressed to `path` / `iface` / `member`
/// carrying `body`.
pub open spec fn is_signal_msg(
    m: Message,
    path: Seq<char>,
    iface: Seq<char>,
    member: Seq<char>,
    body: Seq<Arg>,
) -> bool {
    &&& m.kind == MessageKind::Signal
    &&& m.path matches Some(p) && p@ == path
    &&& m.interface matches Some(i) && i@ == iface
    &&& m.member matches Some(n) && n@ == member
    &&& m.no_reply
    &&& m.serial == 0
    &&& m.reply_serial is None
    &&& m.body@ == body
    &&& m.error_name is None
    &&& m.error_text is None
}

impl Message {
    /// Builds a method-call message.
    pub fn call(
        path: String,
        interface: Option<String>,
        member: String,
        no_reply: bool,
        serial: u64,
        body: Vec<Arg>,
    ) -> (m: Message)
        ensures
            m == (Message {
                kind: MessageKind::MethodCall,
                path: Some(path),
                interface: interface,
                member: Some(member),
                no_reply: no_reply,
                serial: serial,
                reply_serial: None,
                body: body,
                error_name: None,
                error_text: None,
            }),
    {
        Message {
            kind: MessageKind::MethodCall,
            path: Some(path),
            interface,
            member: Some(member),
            no_reply,
            serial,
            reply_serial: None,
            body,
            error_name: None,
            error_text: None,
        }
    }

    /// Builds an empty successful reply to `call`.
    pub fn method_return(call: &Message, body: Vec<Arg>) -> (m: Message)
        ensures
            is_method_return_for(m, *call, body@),
    {
        Message {
            kind: MessageKind::MethodReturn,
            path: None,
            interface: None,
            member: None,
            no_reply: true,
            serial: 0,
            reply_serial: Some(call.serial),
            body,
            error_name: None,
            error_text: None,
        }
    }

    /// Builds a signal addressed to `path` / `interface` / `member`.
    pub fn signal(path: &String, interface: &String, member: &String, body: Vec<Arg>) -> (m:
        Message)
        ensures
            is_signal_msg(m, path@, interface@, member@, body@),
    {
        Message {
            kind: MessageKind::Signal,
            path: Some(path.clone()),
            interface: Some(interface.clone()),
            member: Some(member.clone()),
            no_reply: true,
            serial: 0,
            reply_serial: None,
            body,
            error_name: None,
            error_text: None,
        }
    }

    /// The message's kind.
    pub fn msg_type(&self) -> (k: MessageKind)
        ensures
            k == self.kind,
    {
        self.kind
    }

    /// True when the caller asked that no reply be sent.
    pub fn get_no_reply(&self) -> (b: bool)
        ensures
            b == self.no_reply,
    {
        self.no_reply
    }
}

/// A capability to send outbound messages, implemented by the transport.
/// `sent` is the model of everything successfully handed to the transport,
/// oldest first; `send` either appends one message to it or rejects the
/// message leaving it unchanged. A transport may declare itself
/// `infallible`: such a one never rejects, and stays infallible.
pub trait Sender {
    spec fn sent(&self) -> Seq<Message>;

    spec fn infallible(&self) -> bool;

    fn send(&mut self, msg: Message) -> (r: Result<(), ()>)
        ensures
            r is Ok ==> final (self).sent() == old(self).sent().push(msg),
            r is Err ==> final (self).sent() == old(self).sent(),
            old(self).infallible() ==> r is Ok,
            final (self).infallible() == old(self).infallible(),
    ;
}

/// A sender that records every message and never fails; useful as an
/// in-process transport and for observing dispatch output.
pub struct VecSender {
    pub msgs: Vec<Message>,
}

impl VecSender {
    /// An empty recording sender.
    pub fn new() -> (s: VecSender)
        ensures
            s.sent() == Seq::<Message>::empty(),
    {
        VecSender { msgs: Vec::new() }
    }
}

impl Sender for VecSender {
    open spec fn sent(&self) -> Seq<Message> {
        self.msgs@
    }

    open spec fn infallible(&self) -> bool {
        true
    }

    fn send(&mut self, msg: Message) -> (r: Result<(), ()>)
        ensures
            r is Ok,
            final (self).msgs@ == old(self).msgs@.push(msg),
    {
        self.msgs.push(msg);
        Ok(())
    }
}

/// A sender that accepts at most `cap` messages in total and rejects the
/// rest; models a transport that starts failing.
pub struct CappedSender {
    pub msgs: Vec<Message>,
    pub cap: usize,
}

impl CappedSender {
    /// An empty sender that will accept at most `cap` messages.
    pub fn new(cap: usize) -> (s: CappedSender)
        ensures
            s.sent() == Seq::<Message>::empty(),
            s.cap == cap,
    {
        CappedSender { msgs: Vec::new(), cap }
    }
}

impl Sender for CappedSender {
    open spec fn sent(&self) -> Seq<Message> {
        self.msgs@
    }

    open spec fn infallible(&self) -> bool {
        false
    }

    fn send(&mut self, msg: Message) -> (r: Result<(), ()>)
        ensures
            r is Ok <==> old(self).msgs@.len() < old(self).cap,
            final (self).cap == old(self).cap,
            r is Ok ==> final (self).msgs@ == old(self).msgs@.push(msg),
            r is Err ==> *final (self) == *old(self),
    {
        if self.msgs.len() < self.cap {
            self.msgs.push(msg);
            Ok(())
        } else {
            Err(())
        }
    }
}

} // verus!
