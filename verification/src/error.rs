use vstd::prelude::*;
use crate::message::{Arg, Message, MessageKind};

verus! {

/// The error taxonomy of the dispatch core.
#[derive(Clone, Copy, PartialEq, Eq, Structural, Debug)]
pub enum ErrKind {
    /// The target path has no registered object.
    NoSuchPath,
    /// The named interface is not among the object's assigned interfaces.
    UnknownInterface,
    /// No method of that name under the resolved interface, the interface
    /// was omitted ambiguously, or the method is currently checked out.
    UnknownMethod,
    /// Handler logic reported a domain-specific failure.
    Failed,
}

/// The bus error name that stands for each kind.
pub open spec fn kind_error_name(k: ErrKind) -> Seq<char> {
    match k {
        ErrKind::NoSuchPath => "org.freedesktop.DBus.Error.UnknownObject"@,
        ErrKind::UnknownInterface => "org.freedesktop.DBus.Error.UnknownInterface"@,
        ErrKind::UnknownMethod => "org.freedesktop.DBus.Error.UnknownMethod"@,
        ErrKind::Failed => "org.freedesktop.DBus.Error.Failed"@,
    }
}

/// An error reported while resolving or servicing a method call.
#[derive(Clone, Debug)]
pub struct MethodErr {
    pub kind: ErrKind,
    /// Detail for the caller, e.g. the offending path or name.
    pub text: String,
}

/// Holds when `m` is the error reply that `e` makes for the call `call`.
pub open spec fn is_err_reply_for(m: Message, e: MethodErr, call: Message) -> bool {
    &&& m.kind == MessageKind::Error
    &&& m.path is None
    &&& m.interface is None
    &&& m.member is None
    &&& m.no_reply
    &&& m.serial == 0
    &&& m.reply_serial == Some(call.serial)
    &&& m.body@ == Seq::<Arg>::empty()
    &&& m.error_name matches Some(n) && n@ == kind_error_name(e.kind)
    &&& m.error_text == Some(e.text)
}

impl MethodErr {
    /// The path was not found in the object table.
    pub fn no_path(path: &String) -> (e: MethodErr)
        ensures
            e.kind == ErrKind::NoSuchPath,
            e.text@ == path@,
    {
        MethodErr { kind: ErrKind::NoSuchPath, text: path.clone() }
    }

    /// The named interface is not assigned to the object.
    pub fn no_interface(interface: &String) -> (e: MethodErr)
        ensures
            e.kind == ErrKind::UnknownInterface,
            e.text@ == interface@,
    {
        MethodErr { kind: ErrKind::UnknownInterface, text: interface.clone() }
    }

    /// The method cannot be resolved or is checked out.
    pub fn no_method(method: &String) -> (e: MethodErr)
        ensures
            e.kind == ErrKind::UnknownMethod,
            e.text@ == method@,
    {
        MethodErr { kind: ErrKind::UnknownMethod, text: method.clone() }
    }

    /// A domain-specific failure with caller-supplied detail.
    pub fn failed(text: String) -> (e: MethodErr)
        ensures
            e.kind == ErrKind::Failed,
            e.text == text,
    {
        MethodErr { kind: ErrKind::Failed, text }
    }

    /// The bus error name of this error's kind.
    pub fn error_name(&self) -> (n: String)
        ensures
            n@ == kind_error_name(self.kind),
    {
        match self.kind {
            ErrKind::NoSuchPath => "org.freedesktop.DBus.Error.UnknownObject".to_owned(),
            ErrKind::UnknownInterface => "org.freedesktop.DBus.Error.UnknownInterface".to_owned(),
            ErrKind::UnknownMethod => "org.freedesktop.DBus.Error.UnknownMethod".to_owned(),
            ErrKind::Failed => "org.freedesktop.DBus.Error.Failed".to_owned(),
        }
    }

    /// Converts this error into an error reply tied to the call `call`.
    pub fn to_message(&self, call: &Message) -> (m: Message)
        ensures
            is_err_reply_for(m, *self, *call),
    {
        Message {
            kind: MessageKind::Error,
            path: None,
            interface: None,
            member: None,
            no_reply: true,
            serial: 0,
            reply_serial: Some(call.serial),
            body: Vec::new(),
            error_name: Some(self.error_name()),
            error_text: Some(self.text.clone()),
        }
    }
}

} // verus!
