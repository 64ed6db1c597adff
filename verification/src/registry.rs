use vstd::prelude::*;
use crate::error::{ErrKind, MethodErr};

verus! {

/// One method of an interface: its name and its handler slot. The slot
/// holds the handler while idle and is empty while the handler is checked
/// out mid-invocation, so a reentrant call to the same method observes the
/// slot as absent.
pub struct MethodDesc<H> {
    pub name: String,
    pub handler: Option<H>,
}

impl<H> MethodDesc<H> {
    /// A method whose handler is installed and idle.
    pub fn new(name: String, handler: H) -> (m: MethodDesc<H>)
        ensures
            m.name == name,
            m.handler == Some(handler),
    {
        MethodDesc { name, handler: Some(handler) }
    }
}

/// A registered interface: its bus name, its methods in declaration order,
/// and the names of the properties it declares.
pub struct IfaceDesc<H> {
    pub name: Option<String>,
    pub methods: Vec<MethodDesc<H>>,
    pub props: Vec<String>,
}

/// The first index at or after `i` of a method named `name`, or -1.
pub open spec fn method_idx_from<H>(methods: Seq<MethodDesc<H>>, name: Seq<char>, i: int) -> int
    decreases methods.len() - i when 0 <= i <= methods.len()
{
    if i >= methods.len() {
        -1
    } else if methods[i].name@ == name {
        i
    } else {
        method_idx_from(methods, name, i + 1)
    }
}

/// The index of the first method named `name`, or -1 if there is none.
pub open spec fn method_idx<H>(methods: Seq<MethodDesc<H>>, name: Seq<char>) -> int {
    method_idx_from(methods, name, 0)
}

/// What `method_idx_from` finds is a match, and nothing before it is.
pub proof fn lemma_method_idx_from<H>(methods: Seq<MethodDesc<H>>, name: Seq<char>, i: int)
    requires
        0 <= i <= methods.len(),
    ensures
        ({
            let r = method_idx_from(methods, name, i);
            ||| r == -1 && (forall|j: int| i <= j < methods.len() ==> methods[j].name@ != name)
            ||| (i <= r < methods.len() && methods[r].name@ == name && (forall|j: int|
                i <= j < r ==> methods[j].name@ != name))
        }),
    decreases methods.len() - i,
{
    if i < methods.len() && methods[i].name@ != name {
        lemma_method_idx_from(methods, name, i + 1);
    }
}

/// Maps small integer interface identifiers to interface descriptions and
/// owns the checkout/return protocol for method handlers.
pub struct Registry<H> {
    pub ifaces: Vec<IfaceDesc<H>>,
}

/// Holds when `a` and `b` describe the same interfaces with the same
/// checkout state, method by method.
pub open spec fn same_registry<H>(a: Registry<H>, b: Registry<H>) -> bool {
    &&& a.ifaces@.len() == b.ifaces@.len()
    &&& forall|i: int|
        0 <= i < a.ifaces@.len() ==> same_iface(#[trigger] a.ifaces@[i], b.ifaces@[i])
}

/// Holds when `a` and `b` are the same interface description.
pub open spec fn same_iface<H>(a: IfaceDesc<H>, b: IfaceDesc<H>) -> bool {
    &&& a.name == b.name
    &&& a.props == b.props
    &&& a.methods@.len() == b.methods@.len()
    &&& forall|i: int|
        0 <= i < a.methods@.len() ==> #[trigger] a.methods@[i].name == b.methods@[i].name
            && a.methods@[i].handler == b.methods@[i].handler
}

/// Holds when `post` is `pre` with the handler slot of (`id`, `name`) made
/// empty, everything else untouched.
pub open spec fn is_after_take<H>(pre: Registry<H>, post: Registry<H>, id: int, name: Seq<char>) -> bool {
    let m = method_idx(pre.ifaces@[id].methods@, name);
    &&& post.ifaces@.len() == pre.ifaces@.len()
    &&& 0 <= id < pre.ifaces@.len()
    &&& 0 <= m < pre.ifaces@[id].methods@.len()
    &&& forall|j: int| 0 <= j < pre.ifaces@.len() && j != id ==> post.ifaces@[j] == pre.ifaces@[j]
    &&& post.ifaces@[id].name == pre.ifaces@[id].name
    &&& post.ifaces@[id].props == pre.ifaces@[id].props
    &&& post.ifaces@[id].methods@ == pre.ifaces@[id].methods@.update(
        m,
        MethodDesc { name: pre.ifaces@[id].methods@[m].name, handler: None },
    )
}

impl<H> Registry<H> {
    /// A registry with no interfaces.
    pub fn new() -> (r: Registry<H>)
        ensures
            r.ifaces@ == Seq::<IfaceDesc<H>>::empty(),
    {
        Registry { ifaces: Vec::new() }
    }

    /// True when `id` names a registered interface with a method `name`,
    /// checked out or not.
    pub open spec fn has_method(&self, id: int, name: Seq<char>) -> bool {
        &&& 0 <= id < self.ifaces@.len()
        &&& method_idx(self.ifaces@[id].methods@, name) >= 0
    }

    /// True when the handler for (`id`, `name`) is present and idle, i.e.
    /// a checkout would succeed.
    pub open spec fn method_available(&self, id: int, name: Seq<char>) -> bool {
        &&& self.has_method(id, name)
        &&& self.ifaces@[id].methods@[method_idx(self.ifaces@[id].methods@, name)].handler is Some
    }

    /// Adds an interface description and returns its freshly allocated id.
    pub fn push(&mut self, iface: IfaceDesc<H>) -> (id: usize)
        ensures
            id == old(self).ifaces@.len(),
            final (self).ifaces@ == old(self).ifaces@.push(iface),
    {
        let id = self.ifaces.len();
        self.ifaces.push(iface);
        id
    }

    /// True when interface `id` is registered and declares at least one
    /// property; used to decide automatic Properties-interface inclusion.
    pub fn has_props(&self, id: usize) -> (r: bool)
        ensures
            r == (id < self.ifaces@.len() && self.ifaces@[id as int].props@.len() > 0),
    {
        if id < self.ifaces.len() {
            self.ifaces[id].props.len() > 0
        } else {
            false
        }
    }

    /// Picks the single governing interface id for a call from the
    /// candidate set assigned to the target object. With a name, it is the
    /// first candidate registered under that name, or "unknown interface".
    /// Without a name, the call resolves only when it is unambiguous, that
    /// is when there is exactly one candidate; an unresolved omitted
    /// interface is folded into "unknown method".
    pub fn find_token(&self, interface: Option<&String>, ifaces: &Vec<usize>) -> (r: Result<
        usize,
        MethodErr,
    >)
        ensures
            match r {
                Ok(id) => match interface {
                    Some(n) => {
                        let c = first_named_candidate(self, ifaces@, n@);
                        c >= 0 && id == ifaces@[c]
                    },
                    None => ifaces@.len() == 1 && id == ifaces@[0],
                },
                Err(e) => match interface {
                    Some(n) => first_named_candidate(self, ifaces@, n@) == -1 && e.kind
                        == ErrKind::UnknownInterface,
                    None => ifaces@.len() != 1 && e.kind == ErrKind::UnknownMethod,
                },
            },
    {
        match interface {
            Some(n) => {
                let mut i: usize = 0;
                while i < ifaces.len()
                    invariant
                        interface == Some(n),
                        i <= ifaces@.len(),
                        first_named_candidate(self, ifaces@, n@) == named_candidate_from(
                            self,
                            ifaces@,
                            n@,
                            i as int,
                        ),
                    decreases ifaces@.len() - i,
                {
                    let id = ifaces[i];
                    if id < self.ifaces.len() {
                        match &self.ifaces[id].name {
                            Some(nm) => {
                                if *nm == *n {
                                    proof {
                                        assert(named_candidate_from(self, ifaces@, n@, i as int)
                                            == i as int);
                                    }
                                    return Ok(id);
                                }
                            },
                            None => {},
                        }
                    }
                    i += 1;
                }
                Err(MethodErr::no_interface(n))
            },
            None => {
                if ifaces.len() == 1 {
                    Ok(ifaces[0])
                } else {
                    Err(MethodErr::no_method(&"".to_owned()))
                }
            },
        }
    }

    /// Checks the handler for (`id`, `name`) out of its slot. Fails with
    /// "unknown method" both when no such method is registered and when the
    /// handler is already checked out: a reentrant call to the same method
    /// fails safely instead of aliasing mutable state. On failure the
    /// registry is left exactly as it was.
    pub fn take_method(&mut self, id: usize, name: &String) -> (r: Result<H, MethodErr>)
        ensures
            r is Ok <==> old(self).method_available(id as int, name@),
            r matches Ok(h) ==> {
                &&& is_after_take(*old(self), *final (self), id as int, name@)
                &&& Some(h) == old(self).ifaces@[id as int].methods@[method_idx(
                    old(self).ifaces@[id as int].methods@,
                    name@,
                )].handler
            },
            r matches Err(e) ==> *final (self) == *old(self) && e.kind == ErrKind::UnknownMethod,
    {
        if id >= self.ifaces.len() {
            return Err(MethodErr::no_method(name));
        }
        proof {
            lemma_method_idx_from(self.ifaces@[id as int].methods@, name@, 0);
        }
        let mlen = self.ifaces[id].methods.len();
        let mut i: usize = 0;
        while i < mlen
            invariant
                *self == *old(self),
                id < self.ifaces@.len(),
                mlen == self.ifaces@[id as int].methods@.len(),
                i <= mlen,
                method_idx(self.ifaces@[id as int].methods@, name@) == method_idx_from(
                    self.ifaces@[id as int].methods@,
                    name@,
                    i as int,
                ),
            decreases mlen - i,
        {
            if self.ifaces[id].methods[i].name == *name {
                match &self.ifaces[id].methods[i].handler {
                    Some(_) => {},
                    None => {
                        // Checked out elsewhere: indistinguishable from
                        // absence, and the registry is left as found.
                        return Err(MethodErr::no_method(name));
                    },
                }
                let mut taken: Option<H> = None;
                core::mem::swap(&mut taken, &mut self.ifaces[id].methods[i].handler);
                match taken {
                    Some(h) => {
                        return Ok(h);
                    },
                    None => {
                        return vstd::pervasive::unreached();
                    },
                }
            }
            i += 1;
        }
        Err(MethodErr::no_method(name))
    }

    /// Returns a checked-out handler to its slot. Tolerates the slot or
    /// the interface having been deleted or replaced while the handler ran:
    /// the return is then silently discarded rather than an error.
    pub fn give_method(&mut self, id: usize, name: &String, handler: H)
        ensures
            ({
                let m = method_idx(old(self).ifaces@[id as int].methods@, name@);
                if old(self).has_method(id as int, name@) && old(self).ifaces@[id as int].methods@[m].handler is None {
                    is_after_give(*old(self), *final (self), id as int, name@, handler)
                } else {
                    *final (self) == *old(self)
                }
            }),
    {
        if id >= self.ifaces.len() {
            return ;
        }
        proof {
            lemma_method_idx_from(self.ifaces@[id as int].methods@, name@, 0);
        }
        let mlen = self.ifaces[id].methods.len();
        let mut i: usize = 0;
        while i < mlen
            invariant
                *self == *old(self),
                id < self.ifaces@.len(),
                mlen == self.ifaces@[id as int].methods@.len(),
                i <= mlen,
                method_idx(self.ifaces@[id as int].methods@, name@) == method_idx_from(
                    self.ifaces@[id as int].methods@,
                    name@,
                    i as int,
                ),
            decreases mlen - i,
        {
            if self.ifaces[id].methods[i].name == *name {
                match &self.ifaces[id].methods[i].handler {
                    Some(_) => {
                        // Replaced while checked out: discard the return.
                        return ;
                    },
                    None => {},
                }
                self.ifaces[id].methods[i].handler = Some(handler);
                return ;
            }
            i += 1;
        }
    }
}

/// Holds when `post` is `pre` with `handler` put back into the empty slot
/// of (`id`, `name`), everything else untouched.
pub open spec fn is_after_give<H>(
    pre: Registry<H>,
    post: Registry<H>,
    id: int,
    name: Seq<char>,
    handler: H,
) -> bool {
    let m = method_idx(pre.ifaces@[id].methods@, name);
    &&& post.ifaces@.len() == pre.ifaces@.len()
    &&& 0 <= id < pre.ifaces@.len()
    &&& 0 <= m < pre.ifaces@[id].methods@.len()
    &&& forall|j: int| 0 <= j < pre.ifaces@.len() && j != id ==> post.ifaces@[j] == pre.ifaces@[j]
    &&& post.ifaces@[id].name == pre.ifaces@[id].name
    &&& post.ifaces@[id].props == pre.ifaces@[id].props
    &&& post.ifaces@[id].methods@ == pre.ifaces@[id].methods@.update(
        m,
        MethodDesc { name: pre.ifaces@[id].methods@[m].name, handler: Some(handler) },
    )
}

/// The first position in the candidate list whose id is registered under
/// `name`, scanning from `i`; -1 if there is none.
pub open spec fn named_candidate_from<H>(
    reg: &Registry<H>,
    cands: Seq<usize>,
    name: Seq<char>,
    i: int,
) -> int
    decreases cands.len() - i when 0 <= i <= cands.len()
{
    if i >= cands.len() {
        -1
    } else if cands[i] < reg.ifaces@.len() && (reg.ifaces@[cands[i] as int].name matches Some(n)
        && n@ == name) {
        i
    } else {
        named_candidate_from(reg, cands, name, i + 1)
    }
}

/// The first position in the candidate list whose id is registered under
/// `name`, or -1.
pub open spec fn first_named_candidate<H>(reg: &Registry<H>, cands: Seq<usize>, name: Seq<char>) -> int {
    named_candidate_from(reg, cands, name, 0)
}

} // verus!
