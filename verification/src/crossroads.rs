use vstd::prelude::*;
use crate::context::Context;
use crate::error::{ErrKind, MethodErr, is_err_reply_for};
use crate::message::{Message, MessageKind, Sender};
use crate::order::{lemma_lex_irreflexive, lemma_lex_transitive, lemma_lex_trichotomy, lex_lt, str_lt};
use crate::registry::{IfaceDesc, MethodDesc, Registry, first_named_candidate};

verus! {

/// The two reserved interface ids, always present.
pub const INTROSPECTABLE: usize = 0;

pub const PROPERTIES: usize = 1;

/// An opaque handle binding an interface id to a payload type. The type is
/// stood for by a tag fixed when the interface is registered; a token only
/// associates or retrieves payload whose tag matches, so a mismatching
/// access is rejected rather than undefined.
#[derive(Clone, Copy, PartialEq, Eq, Structural, Debug)]
pub struct IfaceToken {
    pub id: usize,
    pub tag: u64,
}

/// One registered object: its assigned interface ids (kept without
/// duplicates) and exactly one owned payload, tagged with its type.
pub struct Object<V> {
    pub ifaces: Vec<usize>,
    pub tag: u64,
    pub data: V,
}

/// A method handler, invoked with the call's Context and with mutable
/// access to the whole dispatcher, so that it may read or mutate any
/// object, register interfaces, or route another call recursively. It
/// returns the Context when the reply is to be flushed now, or nothing when
/// reply delivery has been deferred out of band.
pub trait Handler<V>: Sized {
    fn call(&mut self, ctx: Context, cr: &mut Crossroads<Self, V>) -> Option<Context>;
}

/// The dispatcher: owns the object table and the interface registry,
/// exposes registration and insertion, and orchestrates one full
/// request/response cycle per call.
pub struct Crossroads<H, V> {
    /// The object table: path to object, keys strictly sorted (see `wf`).
    pub map: Vec<(String, Object<V>)>,
    pub registry: Registry<H>,
    pub add_standard_ifaces: bool,
}

/// The first index at or after `i` of the entry keyed `path`, or -1.
pub open spec fn key_idx_from<V>(entries: Seq<(String, Object<V>)>, path: Seq<char>, i: int) -> int
    decreases entries.len() - i when 0 <= i <= entries.len()
{
    if i >= entries.len() {
        -1
    } else if entries[i].0@ == path {
        i
    } else {
        key_idx_from(entries, path, i + 1)
    }
}

/// The index of the entry keyed `path`, or -1 if the path is unregistered.
pub open spec fn key_idx<V>(entries: Seq<(String, Object<V>)>, path: Seq<char>) -> int {
    key_idx_from(entries, path, 0)
}

/// What `key_idx_from` finds is a match, and nothing before it is.
pub proof fn lemma_key_idx_from<V>(entries: Seq<(String, Object<V>)>, path: Seq<char>, i: int)
    requires
        0 <= i <= entries.len(),
    ensures
        ({
            let r = key_idx_from(entries, path, i);
            ||| r == -1 && (forall|j: int| i <= j < entries.len() ==> entries[j].0@ != path)
            ||| (i <= r < entries.len() && entries[r].0@ == path && (forall|j: int|
                i <= j < r ==> entries[j].0@ != path))
        }),
    decreases entries.len() - i,
{
    if i < entries.len() && entries[i].0@ != path {
        lemma_key_idx_from(entries, path, i + 1);
    }
}

/// No id occurs twice.
pub open spec fn distinct_ids(s: Seq<usize>) -> bool {
    forall|i: int, j: int| 0 <= i < j < s.len() ==> s[i] != s[j]
}

/// Holds when `key` addresses a strict descendant of `path`: `path`
/// followed immediately by the path separator. The object table is
/// inspected entry by entry for this relation, so no assumption about how
/// the separator collates against other path characters is needed.
pub open spec fn is_strict_descendant(key: Seq<char>, path: Seq<char>) -> bool {
    &&& key.len() > path.len()
    &&& key.subrange(0, path.len() as int) == path
    &&& key[path.len() as int] == '/'
}

/// The remainders, in table order, of every key that strictly descends
/// from `path`: what stands after the separator that follows the prefix.
/// A remainder may itself contain further separators for deeper
/// descendants; reducing it to an immediate-child name is the caller's
/// business.
pub open spec fn children_of<V>(entries: Seq<(String, Object<V>)>, path: Seq<char>) -> Seq<
    Seq<char>,
>
    decreases entries.len(),
{
    if entries.len() == 0 {
        Seq::<Seq<char>>::empty()
    } else {
        children_of(entries.drop_last(), path) + (if is_strict_descendant(
            entries.last().0@,
            path,
        ) {
            seq![entries.last().0@.skip(path.len() as int + 1)]
        } else {
            Seq::<Seq<char>>::empty()
        })
    }
}

/// The sorted position for a new key `path`: the first index at or after
/// `i` whose key does not sort below it, or the table's end.
pub open spec fn insert_pos_from<V>(entries: Seq<(String, Object<V>)>, path: Seq<char>, i: int) -> int
    decreases entries.len() - i when 0 <= i <= entries.len()
{
    if i >= entries.len() {
        i
    } else if lex_lt(entries[i].0@, path) {
        insert_pos_from(entries, path, i + 1)
    } else {
        i
    }
}

/// The sorted position for a new key `path`.
pub open spec fn insert_pos<V>(entries: Seq<(String, Object<V>)>, path: Seq<char>) -> int {
    insert_pos_from(entries, path, 0)
}

/// Two strict descendants of one path compare as their remainders do: the
/// keys share the prefix `path` plus the separator.
proof fn lemma_descendant_suffix_order(a: Seq<char>, b: Seq<char>, path: Seq<char>)
    requires
        is_strict_descendant(a, path),
        is_strict_descendant(b, path),
    ensures
        lex_lt(a, b) == lex_lt(a.skip(path.len() as int + 1), b.skip(path.len() as int + 1)),
{
    let k = path.len() as int + 1;
    assert(a.subrange(0, k) =~= b.subrange(0, k)) by {
        assert forall|i: int| 0 <= i < k implies a[i] == b[i] by {
            if i < k - 1 {
                assert(a.subrange(0, k - 1)[i] == path[i]);
                assert(b.subrange(0, k - 1)[i] == path[i]);
            }
        }
    }
    crate::order::lemma_lex_skip_common(a, b, k);
}

/// In a table whose every key sorts below the descendant key `key`, every
/// listed remainder sorts below `key`'s own remainder.
proof fn lemma_children_below<V>(entries: Seq<(String, Object<V>)>, path: Seq<char>, key: Seq<char>)
    requires
        forall|t: int| 0 <= t < entries.len() ==> lex_lt((#[trigger] entries[t]).0@, key),
        is_strict_descendant(key, path),
    ensures
        forall|w: int|
            0 <= w < children_of(entries, path).len() ==> lex_lt(
                #[trigger] children_of(entries, path)[w],
                key.skip(path.len() as int + 1),
            ),
    decreases entries.len(),
{
    if entries.len() > 0 {
        lemma_children_below(entries.drop_last(), path, key);
        let front = children_of(entries.drop_last(), path);
        if is_strict_descendant(entries.last().0@, path) {
            assert(lex_lt(entries[entries.len() - 1].0@, key));
            lemma_descendant_suffix_order(entries.last().0@, key, path);
        }
        assert forall|w: int| 0 <= w < children_of(entries, path).len() implies lex_lt(
            #[trigger] children_of(entries, path)[w],
            key.skip(path.len() as int + 1),
        ) by {
            if w < front.len() {
                assert(children_of(entries, path)[w] == front[w]);
            } else {
                assert(children_of(entries, path)[w] == entries.last().0@.skip(
                    path.len() as int + 1,
                ));
            }
        }
    }
}

/// In a table with strictly ascending keys, the descendant listing is
/// strictly ascending too: one entry per strict descendant, in key order.
pub proof fn lemma_children_ascending<V>(entries: Seq<(String, Object<V>)>, path: Seq<char>)
    requires
        forall|i: int, j: int|
            0 <= i < j < entries.len() ==> lex_lt(
                (#[trigger] entries[i]).0@,
                (#[trigger] entries[j]).0@,
            ),
    ensures
        forall|i: int, j: int|
            0 <= i < j < children_of(entries, path).len() ==> lex_lt(
                #[trigger] children_of(entries, path)[i],
                #[trigger] children_of(entries, path)[j],
            ),
    decreases entries.len(),
{
    if entries.len() > 0 {
        let front = entries.drop_last();
        lemma_children_ascending(front, path);
        if is_strict_descendant(entries.last().0@, path) {
            assert(forall|t: int| 0 <= t < front.len() ==> lex_lt(
                (#[trigger] front[t]).0@,
                entries.last().0@,
            ));
            lemma_children_below(front, path, entries.last().0@);
            assert forall|i: int, j: int|
                0 <= i < j < children_of(entries, path).len() implies lex_lt(
                #[trigger] children_of(entries, path)[i],
                #[trigger] children_of(entries, path)[j],
            ) by {
                let cf = children_of(front, path);
                if j < cf.len() {
                    assert(children_of(entries, path)[i] == cf[i]);
                    assert(children_of(entries, path)[j] == cf[j]);
                } else {
                    assert(children_of(entries, path)[i] == cf[i]);
                    assert(children_of(entries, path)[j] == entries.last().0@.skip(
                        path.len() as int + 1,
                    ));
                }
            }
        }
    }
}

impl<H, V> Crossroads<H, V> {
    /// The object table's keys are strictly sorted in lexicographic order,
    /// and therefore unique; descendant listings come out in ascending key
    /// order.
    pub open spec fn wf(&self) -> bool {
        forall|i: int, j: int|
            0 <= i < j < self.map@.len() ==> lex_lt(
                #[trigger] self.map@[i].0@,
                #[trigger] self.map@[j].0@,
            )
    }

    /// True when an object is registered at `path`.
    pub open spec fn has_path(&self, path: Seq<char>) -> bool {
        key_idx(self.map@, path) >= 0
    }

    /// The single governing interface id for (`path`, optional interface
    /// name), or the error kind an addressing failure reports: no such
    /// path; unknown interface when the given name is not among the
    /// object's candidates; unknown method when the name was omitted
    /// ambiguously.
    pub open spec fn resolve_iface(&self, path: Seq<char>, interface: Option<Seq<char>>) -> Result<
        usize,
        ErrKind,
    > {
        let k = key_idx(self.map@, path);
        if k < 0 {
            Err(ErrKind::NoSuchPath)
        } else {
            let cands = self.map@[k].1.ifaces@;
            match interface {
                Some(n) => {
                    let c = first_named_candidate(&self.registry, cands, n);
                    if c >= 0 {
                        Ok(cands[c])
                    } else {
                        Err(ErrKind::UnknownInterface)
                    }
                },
                None => {
                    if cands.len() == 1 {
                        Ok(cands[0])
                    } else {
                        Err(ErrKind::UnknownMethod)
                    }
                },
            }
        }
    }

    /// Builds a dispatcher with an empty object table. The two built-in
    /// standard interfaces are supplied by the caller (their default
    /// bodies are an external collaborator) and take the two reserved ids;
    /// automatic standard-interface inclusion starts enabled.
    pub fn new(introspectable_iface: IfaceDesc<H>, properties_iface: IfaceDesc<H>) -> (cr: Self)
        ensures
            cr.map@ == Seq::<(String, Object<V>)>::empty(),
            cr.registry.ifaces@ == seq![introspectable_iface, properties_iface],
            cr.add_standard_ifaces,
            cr.wf(),
    {
        let mut registry: Registry<H> = Registry::new();
        let t0 = registry.push(introspectable_iface);
        let t1 = registry.push(properties_iface);
        proof {
            assert(t0 == INTROSPECTABLE && t1 == PROPERTIES);
            assert(registry.ifaces@ =~= seq![introspectable_iface, properties_iface]);
        }
        Crossroads { map: Vec::new(), registry, add_standard_ifaces: true }
    }

    /// Enables or disables automatic standard-interface inclusion at
    /// insertion time.
    pub fn set_add_standard_ifaces(&mut self, enable: bool)
        ensures
            *final (self) == (Crossroads { add_standard_ifaces: enable, ..*old(self) }),
    {
        self.add_standard_ifaces = enable;
    }

    /// Registers an interface under `name` with the given methods and
    /// property names, and returns a token binding the freshly allocated
    /// id to the payload tag `tag`.
    pub fn register(&mut self, name: String, methods: Vec<MethodDesc<H>>, props: Vec<String>, tag:
        u64) -> (t: IfaceToken)
        ensures
            t.id == old(self).registry.ifaces@.len(),
            t.tag == tag,
            final (self).registry.ifaces@ == old(self).registry.ifaces@.push(
                IfaceDesc { name: Some(name), methods: methods, props: props },
            ),
            final (self).map == old(self).map,
            final (self).add_standard_ifaces == old(self).add_standard_ifaces,
    {
        let id = self.registry.push(IfaceDesc { name: Some(name), methods, props });
        IfaceToken { id, tag }
    }

    /// Typed access to the payload at `name`: a mutable reference when an
    /// object is registered there and its payload tag matches `tag`, and
    /// nothing otherwise. A mismatch is a defensive, non-failing query, not
    /// an error: callers may hold a token for a type the object no longer
    /// uses.
    pub fn data_mut(&mut self, name: &String, tag: u64) -> (r: Option<&mut V>)
        ensures
            ({
                let k = key_idx(old(self).map@, name@);
                match r {
                    Some(d) => {
                        &&& k >= 0
                        &&& old(self).map@[k].1.tag == tag
                        &&& *d == old(self).map@[k].1.data
                        &&& final (self).map@ == old(self).map@.update(
                            k,
                            (
                                old(self).map@[k].0,
                                Object {
                                    ifaces: old(self).map@[k].1.ifaces,
                                    tag: old(self).map@[k].1.tag,
                                    data: *final (d),
                                },
                            ),
                        )
                        &&& final (self).registry == old(self).registry
                        &&& final (self).add_standard_ifaces == old(self).add_standard_ifaces
                    },
                    None => {
                        &&& *final (self) == *old(self)
                        &&& !(k >= 0 && old(self).map@[k].1.tag == tag)
                    },
                }
            }),
    {
        proof {
            lemma_key_idx_from(self.map@, name@, 0);
        }
        let n = self.map.len();
        let mut i: usize = 0;
        while i < n
            invariant
                *self == *old(self),
                n == self.map@.len(),
                i <= n,
                key_idx(self.map@, name@) == key_idx_from(self.map@, name@, i as int),
            decreases n - i,
        {
            if self.map[i].0 == *name {
                if self.map[i].1.tag == tag {
                    let entry = &mut self.map[i];
                    return Some(&mut entry.1.data);
                } else {
                    return None;
                }
            }
            i += 1;
        }
        None
    }

    /// Inserts an object at `name` holding payload `data` tagged `tag` and
    /// exactly the interface set named by the tokens — auto-augmented, when
    /// standard-interface inclusion is enabled, with Introspectable always
    /// and with Properties iff some assigned interface declares a property.
    /// Any prior object at that path is replaced wholesale: its interface
    /// set and payload are discarded.
    pub fn insert(&mut self, name: String, ifaces: &Vec<IfaceToken>, tag: u64, data: V)
        requires
            forall|i: int| 0 <= i < ifaces@.len() ==> ifaces@[i].tag == tag,
            old(self).wf(),
        ensures
            final (self).wf(),
            final (self).registry == old(self).registry,
            final (self).add_standard_ifaces == old(self).add_standard_ifaces,
            ({
                let k = key_idx(old(self).map@, name@);
                let pos = insert_pos(old(self).map@, name@);
                let obj = if k >= 0 {
                    final (self).map@[k].1
                } else {
                    final (self).map@[pos].1
                };
                &&& if k >= 0 {
                    final (self).map@ == old(self).map@.update(k, (old(self).map@[k].0, obj))
                } else {
                    final (self).map@ == old(self).map@.insert(pos, (name, obj))
                }
                &&& obj.tag == tag
                &&& obj.data == data
                &&& distinct_ids(obj.ifaces@)
                &&& forall|id: usize|
                    obj.ifaces@.contains(id) <==> (tokens_contain(ifaces@, id) || (old(
                        self,
                    ).add_standard_ifaces && id == INTROSPECTABLE) || (old(
                        self,
                    ).add_standard_ifaces && id == PROPERTIES && wants_properties(
                        &old(self).registry,
                        ifaces@,
                    )))
            }),
    {
        broadcast use vstd::seq_lib::lemma_seq_contains_after_push;

        let mut ids: Vec<usize> = Vec::new();
        let mut i: usize = 0;
        while i < ifaces.len()
            invariant
                i <= ifaces@.len(),
                distinct_ids(ids@),
                forall|id: usize| #[trigger]
                    ids@.contains(id) <==> tokens_contain(ifaces@.take(i as int), id),
            decreases ifaces@.len() - i,
        {
            let id = ifaces[i].id;
            let ghost pre = ids@;
            let present = contains_id(&ids, id);
            if !present {
                ids.push(id);
            }
            proof {
                assert(ifaces@[i as int].id == id);
                assert(tokens_contain(ifaces@.take(i + 1), id)) by {
                    assert(ifaces@.take(i + 1)[i as int].id == id);
                }
                assert forall|x: usize| #[trigger]
                    ids@.contains(x) <==> tokens_contain(ifaces@.take(i + 1), x) by {
                    lemma_tokens_take_step(ifaces@, i as int, x);
                    assert(pre.contains(x) <==> tokens_contain(ifaces@.take(i as int), x));
                    if !present {
                        vstd::seq_lib::lemma_seq_contains_after_push(pre, id, x);
                    }
                }
                assert(distinct_ids(ids@));
            }
            i += 1;
        }
        proof {
            assert(ifaces@.take(ifaces@.len() as int) =~= ifaces@);
        }
        if self.add_standard_ifaces {
            let ghost tok_ids = ids@;
            if !contains_id(&ids, INTROSPECTABLE) {
                ids.push(INTROSPECTABLE);
            }
            proof {
                assert(ids@.contains(INTROSPECTABLE));
                assert(forall|x: usize| #[trigger]
                    ids@.contains(x) <==> (tokens_contain(ifaces@, x) || x == INTROSPECTABLE));
                assert(distinct_ids(ids@));
            }
            let mut want_props = false;
            let mut j: usize = 0;
            while j < ids.len()
                invariant
                    ids@.len() >= 1,
                    j <= ids@.len(),
                    forall|x: usize| #[trigger]
                        ids@.contains(x) <==> (tokens_contain(ifaces@, x) || x == INTROSPECTABLE),
                    distinct_ids(ids@),
                    !want_props ==> forall|w: int|
                        0 <= w < j ==> !reg_has_props(&self.registry, ids@[w] as int),
                    want_props ==> wants_properties(&self.registry, ifaces@),
                decreases ids@.len() - j,
            {
                if self.registry.has_props(ids[j]) {
                    want_props = true;
                    proof {
                        let ghost xv = ids@[j as int];
                        assert(ids@.contains(xv));
                        if xv == INTROSPECTABLE {
                            assert(wants_properties(&self.registry, ifaces@));
                        } else {
                            let v = choose|v: int|
                                0 <= v < ifaces@.len() && (#[trigger] ifaces@[v]).id == xv;
                            assert(reg_has_props(&self.registry, ifaces@[v].id as int));
                            assert(wants_properties(&self.registry, ifaces@));
                        }
                    }
                }
                j += 1;
            }
            proof {
                if !want_props && wants_properties(&self.registry, ifaces@) {
                    if exists|v: int|
                        0 <= v < ifaces@.len() && reg_has_props(
                            &self.registry,
                            (#[trigger] ifaces@[v]).id as int,
                        ) {
                        let v = choose|v: int|
                            0 <= v < ifaces@.len() && reg_has_props(
                                &self.registry,
                                (#[trigger] ifaces@[v]).id as int,
                            );
                        let xv = ifaces@[v].id;
                        assert(tokens_contain(ifaces@, xv));
                        assert(ids@.contains(xv));
                        let w = ids@.lemma_contains_to_index(xv);
                        assert(false);
                    } else {
                        assert(reg_has_props(&self.registry, INTROSPECTABLE as int));
                        let w = ids@.lemma_contains_to_index(INTROSPECTABLE);
                        assert(false);
                    }
                }
                assert(want_props == wants_properties(&self.registry, ifaces@));
            }
            let ghost with0 = ids@;
            if want_props {
                if !contains_id(&ids, PROPERTIES) {
                    ids.push(PROPERTIES);
                }
                proof {
                    assert(ids@.contains(PROPERTIES));
                }
            }
            proof {
                assert(forall|x: usize| #[trigger]
                    ids@.contains(x) <==> (tokens_contain(ifaces@, x) || x == INTROSPECTABLE || (x
                        == PROPERTIES && wants_properties(&self.registry, ifaces@))));
                assert(distinct_ids(ids@));
            }
        }
        let obj = Object { ifaces: ids, tag, data };
        let n = self.map.len();
        let mut p: usize = 0;
        while p < n
            invariant
                *self == *old(self),
                old(self).wf(),
                n == self.map@.len(),
                p <= n,
                key_idx(self.map@, name@) == key_idx_from(self.map@, name@, p as int),
                insert_pos(self.map@, name@) == insert_pos_from(self.map@, name@, p as int),
                forall|j: int| 0 <= j < p ==> lex_lt(#[trigger] self.map@[j].0@, name@),
                obj.tag == tag,
                obj.data == data,
                distinct_ids(obj.ifaces@),
                forall|id: usize| #[trigger]
                    obj.ifaces@.contains(id) <==> (tokens_contain(ifaces@, id) || (old(
                        self,
                    ).add_standard_ifaces && id == INTROSPECTABLE) || (old(
                        self,
                    ).add_standard_ifaces && id == PROPERTIES && wants_properties(
                        &old(self).registry,
                        ifaces@,
                    ))),
            decreases n - p,
        {
            if self.map[p].0 == name {
                self.map[p].1 = obj;
                return ;
            }
            if !str_lt(self.map[p].0.as_str(), name.as_str()) {
                // The key is absent and this is its sorted position.
                let ghost pre = self.map@;
                let ghost pos = p as int;
                proof {
                    lemma_lex_trichotomy(pre[pos].0@, name@);
                    assert(lex_lt(name@, pre[pos].0@));
                    assert forall|j: int| pos < j < n implies lex_lt(
                        name@,
                        (#[trigger] pre[j]).0@,
                    ) by {
                        assert(lex_lt(pre[pos].0@, pre[j].0@));
                        lemma_lex_transitive(name@, pre[pos].0@, pre[j].0@);
                    }
                    assert forall|j: int| 0 <= j < n implies (#[trigger] pre[j]).0@ != name@ by {
                        lemma_lex_irreflexive(name@);
                        if j < pos {
                            assert(lex_lt(pre[j].0@, name@));
                        }
                    }
                    lemma_key_idx_from(pre, name@, pos + 1);
                    assert(key_idx(pre, name@) == -1);
                    assert(insert_pos(pre, name@) == pos);
                }
                self.map.insert(p, (name, obj));
                proof {
                    pre.insert_ensures(pos, (name, obj));
                    assert forall|i: int, j: int|
                        0 <= i < j < self.map@.len() implies lex_lt(
                        (#[trigger] self.map@[i]).0@,
                        (#[trigger] self.map@[j]).0@,
                    ) by {
                        if j < pos {
                            assert(lex_lt(pre[i].0@, pre[j].0@));
                        } else if j == pos {
                            assert(lex_lt(pre[i].0@, name@));
                        } else if i < pos {
                            assert(lex_lt(pre[i].0@, pre[j - 1].0@));
                        } else if i == pos {
                            assert(lex_lt(name@, pre[j - 1].0@));
                        } else {
                            assert(lex_lt(pre[i - 1].0@, pre[j - 1].0@));
                        }
                    }
                }
                return ;
            }
            p += 1;
        }
        // Every key sorts below the new one: it goes at the end.
        let ghost pre = self.map@;
        proof {
            lemma_lex_irreflexive(name@);
            assert(key_idx(pre, name@) == -1);
            assert(insert_pos(pre, name@) == n as int);
        }
        self.map.push((name, obj));
        proof {
            assert(self.map@ =~= pre.insert(n as int, (name, obj)));
            assert forall|i: int, j: int|
                0 <= i < j < self.map@.len() implies lex_lt(
                (#[trigger] self.map@[i]).0@,
                (#[trigger] self.map@[j]).0@,
            ) by {
                if j < n {
                    assert(lex_lt(pre[i].0@, pre[j].0@));
                } else {
                    assert(lex_lt(pre[i].0@, name@));
                }
            }
        }
    }

    /// Resolves the governing interface id for (`path`, optional interface
    /// name), failing with the distinct "no such path" condition when the
    /// path is unregistered, and otherwise as the registry picks from the
    /// object's interface set.
    pub fn find_iface_token(&self, path: &String, interface: Option<&String>) -> (r: Result<
        usize,
        MethodErr,
    >)
        ensures
            ({
                let iv = match interface {
                    Some(n) => Some(n@),
                    None => None,
                };
                match r {
                    Ok(id) => self.resolve_iface(path@, iv) == Ok::<usize, ErrKind>(id),
                    Err(e) => self.resolve_iface(path@, iv) == Err::<usize, ErrKind>(e.kind),
                }
            }),
    {
        proof {
            lemma_key_idx_from(self.map@, path@, 0);
        }
        let n = self.map.len();
        let mut i: usize = 0;
        while i < n
            invariant
                n == self.map@.len(),
                i <= n,
                key_idx(self.map@, path@) == key_idx_from(self.map@, path@, i as int),
            decreases n - i,
        {
            if self.map[i].0 == *path {
                return self.registry.find_token(interface, &self.map[i].1.ifaces);
            }
            i += 1;
        }
        Err(MethodErr::no_path(path))
    }

    /// Mutable access to the interface registry.
    pub fn registry(&mut self) -> (r: &mut Registry<H>)
        ensures
            *r == old(self).registry,
            *final (self) == (Crossroads { registry: *final (r), ..*old(self) }),
    {
        &mut self.registry
    }

    /// The registry together with the interface set of the object at
    /// `path`; only valid for a registered path.
    pub fn registry_and_ifaces(&self, path: &String) -> (r: (&Registry<H>, &Vec<usize>))
        requires
            self.has_path(path@),
        ensures
            *r.0 == self.registry,
            *r.1 == self.map@[key_idx(self.map@, path@)].1.ifaces,
    {
        proof {
            lemma_key_idx_from(self.map@, path@, 0);
        }
        let n = self.map.len();
        let mut i: usize = 0;
        while i < n
            invariant
                self.has_path(path@),
                n == self.map@.len(),
                i <= n,
                key_idx(self.map@, path@) == key_idx_from(self.map@, path@, i as int),
            decreases n - i,
        {
            if self.map[i].0 == *path {
                return (&self.registry, &self.map[i].1.ifaces);
            }
            i += 1;
        }
        vstd::pervasive::unreached()
    }

    /// Lists the remainders of every key in the object table that strictly
    /// descends from `path` (the key is `path`, then the separator, then
    /// the remainder), in table order. Remainders of deeper descendants
    /// keep their further separators; the caller reduces them to immediate
    /// children if that is what it needs.
    pub fn get_children(&self, path: &String) -> (r: Vec<String>)
        ensures
            r@.map_values(|s: String| s@) == children_of(self.map@, path@),
            self.wf() ==> forall|i: int, j: int|
                0 <= i < j < r@.len() ==> lex_lt(#[trigger] r@[i]@, #[trigger] r@[j]@),
    {
        let mut out: Vec<String> = Vec::new();
        let n = self.map.len();
        let mut i: usize = 0;
        while i < n
            invariant
                n == self.map@.len(),
                i <= n,
                out@.map_values(|s: String| s@) == children_of(
                    self.map@.take(i as int),
                    path@,
                ),
            decreases n - i,
        {
            let ghost prefix = self.map@.take(i as int);
            let key = &self.map[i].0;
            if is_descendant_key(key, path) {
                let plen = path.as_str().unicode_len();
                let klen = key.as_str().unicode_len();
                let suffix = key.as_str().substring_char(plen + 1, klen).to_owned();
                out.push(suffix);
            }
            proof {
                assert(self.map@.take(i + 1).drop_last() =~= prefix);
                assert(self.map@.take(i + 1).last() == self.map@[i as int]);
                assert(out@.map_values(|s: String| s@) =~= children_of(
                    self.map@.take(i + 1),
                    path@,
                ));
            }
            i += 1;
        }
        proof {
            assert(self.map@.take(n as int) =~= self.map@);
            if self.wf() {
                lemma_children_ascending(self.map@, path@);
                assert forall|i: int, j: int| 0 <= i < j < out@.len() implies lex_lt(
                    #[trigger] out@[i]@,
                    #[trigger] out@[j]@,
                ) by {
                    assert(out@.map_values(|s: String| s@)[i] == out@[i]@);
                    assert(out@.map_values(|s: String| s@)[j] == out@[j]@);
                }
            }
        }
        out
    }

    /// A token for the built-in Introspectable interface, usable with any
    /// payload tag: the built-ins store no per-object state of their own.
    pub fn introspectable(&self, tag: u64) -> (t: IfaceToken)
        ensures
            t == (IfaceToken { id: INTROSPECTABLE, tag }),
    {
        IfaceToken { id: INTROSPECTABLE, tag }
    }

    /// A token for the built-in Properties interface, usable with any
    /// payload tag.
    pub fn properties(&self, tag: u64) -> (t: IfaceToken)
        ensures
            t == (IfaceToken { id: PROPERTIES, tag }),
    {
        IfaceToken { id: PROPERTIES, tag }
    }
}

impl<H: Handler<V>, V> Crossroads<H, V> {
    /// Services one inbound message: builds the Context, resolves the
    /// governing interface and checks the method's handler out, runs the
    /// handler with mutable access to this dispatcher, gives the handler
    /// back whatever the handler did, and flushes the reply and queued
    /// messages — or, on an addressing failure, flushes the staged error
    /// reply, the dispatcher left exactly as it was. A message that is not
    /// a routable method call is dropped silently, and a call that asked
    /// for no reply has nothing at all sent for it, whatever the handler
    /// did. Whatever happens, the transport's record only grows.
    pub fn handle_message<S: Sender>(&mut self, message: Message, conn: &mut S) -> (r: Result<
        (),
        (),
    >)
        ensures
            exists|s: Seq<Message>| final (conn).sent() == old(conn).sent() + s,
            final (conn).infallible() == old(conn).infallible(),
            message.no_reply ==> final (conn).sent() == old(conn).sent(),
            (message.kind == MessageKind::MethodCall && message.path is Some
                && message.member is Some && old(conn).infallible()) ==> r is Ok,
            (message.kind == MessageKind::MethodCall && message.path is Some
                && message.member is Some && message.no_reply) ==> r is Ok,
            !(message.kind == MessageKind::MethodCall && message.path is Some
                && message.member is Some) ==> {
                &&& r is Err
                &&& *final (self) == *old(self)
                &&& final (conn).sent() == old(conn).sent()
            },
            ({
                let iv = match message.interface {
                    Some(n) => Some(n@),
                    None => None,
                };
                let resolved = old(self).resolve_iface(message.path.unwrap()@, iv);
                let failure = match resolved {
                    Err(k) => Some(k),
                    Ok(id) => if old(self).registry.method_available(
                        id as int,
                        message.member.unwrap()@,
                    ) {
                        None
                    } else {
                        Some(ErrKind::UnknownMethod)
                    },
                };
                (message.kind == MessageKind::MethodCall && message.path is Some
                    && message.member is Some && failure is Some) ==> {
                    &&& *final (self) == *old(self)
                    &&& if message.no_reply {
                        final (conn).sent() == old(conn).sent() && r is Ok
                    } else {
                        &&& r is Ok ==> exists|m: Message, e: MethodErr|
                            final (conn).sent() == old(conn).sent().push(m) && #[trigger] is_err_reply_for(
                                m,
                                e,
                                message,
                            ) && e.kind == failure.unwrap()
                        &&& r is Err ==> final (conn).sent() == old(conn).sent()
                    }
                }
            }),
    {
        proof {
            assert(conn.sent() + Seq::<Message>::empty() =~= conn.sent());
        }
        let suppress = message.get_no_reply();
        let ctx0 = Context::new(message);
        let mut ctx = match ctx0 {
            Some(c) => c,
            None => { return Err(()); },
        };
        let step: Result<(usize, H), MethodErr> = match self.find_iface_token(
            &ctx.path,
            ctx.interface.as_ref(),
        ) {
            Err(e) => Err(e),
            Ok(itoken) => match self.registry.take_method(itoken, &ctx.method) {
                Err(e) => Err(e),
                Ok(cb) => Ok((itoken, cb)),
            },
        };
        match ctx.check(step) {
            Err(()) => {
                // Addressing failure: nothing was checked out and nothing
                // in the dispatcher changed. Deliver the staged error
                // reply, if one is owed; a no-reply call fails silently.
                if suppress {
                    Ok(())
                } else {
                    ctx.flush_messages(conn)
                }
            },
            Ok((itoken, mut cb)) => {
                // No failure path from here until the handler is given
                // back.
                let methodname = ctx.method.clone();
                let rctx = cb.call(ctx, self);
                self.registry.give_method(itoken, &methodname, cb);
                proof {
                    assert(conn.sent() + Seq::<Message>::empty() =~= conn.sent());
                }
                match rctx {
                    Some(mut c2) => {
                        if suppress {
                            // Nothing at all is sent for a no-reply call,
                            // not even handler-queued extras.
                            Ok(())
                        } else {
                            c2.flush_messages(conn)
                        }
                    },
                    None => Ok(()),
                }
            },
        }
    }
}

/// True when some token in the list carries interface id `id`.
pub open spec fn tokens_contain(toks: Seq<IfaceToken>, id: usize) -> bool {
    exists|i: int| 0 <= i < toks.len() && (#[trigger] toks[i]).id == id
}

/// Extending a token prefix by one element extends what it contains by
/// exactly that element's id.
proof fn lemma_tokens_take_step(toks: Seq<IfaceToken>, i: int, x: usize)
    requires
        0 <= i < toks.len(),
    ensures
        tokens_contain(toks.take(i + 1), x) <==> (tokens_contain(toks.take(i), x) || toks[i].id
            == x),
{
    if tokens_contain(toks.take(i), x) {
        let w = choose|w: int| 0 <= w < toks.take(i).len() && (#[trigger] toks.take(i)[w]).id == x;
        assert(toks.take(i + 1)[w].id == x);
    }
    if toks[i].id == x {
        assert(toks.take(i + 1)[i].id == x);
    }
    if tokens_contain(toks.take(i + 1), x) {
        let w = choose|w: int|
            0 <= w < toks.take(i + 1).len() && (#[trigger] toks.take(i + 1)[w]).id == x;
        if w < i {
            assert(toks.take(i)[w].id == x);
        } else {
            assert(toks[i].id == x);
        }
    }
}

/// True when interface `id` is registered and declares a property.
pub open spec fn reg_has_props<H>(reg: &Registry<H>, id: int) -> bool {
    0 <= id < reg.ifaces@.len() && reg.ifaces@[id].props@.len() > 0
}

/// True when some interface assigned at insertion — a token's, or the
/// always-included Introspectable — declares a property, so that the
/// built-in Properties interface is to be included too.
pub open spec fn wants_properties<H>(reg: &Registry<H>, toks: Seq<IfaceToken>) -> bool {
    ||| exists|i: int| 0 <= i < toks.len() && reg_has_props(reg, (#[trigger] toks[i]).id as int)
    ||| reg_has_props(reg, INTROSPECTABLE as int)
}

/// True when `id` occurs in the list.
fn contains_id(ids: &Vec<usize>, id: usize) -> (r: bool)
    ensures
        r == ids@.contains(id),
{
    let mut i: usize = 0;
    while i < ids.len()
        invariant
            i <= ids@.len(),
            forall|j: int| 0 <= j < i ==> ids@[j] != id,
        decreases ids@.len() - i,
    {
        if ids[i] == id {
            return true;
        }
        i += 1;
    }
    false
}

/// True when `key` addresses a strict descendant of `path`.
fn is_descendant_key(key: &String, path: &String) -> (r: bool)
    ensures
        r == is_strict_descendant(key@, path@),
{
    let klen = key.as_str().unicode_len();
    let plen = path.as_str().unicode_len();
    if klen <= plen {
        return false;
    }
    if key.as_str().get_char(plen) != '/' {
        return false;
    }
    let mut i: usize = 0;
    while i < plen
        invariant
            klen == key@.len(),
            plen == path@.len(),
            plen < klen,
            i <= plen,
            forall|j: int| 0 <= j < i ==> key@[j] == path@[j],
        decreases plen - i,
    {
        if key.as_str().get_char(i) != path.as_str().get_char(i) {
            proof {
                assert(key@.subrange(0, plen as int) != path@) by {
                    if key@.subrange(0, plen as int) == path@ {
                        assert(key@.subrange(0, plen as int)[i as int] == key@[i as int]);
                    }
                }
            }
            return false;
        }
        i += 1;
    }
    proof {
        assert(key@.subrange(0, plen as int) =~= path@);
    }
    true
}

} // verus!
