use vstd::prelude::*;
use crate::context::Context;
use crate::error::MethodErr;
use crate::message::{Arg, Message};
use crate::registry::{
    MethodDesc, Registry, is_after_give, is_after_take, method_idx, method_idx_from, same_registry,
};

verus! {

/// Method lookup goes by names alone, so it is unmoved by a change of
/// checkout state.
proof fn lemma_method_idx_same_names<H>(
    a: Seq<MethodDesc<H>>,
    b: Seq<MethodDesc<H>>,
    name: Seq<char>,
    i: int,
)
    requires
        a.len() == b.len(),
        forall|j: int| 0 <= j < a.len() ==> (#[trigger] a[j]).name@ == b[j].name@,
        0 <= i <= a.len(),
    ensures
        method_idx_from(a, name, i) == method_idx_from(b, name, i),
    decreases a.len() - i,
{
    if i < a.len() {
        lemma_method_idx_same_names(a, b, name, i + 1);
    }
}

/// Checkout exclusivity: while the handler of (`id`, `name`) is checked
/// out, a second checkout of the same pair finds the slot absent and
/// fails. A handler that dispatches a call to its own pair recursively
/// therefore receives "unknown method" instead of reentering itself.
pub proof fn lemma_checkout_exclusive<H>(
    pre: Registry<H>,
    post: Registry<H>,
    id: int,
    name: Seq<char>,
)
    requires
        is_after_take(pre, post, id, name),
    ensures
        !post.method_available(id, name),
        post.has_method(id, name),
{
    let ms_pre = pre.ifaces@[id].methods@;
    let ms_post = post.ifaces@[id].methods@;
    let m = method_idx(ms_pre, name);
    assert(forall|j: int| 0 <= j < ms_pre.len() ==> (#[trigger] ms_pre[j]).name@ == ms_post[j].name@);
    lemma_method_idx_same_names(ms_post, ms_pre, name, 0);
}

/// Checking a handler out and giving the same handler back restores the
/// registry to exactly its prior state, method by method: the checkout
/// protocol never corrupts registry state.
pub proof fn lemma_checkout_round_trip<H>(
    r0: Registry<H>,
    r1: Registry<H>,
    r2: Registry<H>,
    id: int,
    name: Seq<char>,
    h: H,
)
    requires
        is_after_take(r0, r1, id, name),
        Some(h) == r0.ifaces@[id].methods@[method_idx(r0.ifaces@[id].methods@, name)].handler,
        is_after_give(r1, r2, id, name, h),
    ensures
        same_registry(r2, r0),
{
    let ms0 = r0.ifaces@[id].methods@;
    let ms1 = r1.ifaces@[id].methods@;
    let m = method_idx(ms0, name);
    assert(forall|j: int| 0 <= j < ms0.len() ==> (#[trigger] ms0[j]).name@ == ms1[j].name@);
    lemma_method_idx_same_names(ms1, ms0, name, 0);
}

/// A call that asked for no reply never has a reply staged: neither the
/// failure screen, nor the success-reply path, nor an override that
/// respects the no-reply wish stages one; with nothing queued, such a
/// Context has nothing pending. The dispatcher goes further and sends
/// nothing at all for such a call, handler-queued extras included: that
/// stands in `handle_message`'s own contract.
pub proof fn lemma_no_reply_silent(
    pre: Context,
    post: Context,
    body: Seq<Arg>,
    e: MethodErr,
    m: Option<Message>,
    check_set: bool,
)
    requires
        pre.message.no_reply,
        pre.reply is None,
        Context::do_reply_rel(pre, post, body) || Context::check_err_rel(pre, post, e)
            || Context::set_reply_rel(pre, post, m, true, check_set),
    ensures
        post.reply is None,
        post.message.no_reply,
        post.send_extra@ == pre.send_extra@,
        pre.send_extra@ == Seq::<Message>::empty() ==> post.pending() == Seq::<Message>::empty(),
{
    if pre.send_extra@ == Seq::<Message>::empty() {
        assert(post.pending() =~= Seq::<Message>::empty());
    }
}

/// Idempotent reply staging: of two success-reply attempts on one Context,
/// only the first has an effect — whatever the first left behind, the
/// second changes nothing.
pub proof fn lemma_reply_staging_idempotent(
    c0: Context,
    c1: Context,
    c2: Context,
    b1: Seq<Arg>,
    b2: Seq<Arg>,
)
    requires
        Context::do_reply_rel(c0, c1, b1),
        Context::do_reply_rel(c1, c2, b2),
    ensures
        c2 == c1,
{
}

} // verus!
