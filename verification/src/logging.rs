//! The scoped tag stack: nested logging context for a single top-level
//! invocation.
//!
//! `enter_span` pushes a tag and hands back a guard bound to exactly that
//! tag; releasing the guard pops it again. Releases must happen in strict
//! reverse order of acquisition - the guard carries the depth and tag it
//! pushed, and a mismatched release is a programming error ruled out by
//! contract rather than silently popping a wrong entry. Two policies
//! temper the mechanism: inside a transaction every push and pop is a
//! no-op (the stack is externally backed state, and a state-mutating call
//! must not commit ephemeral debug context), and when no backing driver
//! is available the guard is equally inert - logging context is
//! best-effort, never a hard dependency.

use vstd::prelude::*;

verus! {

use vstd::string::StringExecFns;
use crate::codec::str_views;
use crate::bridge;
use crate::registry::{DriverRegistry, spec_resolve};

/// Storage of the tag-stack driver contract, modelled as local state of
/// the current invocation: the stack materializes on first use and lives
/// only for this call context.
pub struct LocalTagStack {
    items: Vec<String>,
}

/// The driver interface to a tag-stack backing store.
pub trait TagStack: Sized {
    /// The stored tags, oldest first.
    spec fn tags_view(&self) -> Seq<Seq<char>>;

    fn push_tag(&mut self, tag: String)
        ensures
            final(self).tags_view() == old(self).tags_view().push(tag@),
    ;

    fn pop_tag(&mut self)
        ensures
            old(self).tags_view().len() == 0 ==> final(self).tags_view() == old(
                self,
            ).tags_view(),
            old(self).tags_view().len() > 0 ==> final(self).tags_view() == old(
                self,
            ).tags_view().drop_last(),
    ;

    fn tags(&self) -> (r: Vec<String>)
        ensures
            str_views(r@) == self.tags_view(),
    ;
}

impl LocalTagStack {
    pub fn new() -> (r: LocalTagStack)
        ensures
            r.tags_view() =~= Seq::<Seq<char>>::empty(),
    {
        LocalTagStack { items: Vec::new() }
    }

    pub fn len(&self) -> (r: usize)
        ensures
            r == self.tags_view().len(),
    {
        self.items.len()
    }
}

impl TagStack for LocalTagStack {
    closed spec fn tags_view(&self) -> Seq<Seq<char>> {
        str_views(self.items@)
    }

    fn push_tag(&mut self, tag: String) {
        self.items.push(tag);
        assert(self.tags_view() =~= old(self).tags_view().push(tag@));
    }

    fn pop_tag(&mut self) {
        if self.items.len() > 0 {
            self.items.pop();
            assert(self.tags_view() =~= old(self).tags_view().drop_last());
        }
    }

    fn tags(&self) -> (r: Vec<String>) {
        let mut r: Vec<String> = Vec::new();
        let mut i: usize = 0;
        while i < self.items.len()
            invariant
                i <= self.items@.len(),
                r@.len() == i,
                forall|j: int| 0 <= j < i ==> #[trigger] r@[j]@ == self.items@[j]@,
            decreases self.items@.len() - i,
        {
            r.push(self.items[i].clone());
            i = i + 1;
        }
        assert(str_views(r@) =~= self.tags_view());
        r
    }
}

/// The logging context of one top-level invocation: the transaction mode
/// (fixed for the whole invocation) and the backing stack, if its driver
/// could be resolved.
pub struct LogContext {
    pub in_transaction: bool,
    pub has_stack: bool,
    pub stack: LocalTagStack,
}

/// The tags visible in a context: none without a backing stack.
pub open spec fn ctx_tags(ctx: LogContext) -> Seq<Seq<char>> {
    if ctx.has_stack {
        ctx.stack.tags_view()
    } else {
        Seq::empty()
    }
}

impl LogContext {
    /// A context built by hand, for callers that already know the
    /// transaction mode and whether a backing driver exists.
    pub fn new(in_transaction: bool, has_stack: bool) -> (r: LogContext)
        ensures
            r.in_transaction == in_transaction,
            r.has_stack == has_stack,
            ctx_tags(r) =~= Seq::<Seq<char>>::empty(),
    {
        LogContext { in_transaction, has_stack, stack: LocalTagStack::new() }
    }

    /// The context of the current invocation: the transaction mode comes
    /// from the host, and the stack is backed exactly when the registry
    /// resolves the "TagStack" driver name.
    pub fn current(registry: &DriverRegistry, driver_name: &String) -> (r: LogContext)
        ensures
            r.has_stack == (spec_resolve(registry.entries@, driver_name@) is Some),
            ctx_tags(r) =~= Seq::<Seq<char>>::empty(),
    {
        let has_stack = registry.resolve(driver_name).is_some();
        LogContext {
            in_transaction: bridge::is_in_transaction(),
            has_stack,
            stack: LocalTagStack::new(),
        }
    }
}

/// A guard bound to exactly one pushed tag: it records the depth at which
/// its tag sits, so that only the strictly matching release can pop it.
pub struct Span {
    pub active: bool,
    pub depth: usize,
    pub tag: String,
}

impl Span {
    /// A fresh, inert guard whose release is a no-op.
    pub fn inert() -> (r: Span)
        ensures
            !r.active,
    {
        Span { active: false, depth: 0, tag: String::new() }
    }

    /// Pop this guard's tag. Releases must occur strictly in reverse
    /// order of acquisition: an active guard must match the top of the
    /// stack it pushed to, anything else is a caller bug ruled out here.
    pub fn release(self, ctx: &mut LogContext)
        requires
            self.active ==> {
                &&& old(ctx).has_stack
                &&& ctx_tags(*old(ctx)).len() == self.depth + 1
                &&& ctx_tags(*old(ctx)).last() == self.tag@
            },
        ensures
            final(ctx).in_transaction == old(ctx).in_transaction,
            final(ctx).has_stack == old(ctx).has_stack,
            !self.active ==> ctx_tags(*final(ctx)) == ctx_tags(*old(ctx)),
            self.active ==> ctx_tags(*final(ctx)) == ctx_tags(*old(ctx)).drop_last(),
    {
        if self.active {
            ctx.stack.pop_tag();
        }
    }
}

impl Default for Span {
    /// Same as `Span::inert`: releasing the default guard does nothing.
    fn default() -> (r: Span)
        ensures
            !r.active,
    {
        Span::inert()
    }
}

/// Entering a span and releasing its guard restores the tag stack: for
/// any well-formed caller the depth at exit equals the depth at entry,
/// and the tag popped is exactly the tag pushed.
pub proof fn lemma_span_round_trip(tags: Seq<Seq<char>>, tag: Seq<char>)
    ensures
        tags.push(tag).drop_last() == tags,
        tags.push(tag).last() == tag,
{
    assert(tags.push(tag).drop_last() =~= tags);
}

/// Enter a log span: push `span` and return the guard that pops it. In a
/// transaction, or without a backing driver, the stack stays untouched
/// and the returned guard is inert.
pub fn enter_span(ctx: &mut LogContext, span: &str) -> (r: Span)
    ensures
        final(ctx).in_transaction == old(ctx).in_transaction,
        final(ctx).has_stack == old(ctx).has_stack,
        old(ctx).in_transaction || !old(ctx).has_stack ==> !r.active && ctx_tags(*final(ctx))
            == ctx_tags(*old(ctx)),
        !old(ctx).in_transaction && old(ctx).has_stack ==> {
            &&& r.active
            &&& r.tag@ == span@
            &&& r.depth == ctx_tags(*old(ctx)).len()
            &&& ctx_tags(*final(ctx)) == ctx_tags(*old(ctx)).push(span@)
        },
{
    if ctx.in_transaction {
        return Span::inert();
    }
    if !ctx.has_stack {
        return Span::inert();
    }
    let depth = ctx.stack.len();
    ctx.stack.push_tag(String::from_str(span));
    Span { active: true, depth, tag: String::from_str(span) }
}

/// The stored tags, most recent last; empty without a backing stack.
pub fn tags(ctx: &LogContext) -> (r: Vec<String>)
    ensures
        str_views(r@) == ctx_tags(*ctx),
{
    if ctx.has_stack {
        ctx.stack.tags()
    } else {
        let r: Vec<String> = Vec::new();
        assert(str_views(r@) =~= ctx_tags(*ctx));
        r
    }
}

/// The tags joined with `,`, oldest first.
pub open spec fn join_tags(tags: Seq<Seq<char>>) -> Seq<char>
    decreases tags.len(),
{
    if tags.len() == 0 {
        Seq::empty()
    } else if tags.len() == 1 {
        tags[0]
    } else {
        join_tags(tags.drop_last()) + seq![','] + tags.last()
    }
}

/// Join the current tag path with `,`; `None` when no backing driver was
/// available at context creation.
pub fn tagged_prefix(ctx: &LogContext) -> (r: Option<String>)
    ensures
        match r {
            Some(s) => ctx.has_stack && s@ == join_tags(ctx_tags(*ctx)),
            None => !ctx.has_stack,
        },
{
    if !ctx.has_stack {
        return None;
    }
    let items = ctx.stack.tags();
    let ghost views = ctx_tags(*ctx);
    let mut out = String::new();
    let mut i: usize = 0;
    proof {
        reveal_strlit(",");
        assert(views.take(0) =~= Seq::<Seq<char>>::empty());
    }
    while i < items.len()
        invariant
            i <= items@.len(),
            str_views(items@) == views,
            out@ == join_tags(views.take(i as int)),
        decreases items@.len() - i,
    {
        if i > 0 {
            out.append(",");
            proof {
                reveal_strlit(",");
            }
        }
        out.append(items[i].as_str());
        proof {
            reveal_strlit(",");
            assert(views.take(i + 1).drop_last() =~= views.take(i as int));
            assert(views.take(i + 1).last() == views[i as int]);
            if i == 0 {
                assert(out@ =~= join_tags(views.take(1)));
            } else {
                assert(out@ =~= join_tags(views.take(i as int)) + seq![','] + views[i as int]);
            }
        }
        i = i + 1;
    }
    assert(views.take(items@.len() as int) =~= views);
    Some(out)
}

/// What `log` hands to the host's sink: the message, prefixed with the
/// bracketed tag path when a backing stack exists.
pub open spec fn spec_log_line(has_stack: bool, tags: Seq<Seq<char>>, msg: Seq<char>) -> Seq<
    char,
> {
    if has_stack {
        seq!['['] + join_tags(tags) + seq![']', ':', ' '] + msg
    } else {
        msg
    }
}

/// Render the line `log` will emit for `message` in this context.
pub fn render_log_line(ctx: &LogContext, message: &str) -> (r: String)
    ensures
        r@ == spec_log_line(ctx.has_stack, ctx_tags(*ctx), message@),
{
    match tagged_prefix(ctx) {
        Some(prefix) => {
            proof {
                reveal_strlit("[");
                reveal_strlit("]: ");
            }
            let mut out = String::from_str("[");
            out.append(prefix.as_str());
            out.append("]: ");
            out.append(message);
            assert(out@ =~= spec_log_line(ctx.has_stack, ctx_tags(*ctx), message@));
            out
        },
        None => String::from_str(message),
    }
}

/// Emit a message to the host's log sink at `level`, prefixed with the
/// current tag path. Fire-and-forget: it never fails the caller.
pub fn log(ctx: &LogContext, level: u8, message: &str) {
    let line = render_log_line(ctx, message);
    bridge::host_log(level, line.as_str());
}

/// An extension for `Result` to log a tip message when it is an `Err`,
/// passing the value through unchanged.
pub trait ResultExt: Sized {
    fn log_err(self, ctx: &LogContext, msg: &str) -> (r: Self)
        ensures
            r == self,
    ;
}

impl<T, E> ResultExt for Result<T, E> {
    /// Log `msg` at the error level if the result is an `Err`.
    fn log_err(self, ctx: &LogContext, msg: &str) -> (r: Self) {
        if self.is_err() {
            log(ctx, 1, msg);
        }
        self
    }
}

} // verus!
