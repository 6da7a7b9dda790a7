//! What the composed code does when it runs, and the laws that follow.
//!
//! The model runs a composed body on parameter values. Each decorator is
//! taken to record when it is entered, call its closure once, record when it
//! is left, and return what the closure returned; hooks record that they ran;
//! transforms are functions of the model.
use vstd::prelude::*;
use crate::compose::{bars, callee_tokens, compose, expansion, render, wrap_entry, Wrapped};
use crate::error::{err, ErrorKind};
use crate::grammar::{parse_list, ConfigV, EntryV};
use crate::syntax::{function_shape, tokens_text};
use crate::token::{is_group_v, paren, Delim, TokenV};

verus! {

/// Something observable while composed code runs.
pub enum Event {
    /// The decorator named by these tokens is entered.
    Enter(Seq<TokenV>),
    /// The decorator named by these tokens returns.
    Exit(Seq<TokenV>),
    /// The pre hook with these tokens runs.
    Pre(Seq<TokenV>),
    /// The post hook with these tokens runs.
    Post(Seq<TokenV>),
    /// The function's own body runs.
    Body,
}

/// What the body computes from the parameter values, and what each transform
/// (named by its tokens) computes.
pub struct Model {
    pub body: spec_fn(Seq<int>) -> int,
    pub params: spec_fn(Seq<TokenV>, Seq<int>) -> Seq<int>,
    pub result: spec_fn(Seq<TokenV>, int) -> int,
}

/// The events of running `w` on the parameter values `xs`, and its value.
pub open spec fn run(w: Wrapped, xs: Seq<int>, m: Model) -> (Seq<Event>, int)
    decreases w,
{
    match w {
        Wrapped::Body => (seq![Event::Body], (m.body)(xs)),
        Wrapped::Rebind { transform, inner, .. } => run(*inner, (m.params)(transform, xs), m),
        Wrapped::Pre { hook, inner } => {
            let (ev, v) = run(*inner, xs, m);
            (seq![Event::Pre(hook)] + ev, v)
        },
        Wrapped::Post { hook, inner } => {
            let (ev, v) = run(*inner, xs, m);
            (ev + seq![Event::Post(hook)], v)
        },
        Wrapped::MapResult { transform, inner } => {
            let (ev, v) = run(*inner, xs, m);
            (ev, (m.result)(transform, v))
        },
        Wrapped::Call { callee, inner, .. } => {
            let (ev, v) = run(*inner, xs, m);
            (seq![Event::Enter(callee)] + ev + seq![Event::Exit(callee)], v)
        },
    }
}

/// The decorators of `es` entered, first entry first.
pub open spec fn entering(es: Seq<EntryV>) -> Seq<Event> {
    Seq::new(es.len(), |i: int| Event::Enter(callee_tokens(es[i].reference)))
}

/// The decorators of `es` left, last entry first.
pub open spec fn leaving(es: Seq<EntryV>) -> Seq<Event> {
    Seq::new(es.len(), |i: int| Event::Exit(callee_tokens(es[es.len() - 1 - i].reference)))
}

/// A single entry with no configuration and no arguments composes to the
/// plain call `decorator(|| body)`, and running it runs the body once
/// inside the decorator and returns the body's value.
pub proof fn lemma_single_entry_is_plain_call(
    e: EntryV,
    names: Seq<Seq<char>>,
    body: TokenV,
    xs: Seq<int>,
    m: Model,
)
    requires
        e.config is None,
        e.args is None,
    ensures
        compose(seq![e], names) == (Wrapped::Call {
            callee: callee_tokens(e.reference),
            args: Seq::empty(),
            inner: Box::new(Wrapped::Body),
        }),
        render(compose(seq![e], names), body, false) == callee_tokens(e.reference) + seq![
            paren(bars() + seq![body]),
        ],
        run(compose(seq![e], names), xs, m) == (
            seq![
                Event::Enter(callee_tokens(e.reference)),
                Event::Body,
                Event::Exit(callee_tokens(e.reference)),
            ],
            (m.body)(xs),
        ),
{
    let w = compose(seq![e], names);
    assert(seq![e].drop_first() =~= Seq::<EntryV>::empty());
    assert(compose(Seq::<EntryV>::empty(), names) == Wrapped::Body);
    assert(seq![e][0] == e);
    assert(w == wrap_entry(e, names, Wrapped::Body));
    assert(run(Wrapped::Body, xs, m) == (seq![Event::Body], (m.body)(xs)));
    assert(render(Wrapped::Body, body, false) == seq![body]);
    assert(crate::compose::args_tokens(Seq::empty()) == Seq::<TokenV>::empty());
    assert(Seq::<TokenV>::empty() + (bars() + seq![body]) =~= bars() + seq![body]);
    assert(seq![Event::Enter(callee_tokens(e.reference))] + seq![Event::Body] + seq![
        Event::Exit(callee_tokens(e.reference)),
    ] =~= seq![
        Event::Enter(callee_tokens(e.reference)),
        Event::Body,
        Event::Exit(callee_tokens(e.reference)),
    ]);
}

/// With no configuration on any entry, running the composed body enters
/// the decorators in the order listed, runs the body once, and leaves them
/// in the reverse order; the value is the body's.
pub proof fn lemma_nesting_order(es: Seq<EntryV>, names: Seq<Seq<char>>, xs: Seq<int>, m: Model)
    requires
        forall|i: int| 0 <= i < es.len() ==> (#[trigger] es[i]).config is None,
    ensures
        run(compose(es, names), xs, m) == (entering(es) + seq![Event::Body] + leaving(es), (m.body)(
            xs,
        )),
    decreases es.len(),
{
    if es.len() == 0 {
        assert(entering(es) + seq![Event::Body] + leaving(es) =~= seq![Event::Body]);
    } else {
        let rest = es.drop_first();
        assert forall|i: int| 0 <= i < rest.len() implies (#[trigger] rest[i]).config is None by {
            assert(rest[i] == es[i + 1]);
        }
        lemma_nesting_order(rest, names, xs, m);
        let c = callee_tokens(es[0].reference);
        assert(es[0].config is None);
        assert(entering(es) =~= seq![Event::Enter(c)] + entering(rest));
        assert(leaving(es) =~= leaving(rest) + seq![Event::Exit(c)]);
        assert(seq![Event::Enter(c)] + (entering(rest) + seq![Event::Body] + leaving(rest))
            + seq![Event::Exit(c)] =~= entering(es) + seq![Event::Body] + leaving(es));
    }
}

/// A parameter transform `p` and a result transform `r` on one entry compose
/// as functions: the value is `r(body(p(xs)))`, for a function with at least
/// one named parameter.
pub proof fn lemma_transforms_compose(
    e: EntryV,
    p: Seq<TokenV>,
    r: Seq<TokenV>,
    names: Seq<Seq<char>>,
    xs: Seq<int>,
    m: Model,
)
    requires
        e.config == Some(
            ConfigV { pre: None, post: None, transform_params: Some(p), transform_result: Some(r) },
        ),
        names.len() > 0,
    ensures
        run(compose(seq![e], names), xs, m).1 == (m.result)(r, (m.body)((m.params)(p, xs))),
{
    assert(seq![e].drop_first() =~= Seq::<EntryV>::empty());
    assert(compose(Seq::<EntryV>::empty(), names) == Wrapped::Body);
    assert(seq![e][0] == e);
    assert(compose(seq![e], names) == wrap_entry(e, names, Wrapped::Body));
    let ys = (m.params)(p, xs);
    let w1 = Wrapped::MapResult { transform: r, inner: Box::new(Wrapped::Body) };
    assert(run(Wrapped::Body, ys, m).1 == (m.body)(ys));
    assert(run(w1, ys, m).1 == (m.result)(r, (m.body)(ys)));
    let w4 = Wrapped::Rebind { transform: p, names, inner: Box::new(w1) };
    assert(run(w4, xs, m).1 == run(w1, ys, m).1);
    assert(crate::compose::configured(e.config, names, Wrapped::Body) == w4);
}

/// An entry that has no transform.
pub open spec fn without_transforms(e: EntryV) -> bool {
    match e.config {
        None => true,
        Some(c) => c.transform_params is None && c.transform_result is None,
    }
}

/// Hooks never change the value: when no entry has a transform, running the
/// composed body yields the body's value.
pub proof fn lemma_hooks_keep_value(es: Seq<EntryV>, names: Seq<Seq<char>>, xs: Seq<int>, m: Model)
    requires
        forall|i: int| 0 <= i < es.len() ==> without_transforms(#[trigger] es[i]),
    ensures
        run(compose(es, names), xs, m).1 == (m.body)(xs),
    decreases es.len(),
{
    if es.len() > 0 {
        let rest = es.drop_first();
        assert forall|i: int| 0 <= i < rest.len() implies without_transforms(#[trigger] rest[i]) by {
            assert(rest[i] == es[i + 1]);
        }
        lemma_hooks_keep_value(rest, names, xs, m);
        assert(without_transforms(es[0]));
        let w = compose(rest, names);
        let cw = crate::compose::configured(es[0].config, names, w);
        match es[0].config {
            None => {},
            Some(c) => {
                let w2 = match c.post {
                    Some(h) => Wrapped::Post { hook: h, inner: Box::new(w) },
                    None => w,
                };
                assert(run(w2, xs, m).1 == run(w, xs, m).1);
                let w3 = match c.pre {
                    Some(h) => Wrapped::Pre { hook: h, inner: Box::new(w2) },
                    None => w2,
                };
                assert(run(w3, xs, m).1 == run(w2, xs, m).1);
                assert(cw == w3);
            },
        }
        assert(run(cw, xs, m).1 == (m.body)(xs));
    }
}

/// With a pre hook `a` and a post hook `b` on one entry, the hooks run once
/// each, `a` before the body and `b` after it, inside the decorator; the
/// value is the body's.
pub proof fn lemma_hooks_around_body(
    e: EntryV,
    a: Seq<TokenV>,
    b: Seq<TokenV>,
    names: Seq<Seq<char>>,
    xs: Seq<int>,
    m: Model,
)
    requires
        e.config == Some(
            ConfigV { pre: Some(a), post: Some(b), transform_params: None, transform_result: None },
        ),
    ensures
        run(compose(seq![e], names), xs, m) == (
            seq![
                Event::Enter(callee_tokens(e.reference)),
                Event::Pre(a),
                Event::Body,
                Event::Post(b),
                Event::Exit(callee_tokens(e.reference)),
            ],
            (m.body)(xs),
        ),
{
    let c = callee_tokens(e.reference);
    assert(seq![e].drop_first() =~= Seq::<EntryV>::empty());
    assert(compose(Seq::<EntryV>::empty(), names) == Wrapped::Body);
    assert(seq![e][0] == e);
    assert(compose(seq![e], names) == wrap_entry(e, names, Wrapped::Body));
    assert(run(Wrapped::Body, xs, m) == (seq![Event::Body], (m.body)(xs)));
    let w2 = Wrapped::Post { hook: b, inner: Box::new(Wrapped::Body) };
    assert(run(w2, xs, m) == (seq![Event::Body] + seq![Event::Post(b)], (m.body)(xs)));
    let w3 = Wrapped::Pre { hook: a, inner: Box::new(w2) };
    assert(run(w3, xs, m) == (seq![Event::Pre(a)] + (seq![Event::Body] + seq![Event::Post(b)]), (
    m.body)(xs)));
    assert(seq![Event::Pre(a)] + (seq![Event::Body] + seq![Event::Post(b)]) =~= seq![Event::Pre(a)]
        + seq![Event::Body] + seq![Event::Post(b)]);
    assert(crate::compose::configured(e.config, names, Wrapped::Body) == w3);
    assert(seq![Event::Enter(c)] + (seq![Event::Pre(a)] + seq![Event::Body] + seq![
        Event::Post(b),
    ]) + seq![Event::Exit(c)] =~= seq![
        Event::Enter(c),
        Event::Pre(a),
        Event::Body,
        Event::Post(b),
        Event::Exit(c),
    ]);
}

/// An empty decorator list is refused, whatever the item.
pub proof fn lemma_empty_list_refused(item: Seq<TokenV>)
    ensures
        expansion(Seq::empty(), item) == Err::<Seq<TokenV>, crate::error::ErrV>(
            err(ErrorKind::NoDecoratorsProvided, 0, Seq::empty()),
        ),
{
}

/// A function item that syn reads as `const`, ending in its body block.
pub open spec fn is_const_fn(item: Seq<TokenV>) -> bool {
    &&& function_shape(tokens_text(item)) matches Some((c, _, _)) && c
    &&& item.len() > 0
    &&& is_group_v(item.last(), Delim::Brace)
}

/// A `const` function is refused under every well-formed decorator list.
pub proof fn lemma_const_fn_refused(attr: Seq<TokenV>, item: Seq<TokenV>)
    requires
        parse_list(attr) is Ok,
        is_const_fn(item),
    ensures
        expansion(attr, item) is Err,
        expansion(attr, item)->Err_0.kind == ErrorKind::ConstFunctionNotSupported,
{
}

/// The entering and leaving of decorators among `ev`, in order.
pub open spec fn call_events(ev: Seq<Event>) -> Seq<Event>
    decreases ev.len(),
{
    if ev.len() == 0 {
        ev
    } else {
        let last: Seq<Event> = if ev.last() is Enter || ev.last() is Exit {
            seq![ev.last()]
        } else {
            Seq::empty()
        };
        call_events(ev.drop_last()) + last
    }
}

proof fn lemma_call_events_add(a: Seq<Event>, b: Seq<Event>)
    ensures
        call_events(a + b) == call_events(a) + call_events(b),
    decreases b.len(),
{
    if b.len() == 0 {
        assert(a + b =~= a);
        assert(call_events(a) + call_events(b) =~= call_events(a));
    } else {
        lemma_call_events_add(a, b.drop_last());
        assert((a + b).drop_last() =~= a + b.drop_last());
        assert((a + b).last() == b.last());
        let last: Seq<Event> = if b.last() is Enter || b.last() is Exit {
            seq![b.last()]
        } else {
            Seq::empty()
        };
        assert(call_events(a) + call_events(b.drop_last()) + last =~= call_events(a) + (
        call_events(b.drop_last()) + last));
    }
}

proof fn lemma_call_events_one(e: Event)
    ensures
        call_events(seq![e]) == if e is Enter || e is Exit {
            seq![e]
        } else {
            Seq::<Event>::empty()
        },
{
    assert(seq![e].drop_last() =~= Seq::<Event>::empty());
    assert(call_events(Seq::<Event>::empty()) == Seq::<Event>::empty());
    assert(Seq::<Event>::empty() + seq![e] =~= seq![e]);
    assert(Seq::<Event>::empty() + Seq::<Event>::empty() =~= Seq::<Event>::empty());
}

/// The events of running a composed body do not depend on the values.
proof fn lemma_events_ignore_values(w: Wrapped, xs: Seq<int>, ys: Seq<int>, m: Model)
    ensures
        run(w, xs, m).0 == run(w, ys, m).0,
    decreases w,
{
    match w {
        Wrapped::Body => {},
        Wrapped::Rebind { transform, inner, .. } => {
            lemma_events_ignore_values(*inner, (m.params)(transform, xs), (m.params)(transform, ys), m);
        },
        Wrapped::Pre { inner, .. } => {
            lemma_events_ignore_values(*inner, xs, ys, m);
        },
        Wrapped::Post { inner, .. } => {
            lemma_events_ignore_values(*inner, xs, ys, m);
        },
        Wrapped::MapResult { inner, .. } => {
            lemma_events_ignore_values(*inner, xs, ys, m);
        },
        Wrapped::Call { inner, .. } => {
            lemma_events_ignore_values(*inner, xs, ys, m);
        },
    }
}

proof fn lemma_configured_calls(c: Option<ConfigV>, names: Seq<Seq<char>>, w: Wrapped, xs: Seq<int>, m: Model)
    ensures
        call_events(run(crate::compose::configured(c, names, w), xs, m).0) == call_events(
            run(w, xs, m).0,
        ),
{
    match c {
        None => {},
        Some(c) => {
            let w1 = match c.transform_result {
                Some(t) => Wrapped::MapResult { transform: t, inner: Box::new(w) },
                None => w,
            };
            assert(run(w1, xs, m).0 == run(w, xs, m).0);
            let w2 = match c.post {
                Some(h) => Wrapped::Post { hook: h, inner: Box::new(w1) },
                None => w1,
            };
            if let Some(h) = c.post {
                lemma_call_events_add(run(w1, xs, m).0, seq![Event::Post(h)]);
                lemma_call_events_one(Event::Post(h));
                assert(call_events(run(w1, xs, m).0) + Seq::<Event>::empty() =~= call_events(
                    run(w1, xs, m).0,
                ));
            }
            assert(call_events(run(w2, xs, m).0) == call_events(run(w, xs, m).0));
            let w3 = match c.pre {
                Some(h) => Wrapped::Pre { hook: h, inner: Box::new(w2) },
                None => w2,
            };
            if let Some(h) = c.pre {
                lemma_call_events_add(seq![Event::Pre(h)], run(w2, xs, m).0);
                lemma_call_events_one(Event::Pre(h));
                assert(Seq::<Event>::empty() + call_events(run(w2, xs, m).0) =~= call_events(
                    run(w2, xs, m).0,
                ));
            }
            assert(call_events(run(w3, xs, m).0) == call_events(run(w, xs, m).0));
            let w4 = match c.transform_params {
                Some(t) => if names.len() > 0 {
                    Wrapped::Rebind { transform: t, names, inner: Box::new(w3) }
                } else {
                    w3
                },
                None => w3,
            };
            if let Some(t) = c.transform_params {
                lemma_events_ignore_values(w3, xs, (m.params)(t, xs), m);
            }
            assert(run(w4, xs, m).0 == run(w3, xs, m).0);
            assert(crate::compose::configured(Some(c), names, w) == w4);
        },
    }
}

/// Whatever their configuration, the decorators of a composed body are
/// entered in the order listed and left in the reverse order: the calls
/// nest from the first entry outermost to the last innermost.
pub proof fn lemma_calls_nest(es: Seq<EntryV>, names: Seq<Seq<char>>, xs: Seq<int>, m: Model)
    ensures
        call_events(run(compose(es, names), xs, m).0) == entering(es) + leaving(es),
    decreases es.len(),
{
    if es.len() == 0 {
        lemma_call_events_one(Event::Body);
        assert(entering(es) + leaving(es) =~= Seq::<Event>::empty());
    } else {
        let rest = es.drop_first();
        lemma_calls_nest(rest, names, xs, m);
        let c = callee_tokens(es[0].reference);
        let w = compose(rest, names);
        let cw = crate::compose::configured(es[0].config, names, w);
        lemma_configured_calls(es[0].config, names, w, xs, m);
        let inner = run(cw, xs, m).0;
        lemma_call_events_add(seq![Event::Enter(c)] + inner, seq![Event::Exit(c)]);
        lemma_call_events_add(seq![Event::Enter(c)], inner);
        lemma_call_events_one(Event::Enter(c));
        lemma_call_events_one(Event::Exit(c));
        assert(entering(es) =~= seq![Event::Enter(c)] + entering(rest));
        assert(leaving(es) =~= leaving(rest) + seq![Event::Exit(c)]);
        assert(seq![Event::Enter(c)] + (entering(rest) + leaving(rest)) + seq![Event::Exit(c)]
            =~= entering(es) + leaving(es));
    }
}

/// A decorated function keeps every token of its signature (attributes,
/// visibility, qualifiers, name, generics, parameters, return type) and gets
/// a new block as its body.
pub proof fn lemma_signature_kept(attr: Seq<TokenV>, item: Seq<TokenV>)
    requires
        expansion(attr, item) is Ok,
    ensures
        expansion(attr, item)->Ok_0.drop_last() == item.drop_last(),
        is_group_v(expansion(attr, item)->Ok_0.last(), Delim::Brace),
{
    let out = expansion(attr, item)->Ok_0;
    assert(out.drop_last() =~= item.drop_last());
}

} // verus!
