//! The body composer and the signature emitter.
//!
//! The entries are folded onto the body from the last one outward, so the
//! first entry listed is the outermost call. Each entry first applies its
//! configuration (parameter transform, pre hook, post hook, result
//! transform, in that order from the outside in: the parameter transform is
//! outermost and the result transform innermost) and is then called with
//! its arguments followed by a closure over what it wraps:
//!
//! ```text
//! a(args_a, || b(args_b, || { body }))
//! ```
//!
//! For an `async` function each closure returns an `async move` block and
//! each call is awaited.
use vstd::prelude::*;
use crate::error::{DecorateError, ErrV};
use crate::function::{analyze, analyze_function, FnShape, FnShapeV};
use crate::grammar::{
    entries_view, parse_decorators, parse_list, pieces_view, Config, ConfigV,
    DecoratorEntry, DecoratorRef, EntryV, RefV,
};
use crate::path::{self_path_tokens, strings_view};
use crate::token::{
    append_all, brace, copy_all, lemma_views_push, make_group, make_ident, make_punct, mark, paren, tview,
    views, word, Delim, Token, TokenV,
};

verus! {

/// The structure of a composed body, from the outside in.
pub enum Wrapped {
    /// The function's own body block.
    Body,
    /// `{ let (names) = transform(names); inner }`
    Rebind { transform: Seq<TokenV>, names: Seq<Seq<char>>, inner: Box<Wrapped> },
    /// `{ hook; inner }`
    Pre { hook: Seq<TokenV>, inner: Box<Wrapped> },
    /// `{ let result = inner; hook; result }`
    Post { hook: Seq<TokenV>, inner: Box<Wrapped> },
    /// `{ let result = inner; transform(result) }`
    MapResult { transform: Seq<TokenV>, inner: Box<Wrapped> },
    /// `callee(args..., || inner)`
    Call { callee: Seq<TokenV>, args: Seq<Seq<TokenV>>, inner: Box<Wrapped> },
}

/// The tokens that name what an entry calls.
pub open spec fn callee_tokens(r: RefV) -> Seq<TokenV> {
    match r {
        RefV::Static(p) => p,
        RefV::SelfPath(fields) => self_path_tokens(fields),
    }
}

pub open spec fn arg_list(a: Option<Seq<Seq<TokenV>>>) -> Seq<Seq<TokenV>> {
    match a {
        Some(v) => v,
        None => Seq::empty(),
    }
}

/// The configuration layers of one entry around `inner`, from the outside
/// in: parameter transform, pre hook, post hook, result transform.
pub open spec fn configured(c: Option<ConfigV>, names: Seq<Seq<char>>, inner: Wrapped) -> Wrapped {
    match c {
        None => inner,
        Some(c) => {
            let w1 = match c.transform_result {
                Some(t) => Wrapped::MapResult { transform: t, inner: Box::new(inner) },
                None => inner,
            };
            let w2 = match c.post {
                Some(h) => Wrapped::Post { hook: h, inner: Box::new(w1) },
                None => w1,
            };
            let w3 = match c.pre {
                Some(h) => Wrapped::Pre { hook: h, inner: Box::new(w2) },
                None => w2,
            };
            match c.transform_params {
                Some(t) => if names.len() > 0 {
                    Wrapped::Rebind { transform: t, names, inner: Box::new(w3) }
                } else {
                    w3
                },
                None => w3,
            }
        },
    }
}

/// One entry around `inner`: its configuration, then its call.
pub open spec fn wrap_entry(e: EntryV, names: Seq<Seq<char>>, inner: Wrapped) -> Wrapped {
    Wrapped::Call {
        callee: callee_tokens(e.reference),
        args: arg_list(e.args),
        inner: Box::new(configured(e.config, names, inner)),
    }
}

/// The entries folded onto the body, the first entry outermost.
pub open spec fn compose(es: Seq<EntryV>, names: Seq<Seq<char>>) -> Wrapped
    decreases es.len(),
{
    if es.len() == 0 {
        Wrapped::Body
    } else {
        wrap_entry(es[0], names, compose(es.drop_first(), names))
    }
}

/// `a, b, c`
pub open spec fn comma_names(names: Seq<Seq<char>>) -> Seq<TokenV>
    decreases names.len(),
{
    if names.len() == 0 {
        Seq::empty()
    } else if names.len() == 1 {
        seq![word(names[0])]
    } else {
        comma_names(names.drop_last()) + seq![mark(','), word(names.last())]
    }
}

/// Each argument followed by a comma.
pub open spec fn args_tokens(args: Seq<Seq<TokenV>>) -> Seq<TokenV>
    decreases args.len(),
{
    if args.len() == 0 {
        Seq::empty()
    } else {
        args_tokens(args.drop_last()) + args.last() + seq![mark(',')]
    }
}

pub open spec fn bars() -> Seq<TokenV> {
    seq![TokenV::Punct('|', true, 0), mark('|')]
}

/// `|| inner`, or `|| async move { inner }`.
pub open spec fn closure_tokens(inner: Seq<TokenV>, is_async: bool) -> Seq<TokenV> {
    if is_async {
        bars() + seq![word("async"@), word("move"@), brace(inner)]
    } else {
        bars() + inner
    }
}

pub open spec fn let_result() -> Seq<TokenV> {
    seq![word("let"@), word("result"@), mark('=')]
}

pub open spec fn rebind_tokens(t: Seq<TokenV>, names: Seq<Seq<char>>, inner: Seq<TokenV>) -> Seq<
    TokenV,
> {
    seq![
        brace(
            seq![word("let"@), paren(comma_names(names)), mark('=')] + t + seq![
                paren(comma_names(names)),
                mark(';'),
            ] + inner,
        ),
    ]
}

pub open spec fn pre_tokens(h: Seq<TokenV>, inner: Seq<TokenV>) -> Seq<TokenV> {
    seq![brace(h + seq![mark(';')] + inner)]
}

pub open spec fn post_tokens(h: Seq<TokenV>, inner: Seq<TokenV>) -> Seq<TokenV> {
    seq![brace(let_result() + inner + seq![mark(';')] + h + seq![mark(';'), word("result"@)])]
}

pub open spec fn map_tokens(t: Seq<TokenV>, inner: Seq<TokenV>) -> Seq<TokenV> {
    seq![brace(let_result() + inner + seq![mark(';')] + t + seq![paren(seq![word("result"@)])])]
}

pub open spec fn call_tokens(
    callee: Seq<TokenV>,
    args: Seq<Seq<TokenV>>,
    inner: Seq<TokenV>,
    is_async: bool,
) -> Seq<TokenV> {
    let call = callee + seq![paren(args_tokens(args) + closure_tokens(inner, is_async))];
    if is_async {
        call + seq![mark('.'), word("await"@)]
    } else {
        call
    }
}

/// The tokens of a composed body.
pub open spec fn render(w: Wrapped, body: TokenV, is_async: bool) -> Seq<TokenV>
    decreases w,
{
    match w {
        Wrapped::Body => seq![body],
        Wrapped::Rebind { transform, names, inner } => rebind_tokens(
            transform,
            names,
            render(*inner, body, is_async),
        ),
        Wrapped::Pre { hook, inner } => pre_tokens(hook, render(*inner, body, is_async)),
        Wrapped::Post { hook, inner } => post_tokens(hook, render(*inner, body, is_async)),
        Wrapped::MapResult { transform, inner } => map_tokens(
            transform,
            render(*inner, body, is_async),
        ),
        Wrapped::Call { callee, args, inner } => call_tokens(
            callee,
            args,
            render(*inner, body, is_async),
            is_async,
        ),
    }
}

/// The decorated function: the signature as written, then a block holding
/// the composed body.
pub open spec fn emit(item: Seq<TokenV>, es: Seq<EntryV>, f: FnShapeV) -> Seq<TokenV> {
    item.drop_last() + seq![brace(render(compose(es, f.params), item.last(), f.is_async))]
}

/// What decorating the function `item` with the list `attr` yields.
pub open spec fn expansion(attr: Seq<TokenV>, item: Seq<TokenV>) -> Result<Seq<TokenV>, ErrV> {
    match parse_list(attr) {
        Err(e) => Err(e),
        Ok(es) => match analyze(item) {
            Err(e) => Err(e),
            Ok(f) => Ok(emit(item, es, f)),
        },
    }
}

// ---------------------------------------------------------------------------
// Building the tokens
fn push_token(v: &mut Vec<Token>, t: Token)
    ensures
        views(final(v)@) == views(old(v)@).push(tview(t)),
{
    proof {
        lemma_views_push(v@, t);
    }
    v.push(t);
}

fn name_list(names: &Vec<String>) -> (r: Vec<Token>)
    ensures
        views(r@) == comma_names(strings_view(names@)),
{
    let ghost nv = strings_view(names@);
    let mut out: Vec<Token> = Vec::new();
    let mut i: usize = 0;
    proof {
        assert(views(out@) =~= comma_names(nv.subrange(0, 0)));
    }
    while i < names.len()
        invariant
            nv == strings_view(names@),
            i <= nv.len(),
            views(out@) == comma_names(nv.subrange(0, i as int)),
        decreases nv.len() - i,
    {
        let ghost before = views(out@);
        if i > 0 {
            push_token(&mut out, make_punct(',', false));
        }
        let name = Token::Ident { text: names[i].clone(), span: 0 };
        push_token(&mut out, name);
        proof {
            let s = nv.subrange(0, i + 1);
            assert(s.drop_last() =~= nv.subrange(0, i as int));
            if i == 0 {
                assert(views(out@) =~= comma_names(s));
            } else {
                assert(views(out@) =~= comma_names(s));
            }
        }
        i = i + 1;
    }
    proof {
        assert(nv.subrange(0, i as int) =~= nv);
    }
    out
}

fn rebind_layer(t: Vec<Token>, names: &Vec<String>, inner: Vec<Token>) -> (r: Vec<Token>)
    ensures
        views(r@) == rebind_tokens(views(t@), strings_view(names@), views(inner@)),
{
    let mut b: Vec<Token> = Vec::new();
    push_token(&mut b, make_ident("let"));
    push_token(&mut b, make_group(Delim::Paren, name_list(names)));
    push_token(&mut b, make_punct('=', false));
    append_all(&mut b, t);
    push_token(&mut b, make_group(Delim::Paren, name_list(names)));
    push_token(&mut b, make_punct(';', false));
    append_all(&mut b, inner);
    proof {
        let nv = strings_view(names@);
        assert(views(b@) =~= seq![word("let"@), paren(comma_names(nv)), mark('=')] + views(t@)
            + seq![paren(comma_names(nv)), mark(';')] + views(inner@));
    }
    let mut r: Vec<Token> = Vec::new();
    push_token(&mut r, make_group(Delim::Brace, b));
    proof {
        assert(views(r@) =~= rebind_tokens(views(t@), strings_view(names@), views(inner@)));
    }
    r
}

fn pre_layer(h: Vec<Token>, inner: Vec<Token>) -> (r: Vec<Token>)
    ensures
        views(r@) == pre_tokens(views(h@), views(inner@)),
{
    let mut b: Vec<Token> = h;
    push_token(&mut b, make_punct(';', false));
    append_all(&mut b, inner);
    proof {
        assert(views(b@) =~= views(h@) + seq![mark(';')] + views(inner@));
    }
    let mut r: Vec<Token> = Vec::new();
    push_token(&mut r, make_group(Delim::Brace, b));
    proof {
        assert(views(r@) =~= pre_tokens(views(h@), views(inner@)));
    }
    r
}

fn let_result_start() -> (r: Vec<Token>)
    ensures
        views(r@) == let_result(),
{
    let mut b: Vec<Token> = Vec::new();
    push_token(&mut b, make_ident("let"));
    push_token(&mut b, make_ident("result"));
    push_token(&mut b, make_punct('=', false));
    proof {
        assert(views(b@) =~= let_result());
    }
    b
}

fn post_layer(h: Vec<Token>, inner: Vec<Token>) -> (r: Vec<Token>)
    ensures
        views(r@) == post_tokens(views(h@), views(inner@)),
{
    let mut b = let_result_start();
    append_all(&mut b, inner);
    push_token(&mut b, make_punct(';', false));
    append_all(&mut b, h);
    push_token(&mut b, make_punct(';', false));
    push_token(&mut b, make_ident("result"));
    proof {
        assert(views(b@) =~= let_result() + views(inner@) + seq![mark(';')] + views(h@) + seq![
            mark(';'),
            word("result"@),
        ]);
    }
    let mut r: Vec<Token> = Vec::new();
    push_token(&mut r, make_group(Delim::Brace, b));
    proof {
        assert(views(r@) =~= post_tokens(views(h@), views(inner@)));
    }
    r
}

fn map_layer(t: Vec<Token>, inner: Vec<Token>) -> (r: Vec<Token>)
    ensures
        views(r@) == map_tokens(views(t@), views(inner@)),
{
    let mut b = let_result_start();
    append_all(&mut b, inner);
    push_token(&mut b, make_punct(';', false));
    append_all(&mut b, t);
    let mut arg: Vec<Token> = Vec::new();
    push_token(&mut arg, make_ident("result"));
    proof {
        assert(views(arg@) =~= seq![word("result"@)]);
    }
    push_token(&mut b, make_group(Delim::Paren, arg));
    proof {
        assert(views(b@) =~= let_result() + views(inner@) + seq![mark(';')] + views(t@) + seq![
            paren(seq![word("result"@)]),
        ]);
    }
    let mut r: Vec<Token> = Vec::new();
    push_token(&mut r, make_group(Delim::Brace, b));
    proof {
        assert(views(r@) =~= map_tokens(views(t@), views(inner@)));
    }
    r
}

fn arg_tokens(args: &Vec<Vec<Token>>) -> (r: Vec<Token>)
    ensures
        views(r@) == args_tokens(pieces_view(args@)),
{
    let ghost av = pieces_view(args@);
    let mut out: Vec<Token> = Vec::new();
    let mut i: usize = 0;
    proof {
        assert(views(out@) =~= args_tokens(av.subrange(0, 0)));
    }
    while i < args.len()
        invariant
            av == pieces_view(args@),
            i <= av.len(),
            views(out@) == args_tokens(av.subrange(0, i as int)),
        decreases av.len() - i,
    {
        let a = copy_all(&args[i]);
        append_all(&mut out, a);
        push_token(&mut out, make_punct(',', false));
        proof {
            let s = av.subrange(0, i + 1);
            assert(s.drop_last() =~= av.subrange(0, i as int));
            assert(views(out@) =~= args_tokens(s));
        }
        i = i + 1;
    }
    proof {
        assert(av.subrange(0, i as int) =~= av);
    }
    out
}

fn call_layer(callee: Vec<Token>, args: Vec<Token>, inner: Vec<Token>, is_async: bool) -> (r: Vec<
    Token,
>)
    ensures
        views(r@) == views(callee@) + seq![
            paren(views(args@) + closure_tokens(views(inner@), is_async)),
        ] + if is_async {
            seq![mark('.'), word("await"@)]
        } else {
            Seq::empty()
        },
{
    let mut inside: Vec<Token> = args;
    push_token(&mut inside, make_punct('|', true));
    push_token(&mut inside, make_punct('|', false));
    if is_async {
        push_token(&mut inside, make_ident("async"));
        push_token(&mut inside, make_ident("move"));
        push_token(&mut inside, make_group(Delim::Brace, inner));
    } else {
        append_all(&mut inside, inner);
    }
    proof {
        assert(views(inside@) =~= views(args@) + closure_tokens(views(inner@), is_async));
    }
    let mut r: Vec<Token> = callee;
    push_token(&mut r, make_group(Delim::Paren, inside));
    if is_async {
        push_token(&mut r, make_punct('.', false));
        push_token(&mut r, make_ident("await"));
    }
    proof {
        assert(views(r@) =~= views(callee@) + seq![
            paren(views(args@) + closure_tokens(views(inner@), is_async)),
        ] + if is_async {
            seq![mark('.'), word("await"@)]
        } else {
            Seq::empty()
        });
    }
    r
}

/// Applies the configuration `c` around `inner`.
fn config_layers(
    c: Option<Config>,
    names: &Vec<String>,
    inner: Vec<Token>,
    Ghost(w): Ghost<Wrapped>,
    Ghost(body): Ghost<TokenV>,
    is_async: bool,
) -> (r: Vec<Token>)
    requires
        views(inner@) == render(w, body, is_async),
    ensures
        views(r@) == render(
            configured(
                match c {
                    Some(x) => Some(x.view()),
                    None => None,
                },
                strings_view(names@),
                w,
            ),
            body,
            is_async,
        ),
{
    let ghost nv = strings_view(names@);
    match c {
        None => inner,
        Some(c) => {
            let ghost cv = c.view();
            let Config { pre, post, transform_params, transform_result } = c;
            let mut cur = inner;
            let ghost mut g = w;
            match transform_result {
                Some(t) => {
                    proof {
                        g = Wrapped::MapResult { transform: views(t@), inner: Box::new(g) };
                    }
                    cur = map_layer(t, cur);
                    assert(views(cur@) == render(g, body, is_async));
                },
                None => {},
            }
            match post {
                Some(h) => {
                    proof {
                        g = Wrapped::Post { hook: views(h@), inner: Box::new(g) };
                    }
                    cur = post_layer(h, cur);
                    assert(views(cur@) == render(g, body, is_async));
                },
                None => {},
            }
            match pre {
                Some(h) => {
                    proof {
                        g = Wrapped::Pre { hook: views(h@), inner: Box::new(g) };
                    }
                    cur = pre_layer(h, cur);
                    assert(views(cur@) == render(g, body, is_async));
                },
                None => {},
            }
            match transform_params {
                Some(t) => {
                    if names.len() > 0 {
                        proof {
                            g = Wrapped::Rebind {
                                transform: views(t@),
                                names: nv,
                                inner: Box::new(g),
                            };
                        }
                        cur = rebind_layer(t, names, cur);
                        assert(views(cur@) == render(g, body, is_async));
                    }
                },
                None => {},
            }
            assert(g == configured(Some(cv), nv, w));
            cur
        },
    }
}

/// Wraps `inner` in the entry `e`.
fn entry_layer(
    e: DecoratorEntry,
    names: &Vec<String>,
    inner: Vec<Token>,
    Ghost(w): Ghost<Wrapped>,
    Ghost(body): Ghost<TokenV>,
    is_async: bool,
) -> (r: Vec<Token>)
    requires
        views(inner@) == render(w, body, is_async),
    ensures
        views(r@) == render(wrap_entry(e.view(), strings_view(names@), w), body, is_async),
{
    let ghost ev = e.view();
    let DecoratorEntry { config, reference, args } = e;
    let configured_body = config_layers(config, names, inner, Ghost(w), Ghost(body), is_async);
    let callee: Vec<Token> = match reference {
        DecoratorRef::StaticPath(p) => p,
        DecoratorRef::SelfExpr(s) => s.to_tokens(),
    };
    let arg_toks: Vec<Token> = match args {
        Some(a) => arg_tokens(&a),
        None => Vec::new(),
    };
    proof {
        assert(views(arg_toks@) == args_tokens(arg_list(ev.args))) by {
            if ev.args is None {
                assert(views(arg_toks@) =~= Seq::<TokenV>::empty());
            }
        }
    }
    call_layer(callee, arg_toks, configured_body, is_async)
}

proof fn lemma_compose_step(es: Seq<EntryV>, names: Seq<Seq<char>>, i: int)
    requires
        0 <= i < es.len(),
    ensures
        compose(es.subrange(i, es.len() as int), names) == wrap_entry(
            es[i],
            names,
            compose(es.subrange(i + 1, es.len() as int), names),
        ),
{
    let s = es.subrange(i, es.len() as int);
    assert(s.drop_first() =~= es.subrange(i + 1, es.len() as int));
}

/// The composed body: the entries folded onto `body`, the last entry
/// innermost and the first outermost.
pub fn compose_body(entries: Vec<DecoratorEntry>, shape: &FnShape, body: Token) -> (r: Vec<Token>)
    ensures
        views(r@) == render(
            compose(entries_view(entries@), shape.view().params),
            tview(body),
            shape.is_async,
        ),
{
    let ghost ev = entries_view(entries@);
    let ghost n = ev.len();
    let ghost nv = strings_view(shape.params@);
    let ghost bv = tview(body);
    let mut rest = entries;
    let mut cur: Vec<Token> = Vec::new();
    push_token(&mut cur, body);
    proof {
        assert(ev.subrange(n as int, n as int) =~= Seq::<EntryV>::empty());
        assert(views(cur@) =~= render(Wrapped::Body, bv, shape.is_async));
    }
    while rest.len() > 0
        invariant
            n == ev.len(),
            rest@.len() <= n,
            nv == strings_view(shape.params@),
            entries_view(rest@) == ev.subrange(0, rest@.len() as int),
            views(cur@) == render(
                compose(ev.subrange(rest@.len() as int, n as int), nv),
                bv,
                shape.is_async,
            ),
        decreases rest@.len(),
    {
        let k = rest.len() - 1;
        let ghost inner = compose(ev.subrange(k + 1, n as int), nv);
        let ghost before = rest@;
        let e = rest.pop().unwrap();
        proof {
            assert(entries_view(before)[k as int] == ev.subrange(0, k + 1)[k as int]);
            assert(e.view() == ev[k as int]);
            assert(entries_view(rest@) =~= ev.subrange(0, k as int));
            lemma_compose_step(ev, nv, k as int);
        }
        cur = entry_layer(e, &shape.params, cur, Ghost(inner), Ghost(bv), shape.is_async);
    }
    proof {
        assert(ev.subrange(0, n as int) =~= ev);
    }
    cur
}

/// Decorates the function `item` with the decorator list `attr`.
///
/// The list is read first: an empty or malformed list is refused whatever the
/// function. Then the function is read: a `const` function or an item that
/// is not a function is refused. Otherwise the result keeps the signature
/// as written and replaces the body by the composed chain of calls.
pub fn decorate(attr: Vec<Token>, item: Vec<Token>) -> (r: Result<Vec<Token>, DecorateError>)
    ensures
        match r {
            Ok(out) => expansion(views(attr@), views(item@)) == Ok::<Seq<TokenV>, ErrV>(
                views(out@),
            ),
            Err(e) => expansion(views(attr@), views(item@)) == Err::<Seq<TokenV>, ErrV>(e.view()),
        },
{
    let entries = match parse_decorators(&attr) {
        Ok(es) => es,
        Err(e) => {
            return Err(e);
        },
    };
    let shape = match analyze_function(&item) {
        Ok(s) => s,
        Err(e) => {
            return Err(e);
        },
    };
    let ghost iv = views(item@);
    let ghost ev = entries_view(entries@);
    let mut out = item;
    let body = out.pop().unwrap();
    proof {
        assert(views(out@) =~= iv.drop_last());
        assert(tview(body) == iv.last());
    }
    let composed = compose_body(entries, &shape, body);
    push_token(&mut out, make_group(Delim::Brace, composed));
    proof {
        assert(views(out@) =~= emit(iv, ev, shape.view()));
    }
    Ok(out)
}

} // verus!
