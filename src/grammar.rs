//! The decorator list grammar.
//!
//! ```text
//! list   := entry (',' entry)* ','?
//! entry  := (key '=' value ',')* reference ('(' arg (',' arg)* ','? ')')?
//! key    := pre | post | transform_params | transform_result
//! reference := string | path
//! path   := '::'? ident ('::' ident | '::' '<' ... '>')*
//! ```
//!
//! A string reference is read as a Rust string literal and resolved as a
//! self-path (`"self.logger.log"`).
//!
//! The list is first cut at the commas that stand outside brackets and
//! outside the angle brackets of a `::<...>`. A hook value or an argument is
//! then the shortest run of those pieces, joined again by their commas, that
//! is one Rust expression: `pre = |a, b| f(a, b)` and `d(|a, b| a)` each keep
//! their closure whole. A key given twice in one entry keeps the value given
//! last.
use vstd::prelude::*;
use crate::error::{err, DecorateError, ErrV, ErrorKind};
use crate::path::{refused_segment, refused_text, resolve, resolve_self_path, PathError, SelfPath};
use crate::syntax::{is_expression, rust_expression, tokens_text};
use crate::token::{
    append_all, copy_all, copy_range, copy_token, is_any_ident, is_ident, is_group_v, is_joint, is_joint_v, is_punct,
    is_punct_v, lemma_views_push, span, span_of, text_is, tview, views, Delim, Token, TokenV,
};

verus! {

/// The depth of open angle brackets after token `k`. In a type (`types`)
/// every `<` opens one; in an expression only a `<` after `::` or inside
/// another pair does. A `>` after `-` is an arrow.
pub open spec fn angle_step(ts: Seq<TokenV>, k: int, depth: nat, types: bool) -> nat {
    if is_punct_v(ts[k], '<') && (types || depth > 0 || (k > 0 && is_punct_v(ts[k - 1], ':'))) {
        depth + 1
    } else if is_punct_v(ts[k], '>') && depth > 0 && !(k > 0 && is_punct_v(ts[k - 1], '-')) {
        (depth - 1) as nat
    } else {
        depth
    }
}

/// The angle-bracket depth after token `k`.
pub fn angle_next(ts: &Vec<Token>, k: usize, depth: usize, types: bool) -> (r: usize)
    requires
        k < ts@.len(),
        depth <= k,
    ensures
        r == angle_step(views(ts@), k as int, depth as nat, types),
        r <= k + 1,
{
    let n = ts.len();
    assert(k < n);
    if is_punct(&ts[k], '<') && (types || depth > 0 || (k > 0 && is_punct(&ts[k - 1], ':'))) {
        depth + 1
    } else if is_punct(&ts[k], '>') && depth > 0 && !(k > 0 && is_punct(&ts[k - 1], '-')) {
        depth - 1
    } else {
        depth
    }
}

/// The runs of `ts[k..]` between top-level commas, after the run `cur` and
/// the runs `acc` already closed.
pub open spec fn split_from(
    ts: Seq<TokenV>,
    k: int,
    depth: nat,
    cur: Seq<TokenV>,
    acc: Seq<Seq<TokenV>>,
) -> Seq<Seq<TokenV>>
    decreases ts.len() - k,
{
    if k < 0 || k >= ts.len() {
        acc.push(cur)
    } else if depth == 0 && is_punct_v(ts[k], ',') {
        split_from(ts, k + 1, 0, Seq::empty(), acc.push(cur))
    } else {
        split_from(ts, k + 1, angle_step(ts, k, depth, false), cur.push(ts[k]), acc)
    }
}

/// The top-level commas of `ts[k..]`, after the commas `seps` already met.
pub open spec fn seps_from(ts: Seq<TokenV>, k: int, depth: nat, seps: Seq<TokenV>) -> Seq<TokenV>
    decreases ts.len() - k,
{
    if k < 0 || k >= ts.len() {
        seps
    } else if depth == 0 && is_punct_v(ts[k], ',') {
        seps_from(ts, k + 1, 0, seps.push(ts[k]))
    } else {
        seps_from(ts, k + 1, angle_step(ts, k, depth, false), seps)
    }
}

/// The commas between the items of `ts`: `list_seps(ts)[i]` stands between
/// items `i` and `i + 1`.
pub open spec fn list_seps(ts: Seq<TokenV>) -> Seq<TokenV> {
    seps_from(ts, 0, 0, Seq::empty())
}

/// The comma-separated items of `ts`; a trailing comma ends the list.
pub open spec fn list_items(ts: Seq<TokenV>) -> Seq<Seq<TokenV>> {
    let p = split_from(ts, 0, 0, Seq::empty(), Seq::empty());
    if p.len() > 1 && p.last().len() == 0 {
        p.drop_last()
    } else {
        p
    }
}

pub open spec fn pieces_view(v: Seq<Vec<Token>>) -> Seq<Seq<TokenV>> {
    Seq::new(v.len(), |i: int| views(v[i]@))
}

proof fn lemma_pieces_push(v: Seq<Vec<Token>>, x: Vec<Token>)
    ensures
        pieces_view(v.push(x)) == pieces_view(v).push(views(x@)),
{
    assert(pieces_view(v.push(x)) =~= pieces_view(v).push(views(x@)));
}

/// Splits `ts` into its comma-separated items and the commas between them.
pub fn split_items(ts: &Vec<Token>) -> (r: (Vec<Vec<Token>>, Vec<Token>))
    ensures
        pieces_view(r.0@) == list_items(views(ts@)),
        views(r.1@) == list_seps(views(ts@)),
        r.0@.len() <= r.1@.len() + 1,
{
    let ghost tv = views(ts@);
    let mut acc: Vec<Vec<Token>> = Vec::new();
    let mut seps: Vec<Token> = Vec::new();
    let mut cur: Vec<Token> = Vec::new();
    let mut depth: usize = 0;
    let mut k: usize = 0;
    proof {
        assert(pieces_view(acc@) =~= Seq::<Seq<TokenV>>::empty());
        assert(views(cur@) =~= Seq::<TokenV>::empty());
        assert(views(seps@) =~= Seq::<TokenV>::empty());
    }
    while k < ts.len()
        invariant
            k <= ts@.len(),
            depth <= k,
            tv == views(ts@),
            acc@.len() == seps@.len(),
            split_from(tv, k as int, depth as nat, views(cur@), pieces_view(acc@)) == split_from(
                tv,
                0,
                0,
                Seq::empty(),
                Seq::empty(),
            ),
            seps_from(tv, k as int, depth as nat, views(seps@)) == list_seps(tv),
        decreases ts@.len() - k,
    {
        if depth == 0 && is_punct(&ts[k], ',') {
            proof {
                lemma_pieces_push(acc@, cur);
            }
            acc.push(cur);
            cur = Vec::new();
            let t = copy_token(&ts[k]);
            proof {
                lemma_views_push(seps@, t);
                assert(views(cur@) =~= Seq::<TokenV>::empty());
            }
            seps.push(t);
        } else {
            let d = angle_next(ts, k, depth, false);
            let t = copy_token(&ts[k]);
            proof {
                lemma_views_push(cur@, t);
            }
            cur.push(t);
            depth = d;
        }
        k = k + 1;
    }
    proof {
        lemma_pieces_push(acc@, cur);
    }
    acc.push(cur);
    let n = acc.len();
    if n > 1 && acc[n - 1].len() == 0 {
        proof {
            assert(pieces_view(acc@).last().len() == 0);
            assert(pieces_view(acc@.drop_last()) =~= pieces_view(acc@).drop_last());
        }
        acc.pop();
    }
    (acc, seps)
}

// ---------------------------------------------------------------------------
// Paths
/// `::` at `i`.
pub open spec fn is_colons(p: Seq<TokenV>, i: int) -> bool {
    0 <= i && i + 1 < p.len() && is_joint_v(p[i], ':') && is_punct_v(p[i + 1], ':')
}

/// The index just after the `>` that closes the angle brackets open at `k`
/// with `depth` levels, if they close.
pub open spec fn angle_end(p: Seq<TokenV>, k: int, depth: nat) -> Option<int>
    decreases p.len() - k,
{
    if k < 0 || k >= p.len() {
        None
    } else {
        let d = angle_step(p, k, depth, true);
        if d == 0 {
            Some(k + 1)
        } else {
            angle_end(p, k + 1, d)
        }
    }
}

proof fn lemma_angle_end_after(p: Seq<TokenV>, k: int, depth: nat)
    ensures
        angle_end(p, k, depth) matches Some(j) ==> k < j <= p.len(),
    decreases p.len() - k,
{
    if 0 <= k < p.len() && angle_step(p, k, depth, true) != 0 {
        lemma_angle_end_after(p, k + 1, angle_step(p, k, depth, true));
    }
}

/// `::<...>` at `i`, closed.
pub open spec fn is_turbofish(p: Seq<TokenV>, i: int) -> bool {
    is_colons(p, i) && i + 2 < p.len() && is_punct_v(p[i + 2], '<') && angle_end(p, i + 2, 0) is Some
}

/// The number of tokens of `(:: ident | ::<...>)*` from `i`.
pub open spec fn path_rest(p: Seq<TokenV>, i: int) -> int
    decreases p.len() - i,
    via path_rest_decreases
{
    if is_colons(p, i) && i + 2 < p.len() && p[i + 2] is Ident {
        3 + path_rest(p, i + 3)
    } else if is_turbofish(p, i) {
        let j = angle_end(p, i + 2, 0)->0;
        (j - i) + path_rest(p, j)
    } else {
        0
    }
}

#[via_fn]
proof fn path_rest_decreases(p: Seq<TokenV>, i: int) {
    lemma_angle_end_after(p, i + 2, 0);
}

/// The number of tokens of the path `::? ident (:: ident | ::<...>)*` that
/// starts at `i`; zero where none starts there.
pub open spec fn path_len(p: Seq<TokenV>, i: int) -> int {
    let lead: int = if is_colons(p, i) {
        2
    } else {
        0
    };
    if 0 <= i && i + lead < p.len() && p[i + lead] is Ident {
        lead + 1 + path_rest(p, i + lead + 1)
    } else {
        0
    }
}

fn colons_at(p: &Vec<Token>, i: usize) -> (r: bool)
    ensures
        r == is_colons(views(p@), i as int),
{
    i < p.len() && p.len() - i > 1 && is_joint(&p[i], ':') && is_punct(&p[i + 1], ':')
}

/// The index just after the `>` that closes the `<` at `k`, if it closes.
fn angle_close(p: &Vec<Token>, k: usize) -> (r: Option<usize>)
    requires
        k < p@.len(),
    ensures
        match r {
            Some(j) => angle_end(views(p@), k as int, 0) == Some(j as int),
            None => angle_end(views(p@), k as int, 0) is None,
        },
{
    let ghost pv = views(p@);
    let mut i: usize = k;
    let mut depth: usize = 0;
    while i < p.len()
        invariant
            pv == views(p@),
            k <= i <= p@.len(),
            depth <= i,
            angle_end(pv, i as int, depth as nat) == angle_end(pv, k as int, 0),
        decreases p@.len() - i,
    {
        let d = angle_next(p, i, depth, true);
        if d == 0 {
            return Some(i + 1);
        }
        depth = d;
        i = i + 1;
    }
    None
}

/// The length of the path that starts at `i`.
pub fn path_length(p: &Vec<Token>, i: usize) -> (r: usize)
    requires
        i <= p@.len(),
    ensures
        r == path_len(views(p@), i as int),
        i + r <= p@.len(),
{
    let ghost pv = views(p@);
    let lead: usize = if colons_at(p, i) {
        2
    } else {
        0
    };
    if p.len() - i > lead && is_any_ident(&p[i + lead]) {
        let start = i + lead + 1;
        let mut j: usize = start;
        let mut done = false;
        while !done
            invariant
                pv == views(p@),
                start <= j <= p@.len(),
                path_rest(pv, start as int) == (j - start) + path_rest(pv, j as int),
                done ==> path_rest(pv, j as int) == 0,
            decreases p@.len() - j + if done {
                0int
            } else {
                1int
            },
        {
            let mut next: Option<usize> = None;
            if colons_at(p, j) && p.len() - j > 2 {
                if is_any_ident(&p[j + 2]) {
                    next = Some(j + 3);
                } else if is_punct(&p[j + 2], '<') {
                    next = angle_close(p, j + 2);
                    proof {
                        lemma_angle_end_after(pv, j + 2, 0);
                    }
                }
            }
            match next {
                Some(e) => {
                    j = e;
                },
                None => {
                    done = true;
                },
            }
        }
        j - i
    } else {
        0
    }
}

// ---------------------------------------------------------------------------
// Entries
/// The value of a configuration: each field absent or holding its tokens.
pub struct ConfigV {
    pub pre: Option<Seq<TokenV>>,
    pub post: Option<Seq<TokenV>>,
    pub transform_params: Option<Seq<TokenV>>,
    pub transform_result: Option<Seq<TokenV>>,
}

pub open spec fn no_config() -> ConfigV {
    ConfigV { pre: None, post: None, transform_params: None, transform_result: None }
}

pub open spec fn config_is_set(c: ConfigV) -> bool {
    c.pre is Some || c.post is Some || c.transform_params is Some || c.transform_result is Some
}

/// The value of a decorator reference.
pub enum RefV {
    Static(Seq<TokenV>),
    SelfPath(Seq<Seq<char>>),
}

/// The value of one entry of the list.
pub struct EntryV {
    pub config: Option<ConfigV>,
    pub reference: RefV,
    pub args: Option<Seq<Seq<TokenV>>>,
}

/// An item of the form `key = ...`, where the `=` does not start `==` or `=>`.
pub open spec fn is_config_item(p: Seq<TokenV>) -> bool {
    &&& p.len() >= 2
    &&& p[0] is Ident
    &&& is_punct_v(p[1], '=')
    &&& !(is_joint_v(p[1], '=') && p.len() > 2 && (is_punct_v(p[2], '=') || is_punct_v(p[2], '>')))
}

/// Whether `key` names a hook, whose value is an expression.
pub open spec fn is_hook_key(key: Seq<char>) -> bool {
    key == "pre"@ || key == "post"@
}

/// `c` with the key token `k` set to `value`, or why the pair is refused. A
/// hook's value has already been read as an expression; a transform's must
/// be a path.
pub open spec fn apply_config(c: ConfigV, k: TokenV, value: Seq<TokenV>) -> Result<ConfigV, ErrV> {
    let key = k->Ident_0;
    let at = span_of(k);
    if key == "pre"@ {
        Ok(
            ConfigV {
                pre: Some(value),
                post: c.post,
                transform_params: c.transform_params,
                transform_result: c.transform_result,
            },
        )
    } else if key == "post"@ {
        Ok(
            ConfigV {
                pre: c.pre,
                post: Some(value),
                transform_params: c.transform_params,
                transform_result: c.transform_result,
            },
        )
    } else if key == "transform_params"@ || key == "transform_result"@ {
        let n = path_len(value, 0);
        if value.len() == 0 {
            Err(err(ErrorKind::ExpectedExpression, at, key))
        } else if n != value.len() {
            Err(err(ErrorKind::ExpectedPath, span_of(value[n]), key))
        } else if key == "transform_params"@ {
            Ok(
                ConfigV {
                    pre: c.pre,
                    post: c.post,
                    transform_params: Some(value),
                    transform_result: c.transform_result,
                },
            )
        } else {
            Ok(
                ConfigV {
                    pre: c.pre,
                    post: c.post,
                    transform_params: c.transform_params,
                    transform_result: Some(value),
                },
            )
        }
    } else {
        Err(err(ErrorKind::UnknownConfigOption, at, key))
    }
}

/// The items `k..m` joined again by the commas that stood between them
/// (`seps[i]` stands between items `i` and `i + 1`).
pub open spec fn glue(items: Seq<Seq<TokenV>>, seps: Seq<TokenV>, k: int, m: int) -> Seq<TokenV>
    decreases m - k,
{
    if m <= k + 1 {
        items[k]
    } else {
        glue(items, seps, k, m - 1) + seq![seps[m - 2]] + items[m - 1]
    }
}

/// A run of tokens that is one Rust expression.
pub open spec fn is_expression_run(r: Seq<TokenV>) -> bool {
    r.len() > 0 && rust_expression(tokens_text(r))
}

/// The smallest `e` from `m` on, up to the number of items, such that items
/// `k..e` joined, without their first `skip` tokens, form one expression.
pub open spec fn expr_end(items: Seq<Seq<TokenV>>, seps: Seq<TokenV>, k: int, m: int, skip: int) -> Option<int>
    decreases items.len() - m,
{
    if m < 0 || m > items.len() {
        None
    } else {
        let g = glue(items, seps, k, m);
        if is_expression_run(g.subrange(skip, g.len() as int)) {
            Some(m)
        } else if m == items.len() {
            None
        } else {
            expr_end(items, seps, k, m + 1, skip)
        }
    }
}

proof fn lemma_expr_end_range(items: Seq<Seq<TokenV>>, seps: Seq<TokenV>, k: int, m: int, skip: int)
    ensures
        expr_end(items, seps, k, m, skip) matches Some(e) ==> m <= e <= items.len(),
    decreases items.len() - m,
{
    if 0 <= m < items.len() {
        lemma_expr_end_range(items, seps, k, m + 1, skip);
    }
}

/// The arguments read from items `k..`, after the arguments `acc`: each is
/// the shortest run of items, from where the last one ended, that forms one
/// expression.
pub open spec fn args_from(
    items: Seq<Seq<TokenV>>,
    seps: Seq<TokenV>,
    k: int,
    acc: Seq<Seq<TokenV>>,
) -> Option<Seq<Seq<TokenV>>>
    decreases items.len() - k,
    via args_from_decreases
{
    if k < 0 || k >= items.len() {
        Some(acc)
    } else {
        match expr_end(items, seps, k, k + 1, 0) {
            None => None,
            Some(e) => args_from(items, seps, e, acc.push(glue(items, seps, k, e))),
        }
    }
}

#[via_fn]
proof fn args_from_decreases(
    items: Seq<Seq<TokenV>>,
    seps: Seq<TokenV>,
    k: int,
    acc: Seq<Seq<TokenV>>,
) {
    lemma_expr_end_range(items, seps, k, k + 1, 0);
}

/// The arguments between the parentheses of a call, or `None` where they do
/// not split into expressions.
pub open spec fn call_args(inner: Seq<TokenV>) -> Option<Seq<Seq<TokenV>>> {
    if inner.len() == 0 {
        Some(Seq::empty())
    } else {
        args_from(list_items(inner), list_seps(inner), 0, Seq::empty())
    }
}

/// The string that the literal written `text` denotes, where `text` is one
/// string literal.
pub uninterp spec fn string_literal_value(text: Seq<char>) -> Option<Seq<char>>;

/// Relies on `syn::parse_str::<syn::LitStr>` and `syn::LitStr::value`: whether
/// `text` is a single string literal, and the string it denotes.
#[verifier::external_body]
fn string_literal(text: &str) -> (r: Option<String>)
    ensures
        match r {
            Some(v) => string_literal_value(text@) == Some(v@),
            None => string_literal_value(text@) is None,
        },
{
    match syn::parse_str::<syn::LitStr>(text) {
        Ok(lit) => Some(lit.value()),
        Err(_) => None,
    }
}

/// The string a token denotes, where it is a string literal.
pub open spec fn str_lit_value(t: TokenV) -> Option<Seq<char>> {
    match t {
        TokenV::Literal(text, _) => string_literal_value(text),
        _ => None,
    }
}

pub open spec fn path_error_kind(e: PathError) -> ErrorKind {
    match e {
        PathError::MalformedSelfPath => ErrorKind::MalformedSelfPath,
        PathError::EmptyPathSegment { .. } => ErrorKind::EmptyPathSegment,
        PathError::InvalidIdentifierSegment { .. } => ErrorKind::InvalidIdentifierSegment,
    }
}

/// The reference at the start of item `p`, and how many tokens it takes.
pub open spec fn reference_head(p: Seq<TokenV>) -> Result<(RefV, int), ErrV> {
    if p.len() == 0 {
        Err(err(ErrorKind::ExpectedDecorator, 0, Seq::empty()))
    } else if let Some(text) = str_lit_value(p[0]) {
        match resolve(text) {
            Ok(fields) => Ok((RefV::SelfPath(fields), 1)),
            Err(e) => Err(err(path_error_kind(e), span_of(p[0]), refused_text(text, e))),
        }
    } else {
        let n = path_len(p, 0);
        if n == 0 {
            Err(err(ErrorKind::ExpectedDecorator, span_of(p[0]), Seq::empty()))
        } else {
            Ok((RefV::Static(p.subrange(0, n)), n))
        }
    }
}

/// An item that names a decorator: its reference and its arguments.
pub open spec fn parse_reference(p: Seq<TokenV>) -> Result<(RefV, Option<Seq<Seq<TokenV>>>), ErrV> {
    match reference_head(p) {
        Err(e) => Err(e),
        Ok((r, n)) => {
            if n == p.len() {
                Ok((r, None))
            } else if n + 1 == p.len() && is_group_v(p[n], Delim::Paren) {
                match call_args(p[n]->Group_1) {
                    Some(a) => Ok((r, Some(a))),
                    None => Err(err(ErrorKind::ExpectedExpression, span_of(p[n]), Seq::empty())),
                }
            } else {
                Err(err(ErrorKind::UnexpectedToken, span_of(p[n]), Seq::empty()))
            }
        },
    }
}

/// The entries of items `k..`, with the configuration `c` pending and the
/// entries `acc` already read. A hook's value runs over as many items as it
/// takes to form one expression.
pub open spec fn entries_from(
    items: Seq<Seq<TokenV>>,
    seps: Seq<TokenV>,
    k: int,
    c: ConfigV,
    acc: Seq<EntryV>,
) -> Result<Seq<EntryV>, ErrV>
    decreases items.len() - k,
    via entries_from_decreases
{
    if k < 0 || k >= items.len() {
        if config_is_set(c) {
            Err(err(ErrorKind::ExpectedDecorator, 0, Seq::empty()))
        } else {
            Ok(acc)
        }
    } else if is_config_item(items[k]) {
        let key = items[k][0]->Ident_0;
        if is_hook_key(key) {
            match expr_end(items, seps, k, k + 1, 2) {
                None => Err(err(ErrorKind::ExpectedExpression, span_of(items[k][0]), key)),
                Some(e) => {
                    let g = glue(items, seps, k, e);
                    match apply_config(c, items[k][0], g.subrange(2, g.len() as int)) {
                        Err(x) => Err(x),
                        Ok(c2) => entries_from(items, seps, e, c2, acc),
                    }
                },
            }
        } else {
            match apply_config(c, items[k][0], items[k].subrange(2, items[k].len() as int)) {
                Err(x) => Err(x),
                Ok(c2) => entries_from(items, seps, k + 1, c2, acc),
            }
        }
    } else {
        match parse_reference(items[k]) {
            Err(x) => Err(x),
            Ok((r, a)) => {
                let e = EntryV {
                    config: if config_is_set(c) {
                        Some(c)
                    } else {
                        None
                    },
                    reference: r,
                    args: a,
                };
                entries_from(items, seps, k + 1, no_config(), acc.push(e))
            },
        }
    }
}

#[via_fn]
proof fn entries_from_decreases(
    items: Seq<Seq<TokenV>>,
    seps: Seq<TokenV>,
    k: int,
    c: ConfigV,
    acc: Seq<EntryV>,
) {
    lemma_expr_end_range(items, seps, k, k + 1, 2);
}

/// The decorator specification written in `ts`.
pub open spec fn parse_list(ts: Seq<TokenV>) -> Result<Seq<EntryV>, ErrV> {
    if ts.len() == 0 {
        Err(err(ErrorKind::NoDecoratorsProvided, 0, Seq::empty()))
    } else {
        entries_from(list_items(ts), list_seps(ts), 0, no_config(), Seq::empty())
    }
}

// ---------------------------------------------------------------------------
// Executable entries
pub open spec fn opt_view(o: Option<Vec<Token>>) -> Option<Seq<TokenV>> {
    match o {
        Some(v) => Some(views(v@)),
        None => None,
    }
}

/// The configuration of one entry.
#[derive(Debug, PartialEq, Eq)]
pub struct Config {
    pub pre: Option<Vec<Token>>,
    pub post: Option<Vec<Token>>,
    pub transform_params: Option<Vec<Token>>,
    pub transform_result: Option<Vec<Token>>,
}

impl Config {
    pub open spec fn view(&self) -> ConfigV {
        ConfigV {
            pre: opt_view(self.pre),
            post: opt_view(self.post),
            transform_params: opt_view(self.transform_params),
            transform_result: opt_view(self.transform_result),
        }
    }

    /// A configuration with every field absent.
    pub fn empty() -> (r: Config)
        ensures
            r.view() == no_config(),
    {
        Config { pre: None, post: None, transform_params: None, transform_result: None }
    }

    /// Whether any field is present.
    pub fn is_set(&self) -> (r: bool)
        ensures
            r == config_is_set(self.view()),
    {
        self.pre.is_some() || self.post.is_some() || self.transform_params.is_some()
            || self.transform_result.is_some()
    }
}

/// What a decorator entry calls.
#[derive(Debug, PartialEq, Eq)]
pub enum DecoratorRef {
    /// A path such as `retry` or `Logger::with_logging`.
    StaticPath(Vec<Token>),
    /// A member-access chain such as `self.logger.log`.
    SelfExpr(SelfPath),
}

impl DecoratorRef {
    pub open spec fn view(&self) -> RefV {
        match self {
            DecoratorRef::StaticPath(p) => RefV::Static(views(p@)),
            DecoratorRef::SelfExpr(s) => RefV::SelfPath(s.view()),
        }
    }
}

/// One entry of a decorator list.
#[derive(Debug, PartialEq, Eq)]
pub struct DecoratorEntry {
    pub config: Option<Config>,
    pub reference: DecoratorRef,
    pub args: Option<Vec<Vec<Token>>>,
}

pub open spec fn args_view(a: Option<Vec<Vec<Token>>>) -> Option<Seq<Seq<TokenV>>> {
    match a {
        Some(v) => Some(pieces_view(v@)),
        None => None,
    }
}

impl DecoratorEntry {
    pub open spec fn view(&self) -> EntryV {
        EntryV {
            config: match self.config {
                Some(c) => Some(c.view()),
                None => None,
            },
            reference: self.reference.view(),
            args: args_view(self.args),
        }
    }
}

pub open spec fn entries_view(v: Seq<DecoratorEntry>) -> Seq<EntryV> {
    Seq::new(v.len(), |i: int| v[i].view())
}

fn is_config_pair(p: &Vec<Token>) -> (r: bool)
    ensures
        r == is_config_item(views(p@)),
{
    p.len() >= 2 && is_any_ident(&p[0]) && is_punct(&p[1], '=') && !(is_joint(&p[1], '=')
        && p.len() > 2 && (is_punct(&p[2], '=') || is_punct(&p[2], '>')))
}

fn key_error(kind: ErrorKind, at: usize, key: &String) -> (r: DecorateError)
    ensures
        r.view() == err(kind, at, key@),
{
    DecorateError { kind, span: at, detail: key.clone() }
}

/// Sets the key `k` of `c` to `value`.
fn apply_pair(c: Config, k: &Token, value: Vec<Token>) -> (r: Result<Config, DecorateError>)
    requires
        tview(*k) is Ident,
    ensures
        match r {
            Ok(c2) => apply_config(c.view(), tview(*k), views(value@)) == Ok::<ConfigV, ErrV>(
                c2.view(),
            ),
            Err(e) => apply_config(c.view(), tview(*k), views(value@)) == Err::<ConfigV, ErrV>(
                e.view(),
            ),
        },
{
    let ghost vv = views(value@);
    let mut c = c;
    let n = value.len();
    let at = span(k);
    let key = match k {
        Token::Ident { text, .. } => text,
        _ => {
            return Err(DecorateError::new(ErrorKind::UnknownConfigOption, at));
        },
    };
    if text_is(key, "pre") {
        c.pre = Some(value);
        Ok(c)
    } else if text_is(key, "post") {
        c.post = Some(value);
        Ok(c)
    } else if text_is(key, "transform_params") || text_is(key, "transform_result") {
        if n == 0 {
            return Err(key_error(ErrorKind::ExpectedExpression, at, key));
        }
        let m = path_length(&value, 0);
        if m != n {
            return Err(key_error(ErrorKind::ExpectedPath, span(&value[m]), key));
        }
        if text_is(key, "transform_params") {
            c.transform_params = Some(value);
        } else {
            c.transform_result = Some(value);
        }
        Ok(c)
    } else {
        Err(key_error(ErrorKind::UnknownConfigOption, at, key))
    }
}

/// The shortest run of items from `k` on that, joined again and without
/// its first `skip` tokens, is one expression: where it ends, and its tokens.
fn find_run(items: &Vec<Vec<Token>>, seps: &Vec<Token>, k: usize, skip: usize) -> (r: Option<
    (usize, Vec<Token>),
>)
    requires
        k < items@.len(),
        items@.len() <= seps@.len() + 1,
        skip <= items@[k as int]@.len(),
    ensures
        match r {
            Some((e, run)) => {
                let g = glue(pieces_view(items@), views(seps@), k as int, e as int);
                &&& k < e <= items@.len()
                &&& expr_end(pieces_view(items@), views(seps@), k as int, k + 1, skip as int)
                    == Some(e as int)
                &&& views(run@) == g.subrange(skip as int, g.len() as int)
            },
            None => expr_end(pieces_view(items@), views(seps@), k as int, k + 1, skip as int)
                is None,
        },
{
    let ghost iv = pieces_view(items@);
    let ghost sv = views(seps@);
    let n = items.len();
    let mut cur = copy_all(&items[k]);
    let mut m: usize = k + 1;
    proof {
        assert(views(cur@) == iv[k as int]);
    }
    loop
        invariant
            iv == pieces_view(items@),
            sv == views(seps@),
            items@.len() <= seps@.len() + 1,
            k < m <= items@.len(),
            n == items@.len(),
            skip <= cur@.len(),
            views(cur@) == glue(iv, sv, k as int, m as int),
            expr_end(iv, sv, k as int, m as int, skip as int) == expr_end(
                iv,
                sv,
                k as int,
                k + 1,
                skip as int,
            ),
        decreases items@.len() - m,
    {
        let run = copy_range(&cur, skip, cur.len());
        if run.len() > 0 && is_expression(&run) {
            return Some((m, run));
        }
        if m == n {
            return None;
        }
        let ghost before = views(cur@);
        let comma = copy_token(&seps[m - 1]);
        proof {
            lemma_views_push(cur@, comma);
        }
        cur.push(comma);
        let next = copy_all(&items[m]);
        append_all(&mut cur, next);
        proof {
            assert(views(cur@) == before.push(sv[m - 1]) + iv[m as int]);
            assert(before.push(sv[m - 1]) + iv[m as int] =~= glue(iv, sv, k as int, m as int) + seq![
                sv[m - 1],
            ] + iv[m as int]);
        }
        m = m + 1;
    }
}

/// Reads the arguments between the parentheses of a call.
fn read_args(inner: &Vec<Token>) -> (r: Option<Vec<Vec<Token>>>)
    ensures
        match r {
            Some(a) => call_args(views(inner@)) == Some(pieces_view(a@)),
            None => call_args(views(inner@)) is None,
        },
{
    if inner.len() == 0 {
        proof {
            assert(pieces_view(Seq::<Vec<Token>>::empty()) =~= Seq::<Seq<TokenV>>::empty());
        }
        return Some(Vec::new());
    }
    let (items, seps) = split_items(inner);
    let ghost iv = pieces_view(items@);
    let ghost sv = views(seps@);
    let mut out: Vec<Vec<Token>> = Vec::new();
    let mut k: usize = 0;
    proof {
        assert(pieces_view(out@) =~= Seq::<Seq<TokenV>>::empty());
    }
    while k < items.len()
        invariant
            iv == pieces_view(items@),
            sv == views(seps@),
            items@.len() <= seps@.len() + 1,
            k <= items@.len(),
            iv == list_items(views(inner@)),
            sv == list_seps(views(inner@)),
            views(inner@).len() > 0,
            args_from(iv, sv, k as int, pieces_view(out@)) == args_from(iv, sv, 0, Seq::empty()),
        decreases items@.len() - k,
    {
        match find_run(&items, &seps, k, 0) {
            None => {
                return None;
            },
            Some((e, run)) => {
                proof {
                    let g = glue(iv, sv, k as int, e as int);
                    assert(g.subrange(0, g.len() as int) =~= g);
                    lemma_pieces_push(out@, run);
                }
                out.push(run);
                k = e;
            },
        }
    }
    Some(out)
}

fn str_lit_text(t: &Token) -> (r: Option<String>)
    ensures
        match r {
            Some(s) => str_lit_value(tview(*t)) == Some(s@),
            None => str_lit_value(tview(*t)) is None,
        },
{
    match t {
        Token::Literal { text, .. } => string_literal(text.as_str()),
        _ => None,
    }
}

fn path_error_to(e: PathError) -> (r: ErrorKind)
    ensures
        r == path_error_kind(e),
{
    match e {
        PathError::MalformedSelfPath => ErrorKind::MalformedSelfPath,
        PathError::EmptyPathSegment { .. } => ErrorKind::EmptyPathSegment,
        PathError::InvalidIdentifierSegment { .. } => ErrorKind::InvalidIdentifierSegment,
    }
}

/// Reads the reference at the start of `p`; returns it and its length.
fn read_head(p: &Vec<Token>) -> (r: Result<(DecoratorRef, usize), DecorateError>)
    ensures
        match r {
            Ok((d, n)) => n <= p@.len() && reference_head(views(p@)) == Ok::<(RefV, int), ErrV>(
                (d.view(), n as int),
            ),
            Err(e) => reference_head(views(p@)) == Err::<(RefV, int), ErrV>(e.view()),
        },
{
    if p.len() == 0 {
        return Err(DecorateError::new(ErrorKind::ExpectedDecorator, 0));
    }
    match str_lit_text(&p[0]) {
        Some(s) => match resolve_self_path(s.as_str()) {
            Ok(sp) => Ok((DecoratorRef::SelfExpr(sp), 1)),
            Err(e) => Err(
                DecorateError {
                    kind: path_error_to(e),
                    span: span(&p[0]),
                    detail: refused_segment(s.as_str(), e),
                },
            ),
        },
        None => {
            let n = path_length(p, 0);
            if n == 0 {
                Err(DecorateError::new(ErrorKind::ExpectedDecorator, span(&p[0])))
            } else {
                let path = copy_range(p, 0, n);
                Ok((DecoratorRef::StaticPath(path), n))
            }
        },
    }
}

/// Reads an item that names a decorator.
fn read_reference(p: &Vec<Token>) -> (r: Result<
    (DecoratorRef, Option<Vec<Vec<Token>>>),
    DecorateError,
>)
    ensures
        match r {
            Ok((d, a)) => parse_reference(views(p@)) == Ok::<
                (RefV, Option<Seq<Seq<TokenV>>>),
                ErrV,
            >((d.view(), args_view(a))),
            Err(e) => parse_reference(views(p@)) == Err::<(RefV, Option<Seq<Seq<TokenV>>>), ErrV>(
                e.view(),
            ),
        },
{
    let ghost pv = views(p@);
    let (d, n) = match read_head(p) {
        Ok(x) => x,
        Err(e) => {
            return Err(e);
        },
    };
    if n == p.len() {
        return Ok((d, None));
    }
    if p.len() - n == 1 {
        match &p[n] {
            Token::Group { delim: Delim::Paren, inner, span: at } => {
                proof {
                    crate::token::lemma_group_view(Delim::Paren, *inner, *at);
                }
                return match read_args(inner) {
                    Some(a) => Ok((d, Some(a))),
                    None => Err(DecorateError::new(ErrorKind::ExpectedExpression, *at)),
                };
            },
            _ => {},
        }
    }
    Err(DecorateError::new(ErrorKind::UnexpectedToken, span(&p[n])))
}

proof fn lemma_entries_push(v: Seq<DecoratorEntry>, e: DecoratorEntry)
    ensures
        entries_view(v.push(e)) == entries_view(v).push(e.view()),
{
    assert(entries_view(v.push(e)) =~= entries_view(v).push(e.view()));
}

/// Parses a decorator list.
///
/// Succeeds exactly when the list is non-empty and every item is well formed;
/// otherwise the first refusal from the left is returned.
pub fn parse_decorators(attr: &Vec<Token>) -> (r: Result<Vec<DecoratorEntry>, DecorateError>)
    ensures
        match r {
            Ok(es) => parse_list(views(attr@)) == Ok::<Seq<EntryV>, ErrV>(entries_view(es@)),
            Err(e) => parse_list(views(attr@)) == Err::<Seq<EntryV>, ErrV>(e.view()),
        },
{
    if attr.len() == 0 {
        return Err(DecorateError::new(ErrorKind::NoDecoratorsProvided, 0));
    }
    let (items, seps) = split_items(attr);
    let ghost iv = pieces_view(items@);
    let ghost sv = views(seps@);
    let mut c = Config::empty();
    let mut out: Vec<DecoratorEntry> = Vec::new();
    let mut k: usize = 0;
    proof {
        assert(entries_view(out@) =~= Seq::<EntryV>::empty());
    }
    while k < items.len()
        invariant
            iv == pieces_view(items@),
            sv == views(seps@),
            items@.len() <= seps@.len() + 1,
            iv == list_items(views(attr@)),
            sv == list_seps(views(attr@)),
            views(attr@).len() > 0,
            k <= iv.len(),
            entries_from(iv, sv, k as int, c.view(), entries_view(out@)) == entries_from(
                iv,
                sv,
                0,
                no_config(),
                Seq::empty(),
            ),
        decreases iv.len() - k,
    {
        let p = &items[k];
        assert(views(p@) == iv[k as int]);
        if is_config_pair(p) {
            let key = &p[0];
            assert(tview(*key) == iv[k as int][0]);
            if is_ident(key, "pre") || is_ident(key, "post") {
                match find_run(&items, &seps, k, 2) {
                    None => {
                        let at = span(key);
                        return match key {
                            Token::Ident { text, .. } => Err(
                                key_error(ErrorKind::ExpectedExpression, at, text),
                            ),
                            _ => Err(DecorateError::new(ErrorKind::ExpectedExpression, at)),
                        };
                    },
                    Some((e, value)) => {
                        match apply_pair(c, key, value) {
                            Ok(c2) => {
                                c = c2;
                            },
                            Err(x) => {
                                return Err(x);
                            },
                        }
                        k = e;
                    },
                }
            } else {
                let value = copy_range(p, 2, p.len());
                match apply_pair(c, key, value) {
                    Ok(c2) => {
                        c = c2;
                    },
                    Err(x) => {
                        return Err(x);
                    },
                }
                k = k + 1;
            }
        } else {
            match read_reference(p) {
                Ok((d, a)) => {
                    let set = c.is_set();
                    let config = if set {
                        Some(c)
                    } else {
                        None
                    };
                    let e = DecoratorEntry { config, reference: d, args: a };
                    proof {
                        lemma_entries_push(out@, e);
                    }
                    out.push(e);
                    c = Config::empty();
                },
                Err(e) => {
                    return Err(e);
                },
            }
            k = k + 1;
        }
    }
    if c.is_set() {
        return Err(DecorateError::new(ErrorKind::ExpectedDecorator, 0));
    }
    Ok(out)
}

} // verus!
