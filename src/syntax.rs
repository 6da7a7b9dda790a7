//! Rust syntax checks on token runs: the tokens are written out as text and
//! handed to syn's parser.
use vstd::prelude::*;
use crate::token::{tview, views, Delim, Token, TokenV};

verus! {

/// Whether `text` is one Rust expression, as syn reads it.
pub uninterp spec fn rust_expression(text: Seq<char>) -> bool;

/// What syn reads from `text` as one Rust function item: whether it is
/// `const`, whether it is `async`, and for each parameter the name it binds
/// where its pattern is an identifier pattern (`x`, `mut x`, `ref x`,
/// `x @ ..`); `None` where `text` is not one function item.
pub uninterp spec fn function_shape(text: Seq<char>) -> Option<(bool, bool, Seq<Option<Seq<char>>>)>;

/// Relies on `syn::parse_str::<syn::Expr>`: whether `text` parses as a
/// single expression.
#[verifier::external_body]
fn parses_as_expression(text: &str) -> (r: bool)
    ensures
        r == rust_expression(text@),
{
    syn::parse_str::<syn::Expr>(text).is_ok()
}

/// Relies on `syn::parse_str::<syn::ItemFn>`: whether `text` parses as a
/// single function item, and then its `constness`, its `asyncness` and, for
/// each of its inputs, the identifier of a `Pat::Ident` pattern.
#[verifier::external_body]
fn parse_function(text: &str) -> (r: Option<(bool, bool, Vec<Option<String>>)>)
    ensures
        function_shape(text@) == shape_view(r),
{
    let f = match syn::parse_str::<syn::ItemFn>(text) {
        Ok(f) => f,
        Err(_) => return None,
    };
    let mut params = Vec::new();
    for input in f.sig.inputs.iter() {
        params.push(match input {
            syn::FnArg::Typed(t) => match &*t.pat {
                syn::Pat::Ident(p) => Some(p.ident.to_string()),
                _ => None,
            },
            syn::FnArg::Receiver(_) => None,
        });
    }
    Some((f.sig.constness.is_some(), f.sig.asyncness.is_some(), params))
}

pub open spec fn opt_string_view(o: Option<String>) -> Option<Seq<char>> {
    match o {
        Some(s) => Some(s@),
        None => None,
    }
}

/// The value of what a function item was read as.
pub open spec fn shape_view(o: Option<(bool, bool, Vec<Option<String>>)>) -> Option<
    (bool, bool, Seq<Option<Seq<char>>>),
> {
    match o {
        Some((c, a, ps)) => Some((c, a, Seq::new(ps@.len(), |i: int| opt_string_view(ps@[i])))),
        None => None,
    }
}

/// Relies on `<char as ToString>::to_string`: the string of the one character `c`.
#[verifier::external_body]
fn char_string(c: char) -> (r: String)
    ensures
        r@ == seq![c],
{
    c.to_string()
}

pub open spec fn open_text(d: Delim) -> Seq<char> {
    match d {
        Delim::Paren => seq!['(', ' '],
        Delim::Bracket => seq!['[', ' '],
        Delim::Brace => seq!['{', ' '],
        Delim::Invisible => Seq::empty(),
    }
}

pub open spec fn close_text(d: Delim) -> Seq<char> {
    match d {
        Delim::Paren => seq![')', ' '],
        Delim::Bracket => seq![']', ' '],
        Delim::Brace => seq!['}', ' '],
        Delim::Invisible => Seq::empty(),
    }
}

/// The text of a token tree: each token followed by a space, except a
/// punctuation character joined to the next one.
pub open spec fn token_text(t: TokenV) -> Seq<char>
    decreases t,
{
    match t {
        TokenV::Ident(s, _) => s + seq![' '],
        TokenV::Literal(s, _) => s + seq![' '],
        TokenV::Punct(c, j, _) => if j {
            seq![c]
        } else {
            seq![c, ' ']
        },
        TokenV::Group(d, inner, _) => open_text(d) + tokens_text(inner) + close_text(d),
    }
}

/// The text of a run of tokens.
pub open spec fn tokens_text(ts: Seq<TokenV>) -> Seq<char>
    decreases ts,
{
    if ts.len() == 0 {
        Seq::empty()
    } else {
        tokens_text(ts.drop_last()) + token_text(ts.last())
    }
}

fn open_str(d: Delim) -> (r: &'static str)
    ensures
        r@ == open_text(d),
{
    match d {
        Delim::Paren => {
            proof {
                reveal_strlit("( ");
            }
            "( "
        },
        Delim::Bracket => {
            proof {
                reveal_strlit("[ ");
            }
            "[ "
        },
        Delim::Brace => {
            proof {
                reveal_strlit("{ ");
            }
            "{ "
        },
        Delim::Invisible => {
            proof {
                reveal_strlit("");
            }
            ""
        },
    }
}

fn close_str(d: Delim) -> (r: &'static str)
    ensures
        r@ == close_text(d),
{
    match d {
        Delim::Paren => {
            proof {
                reveal_strlit(") ");
            }
            ") "
        },
        Delim::Bracket => {
            proof {
                reveal_strlit("] ");
            }
            "] "
        },
        Delim::Brace => {
            proof {
                reveal_strlit("} ");
            }
            "} "
        },
        Delim::Invisible => {
            proof {
                reveal_strlit("");
            }
            ""
        },
    }
}

fn append_space(out: &mut String)
    ensures
        final(out)@ == old(out)@ + seq![' '],
{
    proof {
        reveal_strlit(" ");
    }
    out.append(" ");
}

/// Appends the text of `t` to `out`.
fn write_token(t: &Token, out: &mut String)
    ensures
        final(out)@ == old(out)@ + token_text(tview(*t)),
    decreases *t,
{
    match t {
        Token::Ident { text, .. } => {
            out.append(text.as_str());
            append_space(out);
            proof {
                assert(final(out)@ =~= old(out)@ + token_text(tview(*t)));
            }
        },
        Token::Literal { text, .. } => {
            out.append(text.as_str());
            append_space(out);
            proof {
                assert(final(out)@ =~= old(out)@ + token_text(tview(*t)));
            }
        },
        Token::Punct { ch, joint, .. } => {
            let s = char_string(*ch);
            out.append(s.as_str());
            if !*joint {
                append_space(out);
            }
            proof {
                if *joint {
                    assert(final(out)@ =~= old(out)@ + token_text(tview(*t)));
                } else {
                    assert(final(out)@ =~= old(out)@ + token_text(tview(*t)));
                }
            }
        },
        Token::Group { delim, inner, span } => {
            let ghost start = out@;
            let ghost iv = views(inner@);
            out.append(open_str(*delim));
            let mut i: usize = 0;
            proof {
                assert(iv.subrange(0, 0) =~= Seq::<TokenV>::empty());
                assert(out@ =~= start + open_text(*delim) + tokens_text(iv.subrange(0, 0)));
            }
            while i < inner.len()
                invariant
                    *t is Group,
                    t->inner == *inner,
                    iv == views(inner@),
                    i <= inner@.len(),
                    out@ == start + open_text(*delim) + tokens_text(iv.subrange(0, i as int)),
                decreases inner@.len() - i,
            {
                proof {
                    assert(decreases_to!(*t => t->inner));
                    assert(decreases_to!(*inner => inner@[i as int]));
                    assert(decreases_to!(*t => inner@[i as int]));
                }
                write_token(&inner[i], out);
                proof {
                    let next = iv.subrange(0, i + 1);
                    assert(next.drop_last() =~= iv.subrange(0, i as int));
                    assert(next.last() == tview(inner@[i as int]));
                    assert(out@ =~= start + open_text(*delim) + tokens_text(next));
                }
                i = i + 1;
            }
            out.append(close_str(*delim));
            proof {
                crate::token::lemma_group_view(*delim, *inner, *span);
                assert(iv.subrange(0, i as int) =~= iv);
                assert(out@ =~= start + token_text(tview(*t)));
            }
        },
    }
}

/// The text of the tokens `ts`.
pub fn text_of(ts: &Vec<Token>) -> (r: String)
    ensures
        r@ == tokens_text(views(ts@)),
{
    let ghost tv = views(ts@);
    let mut out = String::new();
    let mut i: usize = 0;
    proof {
        assert(tv.subrange(0, 0) =~= Seq::<TokenV>::empty());
    }
    while i < ts.len()
        invariant
            tv == views(ts@),
            i <= ts@.len(),
            out@ == tokens_text(tv.subrange(0, i as int)),
        decreases ts@.len() - i,
    {
        write_token(&ts[i], &mut out);
        proof {
            let next = tv.subrange(0, i + 1);
            assert(next.drop_last() =~= tv.subrange(0, i as int));
            assert(next.last() == tview(ts@[i as int]));
        }
        i = i + 1;
    }
    proof {
        assert(tv.subrange(0, i as int) =~= tv);
    }
    out
}

/// Whether the tokens `ts` form one Rust expression.
pub fn is_expression(ts: &Vec<Token>) -> (r: bool)
    ensures
        r == rust_expression(tokens_text(views(ts@))),
{
    let text = text_of(ts);
    parses_as_expression(text.as_str())
}

/// What syn reads from the tokens `ts` as one function item.
pub fn read_function(ts: &Vec<Token>) -> (r: Option<(bool, bool, Vec<Option<String>>)>)
    ensures
        shape_view(r) == function_shape(tokens_text(views(ts@))),
{
    let text = text_of(ts);
    parse_function(text.as_str())
}

} // verus!
