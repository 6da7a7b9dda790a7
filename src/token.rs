//! Token trees: the input and the output of the expansion.
//!
//! A token carries a span number; span `0` stands for the call site and is
//! given to every token that the expansion itself creates.
use vstd::prelude::*;

verus! {

/// The delimiter of a group.
#[derive(Clone, Copy, Debug, PartialEq, Eq, Structural)]
pub enum Delim {
    Paren,
    Bracket,
    Brace,
    Invisible,
}

/// One token tree.
#[derive(Debug, PartialEq, Eq)]
pub enum Token {
    Ident { text: String, span: usize },
    /// `joint` is true when the next punctuation character follows without a space (`::`, `||`).
    Punct { ch: char, joint: bool, span: usize },
    Literal { text: String, span: usize },
    Group { delim: Delim, inner: Vec<Token>, span: usize },
}

/// The mathematical value of a token tree.
pub enum TokenV {
    Ident(Seq<char>, usize),
    Punct(char, bool, usize),
    Literal(Seq<char>, usize),
    Group(Delim, Seq<TokenV>, usize),
}

pub open spec fn tview(t: Token) -> TokenV
    decreases t,
{
    match t {
        Token::Ident { text, span } => TokenV::Ident(text@, span),
        Token::Punct { ch, joint, span } => TokenV::Punct(ch, joint, span),
        Token::Literal { text, span } => TokenV::Literal(text@, span),
        Token::Group { delim, inner, span } => TokenV::Group(
            delim,
            Seq::new(
                inner@.len(),
                |i: int|
                    if 0 <= i < inner@.len() {
                        tview(inner@[i])
                    } else {
                        TokenV::Punct(' ', false, 0)
                    },
            ),
            span,
        ),
    }
}

pub open spec fn views(s: Seq<Token>) -> Seq<TokenV> {
    Seq::new(s.len(), |i: int| tview(s[i]))
}

pub open spec fn span_of(t: TokenV) -> usize {
    match t {
        TokenV::Ident(_, s) => s,
        TokenV::Punct(_, _, s) => s,
        TokenV::Literal(_, s) => s,
        TokenV::Group(_, _, s) => s,
    }
}

pub open spec fn is_ident_v(t: TokenV, s: Seq<char>) -> bool {
    t matches TokenV::Ident(x, _) && x == s
}

pub open spec fn is_punct_v(t: TokenV, c: char) -> bool {
    t matches TokenV::Punct(x, _, _) && x == c
}

/// A punctuation character joined to the next one.
pub open spec fn is_joint_v(t: TokenV, c: char) -> bool {
    t matches TokenV::Punct(x, j, _) && x == c && j
}

pub open spec fn is_group_v(t: TokenV, d: Delim) -> bool {
    t matches TokenV::Group(x, _, _) && x == d
}

/// A token made by the expansion: an identifier at the call site.
pub open spec fn word(s: Seq<char>) -> TokenV {
    TokenV::Ident(s, 0)
}

/// Punctuation made by the expansion.
pub open spec fn mark(c: char) -> TokenV {
    TokenV::Punct(c, false, 0)
}

pub open spec fn brace(inner: Seq<TokenV>) -> TokenV {
    TokenV::Group(Delim::Brace, inner, 0)
}

pub open spec fn paren(inner: Seq<TokenV>) -> TokenV {
    TokenV::Group(Delim::Paren, inner, 0)
}

pub proof fn lemma_group_view(delim: Delim, inner: Vec<Token>, span: usize)
    ensures
        tview(Token::Group { delim, inner, span }) == TokenV::Group(delim, views(inner@), span),
{
    assert(tview(Token::Group { delim, inner, span })->Group_1 =~= views(inner@));
}

pub proof fn lemma_views_push(s: Seq<Token>, t: Token)
    ensures
        views(s.push(t)) == views(s).push(tview(t)),
{
    assert(views(s.push(t)) =~= views(s).push(tview(t)));
}

pub proof fn lemma_views_add(s: Seq<Token>, u: Seq<Token>)
    ensures
        views(s + u) == views(s) + views(u),
{
    assert(views(s + u) =~= views(s) + views(u));
}

/// Whether `s` holds exactly the characters of `lit`.
pub fn text_is(s: &String, lit: &str) -> (r: bool)
    ensures
        r == (s@ == lit@),
{
    let other: String = lit.to_owned();
    *s == other
}

/// Whether `t` is the punctuation character `c`.
pub fn is_punct(t: &Token, c: char) -> (r: bool)
    ensures
        r == is_punct_v(tview(*t), c),
{
    match t {
        Token::Punct { ch, .. } => *ch == c,
        _ => false,
    }
}

/// Whether `t` is the punctuation character `c`, joined to the next one.
pub fn is_joint(t: &Token, c: char) -> (r: bool)
    ensures
        r == is_joint_v(tview(*t), c),
{
    match t {
        Token::Punct { ch, joint, .. } => *ch == c && *joint,
        _ => false,
    }
}

/// Whether `t` is an identifier.
pub fn is_any_ident(t: &Token) -> (r: bool)
    ensures
        r == (tview(*t) is Ident),
{
    match t {
        Token::Ident { .. } => true,
        _ => false,
    }
}

/// Whether `t` is the identifier `lit`.
pub fn is_ident(t: &Token, lit: &str) -> (r: bool)
    ensures
        r == is_ident_v(tview(*t), lit@),
{
    match t {
        Token::Ident { text, .. } => text_is(text, lit),
        _ => false,
    }
}

/// Whether `t` is a group with delimiter `d`.
pub fn is_group(t: &Token, d: Delim) -> (r: bool)
    ensures
        r == is_group_v(tview(*t), d),
{
    match t {
        Token::Group { delim, .. } => *delim == d,
        _ => false,
    }
}

/// The span number of `t`.
pub fn span(t: &Token) -> (r: usize)
    ensures
        r == span_of(tview(*t)),
{
    match t {
        Token::Ident { span, .. } => *span,
        Token::Punct { span, .. } => *span,
        Token::Literal { span, .. } => *span,
        Token::Group { span, .. } => *span,
    }
}

/// A deep copy of a token tree.
pub fn copy_token(t: &Token) -> (r: Token)
    ensures
        tview(r) == tview(*t),
    decreases *t,
{
    match t {
        Token::Ident { text, span } => Token::Ident { text: text.clone(), span: *span },
        Token::Punct { ch, joint, span } => Token::Punct { ch: *ch, joint: *joint, span: *span },
        Token::Literal { text, span } => Token::Literal { text: text.clone(), span: *span },
        Token::Group { delim, inner, span } => {
            let mut out: Vec<Token> = Vec::new();
            let mut i: usize = 0;
            while i < inner.len()
                invariant
                    *t is Group,
                    t->inner == *inner,
                    i <= inner@.len(),
                    views(out@) == views(inner@.subrange(0, i as int)),
                decreases inner@.len() - i,
            {
                proof {
                    assert(decreases_to!(*t => t->inner));
                    assert(decreases_to!(*inner => inner@[i as int]));
                    assert(decreases_to!(*t => inner@[i as int]));
                }
                let c = copy_token(&inner[i]);
                proof {
                    lemma_views_push(out@, c);
                    assert(inner@.subrange(0, i + 1) =~= inner@.subrange(0, i as int).push(
                        inner@[i as int],
                    ));
                    lemma_views_push(inner@.subrange(0, i as int), inner@[i as int]);
                }
                out.push(c);
                i = i + 1;
            }
            proof {
                assert(inner@.subrange(0, i as int) =~= inner@);
                lemma_group_view(*delim, out, *span);
                lemma_group_view(*delim, *inner, *span);
            }
            Token::Group { delim: *delim, inner: out, span: *span }
        },
    }
}

/// A copy of the tokens `v[lo..hi]`.
pub fn copy_range(v: &Vec<Token>, lo: usize, hi: usize) -> (r: Vec<Token>)
    requires
        lo <= hi <= v@.len(),
    ensures
        views(r@) == views(v@).subrange(lo as int, hi as int),
{
    let mut out: Vec<Token> = Vec::new();
    let mut i: usize = lo;
    while i < hi
        invariant
            lo <= i <= hi <= v@.len(),
            views(out@) == views(v@).subrange(lo as int, i as int),
        decreases hi - i,
    {
        let c = copy_token(&v[i]);
        proof {
            lemma_views_push(out@, c);
            assert(views(v@).subrange(lo as int, i + 1) =~= views(v@).subrange(
                lo as int,
                i as int,
            ).push(tview(v@[i as int])));
        }
        out.push(c);
        i = i + 1;
    }
    out
}

/// A copy of all the tokens of `v`.
pub fn copy_all(v: &Vec<Token>) -> (r: Vec<Token>)
    ensures
        views(r@) == views(v@),
{
    let r = copy_range(v, 0, v.len());
    proof {
        assert(views(v@).subrange(0, v@.len() as int) =~= views(v@));
    }
    r
}

/// A new identifier at the call site.
pub fn make_ident(s: &str) -> (r: Token)
    ensures
        tview(r) == word(s@),
{
    Token::Ident { text: s.to_owned(), span: 0 }
}

/// New punctuation at the call site.
pub fn make_punct(c: char, joint: bool) -> (r: Token)
    ensures
        tview(r) == TokenV::Punct(c, joint, 0),
{
    Token::Punct { ch: c, joint, span: 0 }
}

/// A new group at the call site around `inner`.
pub fn make_group(delim: Delim, inner: Vec<Token>) -> (r: Token)
    ensures
        tview(r) == TokenV::Group(delim, views(inner@), 0),
{
    proof {
        lemma_group_view(delim, inner, 0);
    }
    Token::Group { delim, inner, span: 0 }
}

/// Moves the tokens of `b` to the end of `a`.
pub fn append_all(a: &mut Vec<Token>, b: Vec<Token>)
    ensures
        views(final(a)@) == views(old(a)@) + views(b@),
{
    let mut b = b;
    proof {
        lemma_views_add(old(a)@, b@);
    }
    a.append(&mut b);
}

} // verus!
