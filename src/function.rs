//! The function validator: reads what the expansion needs from the decorated
//! item and refuses what cannot be wrapped.
use vstd::prelude::*;
use crate::error::{err, DecorateError, ErrV, ErrorKind};
use crate::path::strings_view;
use crate::syntax::{function_shape, read_function, shape_view, tokens_text};
use crate::token::{is_group, is_group_v, is_ident, is_ident_v, span, span_of, views, Delim, Token, TokenV};

verus! {

/// The first index in `k..end` of the identifier `w`.
pub open spec fn find_word(ts: Seq<TokenV>, w: Seq<char>, k: int, end: int) -> Option<int>
    decreases end - k,
{
    if k < 0 || k >= end || k >= ts.len() {
        None
    } else if is_ident_v(ts[k], w) {
        Some(k)
    } else {
        find_word(ts, w, k + 1, end)
    }
}

/// The names bound by the parameters whose pattern is an identifier, in
/// order; receivers and other patterns bind none here.
pub open spec fn bound_names(ps: Seq<Option<Seq<char>>>) -> Seq<Seq<char>>
    decreases ps.len(),
{
    if ps.len() == 0 {
        Seq::empty()
    } else {
        bound_names(ps.drop_last()) + match ps.last() {
            Some(n) => seq![n],
            None => Seq::empty(),
        }
    }
}

/// What the expansion needs to know of a function.
pub struct FnShapeV {
    pub is_async: bool,
    pub params: Seq<Seq<char>>,
}

/// The span of the `const` qualifier of `item`: its first `const` word
/// outside groups before the body.
pub open spec fn const_span(item: Seq<TokenV>) -> usize {
    let sig = item.drop_last();
    match find_word(sig, "const"@, 0, sig.len() as int) {
        Some(c) => span_of(sig[c]),
        None => 0,
    }
}

/// The shape of the function `item`, given what syn read from it (`shape`),
/// or why it cannot be decorated. The item must be a function ending in its
/// body block; a `const` function is refused.
pub open spec fn analyze_given(
    item: Seq<TokenV>,
    shape: Option<(bool, bool, Seq<Option<Seq<char>>>)>,
) -> Result<FnShapeV, ErrV> {
    match shape {
        None => Err(err(ErrorKind::NotAFunction, 0, Seq::empty())),
        Some((is_const, is_async, params)) => {
            if item.len() == 0 || !is_group_v(item.last(), Delim::Brace) {
                Err(err(ErrorKind::NotAFunction, 0, Seq::empty()))
            } else if is_const {
                Err(err(ErrorKind::ConstFunctionNotSupported, const_span(item), Seq::empty()))
            } else {
                Ok(FnShapeV { is_async, params: bound_names(params) })
            }
        },
    }
}

/// The shape of the function `item`, or why it cannot be decorated.
pub open spec fn analyze(item: Seq<TokenV>) -> Result<FnShapeV, ErrV> {
    analyze_given(item, function_shape(tokens_text(item)))
}

/// What the expansion needs to know of a function.
#[derive(Clone, Debug, PartialEq, Eq)]
pub struct FnShape {
    /// The function is `async`.
    pub is_async: bool,
    /// The names of its identifier-bound parameters, in order.
    pub params: Vec<String>,
}

impl FnShape {
    pub open spec fn view(&self) -> FnShapeV {
        FnShapeV { is_async: self.is_async, params: strings_view(self.params@) }
    }
}

fn find_ident(ts: &Vec<Token>, w: &str, end: usize) -> (r: Option<usize>)
    requires
        end <= ts@.len(),
    ensures
        match r {
            Some(k) => find_word(views(ts@), w@, 0, end as int) == Some(k as int),
            None => find_word(views(ts@), w@, 0, end as int) is None,
        },
{
    let ghost tv = views(ts@);
    let mut k: usize = 0;
    while k < end
        invariant
            k <= end <= ts@.len(),
            tv == views(ts@),
            find_word(tv, w@, k as int, end as int) == find_word(tv, w@, 0, end as int),
        decreases end - k,
    {
        if is_ident(&ts[k], w) {
            return Some(k);
        }
        k = k + 1;
    }
    None
}

/// Reads the shape of the function `item`, given what syn read from it:
/// whether it is `const`, whether it is `async`, and the name bound by each
/// parameter whose pattern is an identifier. Refuses a `const` function.
pub fn analyze_shape(item: &Vec<Token>, shape: Option<(bool, bool, Vec<Option<String>>)>) -> (r:
    Result<FnShape, DecorateError>)
    ensures
        match r {
            Ok(s) => analyze_given(views(item@), shape_view(shape)) == Ok::<FnShapeV, ErrV>(
                s.view(),
            ),
            Err(e) => analyze_given(views(item@), shape_view(shape)) == Err::<FnShapeV, ErrV>(
                e.view(),
            ),
        },
{
    let ghost iv = views(item@);
    let ghost sv = shape_view(shape);
    let (is_const, is_async, params) = match shape {
        None => {
            return Err(DecorateError::new(ErrorKind::NotAFunction, 0));
        },
        Some(x) => x,
    };
    let n = item.len();
    if n == 0 || !is_group(&item[n - 1], Delim::Brace) {
        return Err(DecorateError::new(ErrorKind::NotAFunction, 0));
    }
    if is_const {
        let m = n - 1;
        let ghost sig = iv.drop_last();
        proof {
            assert(sig =~= iv.subrange(0, m as int));
            lemma_find_word_prefix(sig, iv, "const"@, 0, m as int);
            lemma_find_word_range(iv, "const"@, 0, m as int);
        }
        let at = match find_ident(item, "const", m) {
            Some(c) => span(&item[c]),
            None => 0,
        };
        return Err(DecorateError::new(ErrorKind::ConstFunctionNotSupported, at));
    }
    let ghost pv = Seq::new(params@.len(), |i: int| crate::syntax::opt_string_view(params@[i]));
    let mut names: Vec<String> = Vec::new();
    let mut i: usize = 0;
    proof {
        assert(pv.subrange(0, 0) =~= Seq::<Option<Seq<char>>>::empty());
        assert(strings_view(names@) =~= Seq::<Seq<char>>::empty());
    }
    while i < params.len()
        invariant
            i <= params@.len(),
            pv == Seq::new(params@.len(), |i: int| crate::syntax::opt_string_view(params@[i])),
            strings_view(names@) == bound_names(pv.subrange(0, i as int)),
        decreases params@.len() - i,
    {
        let ghost before = strings_view(names@);
        proof {
            let next = pv.subrange(0, i + 1);
            assert(next.drop_last() =~= pv.subrange(0, i as int));
            assert(next.last() == pv[i as int]);
        }
        match &params[i] {
            Some(name) => {
                let name = name.clone();
                proof {
                    assert(strings_view(names@.push(name)) =~= before + seq![name@]);
                }
                names.push(name);
            },
            None => {
                proof {
                    assert(before + Seq::<Seq<char>>::empty() =~= before);
                }
            },
        }
        i = i + 1;
    }
    proof {
        assert(pv.subrange(0, i as int) =~= pv);
    }
    Ok(FnShape { is_async, params: names })
}

/// Reads the shape of the function `item`, refusing a `const` function.
pub fn analyze_function(item: &Vec<Token>) -> (r: Result<FnShape, DecorateError>)
    ensures
        match r {
            Ok(s) => analyze(views(item@)) == Ok::<FnShapeV, ErrV>(s.view()),
            Err(e) => analyze(views(item@)) == Err::<FnShapeV, ErrV>(e.view()),
        },
{
    let shape = read_function(item);
    analyze_shape(item, shape)
}

proof fn lemma_find_word_prefix(
    sig: Seq<TokenV>,
    iv: Seq<TokenV>,
    w: Seq<char>,
    k: int,
    end: int,
)
    requires
        0 <= end <= sig.len() <= iv.len(),
        sig =~= iv.subrange(0, sig.len() as int),
    ensures
        find_word(sig, w, k, end) == find_word(iv, w, k, end),
    decreases end - k,
{
    if 0 <= k < end {
        lemma_find_word_prefix(sig, iv, w, k + 1, end);
    }
}

proof fn lemma_find_word_range(ts: Seq<TokenV>, w: Seq<char>, k: int, end: int)
    ensures
        find_word(ts, w, k, end) matches Some(j) ==> k <= j < end && j < ts.len() && is_ident_v(
            ts[j],
            w,
        ),
    decreases end - k,
{
    if 0 <= k < end && k < ts.len() && !is_ident_v(ts[k], w) {
        lemma_find_word_range(ts, w, k + 1, end);
    }
}

} // verus!
