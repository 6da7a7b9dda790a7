//! The path resolver: a string `self.a.b` becomes a chain of member accesses
//! rooted at the receiver.
use vstd::prelude::*;
use crate::token::{lemma_views_push, make_ident, make_punct, mark, text_is, views, word, Token, TokenV};

verus! {

/// What `char::is_alphabetic` returns for `c`.
pub uninterp spec fn alphabetic(c: char) -> bool;

/// What `char::is_alphanumeric` returns for `c`.
pub uninterp spec fn alphanumeric(c: char) -> bool;

/// A letter: among ASCII characters exactly `a-z` and `A-Z`; elsewhere what
/// std calls alphabetic.
pub open spec fn is_letter(c: char) -> bool {
    if (c as u32) < 128 {
        (97 <= (c as u32) <= 122) || (65 <= (c as u32) <= 90)
    } else {
        alphabetic(c)
    }
}

/// A letter or a digit: among ASCII characters exactly `a-z`, `A-Z` and
/// `0-9`; elsewhere what std calls alphabetic or alphanumeric.
pub open spec fn is_letter_or_digit(c: char) -> bool {
    if (c as u32) < 128 {
        is_letter(c) || (48 <= (c as u32) <= 57)
    } else {
        alphabetic(c) || alphanumeric(c)
    }
}

/// Relies on `char::is_alphabetic`: whether `c` has the Unicode Alphabetic
/// property, which among ASCII characters holds of `a-z` and `A-Z` alone.
#[verifier::external_body]
fn char_is_alphabetic(c: char) -> (r: bool)
    ensures
        r == alphabetic(c),
        r == is_letter(c),
{
    c.is_alphabetic()
}

/// Relies on `char::is_alphanumeric`: whether `c` is alphabetic or numeric,
/// which among ASCII characters holds of `a-z`, `A-Z` and `0-9` alone.
#[verifier::external_body]
fn char_is_alphanumeric(c: char) -> (r: bool)
    ensures
        r == alphanumeric(c),
        r == is_letter_or_digit(c),
{
    c.is_alphanumeric()
}

/// Identifier syntax: a letter or `_`, then letters, digits or `_`.
pub open spec fn is_identifier(s: Seq<char>) -> bool {
    &&& s.len() > 0
    &&& s[0] == '_' || is_letter(s[0])
    &&& forall|i: int| 1 <= i < s.len() ==> #[trigger] s[i] == '_' || is_letter_or_digit(s[i])
}

/// The pieces of `s` between dots; there is always at least one.
pub open spec fn split_dots(s: Seq<char>) -> Seq<Seq<char>>
    decreases s.len(),
{
    if s.len() == 0 {
        seq![Seq::empty()]
    } else {
        let prev = split_dots(s.drop_last());
        if s.last() == '.' {
            prev.push(Seq::empty())
        } else {
            prev.update(prev.len() - 1, prev.last().push(s.last()))
        }
    }
}

/// The pieces joined again, with a dot between each two.
pub open spec fn join_dots(segs: Seq<Seq<char>>) -> Seq<char>
    decreases segs.len(),
{
    if segs.len() <= 1 {
        if segs.len() == 1 {
            segs[0]
        } else {
            Seq::empty()
        }
    } else {
        join_dots(segs.drop_last()) + seq!['.'] + segs.last()
    }
}

/// Why a self-path was refused.
#[derive(Clone, Copy, Debug, PartialEq, Eq, Structural)]
pub enum PathError {
    /// The first segment is not `self`.
    MalformedSelfPath,
    /// The segment at `index` is empty.
    EmptyPathSegment { index: usize },
    /// The segment at `index` is not an identifier.
    InvalidIdentifierSegment { index: usize },
}

/// The first refusal among the segments from `k` on.
pub open spec fn check_segments(segs: Seq<Seq<char>>, k: int) -> Option<PathError>
    decreases segs.len() - k,
{
    if k < 0 || k >= segs.len() {
        None
    } else if segs[k].len() == 0 {
        Some(PathError::EmptyPathSegment { index: k as usize })
    } else if !is_identifier(segs[k]) {
        Some(PathError::InvalidIdentifierSegment { index: k as usize })
    } else {
        check_segments(segs, k + 1)
    }
}

/// The fields accessed after the receiver, or why `s` is no self-path.
pub open spec fn resolve(s: Seq<char>) -> Result<Seq<Seq<char>>, PathError> {
    let segs = split_dots(s);
    if segs[0] != "self"@ {
        Err(PathError::MalformedSelfPath)
    } else {
        match check_segments(segs, 1) {
            Some(e) => Err(e),
            None => Ok(segs.drop_first()),
        }
    }
}

/// The text of the member-access chain `self.f1.f2...`.
pub open spec fn self_path_text(fields: Seq<Seq<char>>) -> Seq<char> {
    join_dots(seq!["self"@] + fields)
}

/// The tokens `self . f1 . f2 ...`.
pub open spec fn self_path_tokens(fields: Seq<Seq<char>>) -> Seq<TokenV>
    decreases fields.len(),
{
    if fields.len() == 0 {
        seq![word("self"@)]
    } else {
        self_path_tokens(fields.drop_last()) + seq![mark('.'), word(fields.last())]
    }
}

/// A member-access chain rooted at the receiver: `self` followed by `fields`.
#[derive(Clone, Debug, PartialEq, Eq)]
pub struct SelfPath {
    pub fields: Vec<String>,
}

pub open spec fn strings_view(v: Seq<String>) -> Seq<Seq<char>> {
    Seq::new(v.len(), |i: int| v[i]@)
}

impl SelfPath {
    pub open spec fn view(&self) -> Seq<Seq<char>> {
        strings_view(self.fields@)
    }

    /// The tokens of the member-access chain.
    pub fn to_tokens(&self) -> (r: Vec<Token>)
        ensures
            views(r@) == self_path_tokens(self.view()),
    {
        let mut out: Vec<Token> = Vec::new();
        out.push(make_ident("self"));
        let mut i: usize = 0;
        proof {
            assert(self.view().subrange(0, 0) =~= Seq::<Seq<char>>::empty());
            assert(views(out@) =~= seq![word("self"@)]);
        }
        while i < self.fields.len()
            invariant
                i <= self.fields@.len(),
                views(out@) == self_path_tokens(self.view().subrange(0, i as int)),
            decreases self.fields@.len() - i,
        {
            let dot = make_punct('.', false);
            let name = Token::Ident { text: self.fields[i].clone(), span: 0 };
            proof {
                let f = self.view().subrange(0, i + 1);
                assert(f.drop_last() =~= self.view().subrange(0, i as int));
                lemma_views_push(out@, dot);
                lemma_views_push(out@.push(dot), name);
            }
            out.push(dot);
            out.push(name);
            proof {
                let f = self.view().subrange(0, i + 1);
                assert(views(out@) =~= self_path_tokens(f));
            }
            i = i + 1;
        }
        proof {
            assert(self.view().subrange(0, i as int) =~= self.view());
        }
        out
    }
}

proof fn lemma_split_nonempty(s: Seq<char>)
    ensures
        split_dots(s).len() >= 1,
    decreases s.len(),
{
    if s.len() > 0 {
        lemma_split_nonempty(s.drop_last());
    }
}

proof fn lemma_join_split(s: Seq<char>)
    ensures
        join_dots(split_dots(s)) == s,
    decreases s.len(),
{
    if s.len() > 0 {
        let t = s.drop_last();
        lemma_join_split(t);
        lemma_split_nonempty(t);
        let prev = split_dots(t);
        if s.last() == '.' {
            assert(prev.push(Seq::empty()).drop_last() =~= prev);
            assert(t + seq!['.'] + Seq::<char>::empty() =~= s);
        } else {
            let next = prev.update(prev.len() - 1, prev.last().push(s.last()));
            if prev.len() == 1 {
                assert(next[0] =~= s);
            } else {
                assert(next.drop_last() =~= prev.drop_last());
                assert(join_dots(next) =~= join_dots(prev) + seq![s.last()]);
                assert(t + seq![s.last()] =~= s);
            }
        }
    }
}

/// Resolving a self-path and writing it out again gives back the same text,
/// so a second resolution of that text yields the very same chain.
pub proof fn lemma_resolve_round_trip(s: Seq<char>)
    requires
        resolve(s) is Ok,
    ensures
        self_path_text(resolve(s)->Ok_0) == s,
        resolve(self_path_text(resolve(s)->Ok_0)) == resolve(s),
{
    let segs = split_dots(s);
    lemma_split_nonempty(s);
    lemma_join_split(s);
    assert(seq!["self"@] + segs.drop_first() =~= segs);
}

/// A path whose first segment is not `self` is malformed; otherwise the
/// first empty segment after it, with only identifiers before it, is refused
/// as empty.
pub proof fn lemma_self_path_refusals(s: Seq<char>, k: int)
    ensures
        split_dots(s)[0] != "self"@ ==> resolve(s) == Err::<Seq<Seq<char>>, PathError>(
            PathError::MalformedSelfPath,
        ),
        ({
            let segs = split_dots(s);
            segs[0] == "self"@ && 1 <= k < segs.len() && segs[k].len() == 0 && (forall|j: int|
                1 <= j < k ==> is_identifier(#[trigger] segs[j])) ==> resolve(s) == Err::<
                Seq<Seq<char>>,
                PathError,
            >(PathError::EmptyPathSegment { index: k as usize })
        }),
{
    let segs = split_dots(s);
    if segs[0] == "self"@ && 1 <= k < segs.len() && segs[k].len() == 0 && (forall|j: int|
        1 <= j < k ==> is_identifier(#[trigger] segs[j])) {
        lemma_check_prefix(segs, 1, k);
    }
}

proof fn lemma_check_prefix(segs: Seq<Seq<char>>, i: int, k: int)
    requires
        1 <= i <= k < segs.len(),
        segs[k].len() == 0,
        forall|j: int| 1 <= j < k ==> is_identifier(#[trigger] segs[j]),
    ensures
        check_segments(segs, i) == Some(PathError::EmptyPathSegment { index: k as usize }),
    decreases k - i,
{
    if i < k {
        assert(is_identifier(segs[i]));
        lemma_check_prefix(segs, i + 1, k);
    }
}

/// The text a refusal of `s` is about: the first segment where it is not
/// `self`, the offending segment where it is not an identifier, and the whole
/// path where a segment is empty.
pub open spec fn refused_text(s: Seq<char>, e: PathError) -> Seq<char> {
    match e {
        PathError::MalformedSelfPath => split_dots(s)[0],
        PathError::EmptyPathSegment { .. } => s,
        PathError::InvalidIdentifierSegment { index } => split_dots(s)[index as int],
    }
}

proof fn lemma_check_segments_range(segs: Seq<Seq<char>>, k: int)
    requires
        k >= 0,
        segs.len() <= usize::MAX,
    ensures
        check_segments(segs, k) matches Some(PathError::InvalidIdentifierSegment { index }) ==> k
            <= index < segs.len(),
    decreases segs.len() - k,
{
    if k < segs.len() && segs[k].len() != 0 && is_identifier(segs[k]) {
        lemma_check_segments_range(segs, k + 1);
    }
}

/// The text that the refusal `e` of `s` is about.
pub fn refused_segment(s: &str, e: PathError) -> (r: String)
    requires
        resolve(s@) == Err::<Seq<Seq<char>>, PathError>(e),
    ensures
        r@ == refused_text(s@, e),
{
    let segs = split_at_dots(s);
    let n = segs.len();
    proof {
        assert(split_dots(s@).len() == n);
        lemma_split_nonempty(s@);
        lemma_check_segments_range(split_dots(s@), 1);
    }
    match e {
        PathError::MalformedSelfPath => segs[0].clone(),
        PathError::EmptyPathSegment { .. } => s.to_owned(),
        PathError::InvalidIdentifierSegment { index } => segs[index].clone(),
    }
}

/// Splits `s` at its dots.
fn split_at_dots(s: &str) -> (r: Vec<String>)
    ensures
        strings_view(r@) == split_dots(s@),
{
    let n = s.unicode_len();
    let mut segs: Vec<String> = Vec::new();
    let mut start: usize = 0;
    let mut i: usize = 0;
    proof {
        assert(s@.subrange(0, 0) =~= Seq::<char>::empty());
        assert(strings_view(segs@).push(s@.subrange(0, 0)) =~= split_dots(s@.subrange(0, 0)));
    }
    while i < n
        invariant
            n == s@.len(),
            start <= i <= n,
            strings_view(segs@).push(s@.subrange(start as int, i as int)) == split_dots(
                s@.subrange(0, i as int),
            ),
        decreases n - i,
    {
        let c = s.get_char(i);
        let ghost prev = split_dots(s@.subrange(0, i as int));
        proof {
            let t = s@.subrange(0, i + 1);
            assert(t.drop_last() =~= s@.subrange(0, i as int));
            assert(t.last() == c);
            assert(split_dots(t) == if c == '.' {
                prev.push(Seq::empty())
            } else {
                prev.update(prev.len() - 1, prev.last().push(c))
            });
        }
        if c == '.' {
            let seg = s.substring_char(start, i).to_owned();
            proof {
                assert(seg@ == s@.subrange(start as int, i as int));
                assert(strings_view(segs@.push(seg)) =~= strings_view(segs@).push(seg@));
                assert(s@.subrange(i + 1, i + 1) =~= Seq::<char>::empty());
                assert(strings_view(segs@.push(seg)).push(s@.subrange(i + 1, i + 1)) =~= prev.push(
                    Seq::empty(),
                ));
            }
            segs.push(seg);
            start = i + 1;
        } else {
            proof {
                assert(s@.subrange(start as int, i as int).push(c) =~= s@.subrange(
                    start as int,
                    i + 1,
                ));
                assert(strings_view(segs@).push(s@.subrange(start as int, i + 1)) =~= prev.update(
                    prev.len() - 1,
                    prev.last().push(c),
                ));
            }
        }
        i = i + 1;
    }
    let last = s.substring_char(start, n).to_owned();
    proof {
        assert(s@.subrange(0, n as int) =~= s@);
        assert(strings_view(segs@.push(last)) =~= strings_view(segs@).push(
            s@.subrange(start as int, n as int),
        ));
    }
    segs.push(last);
    segs
}

/// Whether `s` has identifier syntax.
pub fn check_identifier(s: &str) -> (r: bool)
    ensures
        r == is_identifier(s@),
{
    let n = s.unicode_len();
    if n == 0 {
        return false;
    }
    let c0 = s.get_char(0);
    if !(c0 == '_' || char_is_alphabetic(c0)) {
        return false;
    }
    let mut i: usize = 1;
    while i < n
        invariant
            n == s@.len(),
            1 <= i <= n,
            forall|j: int| 1 <= j < i ==> #[trigger] s@[j] == '_' || is_letter_or_digit(s@[j]),
        decreases n - i,
    {
        let c = s.get_char(i);
        if !(c == '_' || char_is_alphanumeric(c)) {
            return false;
        }
        i = i + 1;
    }
    true
}

/// Resolves `self.a.b` into the chain of member accesses it names.
///
/// The first segment must be `self`; every later one must be a non-empty
/// identifier. The first segment that breaks these rules names the error.
pub fn resolve_self_path(s: &str) -> (r: Result<SelfPath, PathError>)
    ensures
        match r {
            Ok(p) => resolve(s@) == Ok::<Seq<Seq<char>>, PathError>(p.view()),
            Err(e) => resolve(s@) == Err::<Seq<Seq<char>>, PathError>(e),
        },
{
    let segs = split_at_dots(s);
    proof {
        lemma_split_nonempty(s@);
    }
    assert(segs@[0]@ == split_dots(s@)[0]);
    if !text_is(&segs[0], "self") {
        return Err(PathError::MalformedSelfPath);
    }
    let ghost sv = split_dots(s@);
    let mut k: usize = 1;
    while k < segs.len()
        invariant
            strings_view(segs@) == sv,
            sv == split_dots(s@),
            sv[0] == "self"@,
            sv.len() >= 1,
            1 <= k <= sv.len(),
            check_segments(sv, k as int) == check_segments(sv, 1),
        decreases sv.len() - k,
    {
        let seg = segs[k].as_str();
        assert(seg@ == sv[k as int]);
        if seg.unicode_len() == 0 {
            assert(check_segments(sv, k as int) == Some(PathError::EmptyPathSegment { index: k }));
            return Err(PathError::EmptyPathSegment { index: k });
        }
        if !check_identifier(seg) {
            assert(check_segments(sv, k as int) == Some(
                PathError::InvalidIdentifierSegment { index: k },
            ));
            return Err(PathError::InvalidIdentifierSegment { index: k });
        }
        k = k + 1;
    }
    let mut fields: Vec<String> = Vec::new();
    let mut j: usize = 1;
    while j < segs.len()
        invariant
            strings_view(segs@) == sv,
            1 <= j <= sv.len(),
            strings_view(fields@) == sv.subrange(1, j as int),
        decreases sv.len() - j,
    {
        let f = segs[j].clone();
        proof {
            assert(f@ == sv[j as int]);
            assert(strings_view(fields@.push(f)) =~= strings_view(fields@).push(f@));
            assert(strings_view(fields@.push(f)) =~= sv.subrange(1, j + 1));
        }
        fields.push(f);
        j = j + 1;
    }
    proof {
        assert(sv.subrange(1, sv.len() as int) =~= sv.drop_first());
    }
    Ok(SelfPath { fields })
}

} // verus!
