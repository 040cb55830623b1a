//! Reading the rename of an item from its attributes: its own `#[str ...]`
//! attributes first, the rename keys of its `#[serde(...)]` attributes after.

use vstd::prelude::*;

use crate::rename::spec_parse_rename;
use crate::rename::RenameAttr;
use crate::token::is_ident;
use crate::token::is_punct;
use crate::token::AttrError;
use crate::token::Attribute;
use crate::token::Delimiter;
use crate::token::Token;

verus! {

/// Where a rename was written.
#[derive(Debug, Clone, Copy, PartialEq, Eq, Structural)]
pub enum Source {
    /// `#[str ...]`
    Str,
    /// `#[serde(...)]`
    Serde,
}

/// What one attribute says.
#[derive(Debug, Clone, Copy, PartialEq, Eq, Structural)]
pub enum AttrTokens {
    /// Nothing that matters here.
    Skip,
    /// `#[non_exhaustive]`
    NonExhaustive,
    /// A rename, written in the tokens `start..end` of the attribute.
    Rename(Source, usize, usize),
}

/// The depth of group nesting after `t`, from `depth` before it.
pub open spec fn depth_after(depth: nat, t: Token) -> nat {
    match t {
        Token::Open(_) => depth + 1,
        Token::Close(_) => if depth > 0 {
            (depth - 1) as nat
        } else {
            0
        },
        _ => depth,
    }
}

/// Whether the nested item `t[s..e]` is the single identifier `key` followed
/// by its value.
pub open spec fn item_has_key(t: Seq<Token>, key: Seq<char>, s: int, e: int) -> bool {
    s < e && is_ident(t[s], key) && (s + 1 >= e || !is_punct(t[s + 1], ':'))
}

/// Scans the comma-separated items of `t[..hi]`, from position `j` in the
/// item that starts at `s`, for the first whose key is `key`; gives the range
/// of its value.
pub open spec fn nested_value(
    t: Seq<Token>,
    key: Seq<char>,
    hi: int,
    s: int,
    j: int,
    depth: nat,
) -> Option<(int, int)>
    decreases hi - j,
{
    if j >= hi {
        if item_has_key(t, key, s, hi) {
            Some((s + 1, hi))
        } else {
            None
        }
    } else if depth == 0 && is_punct(t[j], ',') {
        if item_has_key(t, key, s, j) {
            Some((s + 1, j))
        } else {
            nested_value(t, key, hi, j + 1, j + 1, 0)
        }
    } else {
        nested_value(t, key, hi, s, j + 1, depth_after(depth, t[j]))
    }
}

/// What the attribute `a` says, where `key` is the serde key of a rename at
/// this place (`rename_all` on a type, `rename` on a variant).
pub open spec fn spec_attr_tokens(key: Seq<char>, a: Seq<Token>) -> Result<AttrTokens, AttrError> {
    if a.len() == 0 || !(a[0] is Ident) || (a.len() > 1 && is_punct(a[1], ':')) {
        Ok(AttrTokens::Skip)
    } else if a.len() == 1 {
        if is_ident(a[0], "non_exhaustive"@) {
            Ok(AttrTokens::NonExhaustive)
        } else if is_ident(a[0], "str"@) {
            Err(AttrError::ExpectedStrValue)
        } else {
            Ok(AttrTokens::Skip)
        }
    } else if is_ident(a[0], "str"@) {
        if a[1] is Open || is_punct(a[1], '=') {
            Ok(AttrTokens::Rename(Source::Str, 1, a.len() as usize))
        } else {
            Err(AttrError::ExpectedStrValue)
        }
    } else if is_ident(a[0], "serde"@) && a[1] == Token::Open(Delimiter::Parenthesis) && a.len()
        >= 3 && a.last() == Token::Close(Delimiter::Parenthesis) {
        match nested_value(a, key, a.len() - 1, 2, 2, 0) {
            Some((s, e)) => Ok(AttrTokens::Rename(Source::Serde, s as usize, e as usize)),
            None => Ok(AttrTokens::Skip),
        }
    } else {
        Ok(AttrTokens::Skip)
    }
}

/// Finds the value of `key` among the nested items of `t[lo..hi]`.
fn find_nested_value(t: &Vec<Token>, key: &str, lo: usize, hi: usize) -> (r: Option<(usize, usize)>)
    requires
        lo <= hi <= t@.len(),
    ensures
        match nested_value(t@, key@, hi as int, lo as int, lo as int, 0) {
            Some((s, e)) => r == Some((s as usize, e as usize)),
            None => r is None,
        },
{
    let mut s: usize = lo;
    let mut j: usize = lo;
    let mut depth: usize = 0;
    while j < hi
        invariant
            lo <= s <= j <= hi <= t@.len(),
            depth <= j,
            nested_value(t@, key@, hi as int, lo as int, lo as int, 0) == nested_value(
                t@,
                key@,
                hi as int,
                s as int,
                j as int,
                depth as nat,
            ),
        decreases hi - j,
    {
        if depth == 0 && t[j].is_punct(',') {
            if item_has_key_exec(t, key, s, j) {
                return Some((s + 1, j));
            }
            j = j + 1;
            s = j;
        } else {
            match &t[j] {
                Token::Open(_) => {
                    depth = depth + 1;
                },
                Token::Close(_) => {
                    if depth > 0 {
                        depth = depth - 1;
                    }
                },
                _ => {},
            }
            j = j + 1;
        }
    }
    if item_has_key_exec(t, key, s, hi) {
        Some((s + 1, hi))
    } else {
        None
    }
}

fn item_has_key_exec(t: &Vec<Token>, key: &str, s: usize, e: usize) -> (r: bool)
    requires
        s <= e <= t@.len(),
    ensures
        r == item_has_key(t@, key@, s as int, e as int),
{
    s < e && t[s].is_ident(key) && (s + 1 >= e || !t[s + 1].is_punct(':'))
}

/// Reads what one attribute says.
pub fn get_attr_tokens(serde_attr: &str, a: &Vec<Token>) -> (r: Result<AttrTokens, AttrError>)
    ensures
        r == spec_attr_tokens(serde_attr@, a@),
{
    let n = a.len();
    if n == 0 || !matches!(a[0], Token::Ident(_)) || (n > 1 && a[1].is_punct(':')) {
        return Ok(AttrTokens::Skip);
    }
    if n == 1 {
        if a[0].is_ident("non_exhaustive") {
            return Ok(AttrTokens::NonExhaustive);
        } else if a[0].is_ident("str") {
            return Err(AttrError::ExpectedStrValue);
        } else {
            return Ok(AttrTokens::Skip);
        }
    }
    if a[0].is_ident("str") {
        if matches!(a[1], Token::Open(_)) || a[1].is_punct('=') {
            return Ok(AttrTokens::Rename(Source::Str, 1, n));
        } else {
            return Err(AttrError::ExpectedStrValue);
        }
    }
    if a[0].is_ident("serde") && a[1].is_open(Delimiter::Parenthesis) && n >= 3 && a[n
        - 1].is_close(Delimiter::Parenthesis) {
        match find_nested_value(a, serde_attr, 2, n - 1) {
            Some((s, e)) => Ok(AttrTokens::Rename(Source::Serde, s, e)),
            None => Ok(AttrTokens::Skip),
        }
    } else {
        Ok(AttrTokens::Skip)
    }
}

/// What the attributes of an item say, once read.
#[derive(Debug, Clone, PartialEq)]
pub struct Attrs {
    pub non_exhaustive: bool,
    pub rename: Option<RenameAttr<String>>,
}

/// The model of [`Attrs`].
pub struct AttrsView {
    pub non_exhaustive: bool,
    pub rename: Option<RenameAttr<Seq<char>>>,
}

pub open spec fn rename_view(r: Option<RenameAttr<String>>) -> Option<RenameAttr<Seq<char>>> {
    match r {
        Some(a) => Some(a@),
        None => None,
    }
}

impl View for Attrs {
    type V = AttrsView;

    open spec fn view(&self) -> AttrsView {
        AttrsView { non_exhaustive: self.non_exhaustive, rename: rename_view(self.rename) }
    }
}

/// The state after reading some of an item's attributes: the `#[str ...]`
/// rename, and where the first serde rename was written (attribute, start,
/// end).
pub struct FoldState {
    pub non_exhaustive: bool,
    pub native: Option<RenameAttr<Seq<char>>>,
    pub serde: Option<(int, int, int)>,
}

/// The state after the first `n` attributes. A second `#[str ...]` rename is
/// an error; serde renames after the first are passed over.
pub open spec fn fold_attrs(attrs: Seq<Attribute>, key: Seq<char>, n: int) -> Result<
    FoldState,
    AttrError,
>
    decreases n,
{
    if n <= 0 {
        Ok(FoldState { non_exhaustive: false, native: None, serde: None })
    } else {
        match fold_attrs(attrs, key, n - 1) {
            Err(e) => Err(e),
            Ok(st) => {
                let a = attrs[n - 1].tokens@;
                match spec_attr_tokens(key, a) {
                    Err(e) => Err(e),
                    Ok(AttrTokens::Skip) => Ok(st),
                    Ok(AttrTokens::NonExhaustive) => Ok(
                        FoldState { non_exhaustive: true, native: st.native, serde: st.serde },
                    ),
                    Ok(AttrTokens::Rename(Source::Str, s, e)) => if st.native is Some {
                        Err(AttrError::DuplicateStrAttribute)
                    } else {
                        match spec_parse_rename(a.subrange(s as int, e as int)) {
                            Err(x) => Err(x),
                            Ok(v) => Ok(
                                FoldState {
                                    non_exhaustive: st.non_exhaustive,
                                    native: Some(v),
                                    serde: st.serde,
                                },
                            ),
                        }
                    },
                    Ok(AttrTokens::Rename(Source::Serde, s, e)) => if st.serde is Some {
                        Ok(st)
                    } else {
                        Ok(
                            FoldState {
                                non_exhaustive: st.non_exhaustive,
                                native: st.native,
                                serde: Some((n - 1, s as int, e as int)),
                            },
                        )
                    },
                }
            },
        }
    }
}

/// What the attributes say: `non_exhaustive` if any attribute is that
/// marker; the `#[str ...]` rename if there is one, else the first serde
/// rename, else none.
pub open spec fn spec_parse_attrs(attrs: Seq<Attribute>, key: Seq<char>) -> Result<
    AttrsView,
    AttrError,
> {
    match fold_attrs(attrs, key, attrs.len() as int) {
        Err(e) => Err(e),
        Ok(st) => match st.native {
            Some(v) => Ok(AttrsView { non_exhaustive: st.non_exhaustive, rename: Some(v) }),
            None => match st.serde {
                None => Ok(AttrsView { non_exhaustive: st.non_exhaustive, rename: None }),
                Some((i, s, e)) => match spec_parse_rename(attrs[i].tokens@.subrange(s, e)) {
                    Err(x) => Err(x),
                    Ok(v) => Ok(AttrsView { non_exhaustive: st.non_exhaustive, rename: Some(v) }),
                },
            },
        },
    }
}

impl Attrs {
    /// Reads the attributes of an item; `serde_attr` is the serde key of a
    /// rename there.
    pub fn parse_attrs(attrs: &Vec<Attribute>, serde_attr: &str) -> (r: Result<Attrs, AttrError>)
        ensures
            match spec_parse_attrs(attrs@, serde_attr@) {
                Ok(v) => r matches Ok(x) && x@ == v,
                Err(e) => r == Err::<Attrs, AttrError>(e),
            },
    {
        let mut non_exhaustive = false;
        let mut native: Option<RenameAttr<String>> = None;
        let mut serde: Option<(usize, usize, usize)> = None;
        let mut i: usize = 0;
        while i < attrs.len()
            invariant
                i <= attrs@.len(),
                fold_attrs(attrs@, serde_attr@, i as int) matches Ok(st) && st.non_exhaustive
                    == non_exhaustive && st.native == rename_view(native) && match serde {
                    Some((k, s, e)) => st.serde == Some((k as int, s as int, e as int)) && k < i
                        && s <= e <= attrs@[k as int].tokens@.len(),
                    None => st.serde is None,
                },
            decreases attrs@.len() - i,
        {
            let a = &attrs[i].tokens;
            let alen = a.len();
            match get_attr_tokens(serde_attr, a) {
                Err(e) => {
                    proof {
                        lemma_fold_error_stays(attrs@, serde_attr@, i + 1, attrs@.len() as int);
                    }
                    return Err(e);
                },
                Ok(AttrTokens::Skip) => {},
                Ok(AttrTokens::NonExhaustive) => {
                    non_exhaustive = true;
                },
                Ok(AttrTokens::Rename(Source::Str, s, e)) => {
                    if native.is_some() {
                        proof {
                            lemma_fold_error_stays(attrs@, serde_attr@, i + 1, attrs@.len() as int);
                        }
                        return Err(AttrError::DuplicateStrAttribute);
                    }
                    assert(s <= e <= alen) by {
                        reveal_attr_range(serde_attr@, a@);
                    }
                    match RenameAttr::parse(a, s, e) {
                        Err(x) => {
                            proof {
                                lemma_fold_error_stays(
                                    attrs@,
                                    serde_attr@,
                                    i + 1,
                                    attrs@.len() as int,
                                );
                            }
                            return Err(x);
                        },
                        Ok(v) => {
                            native = Some(v);
                        },
                    }
                },
                Ok(AttrTokens::Rename(Source::Serde, s, e)) => {
                    if serde.is_none() {
                        assert(s <= e <= alen) by {
                            reveal_attr_range(serde_attr@, a@);
                        }
                        serde = Some((i, s, e));
                    }
                },
            }
            i = i + 1;
        }
        let rename = match native {
            Some(v) => Some(v),
            None => match serde {
                None => None,
                Some((k, s, e)) => match RenameAttr::parse(&attrs[k].tokens, s, e) {
                    Err(x) => {
                        return Err(x);
                    },
                    Ok(v) => Some(v),
                },
            },
        };
        Ok(Attrs { non_exhaustive, rename })
    }
}

/// Once reading the attributes has failed, it stays failed with that error.
proof fn lemma_fold_error_stays(attrs: Seq<Attribute>, key: Seq<char>, i: int, n: int)
    requires
        0 <= i <= n,
        fold_attrs(attrs, key, i) is Err,
    ensures
        fold_attrs(attrs, key, n) == fold_attrs(attrs, key, i),
    decreases n - i,
{
    if i < n {
        lemma_fold_error_stays(attrs, key, i, n - 1);
    }
}

/// A rename that an attribute gives lies within the attribute.
proof fn reveal_attr_range(key: Seq<char>, a: Seq<Token>)
    requires
        a.len() <= usize::MAX,
    ensures
        spec_attr_tokens(key, a) matches Ok(AttrTokens::Rename(_, s, e)) ==> s <= e <= a.len(),
{
    if a.len() >= 3 && a[0] is Ident && is_ident(a[0], "serde"@) {
        lemma_nested_value_range(a, key, a.len() - 1, 2, 2, 0);
    }
}

proof fn lemma_nested_value_range(
    t: Seq<Token>,
    key: Seq<char>,
    hi: int,
    s: int,
    j: int,
    depth: nat,
)
    requires
        0 <= s <= j,
    ensures
        nested_value(t, key, hi, s, j, depth) matches Some((a, b)) ==> s < a <= b && (b
            == hi || b < hi),
    decreases hi - j,
{
    if j < hi {
        if depth == 0 && is_punct(t[j], ',') {
            lemma_nested_value_range(t, key, hi, j + 1, j + 1, 0);
        } else {
            lemma_nested_value_range(t, key, hi, s, j + 1, depth_after(depth, t[j]));
        }
    }
}

/// Reading a prefix of the attributes does not look past it.
proof fn lemma_fold_prefix(attrs: Seq<Attribute>, more: Seq<Attribute>, key: Seq<char>, n: int)
    requires
        0 <= n <= attrs.len(),
    ensures
        fold_attrs(attrs + more, key, n) == fold_attrs(attrs, key, n),
    decreases n,
{
    if n > 0 {
        lemma_fold_prefix(attrs, more, key, n - 1);
        assert((attrs + more)[n - 1] == attrs[n - 1]);
    }
}

/// A `#[non_exhaustive]` marker after the other attributes sets the flag and
/// changes nothing else they say.
pub proof fn lemma_marker_sets_flag(attrs: Seq<Attribute>, key: Seq<char>, marker: Attribute)
    requires
        marker.tokens@.len() == 1,
        is_ident(marker.tokens@[0], "non_exhaustive"@),
    ensures
        match spec_parse_attrs(attrs, key) {
            Ok(a) => spec_parse_attrs(attrs.push(marker), key) == Ok::<AttrsView, AttrError>(
                AttrsView { non_exhaustive: true, rename: a.rename },
            ),
            Err(e) => spec_parse_attrs(attrs.push(marker), key) == Err::<AttrsView, AttrError>(e),
        },
{
    let marked = attrs.push(marker);
    assert(marked =~= attrs + seq![marker]);
    lemma_fold_prefix(attrs, seq![marker], key, attrs.len() as int);
    assert(marked[attrs.len() as int] == marker);
    reveal_strlit("str");
    reveal_strlit("non_exhaustive");
    assert("str"@ != "non_exhaustive"@) by {
        assert("str"@.len() != "non_exhaustive"@.len());
    }
    assert(spec_attr_tokens(key, marker.tokens@) == Ok::<AttrTokens, AttrError>(
        AttrTokens::NonExhaustive,
    ));
    if let Ok(st) = fold_attrs(attrs, key, attrs.len() as int) {
        if let Some((i, s, e)) = st.serde {
            lemma_fold_serde_index(attrs, key, attrs.len() as int);
            assert(marked[i] == attrs[i]);
        }
    }
}

/// The serde rename that reading records lies in an attribute read so far.
proof fn lemma_fold_serde_index(attrs: Seq<Attribute>, key: Seq<char>, n: int)
    requires
        0 <= n <= attrs.len(),
    ensures
        fold_attrs(attrs, key, n) matches Ok(st) ==> (st.serde matches Some((i, _, _)) ==> 0 <= i
            < n),
    decreases n,
{
    if n > 0 {
        lemma_fold_serde_index(attrs, key, n - 1);
    }
}

} // verus!
