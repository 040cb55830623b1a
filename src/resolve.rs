//! Resolving a whole enum: the rename rule of the type, the rename of each
//! variant, and from them the name each variant is written as and read from.

use vstd::prelude::*;

use crate::attrs::lemma_marker_sets_flag;
use crate::attrs::spec_parse_attrs;
use crate::attrs::Attrs;
use crate::case::apply_rule;
use crate::case::lowercase;
use crate::case::make_ascii_lowercase;
use crate::case::rule_of_name;
use crate::case::ParseError;
use crate::case::RenameRule;
use crate::error::invalid_variant_message;
use crate::error::invalid_variant_text;
use crate::rename::RenameAttr;
use crate::token::AttrError;
use crate::token::is_ident;
use crate::token::Attribute;

verus! {

/// One declared variant.
#[derive(Debug, Clone, PartialEq, Eq)]
pub struct VariantDecl {
    pub ident: String,
    pub attrs: Vec<Attribute>,
    /// Whether the variant has no fields.
    pub is_unit: bool,
}

/// What kind of type was declared.
#[derive(Debug, Clone, PartialEq, Eq)]
pub enum DeclBody {
    Enum(Vec<VariantDecl>),
    Struct,
    Union,
}

/// A declared type, with its attributes.
#[derive(Debug, Clone, PartialEq, Eq)]
pub struct TypeDecl {
    pub ident: String,
    pub attrs: Vec<Attribute>,
    pub body: DeclBody,
}

impl TypeDecl {
    /// Every variant has a name.
    pub open spec fn wf(&self) -> bool {
        self.body matches DeclBody::Enum(vs) ==> forall|i: int|
            0 <= i < vs@.len() ==> (#[trigger] vs@[i]).ident@.len() > 0
    }
}

/// Why an enum could not be resolved.
#[derive(Debug, Clone, PartialEq, Eq)]
pub enum DeriveError {
    Attr(AttrError),
    /// A type-level rule name that is not known.
    UnknownRenameRule(ParseError),
    /// The type is a struct or a union.
    ExpectedEnum,
    /// A variant has fields.
    ExpectedUnitVariant,
}

/// The model of [`DeriveError`].
pub enum DeriveErrorView {
    Attr(AttrError),
    UnknownRenameRule(Seq<char>),
    ExpectedEnum,
    ExpectedUnitVariant,
}

impl View for DeriveError {
    type V = DeriveErrorView;

    open spec fn view(&self) -> DeriveErrorView {
        match self {
            DeriveError::Attr(e) => DeriveErrorView::Attr(*e),
            DeriveError::UnknownRenameRule(e) => DeriveErrorView::UnknownRenameRule(e.spec_unknown()),
            DeriveError::ExpectedEnum => DeriveErrorView::ExpectedEnum,
            DeriveError::ExpectedUnitVariant => DeriveErrorView::ExpectedUnitVariant,
        }
    }
}

impl DeriveError {
    /// The error's text.
    pub fn message(&self) -> (r: String)
        ensures
            match self {
                DeriveError::Attr(e) => r@ == crate::token::attr_error_message(*e),
                DeriveError::UnknownRenameRule(e) => r@ == crate::case::unknown_rule_message(
                    e.spec_unknown(),
                ),
                DeriveError::ExpectedEnum => r@ == "expected enum"@,
                DeriveError::ExpectedUnitVariant => r@ == "expected unit variant"@,
            },
    {
        match self {
            DeriveError::Attr(e) => String::from_str(e.message()),
            DeriveError::UnknownRenameRule(e) => e.message(),
            DeriveError::ExpectedEnum => String::from_str("expected enum"),
            DeriveError::ExpectedUnitVariant => String::from_str("expected unit variant"),
        }
    }
}

/// A resolved variant: its name and its own rename.
#[derive(Debug, Clone, PartialEq)]
pub struct EnumVariant {
    pub ident: String,
    pub rename: Option<RenameAttr<String>>,
}

/// A resolved enum.
#[derive(Debug, Clone, PartialEq)]
pub struct Enum {
    pub ident: String,
    pub non_exhaustive: bool,
    pub rename_all: Option<RenameAttr<RenameRule>>,
    pub variants: Vec<EnumVariant>,
}

/// The model of [`EnumVariant`].
pub struct VariantView {
    pub ident: Seq<char>,
    pub rename: Option<RenameAttr<Seq<char>>>,
}

/// The model of [`Enum`].
pub struct EnumView {
    pub ident: Seq<char>,
    pub non_exhaustive: bool,
    pub rename_all: Option<RenameAttr<RenameRule>>,
    pub variants: Seq<VariantView>,
}

impl View for EnumVariant {
    type V = VariantView;

    open spec fn view(&self) -> VariantView {
        VariantView { ident: self.ident@, rename: crate::attrs::rename_view(self.rename) }
    }
}

impl View for Enum {
    type V = EnumView;

    open spec fn view(&self) -> EnumView {
        EnumView {
            ident: self.ident@,
            non_exhaustive: self.non_exhaustive,
            rename_all: self.rename_all,
            variants: self.variants@.map_values(|v: EnumVariant| v@),
        }
    }
}

pub open spec fn serialize_of<T>(a: Option<RenameAttr<T>>) -> Option<T> {
    match a {
        Some(a) => a.spec_serialize(),
        None => None,
    }
}

pub open spec fn deserialize_of<T>(a: Option<RenameAttr<T>>) -> Option<T> {
    match a {
        Some(a) => a.spec_deserialize(),
        None => None,
    }
}

/// The name of a variant declared as `ident`: its own rename if it has one,
/// else the type's rule applied to `ident`, else `ident`.
pub open spec fn spec_variant_name(
    ident: Seq<char>,
    rename_all: Option<RenameRule>,
    rename: Option<Seq<char>>,
) -> Seq<char> {
    match rename {
        Some(name) => name,
        None => match rename_all {
            Some(rule) => apply_rule(rule, ident),
            None => ident,
        },
    }
}

impl EnumView {
    /// The name variant `i` is written as.
    pub open spec fn serialize_name(self, i: int) -> Seq<char> {
        spec_variant_name(
            self.variants[i].ident,
            serialize_of(self.rename_all),
            serialize_of(self.variants[i].rename),
        )
    }

    /// The name variant `i` is read from.
    pub open spec fn deserialize_name(self, i: int) -> Seq<char> {
        spec_variant_name(
            self.variants[i].ident,
            deserialize_of(self.rename_all),
            deserialize_of(self.variants[i].rename),
        )
    }

    pub open spec fn serialize_names(self) -> Seq<Seq<char>> {
        Seq::new(self.variants.len(), |i: int| self.serialize_name(i))
    }

    pub open spec fn deserialize_names(self) -> Seq<Seq<char>> {
        Seq::new(self.variants.len(), |i: int| self.deserialize_name(i))
    }

    /// The names for reading, with ASCII letters in lowercase.
    pub open spec fn folded_names(self) -> Seq<Seq<char>> {
        Seq::new(self.variants.len(), |i: int| lowercase(self.deserialize_name(i)))
    }
}

/// The first place of `s` among `names`.
pub open spec fn first_index(names: Seq<Seq<char>>, s: Seq<char>) -> Option<int>
    decreases names.len(),
{
    if names.len() == 0 {
        None
    } else {
        match first_index(names.drop_last(), s) {
            Some(i) => Some(i),
            None => if names.last() == s {
                Some(names.len() - 1)
            } else {
                None
            },
        }
    }
}

/// The name of a variant declared as `ident`, given the type's rule and the
/// variant's own rename for one direction.
pub fn variant_name(ident: &str, rename_all: Option<&RenameRule>, rename: Option<&String>) -> (r:
    String)
    requires
        ident@.len() > 0,
    ensures
        r@ == spec_variant_name(
            ident@,
            match rename_all {
                Some(rule) => Some(*rule),
                None => None,
            },
            match rename {
                Some(name) => Some(name@),
                None => None,
            },
        ),
{
    if let Some(rename) = rename {
        rename.clone()
    } else if let Some(rule) = rename_all {
        rule.apply_to_variant(ident)
    } else {
        ident.to_owned()
    }
}

impl Enum {
    /// Every variant has a name.
    pub open spec fn wf(&self) -> bool {
        forall|i: int| 0 <= i < self.variants@.len() ==> (#[trigger] self.variants@[i]).ident@.len() > 0
    }

    /// The name variant `i` is written as.
    pub fn serialize_name(&self, i: usize) -> (r: String)
        requires
            self.wf(),
            i < self.variants@.len(),
        ensures
            r@ == self@.serialize_name(i as int),
    {
        let v = &self.variants[i];
        let rule = match &self.rename_all {
            Some(a) => a.serialize_ref(),
            None => None,
        };
        let rename = match &v.rename {
            Some(a) => a.serialize_ref(),
            None => None,
        };
        variant_name(v.ident.as_str(), rule, rename)
    }

    /// The name variant `i` is read from.
    pub fn deserialize_name(&self, i: usize) -> (r: String)
        requires
            self.wf(),
            i < self.variants@.len(),
        ensures
            r@ == self@.deserialize_name(i as int),
    {
        let v = &self.variants[i];
        let rule = match &self.rename_all {
            Some(a) => a.deserialize_ref(),
            None => None,
        };
        let rename = match &v.rename {
            Some(a) => a.deserialize_ref(),
            None => None,
        };
        variant_name(v.ident.as_str(), rule, rename)
    }

    /// The names the variants are written as, in order.
    pub fn serialize_names(&self) -> (r: Vec<String>)
        requires
            self.wf(),
        ensures
            r@.map_values(|s: String| s@) == self@.serialize_names(),
    {
        let mut r: Vec<String> = Vec::new();
        let mut i: usize = 0;
        while i < self.variants.len()
            invariant
                self.wf(),
                i <= self.variants@.len(),
                r@.len() == i,
                forall|k: int| 0 <= k < i ==> (#[trigger] r@[k])@ == self@.serialize_name(k),
            decreases self.variants@.len() - i,
        {
            let name = self.serialize_name(i);
            r.push(name);
            i = i + 1;
        }
        assert(r@.map_values(|s: String| s@) =~= self@.serialize_names());
        r
    }

    /// The names the variants are read from, in order.
    pub fn deserialize_names(&self) -> (r: Vec<String>)
        requires
            self.wf(),
        ensures
            r@.map_values(|s: String| s@) == self@.deserialize_names(),
    {
        let mut r: Vec<String> = Vec::new();
        let mut i: usize = 0;
        while i < self.variants.len()
            invariant
                self.wf(),
                i <= self.variants@.len(),
                r@.len() == i,
                forall|k: int| 0 <= k < i ==> (#[trigger] r@[k])@ == self@.deserialize_name(k),
            decreases self.variants@.len() - i,
        {
            let name = self.deserialize_name(i);
            r.push(name);
            i = i + 1;
        }
        assert(r@.map_values(|s: String| s@) =~= self@.deserialize_names());
        r
    }

    /// The variant read from `s`: the first whose name for reading is `s`.
    pub fn find_variant(&self, s: &str) -> (r: Option<usize>)
        requires
            self.wf(),
        ensures
            match first_index(self@.deserialize_names(), s@) {
                Some(i) => r == Some(i as usize),
                None => r is None,
            },
    {
        let ghost names = self@.deserialize_names();
        let mut i: usize = 0;
        while i < self.variants.len()
            invariant
                self.wf(),
                i <= self.variants@.len(),
                names == self@.deserialize_names(),
                first_index(names.subrange(0, i as int), s@) is None,
            decreases self.variants@.len() - i,
        {
            let name = self.deserialize_name(i);
            assert(names.subrange(0, i + 1).drop_last() =~= names.subrange(0, i as int));
            if crate::case::str_eq(name.as_str(), s) {
                proof {
                    lemma_first_index_prefix(names, s@, i + 1);
                }
                return Some(i);
            }
            i = i + 1;
        }
        assert(names.subrange(0, i as int) =~= names);
        None
    }

    /// The variant read from `s` when ASCII case is ignored: the first whose
    /// name for reading matches `s` up to the case of ASCII letters.
    pub fn find_variant_ignore_ascii_case(&self, s: &str) -> (r: Option<usize>)
        requires
            self.wf(),
        ensures
            match first_index(self@.folded_names(), lowercase(s@)) {
                Some(i) => r == Some(i as usize),
                None => r is None,
            },
    {
        let ghost names = self@.folded_names();
        let folded = make_ascii_lowercase(s);
        let mut i: usize = 0;
        while i < self.variants.len()
            invariant
                self.wf(),
                i <= self.variants@.len(),
                names == self@.folded_names(),
                folded@ == lowercase(s@),
                first_index(names.subrange(0, i as int), folded@) is None,
            decreases self.variants@.len() - i,
        {
            let name = self.deserialize_name(i);
            let name = make_ascii_lowercase(name.as_str());
            assert(names.subrange(0, i + 1).drop_last() =~= names.subrange(0, i as int));
            if crate::case::str_eq(name.as_str(), folded.as_str()) {
                proof {
                    lemma_first_index_prefix(names, folded@, i + 1);
                }
                return Some(i);
            }
            i = i + 1;
        }
        assert(names.subrange(0, i as int) =~= names);
        None
    }

    /// The text of the error for a string that no variant is read from.
    pub fn invalid_variant_message(&self) -> (r: String)
        requires
            self.wf(),
        ensures
            r@ == invalid_variant_message(self@.deserialize_names()),
    {
        let names = self.deserialize_names();
        invalid_variant_text(&names)
    }
}

/// A place found in a prefix is the place in the whole.
proof fn lemma_first_index_prefix(names: Seq<Seq<char>>, s: Seq<char>, n: int)
    requires
        0 <= n <= names.len(),
        first_index(names.subrange(0, n), s) is Some,
    ensures
        first_index(names, s) == first_index(names.subrange(0, n), s),
    decreases names.len() - n,
{
    if n < names.len() {
        assert(names.subrange(0, n + 1).drop_last() =~= names.subrange(0, n));
        lemma_first_index_prefix(names, s, n + 1);
    } else {
        assert(names.subrange(0, n) =~= names);
    }
}

/// The rules named in a type-level rename, or the first name that is no rule.
pub open spec fn spec_rules_of(a: RenameAttr<Seq<char>>) -> Result<RenameAttr<RenameRule>, Seq<char>> {
    match a {
        RenameAttr::Both(v) => match rule_of_name(v) {
            Some(r) => Ok(RenameAttr::Both(r)),
            None => Err(v),
        },
        RenameAttr::SerializeOnly(v) => match rule_of_name(v) {
            Some(r) => Ok(RenameAttr::SerializeOnly(r)),
            None => Err(v),
        },
        RenameAttr::DeserializeOnly(v) => match rule_of_name(v) {
            Some(r) => Ok(RenameAttr::DeserializeOnly(r)),
            None => Err(v),
        },
        RenameAttr::ExplicitBoth { serialize, deserialize } => match rule_of_name(serialize) {
            None => Err(serialize),
            Some(s) => match rule_of_name(deserialize) {
                None => Err(deserialize),
                Some(d) => Ok(RenameAttr::ExplicitBoth { serialize: s, deserialize: d }),
            },
        },
    }
}

/// Looks up the rules a type-level rename names.
fn rules_of(a: &RenameAttr<String>) -> (r: Result<RenameAttr<RenameRule>, ParseError>)
    ensures
        match spec_rules_of(a@) {
            Ok(x) => r == Ok::<RenameAttr<RenameRule>, ParseError>(x),
            Err(name) => r matches Err(e) && e.spec_unknown() == name,
        },
{
    match a {
        RenameAttr::Both(v) => match RenameRule::from_str(v.as_str()) {
            Ok(r) => Ok(RenameAttr::Both(r)),
            Err(e) => Err(e),
        },
        RenameAttr::SerializeOnly(v) => match RenameRule::from_str(v.as_str()) {
            Ok(r) => Ok(RenameAttr::SerializeOnly(r)),
            Err(e) => Err(e),
        },
        RenameAttr::DeserializeOnly(v) => match RenameRule::from_str(v.as_str()) {
            Ok(r) => Ok(RenameAttr::DeserializeOnly(r)),
            Err(e) => Err(e),
        },
        RenameAttr::ExplicitBoth { serialize, deserialize } => match RenameRule::from_str(
            serialize.as_str(),
        ) {
            Err(e) => Err(e),
            Ok(s) => match RenameRule::from_str(deserialize.as_str()) {
                Err(e) => Err(e),
                Ok(d) => Ok(RenameAttr::ExplicitBoth { serialize: s, deserialize: d }),
            },
        },
    }
}

/// The variant declared as `v`, resolved.
pub open spec fn spec_resolve_variant(v: VariantDecl) -> Result<VariantView, DeriveErrorView> {
    match spec_parse_attrs(v.attrs@, "rename"@) {
        Err(e) => Err(DeriveErrorView::Attr(e)),
        Ok(a) => if !v.is_unit {
            Err(DeriveErrorView::ExpectedUnitVariant)
        } else {
            Ok(VariantView { ident: v.ident@, rename: a.rename })
        },
    }
}

/// The first `n` variants resolved, or the first error among them.
pub open spec fn spec_resolve_variants(vs: Seq<VariantDecl>, n: int) -> Result<
    Seq<VariantView>,
    DeriveErrorView,
>
    decreases n,
{
    if n <= 0 {
        Ok(seq![])
    } else {
        match spec_resolve_variants(vs, n - 1) {
            Err(e) => Err(e),
            Ok(done) => match spec_resolve_variant(vs[n - 1]) {
                Err(e) => Err(e),
                Ok(v) => Ok(done.push(v)),
            },
        }
    }
}

/// The enum declared as `d`, resolved: the type's attributes first (with
/// `rename_all` as the serde key), then its kind, then each variant in
/// order (with `rename` as the serde key).
pub open spec fn spec_resolve(d: TypeDecl) -> Result<EnumView, DeriveErrorView> {
    match spec_parse_attrs(d.attrs@, "rename_all"@) {
        Err(e) => Err(DeriveErrorView::Attr(e)),
        Ok(a) => {
            let rules = match a.rename {
                None => Ok(None),
                Some(r) => match spec_rules_of(r) {
                    Ok(x) => Ok(Some(x)),
                    Err(name) => Err(name),
                },
            };
            match rules {
                Err(name) => Err(DeriveErrorView::UnknownRenameRule(name)),
                Ok(rename_all) => match d.body {
                    DeclBody::Enum(vs) => match spec_resolve_variants(vs@, vs@.len() as int) {
                        Err(e) => Err(e),
                        Ok(variants) => Ok(
                            EnumView {
                                ident: d.ident@,
                                non_exhaustive: a.non_exhaustive,
                                rename_all,
                                variants,
                            },
                        ),
                    },
                    _ => Err(DeriveErrorView::ExpectedEnum),
                },
            }
        },
    }
}

proof fn lemma_resolve_error_stays(vs: Seq<VariantDecl>, i: int, n: int)
    requires
        0 <= i <= n,
        spec_resolve_variants(vs, i) is Err,
    ensures
        spec_resolve_variants(vs, n) == spec_resolve_variants(vs, i),
    decreases n - i,
{
    if i < n {
        lemma_resolve_error_stays(vs, i, n - 1);
    }
}

impl Enum {
    /// Resolves the enum declared as `decl`.
    pub fn parse(decl: &TypeDecl) -> (r: Result<Enum, DeriveError>)
        requires
            decl.wf(),
        ensures
            match spec_resolve(*decl) {
                Ok(e) => r matches Ok(x) && x@ == e && x.wf(),
                Err(e) => r matches Err(x) && x@ == e,
            },
    {
        let attrs = match Attrs::parse_attrs(&decl.attrs, "rename_all") {
            Ok(a) => a,
            Err(e) => {
                return Err(DeriveError::Attr(e));
            },
        };
        let rename_all = match &attrs.rename {
            None => None,
            Some(r) => match rules_of(r) {
                Ok(x) => Some(x),
                Err(e) => {
                    return Err(DeriveError::UnknownRenameRule(e));
                },
            },
        };
        let decls = match &decl.body {
            DeclBody::Enum(vs) => vs,
            _ => {
                return Err(DeriveError::ExpectedEnum);
            },
        };
        let mut variants: Vec<EnumVariant> = Vec::new();
        let mut i: usize = 0;
        let ghost whole = match spec_resolve_variants(decls@, decls@.len() as int) {
            Err(e) => Err(e),
            Ok(vs) => Ok(
                EnumView {
                    ident: decl.ident@,
                    non_exhaustive: attrs.non_exhaustive,
                    rename_all,
                    variants: vs,
                },
            ),
        };
        assert(spec_resolve(*decl) == whole);
        assert(variants@.map_values(|v: EnumVariant| v@) =~= seq![]);
        while i < decls.len()
            invariant
                i <= decls@.len(),
                spec_resolve(*decl) == whole,
                whole == match spec_resolve_variants(decls@, decls@.len() as int) {
                    Err(e) => Err(e),
                    Ok(vs) => Ok(
                        EnumView {
                            ident: decl.ident@,
                            non_exhaustive: attrs.non_exhaustive,
                            rename_all,
                            variants: vs,
                        },
                    ),
                },
                decl.wf(),
                decl.body == DeclBody::Enum(*decls),
                spec_resolve_variants(decls@, i as int) == Ok::<Seq<VariantView>, DeriveErrorView>(
                    variants@.map_values(|v: EnumVariant| v@),
                ),
                variants@.len() == i,
                forall|k: int| 0 <= k < i ==> (#[trigger] variants@[k]).ident@.len() > 0,
            decreases decls@.len() - i,
        {
            let d = &decls[i];
            let va = match Attrs::parse_attrs(&d.attrs, "rename") {
                Ok(a) => a,
                Err(e) => {
                    proof {
                        lemma_resolve_error_stays(decls@, i + 1, decls@.len() as int);
                    }
                    return Err(DeriveError::Attr(e));
                },
            };
            if !d.is_unit {
                proof {
                    lemma_resolve_error_stays(decls@, i + 1, decls@.len() as int);
                }
                return Err(DeriveError::ExpectedUnitVariant);
            }
            let ghost before = variants@;
            assert(decls@[i as int].ident@.len() > 0);
            let v = EnumVariant { ident: d.ident.clone(), rename: va.rename };
            variants.push(v);
            i = i + 1;
            assert(variants@.map_values(|v: EnumVariant| v@) =~= before.map_values(
                |v: EnumVariant| v@,
            ).push(v@));
        }
        assert(variants@.map_values(|v: EnumVariant| v@).len() == decls@.len());
        Ok(
            Enum {
                ident: decl.ident.clone(),
                non_exhaustive: attrs.non_exhaustive,
                rename_all,
                variants,
            },
        )
    }
}

/// What `first_index` finds: a place of `s` with no earlier one, or nothing
/// when `s` is absent.
pub proof fn lemma_first_index(names: Seq<Seq<char>>, s: Seq<char>)
    ensures
        match first_index(names, s) {
            Some(i) => 0 <= i < names.len() && names[i] == s && forall|j: int|
                0 <= j < i ==> names[j] != s,
            None => forall|j: int| 0 <= j < names.len() ==> names[j] != s,
        },
    decreases names.len(),
{
    if names.len() > 0 {
        let prefix = names.drop_last();
        lemma_first_index(prefix, s);
        assert(forall|j: int| 0 <= j < prefix.len() ==> prefix[j] == names[j]);
    }
}

/// With no rename rule and no renames, and variants named apart, each
/// variant is read back from the name it is written as, and a string that
/// is no variant's name is read as none.
pub proof fn lemma_round_trip(e: Enum)
    requires
        e.rename_all is None,
        forall|i: int| 0 <= i < e.variants@.len() ==> (#[trigger] e.variants@[i]).rename is None,
        forall|i: int, j: int|
            0 <= i < j < e.variants@.len() ==> (#[trigger] e.variants@[i]).ident@
                != (#[trigger] e.variants@[j]).ident@,
    ensures
        forall|i: int|
            0 <= i < e.variants@.len() ==> first_index(
                e@.deserialize_names(),
                #[trigger] e@.serialize_name(i),
            ) == Some(i),
        forall|s: Seq<char>|
            !e@.deserialize_names().contains(s) ==> #[trigger] first_index(
                e@.deserialize_names(),
                s,
            ) is None,
{
    let names = e@.deserialize_names();
    assert forall|i: int| 0 <= i < e.variants@.len() implies first_index(
        names,
        #[trigger] e@.serialize_name(i),
    ) == Some(i) by {
        assert(e.variants@[i].rename is None);
        assert(names[i] == e@.serialize_name(i));
        lemma_first_index(names, e@.serialize_name(i));
        if let Some(k) = first_index(names, e@.serialize_name(i)) {
            if k != i {
                assert(e.variants@[k].rename is None);
                if k < i {
                    assert(e.variants@[k].ident@ != e.variants@[i].ident@);
                } else {
                    assert(e.variants@[i].ident@ != e.variants@[k].ident@);
                }
            }
        }
    }
    assert forall|s: Seq<char>| !names.contains(s) implies #[trigger] first_index(
        names,
        s,
    ) is None by {
        lemma_first_index(names, s);
    }
}

/// Marking a type `#[non_exhaustive]` changes none of its names: it fails
/// as it did, or resolves to the same rule and variants, now flagged.
pub proof fn lemma_non_exhaustive_keeps_names(d: TypeDecl, marked: TypeDecl, marker: Attribute)
    requires
        marker.tokens@.len() == 1,
        is_ident(marker.tokens@[0], "non_exhaustive"@),
        marked.ident == d.ident,
        marked.body == d.body,
        marked.attrs@ == d.attrs@.push(marker),
    ensures
        match spec_resolve(d) {
            Ok(e) => spec_resolve(marked) matches Ok(m) && m.non_exhaustive && m.rename_all
                == e.rename_all && m.variants == e.variants && m.serialize_names()
                == e.serialize_names() && m.deserialize_names() == e.deserialize_names(),
            Err(x) => spec_resolve(marked) == Err::<EnumView, DeriveErrorView>(x),
        },
{
    lemma_marker_sets_flag(d.attrs@, "rename_all"@, marker);
    if let Ok(e) = spec_resolve(d) {
        let m = spec_resolve(marked)->Ok_0;
        assert(m.serialize_names() =~= e.serialize_names());
        assert(m.deserialize_names() =~= e.deserialize_names());
    }
}

} // verus!
